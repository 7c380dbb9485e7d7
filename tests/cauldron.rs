use spellbook::cauldron::{Cauldron, CauldronMixMode, CauldronSpell, CauldronSpellResult};
use spellbook::host::{Arith, Reply, Request};
use spellbook::page::{Page, PageType};
use spellbook::variant::Variant;

fn host(q: Request) -> Reply {
    match q {
        Request::ParseFloat(s) => match s.parse::<f64>() {
            Ok(f) => Reply::Float(f.to_bits()),
            Err(_) => Reply::Nothing,
        },
        Request::ShowFloat(b) => Reply::Text(f64::from_bits(b).to_string()),
        Request::FloatOfInt(i) => Reply::Float((i as f64).to_bits()),
        Request::IntOfFloat(b) => Reply::Int(f64::from_bits(b) as i64),
        Request::FloatArith(op, a, b) => {
            let (x, y) = (f64::from_bits(a), f64::from_bits(b));
            let z = match op {
                Arith::Add => x + y,
                Arith::Sub => x - y,
                Arith::Mul => x * y,
                Arith::Div => x / y,
                Arith::Rem => x % y,
            };
            Reply::Float(z.to_bits())
        }
        Request::CompareFloats(a, b) => match f64::from_bits(a).partial_cmp(&f64::from_bits(b)) {
            Some(std::cmp::Ordering::Less) => Reply::Less,
            Some(std::cmp::Ordering::Equal) => Reply::Equal,
            Some(std::cmp::Ordering::Greater) => Reply::Greater,
            None => Reply::Nothing,
        },
        Request::ReadLine => Reply::Nothing,
        Request::DigitFate(_) => Reply::Keep,
        Request::WordFate(_) => Reply::Keep,
    }
}

fn page_of(kind: PageType, values: &[(&str, Option<Variant>)]) -> Page {
    let mut p = Page::new(kind);
    for (i, (name, v)) in values.iter().enumerate() {
        p.entry_names[i] = name.to_string();
        p.values[i] = v.clone();
    }
    p
}

fn cauldron_with(page: Page, charge: usize) -> Cauldron {
    let mut c = Cauldron::new();
    c.page = Some(page);
    c.spell_charge = charge;
    c
}

#[test]
fn judge_skips_on_a_false_slot() {
    let page = page_of(PageType::Boolean, &[("a", Some(Variant::Boolean(true))), ("b", Some(Variant::Boolean(false)))]);
    let mut c = cauldron_with(page, 4);
    assert_eq!(c.cast_spell(&CauldronSpell::Judgement, &host), Some(CauldronSpellResult::SkipLine(4)));
}

#[test]
fn judge_continues_when_all_true() {
    let t = Some(Variant::Boolean(true));
    let page = page_of(PageType::Boolean, &[("a", t.clone()), ("b", t.clone()), ("c", t)]);
    let mut c = cauldron_with(page, 4);
    assert_eq!(c.cast_spell(&CauldronSpell::Judgement, &host), Some(CauldronSpellResult::DoNothing));
}

#[test]
fn judge_needs_a_boolean_page() {
    let page = page_of(PageType::Integer, &[("a", Some(Variant::Integer(1)))]);
    let mut c = cauldron_with(page, 0);
    assert_eq!(c.cast_spell(&CauldronSpell::Judgement, &host), None);
    let mut empty = Cauldron::new();
    assert_eq!(empty.cast_spell(&CauldronSpell::Judgement, &host), None);
}

#[test]
fn fold_sums_slot_by_slot() {
    let mut c = Cauldron::new();
    let first = page_of(PageType::Integer, &[("x", Some(Variant::Integer(5))), ("y", Some(Variant::Integer(3)))]);
    let second = page_of(PageType::Integer, &[("x", Some(Variant::Integer(2)))]);
    assert!(c.add_page(&first, &host));
    assert!(c.add_page(&second, &host));
    let acc = c.knock_over().unwrap();
    assert_eq!(acc.values, vec![Some(Variant::Integer(7)), Some(Variant::Integer(3)), None]);
    assert_eq!(acc.entry_names, vec!["xx", "y", ""]);
    assert!(c.page.is_none());
}

#[test]
fn fold_is_associative_for_sums() {
    let a = page_of(PageType::Integer, &[("a", Some(Variant::Integer(10)))]);
    let b = page_of(PageType::Integer, &[("b", Some(Variant::Integer(-4)))]);
    let d = page_of(PageType::Integer, &[("d", Some(Variant::Integer(7)))]);
    let mut left = Cauldron::new();
    assert!(left.add_page(&a, &host) && left.add_page(&b, &host) && left.add_page(&d, &host));
    let mut inner = Cauldron::new();
    assert!(inner.add_page(&b, &host) && inner.add_page(&d, &host));
    let bd = inner.knock_over().unwrap();
    let mut right = Cauldron::new();
    assert!(right.add_page(&a, &host) && right.add_page(&bd, &host));
    assert_eq!(left.page.unwrap().values, right.page.unwrap().values);
}

#[test]
fn fold_of_mixed_kinds_fails_and_keeps_cauldron() {
    let mut c = Cauldron::new();
    let ints = page_of(PageType::Integer, &[("x", Some(Variant::Integer(5)))]);
    let texts = page_of(PageType::Str, &[("x", Some(Variant::Str("a".into())))]);
    assert!(c.add_page(&ints, &host));
    assert!(!c.add_page(&texts, &host));
    assert_eq!(c.page.as_ref().unwrap().values[0], Some(Variant::Integer(5)));
    assert_eq!(c.page.as_ref().unwrap().entry_names[0], "x");
}

#[test]
fn fold_overflow_fails() {
    let mut c = Cauldron::new();
    let big = page_of(PageType::Integer, &[("x", Some(Variant::Integer(i64::MAX)))]);
    assert!(c.add_page(&big, &host));
    assert!(!c.add_page(&big, &host));
}

#[test]
fn mix_modes_change_the_fold() {
    let mut c = Cauldron::new();
    assert_eq!(c.cast_spell(&CauldronSpell::Reenactment, &host), Some(CauldronSpellResult::DoNothing));
    assert_eq!(c.mix_mode, CauldronMixMode::Mul);
    let p = page_of(PageType::Integer, &[("x", Some(Variant::Integer(6)))]);
    let q = page_of(PageType::Integer, &[("x", Some(Variant::Integer(7)))]);
    assert!(c.add_page(&p, &host) && c.add_page(&q, &host));
    assert_eq!(c.page.as_ref().unwrap().values[0], Some(Variant::Integer(42)));
    c.cast_spell(&CauldronSpell::Apportionment, &host);
    let z = page_of(PageType::Integer, &[("x", Some(Variant::Integer(0)))]);
    assert!(!c.add_page(&z, &host));
    c.cast_spell(&CauldronSpell::Belittlement, &host);
    assert!(c.add_page(&q, &host));
    assert_eq!(c.page.as_ref().unwrap().values[0], Some(Variant::Integer(35)));
}

#[test]
fn antipodize_inverts() {
    let page = page_of(
        PageType::Str,
        &[("abc", Some(Variant::Str("stressed".into()))), ("n", Some(Variant::Integer(5))), ("b", Some(Variant::Boolean(true)))],
    );
    let mut c = cauldron_with(page, 0);
    assert_eq!(c.cast_spell(&CauldronSpell::Antipodize, &host), Some(CauldronSpellResult::DoNothing));
    let p = c.page.unwrap();
    assert_eq!(p.entry_names[0], "cba");
    assert_eq!(p.values, vec![Some(Variant::Str("desserts".into())), Some(Variant::Integer(-5)), Some(Variant::Boolean(false))]);
}

#[test]
fn juxtapose_compares_slots() {
    let page = page_of(
        PageType::Integer,
        &[("a", Some(Variant::Integer(3))), ("b", Some(Variant::Integer(3))), ("c", Some(Variant::Integer(9)))],
    );
    let mut c = cauldron_with(page, 0);
    assert_eq!(c.cast_spell(&CauldronSpell::Juxtapose, &host), Some(CauldronSpellResult::DoNothing));
    let p = c.page.unwrap();
    assert_eq!(p.page_type(), PageType::Boolean);
    assert_eq!(p.values, vec![Some(Variant::Boolean(true)), Some(Variant::Boolean(false)), Some(Variant::Boolean(true))]);
}

#[test]
fn read_input_classifies_the_line() {
    let answer = |q: Request| match q {
        Request::ReadLine => Reply::Text("41".into()),
        other => host(other),
    };
    let mut c = cauldron_with(Page::new(PageType::Str), 0);
    assert_eq!(c.cast_spell(&CauldronSpell::Coadjuvancy, &answer), Some(CauldronSpellResult::DoNothing));
    assert_eq!(c.page.as_ref().unwrap().values[0], Some(Variant::Str("41".into())));
    let mut none = Cauldron::new();
    assert_eq!(none.cast_spell(&CauldronSpell::Coadjuvancy, &answer), None);
    let mut closed = cauldron_with(Page::new(PageType::Str), 0);
    assert_eq!(closed.cast_spell(&CauldronSpell::Coadjuvancy, &host), None);
}

#[test]
fn charge_counters() {
    let mut c = Cauldron::new();
    c.increase_charge(false, 0);
    c.increase_charge(true, 5);
    assert_eq!(c.get_charge(), 6);
    c.decrease_charge(true, 10);
    assert_eq!(c.get_charge(), 0);
    assert_eq!(c.cast_spell(&CauldronSpell::Amplify, &host), Some(CauldronSpellResult::NoCharge));
    assert_eq!(c.get_amplifier(), 2);
    c.reset_amplifier();
    assert_eq!(c.get_amplifier(), 1);
    c.spell_charge = 9;
    c.reset_charge();
    assert_eq!(c.get_charge(), 0);
    assert_eq!(c.cast_spell(&CauldronSpell::Reverberate, &host), Some(CauldronSpellResult::JumpBack(0)));
}
