use spellbook::cauldron::CauldronSpell;
use spellbook::errors::{ErrorKind, SpellbookError};
use spellbook::host::{Arith, Reply, Request};
use spellbook::lexer::tokenize_line;
use spellbook::page::PageType;
use spellbook::parser::{execute_line, execute_token_vector};
use spellbook::program::{Program, Publication, DEFAULT_WRAPUP, DEFAULT_WRAPUP_QED};
use spellbook::variant::Variant;

fn host(q: Request) -> Reply {
    match q {
        Request::ParseFloat(s) => match s.parse::<f64>() {
            Ok(f) => Reply::Float(f.to_bits()),
            Err(_) => Reply::Nothing,
        },
        Request::ShowFloat(b) => Reply::Text(f64::from_bits(b).to_string()),
        Request::FloatOfInt(i) => Reply::Float((i as f64).to_bits()),
        Request::IntOfFloat(b) => Reply::Int(f64::from_bits(b) as i64),
        Request::FloatArith(op, a, b) => {
            let (x, y) = (f64::from_bits(a), f64::from_bits(b));
            let z = match op {
                Arith::Add => x + y,
                Arith::Sub => x - y,
                Arith::Mul => x * y,
                Arith::Div => x / y,
                Arith::Rem => x % y,
            };
            Reply::Float(z.to_bits())
        }
        Request::CompareFloats(a, b) => match f64::from_bits(a).partial_cmp(&f64::from_bits(b)) {
            Some(std::cmp::Ordering::Less) => Reply::Less,
            Some(std::cmp::Ordering::Equal) => Reply::Equal,
            Some(std::cmp::Ordering::Greater) => Reply::Greater,
            None => Reply::Nothing,
        },
        Request::ReadLine => Reply::Nothing,
        Request::DigitFate(_) => Reply::Keep,
        Request::WordFate(_) => Reply::Keep,
    }
}

fn forgetful(q: Request) -> Reply {
    match q {
        Request::WordFate(_) => Reply::Forget,
        other => host(other),
    }
}

fn run_with<H: Fn(Request) -> Reply>(program: &mut Program, lines: &[&str], h: &H) -> Result<(), SpellbookError> {
    for (i, line) in lines.iter().enumerate() {
        program.line_number = i + 1;
        let tokens = tokenize_line(line.to_string(), h).expect("line tokenizes");
        execute_token_vector(program, tokens, h)?;
    }
    Ok(())
}

fn run(program: &mut Program, lines: &[&str]) -> Result<(), SpellbookError> {
    run_with(program, lines, &host)
}

#[test]
fn integer_fold_scenario() {
    let mut p = Program::new(false);
    run(
        &mut p,
        &[
            "turn to chapter Hexes",
            "write 5 under x",
            "write 3 under y",
            "tear out chapter and toss it in the cauldron",
            "write 2 under x",
            "tear out chapter and toss it in the cauldron",
        ],
    )
    .unwrap();
    let c = p.cauldron.page.as_ref().unwrap();
    assert_eq!(c.values[0], Some(Variant::Integer(7)));
    assert_eq!(c.entry_names[0], "xx");
    assert_eq!(c.values[1], Some(Variant::Integer(3)));
    assert_eq!(c.entry_names[1], "y");
    assert_eq!(c.values[2], None);
    assert!(!p.pages[1].has_any_contents());
}

#[test]
fn publish_empty_book_gives_alternate_trailer() {
    let p = Program::new(false);
    assert_eq!(p.publish(&host).unwrap(), DEFAULT_WRAPUP_QED);
    let mut q = Program::new(false);
    run(&mut q, &["publish spellbook"]).unwrap();
    assert_eq!(q.output, vec![Publication { target: None, text: DEFAULT_WRAPUP_QED.to_string() }]);
}

#[test]
fn publish_with_text_and_signatures() {
    let mut p = Program::new(false);
    run(
        &mut p,
        &[
            "turn to chapter Hexes",
            "sign chapter with \"!\"",
            "write 12 under a",
            "write -3 under b",
            "turn to chapter Incantations",
            "write \"hi\" under c",
            "publish spellbook",
        ],
    )
    .unwrap();
    assert_eq!(p.output, vec![Publication { target: None, text: format!("12!-3!hi{}", DEFAULT_WRAPUP) }]);
}

#[test]
fn publish_custom_signature() {
    let mut p = Program::new(false);
    run(&mut p, &["turn to chapter Presages", "write true under t", "sign acknowledgements page with \"bye\"", "publish spellbook"]).unwrap();
    assert_eq!(p.output, vec![Publication { target: None, text: "truebye".to_string() }]);
}

#[test]
fn memory_decay_keeps_kind_and_word_count() {
    let mut p = Program::new(false);
    run(
        &mut p,
        &[
            "turn to chapter Incantations",
            "memorize \"alpha beta gamma\"",
            "write from memory under m1",
            "write from memory under m2",
        ],
    )
    .unwrap();
    assert_eq!(p.pages[3].values[0], Some(Variant::Str("alpha beta gamma".into())));
    assert_eq!(p.pages[3].values[1], Some(Variant::Str("alpha beta gamma".into())));

    let mut q = Program::new(false);
    run_with(
        &mut q,
        &["turn to chapter Incantations", "memorize \"alpha beta gamma\"", "write from memory under m1", "write from memory under m2"],
        &forgetful,
    )
    .unwrap();
    assert_eq!(q.pages[3].values[0], Some(Variant::Str("alpha beta gamma".into())));
    assert_eq!(q.pages[3].values[1], Some(Variant::Str("alpha beta gamma".into())));

    let blur_late = |q: Request| match q {
        Request::WordFate(4) => Reply::Forget,
        Request::WordFate(5) => Reply::Blur,
        other => host(other),
    };
    let mut r = Program::new(false);
    run_with(
        &mut r,
        &["turn to chapter Incantations", "memorize \"a  b c d e f g\"", "write from memory under m1"],
        &blur_late,
    )
    .unwrap();
    match &r.pages[3].values[0] {
        Some(Variant::Str(s)) => {
            assert!(s.split_whitespace().count() <= 7);
            assert_eq!(s, "a b c d something g");
        }
        other => panic!("not a text: {:?}", other),
    }
}

#[test]
fn memory_decay_of_integer_stays_integer() {
    let replace_all = |q: Request| match q {
        Request::DigitFate(_) => Reply::Replace,
        other => host(other),
    };
    let mut short = Program::new(false);
    run_with(&mut short, &["turn to chapter Hexes", "memorize -123", "write from memory under n"], &replace_all).unwrap();
    assert_eq!(short.pages[1].values[0], Some(Variant::Integer(-123)));
    let mut p = Program::new(false);
    run_with(&mut p, &["turn to chapter Hexes", "memorize 123456", "write from memory under n"], &replace_all).unwrap();
    match p.pages[1].values[0] {
        Some(Variant::Integer(v)) => assert!((123_400..=123_499).contains(&v)),
        ref other => panic!("not an integer: {:?}", other),
    }
}

#[test]
fn write_refuses_duplicate_name() {
    let mut p = Program::new(false);
    p.turn_to_page(1);
    assert_eq!(p.write_literal_value("x".into(), Some(Variant::Integer(1)), &host), Ok(()));
    assert_eq!(
        p.write_literal_value("x".into(), Some(Variant::Integer(2)), &host),
        Err(SpellbookError { kind: ErrorKind::Precondition, line: 1 })
    );
    assert_eq!(p.pages[1].values[0], Some(Variant::Integer(1)));
    assert_eq!(p.pages[1].values[1], None);
}

#[test]
fn write_before_selecting_a_page_fails() {
    let mut p = Program::new(false);
    assert_eq!(
        p.write_literal_value("x".into(), Some(Variant::Integer(1)), &host),
        Err(SpellbookError { kind: ErrorKind::Precondition, line: 1 })
    );
}

#[test]
fn write_into_full_page_fails() {
    let mut p = Program::new(false);
    let r = run(&mut p, &["turn to chapter Hexes", "write 1 under a", "write 2 under b", "write 3 under c", "write 4 under d"]);
    assert_eq!(r, Err(SpellbookError { kind: ErrorKind::Precondition, line: 5 }));
}

#[test]
fn write_coerces_or_fails_whole() {
    let mut p = Program::new(false);
    p.turn_to_page(1);
    assert_eq!(
        p.write_literal_value("t".into(), Some(Variant::Str("abc".into())), &host),
        Err(SpellbookError { kind: ErrorKind::Coercion, line: 1 })
    );
    assert_eq!(p.pages[1].values, vec![None, None, None]);
    assert_eq!(p.pages[1].entry_names, vec!["", "", ""]);
    assert_eq!(p.write_literal_value("t".into(), Some(Variant::Str("17".into())), &host), Ok(()));
    assert_eq!(p.pages[1].values[0], Some(Variant::Integer(17)));
    p.turn_to_page(3);
    assert_eq!(p.write_literal_value("n".into(), Some(Variant::Integer(-12)), &host), Ok(()));
    assert_eq!(p.pages[3].values[0], Some(Variant::Str("-12".into())));
    p.turn_to_page(0);
    assert_eq!(p.write_literal_value("b".into(), Some(Variant::Integer(0)), &host), Ok(()));
    assert_eq!(p.pages[0].values[0], Some(Variant::Boolean(false)));
    p.turn_to_page(2);
    assert_eq!(p.write_literal_value("f".into(), Some(Variant::Integer(2)), &host), Ok(()));
    assert_eq!(p.pages[2].values[0], Some(Variant::Float(2.0f64.to_bits())));
    assert_eq!(p.pages[2].page_type(), PageType::Float);
}

#[test]
fn repeat_backward_without_checkpoints_underflows() {
    let mut p = Program::new(false);
    assert_eq!(
        p.cast_cauldron_spell(&CauldronSpell::Reverberate, &host),
        Err(SpellbookError { kind: ErrorKind::Underflow, line: 1 })
    );
    let mut q = Program::new(false);
    let r = run(&mut q, &["cast Reverberate on the cauldron"]);
    assert_eq!(r, Err(SpellbookError { kind: ErrorKind::Underflow, line: 1 }));
}

#[test]
fn statements_accrue_charge_and_jump_back() {
    let mut p = Program::new(false);
    p.line_internal = 4;
    p.cast_cauldron_spell(&CauldronSpell::Vacation, &host).unwrap();
    p.line_internal = 5;
    p.cast_cauldron_spell(&CauldronSpell::Amplify, &host).unwrap();
    p.cast_cauldron_spell(&CauldronSpell::Vacation, &host).unwrap();
    assert_eq!(p.spell_line_stack, vec![(4, 1), (5, 2)]);
    assert_eq!(p.cauldron.get_charge(), 3);
    p.line_internal = 6;
    p.cauldron.spell_charge = 0;
    p.cauldron.spell_charge = 3;
    p.cast_cauldron_spell(&CauldronSpell::Diminish, &host).unwrap();
    assert_eq!(p.cauldron.get_charge(), 1);
    p.cast_cauldron_spell(&CauldronSpell::Squelch, &host).unwrap();
    assert_eq!(p.cauldron.get_charge(), 0);
    assert_eq!(p.cauldron.get_amplifier(), 1);
    p.cast_cauldron_spell(&CauldronSpell::Reverberate, &host).unwrap();
    assert_eq!(p.line_internal, 3);
    assert_eq!(p.spell_line_stack, vec![(4, 1)]);
}

#[test]
fn unknown_spell_is_fatal() {
    let mut p = Program::new(false);
    let r = run(&mut p, &["cast first on the cauldron"]);
    assert_eq!(r, Err(SpellbookError { kind: ErrorKind::Precondition, line: 1 }));
}

#[test]
fn stray_token_is_parse_error() {
    let mut p = Program::new(false);
    assert_eq!(run(&mut p, &["wand"]), Err(SpellbookError { kind: ErrorKind::Parse, line: 1 }));
    assert_eq!(run(&mut p, &["turn to chapter 5"]), Err(SpellbookError { kind: ErrorKind::Parse, line: 1 }));
}

#[test]
fn mixed_fold_is_combine_error() {
    let mut p = Program::new(false);
    let r = run(
        &mut p,
        &[
            "turn to chapter Hexes",
            "write 5 under x",
            "tear out chapter and toss it in the cauldron",
            "turn to chapter Incantations",
            "write \"a\" under x",
            "tear out chapter and toss it in the cauldron",
        ],
    );
    assert_eq!(r, Err(SpellbookError { kind: ErrorKind::Combine, line: 6 }));
}

#[test]
fn drawer_and_floor_round_trip() {
    let mut p = Program::new(false);
    run(
        &mut p,
        &[
            "turn to chapter Hexes",
            "write 5 under x",
            "tear out chapter and put it in the drawer",
            "take out a chapter from the drawer and put it back",
            "copy x under y",
        ],
    )
    .unwrap();
    assert_eq!(p.pages[1].values[0], Some(Variant::Integer(5)));
    assert_eq!(p.pages[1].values[1], Some(Variant::Integer(5)));
    assert_eq!(p.pages[1].entry_names[1], "y");
    assert!(p.drawer.is_empty());
    let r = run(&mut p, &["take out a chapter from the drawer and put it back"]);
    assert_eq!(r, Err(SpellbookError { kind: ErrorKind::Precondition, line: 1 }));
    let r = run(&mut p, &["pick up chapter off the floor and put it back"]);
    assert_eq!(r, Err(SpellbookError { kind: ErrorKind::Precondition, line: 1 }));
    run(&mut p, &["tear out chapter and toss it in the cauldron", "knock over cauldron", "pick up chapter off the floor and put it back"]).unwrap();
    assert_eq!(p.pages[1].values[0], Some(Variant::Integer(5)));
    assert!(p.cauldron.page.is_none());
}

#[test]
fn memorize_entry_by_ordinal() {
    let mut p = Program::new(false);
    run(&mut p, &["turn to chapter Hexes", "write 8 under a", "write 9 under b", "memorize second entry", "write from memory under c"]).unwrap();
    assert_eq!(p.pages[1].values[2], Some(Variant::Integer(9)));
}

#[test]
fn skip_and_slam() {
    let mut p = Program::new(false);
    run(&mut p, &["skip the next 2"]).unwrap();
    assert_eq!(p.line_internal, 2);
    run(&mut p, &["slam spellbook shut"]).unwrap();
    assert!(p.exit);
    assert!(Program::new(false).is_totally_empty());
}

#[test]
fn change_line_by_rejects_non_integers() {
    let mut p = Program::new(false);
    assert_eq!(p.change_line_by(&Variant::Boolean(true)), Err(SpellbookError { kind: ErrorKind::Parse, line: 1 }));
    assert_eq!(p.change_line_by(&Variant::Integer(-1)), Err(SpellbookError { kind: ErrorKind::Underflow, line: 1 }));
    assert_eq!(p.change_line_by(&Variant::Integer(3)), Ok(()));
    assert_eq!(p.line_internal, 3);
}

#[test]
fn empty_token_list_is_no_op() {
    let mut p = Program::new(false);
    assert_eq!(execute_token_vector(&mut p, vec![], &host), Ok(()));
}

#[test]
fn float_arithmetic_goes_through_host() {
    let mut p = Program::new(false);
    run(
        &mut p,
        &[
            "turn to chapter Illusions",
            "write 1.5 under a",
            "tear out chapter and toss it in the cauldron",
            "write 2.25 under a",
            "tear out chapter and toss it in the cauldron",
        ],
    )
    .unwrap();
    let c = p.cauldron.page.as_ref().unwrap();
    assert_eq!(c.values[0], Some(Variant::Float(3.75f64.to_bits())));
}

#[test]
fn execute_line_reports_lexical_failure() {
    let mut p = Program::new(false);
    p.line_number = 7;
    assert_eq!(
        execute_line(&mut p, "turn to page".to_string(), &host),
        Err(SpellbookError { kind: ErrorKind::Lexical, line: 7 })
    );
    assert_eq!(execute_line(&mut p, "turn to chapter Hexes".to_string(), &host), Ok(()));
    assert_eq!(p.current_page, 1);
    assert_eq!(execute_line(&mut p, "NOTE".to_string(), &host), Ok(()));
}

#[test]
fn advance_stops_past_the_end() {
    let mut p = Program::new(false);
    assert_eq!(p.advance(2), Ok(()));
    assert_eq!(p.line_internal, 1);
    assert_eq!(p.advance(2), Ok(()));
    assert_eq!(p.advance(2), Err(SpellbookError { kind: ErrorKind::Underflow, line: 1 }));
    assert_eq!(p.line_internal, 2);
}

#[test]
fn incomplete_statement_is_parse_error() {
    let mut p = Program::new(false);
    assert_eq!(
        execute_line(&mut p, "turn to chapter".to_string(), &host),
        Err(SpellbookError { kind: ErrorKind::Parse, line: 1 })
    );
    assert_eq!(
        execute_line(&mut p, "write 5".to_string(), &host),
        Err(SpellbookError { kind: ErrorKind::Parse, line: 1 })
    );
}

#[test]
fn page_reads_need_a_selected_page() {
    let mut p = Program::new(false);
    assert_eq!(
        execute_line(&mut p, "sign chapter with \"x\"".to_string(), &host),
        Err(SpellbookError { kind: ErrorKind::Precondition, line: 1 })
    );
    assert_eq!(
        execute_line(&mut p, "memorize first entry".to_string(), &host),
        Err(SpellbookError { kind: ErrorKind::Precondition, line: 1 })
    );
    assert_eq!(
        execute_line(&mut p, "tear out chapter and throw it in the trash".to_string(), &host),
        Err(SpellbookError { kind: ErrorKind::Precondition, line: 1 })
    );
}

#[test]
fn page_signature_is_set_once() {
    let mut p = Program::new(false);
    p.turn_to_page(0);
    assert_eq!(p.sign_page("a".into()), Ok(()));
    assert_eq!(p.sign_page("b".into()), Err(SpellbookError { kind: ErrorKind::Precondition, line: 1 }));
    assert_eq!(p.pages[0].signature, "a");
}

#[test]
fn publish_to_a_target() {
    let mut p = Program::new(false);
    run(
        &mut p,
        &[
            "turn to chapter Hexes",
            "write 4 under a",
            "publish spellbook to \"book.txt\"",
            "publish spellbook to console",
            "publish spellbook to \"console\"",
        ],
    )
    .unwrap();
    let text = format!("4{}", DEFAULT_WRAPUP_QED);
    assert_eq!(
        p.output,
        vec![
            Publication { target: Some("book.txt".to_string()), text: text.clone() },
            Publication { target: None, text: text.clone() },
            Publication { target: None, text },
        ]
    );
    assert_eq!(
        run(&mut p, &["publish spellbook to wand"]),
        Err(SpellbookError { kind: ErrorKind::Parse, line: 1 })
    );
}
