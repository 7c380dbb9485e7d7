use spellbook::host::{Arith, Reply, Request};
use spellbook::variant::Variant;

fn host(q: Request) -> Reply {
    match q {
        Request::ParseFloat(s) => match s.parse::<f64>() {
            Ok(f) => Reply::Float(f.to_bits()),
            Err(_) => Reply::Nothing,
        },
        Request::ShowFloat(b) => Reply::Text(f64::from_bits(b).to_string()),
        Request::FloatOfInt(i) => Reply::Float((i as f64).to_bits()),
        Request::IntOfFloat(b) => Reply::Int(f64::from_bits(b) as i64),
        Request::FloatArith(op, a, b) => {
            let (x, y) = (f64::from_bits(a), f64::from_bits(b));
            let z = match op {
                Arith::Add => x + y,
                Arith::Sub => x - y,
                Arith::Mul => x * y,
                Arith::Div => x / y,
                Arith::Rem => x % y,
            };
            Reply::Float(z.to_bits())
        }
        Request::CompareFloats(a, b) => match f64::from_bits(a).partial_cmp(&f64::from_bits(b)) {
            Some(std::cmp::Ordering::Less) => Reply::Less,
            Some(std::cmp::Ordering::Equal) => Reply::Equal,
            Some(std::cmp::Ordering::Greater) => Reply::Greater,
            None => Reply::Nothing,
        },
        Request::ReadLine => Reply::Nothing,
        Request::DigitFate(_) => Reply::Keep,
        Request::WordFate(_) => Reply::Keep,
    }
}

#[test]
fn integer_arithmetic() {
    let a = Variant::Integer(17);
    assert_eq!(a.add(Variant::Integer(5), &host), Some(Variant::Integer(22)));
    assert_eq!(a.sub(Variant::Integer(5), &host), Some(Variant::Integer(12)));
    assert_eq!(a.mul(Variant::Integer(5), &host), Some(Variant::Integer(85)));
    assert_eq!(a.div(Variant::Integer(5), &host), Some(Variant::Integer(3)));
    assert_eq!(a.rem(Variant::Integer(5), &host), Some(Variant::Integer(2)));
    assert_eq!(Variant::Integer(-7).div(Variant::Integer(2), &host), Some(Variant::Integer(-3)));
    assert_eq!(Variant::Integer(-7).rem(Variant::Integer(2), &host), Some(Variant::Integer(-1)));
    assert_eq!(a.div(Variant::Integer(0), &host), None);
    assert_eq!(Variant::Integer(i64::MIN).div(Variant::Integer(-1), &host), None);
}

#[test]
fn text_and_mixed_arithmetic() {
    let s = Variant::Str("ab".into());
    assert_eq!(s.add(Variant::Str("cd".into()), &host), Some(Variant::Str("abcd".into())));
    assert_eq!(s.concat(Variant::Str("cd".into())), Some(Variant::Str("abcd".into())));
    assert_eq!(s.sub(Variant::Str("cd".into()), &host), None);
    assert_eq!(s.add(Variant::Integer(1), &host), None);
    assert_eq!(Variant::Integer(1).add(Variant::Float(1.0f64.to_bits()), &host), None);
    assert_eq!(Variant::Boolean(true).add(Variant::Boolean(true), &host), None);
}

#[test]
fn float_arithmetic() {
    let x = Variant::Float(0.5f64.to_bits());
    assert_eq!(x.mul(Variant::Float(4.0f64.to_bits()), &host), Some(Variant::Float(2.0f64.to_bits())));
    assert_eq!(x.arith(Arith::Sub, &Variant::Float(0.25f64.to_bits()), &host), Some(Variant::Float(0.25f64.to_bits())));
}

#[test]
fn conversions() {
    assert_eq!(Variant::Str("42".into()).to_int(&host), Some(42));
    assert_eq!(Variant::Str("+42".into()).to_int(&host), Some(42));
    assert_eq!(Variant::Str("4 2".into()).to_int(&host), None);
    assert_eq!(Variant::Boolean(true).to_int(&host), Some(1));
    assert_eq!(Variant::Float(2.9f64.to_bits()).to_int(&host), Some(2));
    assert_eq!(Variant::Str("2.5".into()).to_float(&host), Some(2.5f64.to_bits()));
    assert_eq!(Variant::Integer(3).to_float(&host), Some(3.0f64.to_bits()));
    assert!(Variant::Float((-0.0f64).to_bits()).to_bool() == false);
    assert!(Variant::Float(0.1f64.to_bits()).to_bool());
    assert!(!Variant::Str("".into()).to_bool());
    assert!(Variant::Integer(-3).to_bool());
    assert_eq!(Variant::Integer(-120).to_string(&host), Some("-120".to_string()));
    assert_eq!(Variant::Boolean(false).print(&host), Some("false".to_string()));
    assert_eq!(Variant::Float(1.5f64.to_bits()).print(&host), Some("1.5".to_string()));
    assert_eq!(Variant::Routine.print(&host), Some("BLAH BLAH BLAH".to_string()));
    assert_eq!(Variant::Routine.to_string(&host), None);
}

#[test]
fn unwrapping_and_inverting() {
    assert_eq!(Variant::Integer(3).try_unwrap_int(), Some(3));
    assert_eq!(Variant::Integer(3).try_unwrap_bool(), None);
    assert_eq!(Variant::Boolean(true).try_unwrap_bool(), Some(true));
    assert_eq!(Variant::Float(7).try_unwrap_float(), Some(7));
    assert_eq!(Variant::Str("q".into()).try_unwrap_string(), Some("q".to_string()));
    assert_eq!(Variant::Str("abc".into()).inverted(), Some(Variant::Str("cba".into())));
    assert_eq!(Variant::Integer(i64::MIN).inverted(), None);
    assert_eq!(Variant::Float(1.0f64.to_bits()).inverted(), Some(Variant::Float((-1.0f64).to_bits())));
}
