//! Tagged values and the conversions and arithmetic between them.
use vstd::prelude::*;
use crate::host::{
    float_outcome, host_float, host_int, host_parse_float, host_text, int_outcome, parse_outcome, serves,
    text_outcome, Arith, Reply, Request,
};
use crate::text::{bool_text, chars_of, int_of_text, int_text, parse_int, reversed, show_bool, show_int, string_of};

verus! {

/// A value of one of the interpreter's kinds. A float is held as its IEEE-754 bits.
#[derive(Debug, PartialEq, Clone)]
pub enum Variant {
    Boolean(bool),
    Integer(i64),
    Float(u64),
    Str(String),
    /// The placeholder held by a page of routines.
    Routine,
}

/// The mathematical model of a `Variant`.
pub enum Value {
    Boolean(bool),
    Integer(i64),
    Float(u64),
    Text(Seq<char>),
    Routine,
}

impl View for Variant {
    type V = Value;

    open spec fn view(&self) -> Value {
        match self {
            Variant::Boolean(b) => Value::Boolean(*b),
            Variant::Integer(i) => Value::Integer(*i),
            Variant::Float(f) => Value::Float(*f),
            Variant::Str(s) => Value::Text(s@),
            Variant::Routine => Value::Routine,
        }
    }
}

/// The model of an optional value.
pub open spec fn opt_view(v: Option<Variant>) -> Option<Value> {
    match v {
        Some(x) => Some(x@),
        None => None,
    }
}

/// A float is true unless it is positive or negative zero.
pub open spec fn float_truth(bits: u64) -> bool {
    bits & 0x7fff_ffff_ffff_ffffu64 != 0
}

/// Truth of a value; a routine has none.
pub open spec fn truth(v: Value) -> bool {
    match v {
        Value::Boolean(b) => b,
        Value::Integer(i) => i != 0,
        Value::Float(f) => float_truth(f),
        Value::Text(s) => s.len() > 0,
        Value::Routine => false,
    }
}

/// Integer arithmetic that fails rather than overflow or divide by zero.
pub open spec fn int_arith(op: Arith, a: i64, b: i64) -> Option<i64> {
    match op {
        Arith::Add => a.checked_add(b),
        Arith::Sub => a.checked_sub(b),
        Arith::Mul => a.checked_mul(b),
        Arith::Div => a.checked_div(b),
        Arith::Rem => a.checked_rem(b),
    }
}

/// `r` is a possible result of `a op b`: integers and texts exactly, floats as
/// the host computed them; other pairs of kinds fail. Only `Add` joins texts.
pub open spec fn arith_result<H: Fn(Request) -> Reply>(
    host: H,
    op: Arith,
    a: Value,
    b: Value,
    r: Option<Value>,
) -> bool {
    match (a, b) {
        (Value::Integer(x), Value::Integer(y)) => r == match int_arith(op, x, y) {
            Some(z) => Some(Value::Integer(z)),
            None => None::<Value>,
        },
        (Value::Float(x), Value::Float(y)) => match r {
            Some(Value::Float(z)) => float_outcome(host, Request::FloatArith(op, x, y), Some(z)),
            None => float_outcome(host, Request::FloatArith(op, x, y), None),
            _ => false,
        },
        (Value::Text(x), Value::Text(y)) => r == if op == Arith::Add {
            Some(Value::Text(x + y))
        } else {
            None::<Value>
        },
        _ => r is None,
    }
}

/// `r` is a possible result of reading `v` as an integer.
pub open spec fn int_result<H: Fn(Request) -> Reply>(host: H, v: Value, r: Option<i64>) -> bool {
    match v {
        Value::Boolean(b) => r == Some(if b { 1i64 } else { 0i64 }),
        Value::Integer(i) => r == Some(i),
        Value::Float(f) => int_outcome(host, Request::IntOfFloat(f), r),
        Value::Text(s) => match int_of_text(s) {
            Some(i) => r == Some(i as i64),
            None => r is None,
        },
        Value::Routine => r is None,
    }
}

/// `r` is a possible result of reading `v` as a float.
pub open spec fn float_result<H: Fn(Request) -> Reply>(host: H, v: Value, r: Option<u64>) -> bool {
    match v {
        Value::Boolean(b) => float_outcome(host, Request::FloatOfInt(if b { 1i64 } else { 0i64 }), r),
        Value::Integer(i) => float_outcome(host, Request::FloatOfInt(i), r),
        Value::Float(f) => r == Some(f),
        Value::Text(s) => parse_outcome(host, s, r),
        Value::Routine => r is None,
    }
}

/// `r` is a possible printed form of `v`. Floats are printed by the host; a
/// routine prints as a fixed phrase.
pub open spec fn print_result<H: Fn(Request) -> Reply>(host: H, v: Value, r: Option<Seq<char>>) -> bool {
    match v {
        Value::Boolean(b) => r == Some(bool_text(b)),
        Value::Integer(i) => r == Some(int_text(i as int)),
        Value::Float(f) => text_outcome(host, Request::ShowFloat(f), r),
        Value::Text(s) => r == Some(s),
        Value::Routine => r == Some(routine_text()),
    }
}

pub open spec fn routine_text() -> Seq<char> {
    seq!['B', 'L', 'A', 'H', ' ', 'B', 'L', 'A', 'H', ' ', 'B', 'L', 'A', 'H']
}

/// The value negated: booleans flipped, numbers negated, texts reversed.
/// Negating the smallest integer has no result.
pub open spec fn inverse(v: Value) -> Option<Value> {
    match v {
        Value::Boolean(b) => Some(Value::Boolean(!b)),
        Value::Integer(i) => if i == i64::MIN {
            None
        } else {
            Some(Value::Integer(-i as i64))
        },
        Value::Float(f) => Some(Value::Float(f ^ 0x8000_0000_0000_0000u64)),
        Value::Text(s) => Some(Value::Text(s.reverse())),
        Value::Routine => None,
    }
}

impl Variant {
    /// A copy of the value.
    pub fn duplicate(&self) -> (r: Variant)
        ensures
            r@ == self@,
    {
        match self {
            Variant::Boolean(b) => Variant::Boolean(*b),
            Variant::Integer(i) => Variant::Integer(*i),
            Variant::Float(f) => Variant::Float(*f),
            Variant::Str(s) => Variant::Str(s.clone()),
            Variant::Routine => Variant::Routine,
        }
    }

    pub fn try_unwrap_bool(&self) -> (r: Option<bool>)
        ensures
            r == match self@ {
                Value::Boolean(b) => Some(b),
                _ => None::<bool>,
            },
    {
        match self {
            Variant::Boolean(b) => Some(*b),
            _ => None,
        }
    }

    pub fn try_unwrap_int(&self) -> (r: Option<i64>)
        ensures
            r == match self@ {
                Value::Integer(i) => Some(i),
                _ => None::<i64>,
            },
    {
        match self {
            Variant::Integer(i) => Some(*i),
            _ => None,
        }
    }

    /// The bits of a float value.
    pub fn try_unwrap_float(&self) -> (r: Option<u64>)
        ensures
            r == match self@ {
                Value::Float(f) => Some(f),
                _ => None::<u64>,
            },
    {
        match self {
            Variant::Float(f) => Some(*f),
            _ => None,
        }
    }

    pub fn try_unwrap_string(&self) -> (r: Option<String>)
        ensures
            r is Some <==> self@ is Text,
            r matches Some(s) ==> self@ == Value::Text(s@),
    {
        match self {
            Variant::Str(s) => Some(s.clone()),
            _ => None,
        }
    }

    /// The printed form of the value.
    pub fn print<H: Fn(Request) -> Reply>(&self, host: &H) -> (r: Option<String>)
        requires
            serves(*host),
        ensures
            print_result(
                *host,
                self@,
                match r {
                    Some(s) => Some(s@),
                    None => None::<Seq<char>>,
                },
            ),
    {
        match self {
            Variant::Boolean(b) => Some(show_bool(*b)),
            Variant::Integer(i) => Some(show_int(*i)),
            Variant::Float(f) => host_text(host, Request::ShowFloat(*f)),
            Variant::Str(s) => Some(s.clone()),
            Variant::Routine => {
                let cs = vec!['B', 'L', 'A', 'H', ' ', 'B', 'L', 'A', 'H', ' ', 'B', 'L', 'A', 'H'];
                assert(cs@ =~= routine_text());
                Some(string_of(&cs))
            },
        }
    }

    /// The truth of the value.
    pub fn to_bool(&self) -> (r: bool)
        requires
            !(self@ is Routine),
        ensures
            r == truth(self@),
    {
        match self {
            Variant::Boolean(b) => *b,
            Variant::Integer(i) => *i != 0,
            Variant::Float(f) => *f & 0x7fff_ffff_ffff_ffffu64 != 0,
            Variant::Str(s) => !s.as_str().is_empty(),
            Variant::Routine => false,
        }
    }

    /// The value read as an integer.
    pub fn to_int<H: Fn(Request) -> Reply>(&self, host: &H) -> (r: Option<i64>)
        requires
            serves(*host),
        ensures
            int_result(*host, self@, r),
    {
        match self {
            Variant::Boolean(b) => Some(if *b { 1i64 } else { 0i64 }),
            Variant::Integer(i) => Some(*i),
            Variant::Float(f) => host_int(host, Request::IntOfFloat(*f)),
            Variant::Str(s) => parse_int(s.as_str()),
            Variant::Routine => None,
        }
    }

    /// The value read as a float.
    pub fn to_float<H: Fn(Request) -> Reply>(&self, host: &H) -> (r: Option<u64>)
        requires
            serves(*host),
        ensures
            float_result(*host, self@, r),
    {
        match self {
            Variant::Boolean(b) => host_float(host, Request::FloatOfInt(if *b { 1 } else { 0 })),
            Variant::Integer(i) => host_float(host, Request::FloatOfInt(*i)),
            Variant::Float(f) => Some(*f),
            Variant::Str(s) => host_parse_float(host, s),
            Variant::Routine => None,
        }
    }

    /// The value read as text; a routine has no text.
    pub fn to_string<H: Fn(Request) -> Reply>(&self, host: &H) -> (r: Option<String>)
        requires
            serves(*host),
        ensures
            self@ is Routine ==> r is None,
            !(self@ is Routine) ==> print_result(
                *host,
                self@,
                match r {
                    Some(s) => Some(s@),
                    None => None::<Seq<char>>,
                },
            ),
    {
        match self {
            Variant::Routine => None,
            _ => self.print(host),
        }
    }

    /// `self op rhs`.
    pub fn arith<H: Fn(Request) -> Reply>(&self, op: Arith, rhs: &Variant, host: &H) -> (r: Option<Variant>)
        requires
            serves(*host),
        ensures
            arith_result(*host, op, self@, rhs@, opt_view(r)),
    {
        match (self, rhs) {
            (Variant::Integer(x), Variant::Integer(y)) => {
                let z = match op {
                    Arith::Add => x.checked_add(*y),
                    Arith::Sub => x.checked_sub(*y),
                    Arith::Mul => x.checked_mul(*y),
                    Arith::Div => x.checked_div(*y),
                    Arith::Rem => x.checked_rem(*y),
                };
                match z {
                    Some(v) => Some(Variant::Integer(v)),
                    None => None,
                }
            },
            (Variant::Float(x), Variant::Float(y)) => {
                match host_float(host, Request::FloatArith(op, *x, *y)) {
                    Some(z) => Some(Variant::Float(z)),
                    None => None,
                }
            },
            (Variant::Str(x), Variant::Str(y)) => {
                if op == Arith::Add {
                    Some(Variant::Str(x.clone().concat(y.as_str())))
                } else {
                    None
                }
            },
            _ => None,
        }
    }

    pub fn add<H: Fn(Request) -> Reply>(&self, rhs: Variant, host: &H) -> (r: Option<Variant>)
        requires
            serves(*host),
        ensures
            arith_result(*host, Arith::Add, self@, rhs@, opt_view(r)),
    {
        self.arith(Arith::Add, &rhs, host)
    }

    pub fn sub<H: Fn(Request) -> Reply>(&self, rhs: Variant, host: &H) -> (r: Option<Variant>)
        requires
            serves(*host),
        ensures
            arith_result(*host, Arith::Sub, self@, rhs@, opt_view(r)),
    {
        self.arith(Arith::Sub, &rhs, host)
    }

    pub fn mul<H: Fn(Request) -> Reply>(&self, rhs: Variant, host: &H) -> (r: Option<Variant>)
        requires
            serves(*host),
        ensures
            arith_result(*host, Arith::Mul, self@, rhs@, opt_view(r)),
    {
        self.arith(Arith::Mul, &rhs, host)
    }

    pub fn div<H: Fn(Request) -> Reply>(&self, rhs: Variant, host: &H) -> (r: Option<Variant>)
        requires
            serves(*host),
        ensures
            arith_result(*host, Arith::Div, self@, rhs@, opt_view(r)),
    {
        self.arith(Arith::Div, &rhs, host)
    }

    pub fn rem<H: Fn(Request) -> Reply>(&self, rhs: Variant, host: &H) -> (r: Option<Variant>)
        requires
            serves(*host),
        ensures
            arith_result(*host, Arith::Rem, self@, rhs@, opt_view(r)),
    {
        self.arith(Arith::Rem, &rhs, host)
    }

    /// Two texts joined; any other pair fails.
    pub fn concat(&self, rhs: Variant) -> (r: Option<Variant>)
        ensures
            r is Some <==> (self@ is Text && rhs@ is Text),
            r matches Some(v) ==> v@ == Value::Text(
                self@->Text_0 + rhs@->Text_0,
            ),
    {
        match (self, rhs) {
            (Variant::Str(x), Variant::Str(y)) => Some(Variant::Str(x.clone().concat(y.as_str()))),
            _ => None,
        }
    }

    /// The value negated (see `inverse`).
    pub fn inverted(&self) -> (r: Option<Variant>)
        ensures
            opt_view(r) == inverse(self@),
    {
        match self {
            Variant::Boolean(b) => Some(Variant::Boolean(!*b)),
            Variant::Integer(i) => if *i == i64::MIN {
                None
            } else {
                Some(Variant::Integer(-*i))
            },
            Variant::Float(f) => Some(Variant::Float(*f ^ 0x8000_0000_0000_0000u64)),
            Variant::Str(s) => {
                let cs = chars_of(s.as_str());
                let rs = reversed(&cs);
                Some(Variant::Str(string_of(&rs)))
            },
            Variant::Routine => None,
        }
    }
}

} // verus!
