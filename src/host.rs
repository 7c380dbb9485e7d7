//! The host: what the interpreter asks of its surroundings.
//!
//! Floating-point arithmetic and conversions, a line of console input and the
//! chance draws of memory decay are not computed by this crate. The caller hands
//! the interpreter a function from `Request` to `Reply`; every contract that
//! involves one of these says which request was made and which reply it used.
use vstd::prelude::*;

verus! {

/// An arithmetic operation on two numbers.
#[derive(Clone, Copy, Debug, PartialEq, Eq, Structural)]
pub enum Arith {
    Add,
    Sub,
    Mul,
    Div,
    Rem,
}

/// A question put to the host. Floats travel as their IEEE-754 bit patterns.
#[derive(Clone, Debug, PartialEq)]
pub enum Request {
    /// Parse the text as a 64-bit float.
    ParseFloat(String),
    /// The printed form of a float.
    ShowFloat(u64),
    /// The float nearest to an integer.
    FloatOfInt(i64),
    /// A float cast to an integer (saturating, toward zero).
    IntOfFloat(u64),
    /// `a op b` on floats.
    FloatArith(Arith, u64, u64),
    /// Compare two floats.
    CompareFloats(u64, u64),
    /// One line of console input, without its line ending.
    ReadLine,
    /// Whether the digit at this position of a remembered number is forgotten.
    DigitFate(usize),
    /// What becomes of the word at this position of a remembered text.
    WordFate(usize),
}

/// The host's answer to a `Request`.
#[derive(Clone, Debug, PartialEq)]
pub enum Reply {
    Float(u64),
    Int(i64),
    Text(String),
    Less,
    Equal,
    Greater,
    /// No value: a failed parse, an unordered comparison, input that could not be read.
    Nothing,
    /// The remembered digit or word stays.
    Keep,
    /// The remembered digit is replaced by a random one.
    Replace,
    /// The remembered word is dropped.
    Forget,
    /// The remembered word becomes "something".
    Blur,
}

/// The host accepts every request.
pub open spec fn serves<H: Fn(Request) -> Reply>(host: H) -> bool {
    forall|q: Request| call_requires(host, (q,))
}

/// `a` is a reply that the host may give to `q`.
pub open spec fn answers<H: Fn(Request) -> Reply>(host: H, q: Request, a: Reply) -> bool {
    call_ensures(host, (q,), a)
}

/// `a` is a reply that the host may give when asked to parse text `s` as a float.
pub open spec fn parse_answer<H: Fn(Request) -> Reply>(host: H, s: Seq<char>, a: Reply) -> bool {
    exists|t: String| t@ == s && #[trigger] call_ensures(host, (Request::ParseFloat(t),), a)
}

/// A float computed by the host for `q`: `Some(z)` when it replied `Float(z)`,
/// `None` when it replied anything else.
pub open spec fn float_outcome<H: Fn(Request) -> Reply>(host: H, q: Request, r: Option<u64>) -> bool {
    match r {
        Some(z) => answers(host, q, Reply::Float(z)),
        None => exists|a: Reply| #[trigger] answers(host, q, a) && !(a is Float),
    }
}

/// An integer computed by the host for `q`.
pub open spec fn int_outcome<H: Fn(Request) -> Reply>(host: H, q: Request, r: Option<i64>) -> bool {
    match r {
        Some(i) => answers(host, q, Reply::Int(i)),
        None => exists|a: Reply| #[trigger] answers(host, q, a) && !(a is Int),
    }
}

/// A text produced by the host for `q`.
pub open spec fn text_outcome<H: Fn(Request) -> Reply>(host: H, q: Request, r: Option<Seq<char>>) -> bool {
    match r {
        Some(t) => exists|s: String| s@ == t && #[trigger] answers(host, q, Reply::Text(s)),
        None => exists|a: Reply| #[trigger] answers(host, q, a) && !(a is Text),
    }
}

/// As `float_outcome`, for a parse of the text `s`.
pub open spec fn parse_outcome<H: Fn(Request) -> Reply>(host: H, s: Seq<char>, r: Option<u64>) -> bool {
    match r {
        Some(z) => parse_answer(host, s, Reply::Float(z)),
        None => exists|a: Reply| #[trigger] parse_answer(host, s, a) && !(a is Float),
    }
}

/// Ask the host to parse `s` as a float.
pub fn host_parse_float<H: Fn(Request) -> Reply>(host: &H, s: &String) -> (r: Option<u64>)
    requires
        serves(*host),
    ensures
        parse_outcome(*host, s@, r),
{
    let t = s.clone();
    let a = host(Request::ParseFloat(t));
    assert(parse_answer(*host, s@, a));
    match a {
        Reply::Float(z) => Some(z),
        _ => None,
    }
}

/// Ask the host for an integer.
pub fn host_int<H: Fn(Request) -> Reply>(host: &H, q: Request) -> (r: Option<i64>)
    requires
        serves(*host),
    ensures
        int_outcome(*host, q, r),
{
    let ghost g = q;
    let a = host(q);
    assert(answers(*host, g, a));
    match a {
        Reply::Int(i) => Some(i),
        _ => None,
    }
}

/// Ask the host for a text.
pub fn host_text<H: Fn(Request) -> Reply>(host: &H, q: Request) -> (r: Option<String>)
    requires
        serves(*host),
    ensures
        text_outcome(
            *host,
            q,
            match r {
                Some(s) => Some(s@),
                None => None::<Seq<char>>,
            },
        ),
{
    let ghost g = q;
    let a = host(q);
    assert(answers(*host, g, a));
    match a {
        Reply::Text(s) => Some(s),
        _ => None,
    }
}

/// Ask the host for a float.
pub fn host_float<H: Fn(Request) -> Reply>(host: &H, q: Request) -> (r: Option<u64>)
    requires
        serves(*host),
    ensures
        float_outcome(*host, q, r),
{
    let ghost g = q;
    let a = host(q);
    assert(answers(*host, g, a));
    match a {
        Reply::Float(z) => Some(z),
        _ => None,
    }
}

} // verus!
