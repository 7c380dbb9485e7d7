use spellbook::cauldron::CauldronSpell;
use spellbook::host::{Arith, Reply, Request};
use spellbook::lexer::{
    lookup_spell, parse_escape_character, split_line_with_quotes, strip_comments, tokenize_line, Keyphrase,
    Operator, Token,
};
use spellbook::variant::Variant;

fn host(q: Request) -> Reply {
    match q {
        Request::ParseFloat(s) => match s.parse::<f64>() {
            Ok(f) => Reply::Float(f.to_bits()),
            Err(_) => Reply::Nothing,
        },
        Request::ShowFloat(b) => Reply::Text(f64::from_bits(b).to_string()),
        Request::FloatOfInt(i) => Reply::Float((i as f64).to_bits()),
        Request::IntOfFloat(b) => Reply::Int(f64::from_bits(b) as i64),
        Request::FloatArith(op, a, b) => {
            let (x, y) = (f64::from_bits(a), f64::from_bits(b));
            let z = match op {
                Arith::Add => x + y,
                Arith::Sub => x - y,
                Arith::Mul => x * y,
                Arith::Div => x / y,
                Arith::Rem => x % y,
            };
            Reply::Float(z.to_bits())
        }
        Request::CompareFloats(a, b) => match f64::from_bits(a).partial_cmp(&f64::from_bits(b)) {
            Some(std::cmp::Ordering::Less) => Reply::Less,
            Some(std::cmp::Ordering::Equal) => Reply::Equal,
            Some(std::cmp::Ordering::Greater) => Reply::Greater,
            None => Reply::Nothing,
        },
        Request::ReadLine => Reply::Nothing,
        Request::DigitFate(_) => Reply::Keep,
        Request::WordFate(_) => Reply::Keep,
    }
}

fn tok(line: &str) -> Option<Vec<Token>> {
    tokenize_line(line.to_string(), &host)
}

#[test]
fn test_split_line_with_quotes() {
    assert_eq!(
        split_line_with_quotes(r#"write entry hello with value "Hello, world!" and other stuff"#.into()),
        vec![
            "write".to_string(),
            "entry".into(),
            "hello".into(),
            "with".into(),
            "value".into(),
            r#""Hello, world!""#.into(),
            "and".into(),
            "other".into(),
            "stuff".into(),
        ],
    );
}

#[test]
fn test_tokenize() {
    type T = Token;
    type K = Keyphrase;

    assert_eq!(split_line_with_quotes(r#"Hello!\n"#.into()), vec!["Hello!\n"]);
    assert_eq!(
        split_line_with_quotes(r#"These \xare \finvalid \yescapes"#.into()),
        vec!["These", "are", "invalid", "escapes"]
    );

    assert_eq!(tok("turn to chapter"), Some(vec![T::Keyphrase(K::TurnToChapter)]));
    assert_eq!(tok("turn to page"), None);

    assert_eq!(
        tok("turn to chapter Incantations"),
        Some(vec![T::Keyphrase(K::TurnToChapter), T::Builtin("Incantations".into()),])
    );

    assert_eq!(
        tok(r#""Hello, world!""#),
        Some(vec![T::Literal(Variant::Str(r#"Hello, world!"#.into()))]),
    );
}

#[test]
fn literal_precedence_integer() {
    assert_eq!(tok("42"), Some(vec![Token::Literal(Variant::Integer(42))]));
    assert_eq!(tok("-7"), Some(vec![Token::Literal(Variant::Integer(-7))]));
}

#[test]
fn literal_precedence_float() {
    assert_eq!(tok("4.2"), Some(vec![Token::Literal(Variant::Float(4.2f64.to_bits()))]));
}

#[test]
fn literal_precedence_boolean() {
    assert_eq!(tok("true"), Some(vec![Token::Literal(Variant::Boolean(true))]));
    assert_eq!(tok("false"), Some(vec![Token::Literal(Variant::Boolean(false))]));
}

#[test]
fn literal_precedence_quoted_text() {
    assert_eq!(tok("\"x y\""), Some(vec![Token::Literal(Variant::Str("x y".into()))]));
}

#[test]
fn literal_precedence_identifier_and_builtin() {
    assert_eq!(tok("wand"), Some(vec![Token::Identifier("wand".into())]));
    assert_eq!(tok("first"), Some(vec![Token::Builtin("first".into())]));
    assert_eq!(tok("Judgement"), Some(vec![Token::Builtin("Judgement".into())]));
    assert_eq!(tok("console"), Some(vec![Token::Builtin("console".into())]));
}

#[test]
fn unterminated_quote_is_lexical_failure() {
    assert_eq!(tok("write \"abc under x"), None);
}

#[test]
fn incomplete_keyphrase_is_lexical_failure() {
    assert_eq!(tok("tear out page"), None);
    assert_eq!(tok("and put it in the box"), None);
    assert_eq!(tok("slam spellbook"), None);
}

#[test]
fn full_statements_tokenize() {
    assert_eq!(
        tok("write 5 under x"),
        Some(vec![
            Token::Keyphrase(Keyphrase::Write),
            Token::Literal(Variant::Integer(5)),
            Token::Keyphrase(Keyphrase::Under),
            Token::Identifier("x".into()),
        ])
    );
    assert_eq!(
        tok("tear out chapter and toss it in the cauldron"),
        Some(vec![Token::Keyphrase(Keyphrase::TearOutChapter), Token::Keyphrase(Keyphrase::AndTossItInTheCauldron)])
    );
    assert_eq!(
        tok("cast Judgement on the cauldron"),
        Some(vec![
            Token::Keyphrase(Keyphrase::Cast),
            Token::Builtin("Judgement".into()),
            Token::Keyphrase(Keyphrase::OnTheCauldron),
        ])
    );
    assert_eq!(
        tok("write from memory under y"),
        Some(vec![
            Token::Keyphrase(Keyphrase::Write),
            Token::Keyphrase(Keyphrase::FromMemory),
            Token::Keyphrase(Keyphrase::Under),
            Token::Identifier("y".into()),
        ])
    );
}

#[test]
fn operators_and_conjunction() {
    assert_eq!(tok("sum of"), Some(vec![Token::Operator(Operator::Sum)]));
    assert_eq!(tok("sum"), None);
    assert_eq!(tok("sum x"), None);
    assert_eq!(tok("repeat"), None);
    assert_eq!(tok("repeat the"), None);
    assert_eq!(tok("and x"), Some(vec![Token::Operator(Operator::And), Token::Identifier("x".into())]));
    assert_eq!(tok("if"), Some(vec![Token::Conditional]));
}

#[test]
fn comment_words_are_dropped() {
    assert_eq!(strip_comments(&"write NOTE: 5   under x".to_string()), "write 5 under x");
    assert_eq!(tok("TODO!"), Some(vec![]));
    assert_eq!(tok("write 5 under x -- FIXME"), tok("write 5 under x"));
}

#[test]
fn escapes() {
    assert_eq!(parse_escape_character('n'), Some('\n'));
    assert_eq!(parse_escape_character('"'), Some('"'));
    assert_eq!(parse_escape_character('0'), Some('\0'));
    assert_eq!(parse_escape_character('q'), None);
    assert_eq!(split_line_with_quotes("\"a\\\"b\" c".into()), vec!["\"a\"b\"", "c"]);
}

#[test]
fn spell_names() {
    assert_eq!(lookup_spell(&"Reverberate".to_string()), Some(CauldronSpell::Reverberate));
    assert_eq!(lookup_spell(&"Vacation".to_string()), Some(CauldronSpell::Vacation));
    assert_eq!(lookup_spell(&"Redesign".to_string()), None);
}
