//! The tokenizer: one source line to a flat list of tokens.
use vstd::prelude::*;
use vstd::string::StringExecFns;
use crate::cauldron::CauldronSpell;
use crate::host::{serves, Reply, Request};
use crate::text::{chars_of, int_of_text, parse_int, string_of};
use crate::variant::{Value, Variant};
use crate::host::{host_parse_float, parse_answer, parse_outcome};

verus! {

#[derive(Clone, Copy, Debug, PartialEq, Eq, Structural)]
pub enum Keyphrase {
    TurnToChapter,
    TearOutChapter,
    AndPutItInTheDrawer,
    AndThrowItInTheTrash,
    AndTossItInTheCauldron,
    TakeOutAChapterFromTheDrawerAndPutItBack,
    PickUpChapterOffTheFloorAndPutItBack,
    Write,
    Under,
    Copy,
    FromDivineIntervention,
    Entry,
    Memorize,
    FromMemory,
    Cast,
    OnTheCauldron,
    KnockOverCauldron,
    SkipTheNext,
    RepeatTheLast,
    PublishSpellbook,
    SignChapterWith,
    SignAcknowledgementsPageWith,
    SlamSpellbookShut,
}

#[derive(Clone, Copy, Debug, PartialEq, Eq, Structural)]
pub enum Operator {
    Sum,
    Difference,
    Product,
    Quotient,
    Remainder,
    Concatenation,
    And,
}

#[derive(Debug, PartialEq, Clone)]
pub enum Token {
    Keyphrase(Keyphrase),
    Literal(Variant),
    Identifier(String),
    Builtin(String),
    Conditional,
    Operator(Operator),
}

/// The model of a token.
pub enum TokenModel {
    Keyphrase(Keyphrase),
    Literal(Value),
    Identifier(Seq<char>),
    Builtin(Seq<char>),
    Conditional,
    Operator(Operator),
}

impl View for Token {
    type V = TokenModel;

    open spec fn view(&self) -> TokenModel {
        match self {
            Token::Keyphrase(k) => TokenModel::Keyphrase(*k),
            Token::Literal(v) => TokenModel::Literal(v@),
            Token::Identifier(s) => TokenModel::Identifier(s@),
            Token::Builtin(s) => TokenModel::Builtin(s@),
            Token::Conditional => TokenModel::Conditional,
            Token::Operator(o) => TokenModel::Operator(*o),
        }
    }
}

pub open spec fn views_of(ws: Seq<String>) -> Seq<Seq<char>> {
    ws.map_values(|s: String| s@)
}

pub open spec fn token_views(ts: Seq<Token>) -> Seq<TokenModel> {
    ts.map_values(|t: Token| t@)
}

// ---------------------------------------------------------------------------
// Characters

/// Unicode white space.
pub open spec fn is_space(c: char) -> bool {
    ('\t' <= c && c <= '\r') || c == ' ' || c == '\u{85}' || c == '\u{a0}' || c == '\u{1680}' || (
    '\u{2000}' <= c && c <= '\u{200a}') || c == '\u{2028}' || c == '\u{2029}' || c == '\u{202f}'
        || c == '\u{205f}' || c == '\u{3000}'
}

pub fn is_whitespace(c: char) -> (r: bool)
    ensures
        r == is_space(c),
{
    ('\t' <= c && c <= '\r') || c == ' ' || c == '\u{85}' || c == '\u{a0}' || c == '\u{1680}' || (
    '\u{2000}' <= c && c <= '\u{200a}') || c == '\u{2028}' || c == '\u{2029}' || c == '\u{202f}'
        || c == '\u{205f}' || c == '\u{3000}'
}

/// Whether a character is an uppercase letter (Unicode `Uppercase`).
pub uninterp spec fn upper(c: char) -> bool;

/// Whether a character is a letter or a digit (Unicode `Alphabetic` or `Numeric`).
pub uninterp spec fn alnum(c: char) -> bool;

/// Relies on `char::is_uppercase`.
#[verifier::external_body]
fn is_uppercase(c: char) -> (r: bool)
    ensures
        r == upper(c),
{
    c.is_uppercase()
}

/// Relies on `char::is_alphanumeric`.
#[verifier::external_body]
fn is_alphanumeric(c: char) -> (r: bool)
    ensures
        r == alnum(c),
{
    c.is_alphanumeric()
}

/// The character an escape sequence `\c` stands for.
pub open spec fn escape_of(c: char) -> Option<char> {
    if c == '\\' {
        Some('\\')
    } else if c == '"' {
        Some('"')
    } else if c == 'n' {
        Some('\n')
    } else if c == 'r' {
        Some('\r')
    } else if c == 't' {
        Some('\t')
    } else if c == '0' {
        Some('\0')
    } else {
        None
    }
}

pub fn parse_escape_character(chr: char) -> (r: Option<char>)
    ensures
        r == escape_of(chr),
{
    match chr {
        '\\' => Some('\\'),
        '"' => Some('"'),
        'n' => Some('\n'),
        'r' => Some('\r'),
        't' => Some('\t'),
        '0' => Some('\0'),
        _ => None,
    }
}

// ---------------------------------------------------------------------------
// Words

/// Splitting `rest` into words, with the word `cur` under way (`quoted` when
/// inside double quotes) and the words `done` already complete. White space
/// ends a word outside quotes and belongs to it inside; a closing quote ends
/// its word; quotes stay in the word; `\` and the next character make an
/// escape, whose character is kept when it is known and dropped otherwise.
pub open spec fn split_from(rest: Seq<char>, cur: Seq<char>, quoted: bool, done: Seq<Seq<char>>) -> Seq<
    Seq<char>,
>
    decreases rest.len(),
{
    if rest.len() == 0 {
        if cur.len() > 0 {
            done.push(cur)
        } else {
            done
        }
    } else {
        let c = rest[0];
        if is_space(c) {
            if quoted {
                split_from(rest.drop_first(), cur.push(c), quoted, done)
            } else if cur.len() > 0 {
                split_from(rest.drop_first(), Seq::empty(), quoted, done.push(cur))
            } else {
                split_from(rest.drop_first(), cur, quoted, done)
            }
        } else if c == '"' {
            if quoted {
                split_from(rest.drop_first(), Seq::empty(), false, done.push(cur.push(c)))
            } else {
                split_from(rest.drop_first(), cur.push(c), true, done)
            }
        } else if c == '\\' {
            if rest.len() < 2 {
                split_from(rest.drop_first(), cur, quoted, done)
            } else {
                match escape_of(rest[1]) {
                    Some(e) => split_from(rest.subrange(2, rest.len() as int), cur.push(e), quoted, done),
                    None => split_from(rest.subrange(2, rest.len() as int), cur, quoted, done),
                }
            }
        } else {
            split_from(rest.drop_first(), cur.push(c), quoted, done)
        }
    }
}

/// The words of a line.
pub open spec fn split_words(s: Seq<char>) -> Seq<Seq<char>> {
    split_from(s, Seq::empty(), false, Seq::empty())
}

/// Splits a line into words, keeping double-quoted spans (quotes included)
/// together as one word.
pub fn split_line_with_quotes(line: String) -> (r: Vec<String>)
    ensures
        views_of(r@) == split_words(line@),
{
    let cs = chars_of(line.as_str());
    let n = cs.len();
    let mut words: Vec<String> = Vec::new();
    let mut cur: Vec<char> = Vec::new();
    let mut quoted = false;
    let mut i: usize = 0;
    assert(cs@.subrange(0, n as int) =~= cs@);
    assert(views_of(words@) =~= Seq::empty());
    while i < n
        invariant
            n == cs.len(),
            cs@ == line@,
            i <= n,
            split_words(line@) == split_from(cs@.subrange(i as int, n as int), cur@, quoted, views_of(words@)),
        decreases n - i,
    {
        let ghost rest = cs@.subrange(i as int, n as int);
        let ghost done = views_of(words@);
        let c = cs[i];
        assert(rest[0] == c);
        assert(rest.drop_first() =~= cs@.subrange(i + 1, n as int));
        if is_whitespace(c) {
            if quoted {
                cur.push(c);
            } else if cur.len() > 0 {
                words.push(string_of(&cur));
                assert(views_of(words@) =~= done.push(cur@));
                cur = Vec::new();
                assert(cur@ =~= Seq::<char>::empty());
            }
            i += 1;
        } else if c == '"' {
            cur.push(c);
            if quoted {
                words.push(string_of(&cur));
                assert(views_of(words@) =~= done.push(cur@));
                cur = Vec::new();
                assert(cur@ =~= Seq::<char>::empty());
                quoted = false;
            } else {
                quoted = true;
            }
            i += 1;
        } else if c == '\\' {
            if i + 1 < n {
                assert(rest[1] == cs@[i + 1]);
                assert(rest.subrange(2, rest.len() as int) =~= cs@.subrange(i + 2, n as int));
                match parse_escape_character(cs[i + 1]) {
                    Some(e) => cur.push(e),
                    None => {},
                }
                i += 2;
            } else {
                i += 1;
            }
        } else {
            cur.push(c);
            i += 1;
        }
    }
    assert(cs@.subrange(n as int, n as int) =~= Seq::<char>::empty());
    if cur.len() > 0 {
        let ghost done = views_of(words@);
        words.push(string_of(&cur));
        assert(views_of(words@) =~= done.push(cur@));
    }
    words
}

// ---------------------------------------------------------------------------
// Comment words

/// A word that is all capitals and punctuation, with no double quote: an
/// annotation, dropped before the line is read.
pub open spec fn is_comment(w: Seq<char>) -> bool {
    (forall|k: int| 0 <= k < w.len() ==> upper(#[trigger] w[k]) || !alnum(w[k])) && !w.contains('"')
}

/// The white-space separated words of `rest`, with the word `cur` under way
/// and the kept words `done`; comment words are dropped.
pub open spec fn kept_from(rest: Seq<char>, cur: Seq<char>, done: Seq<Seq<char>>) -> Seq<Seq<char>>
    decreases rest.len(),
{
    if rest.len() == 0 {
        keep(cur, done)
    } else if is_space(rest[0]) {
        kept_from(rest.drop_first(), Seq::empty(), keep(cur, done))
    } else {
        kept_from(rest.drop_first(), cur.push(rest[0]), done)
    }
}

pub open spec fn keep(cur: Seq<char>, done: Seq<Seq<char>>) -> Seq<Seq<char>> {
    if cur.len() > 0 && !is_comment(cur) {
        done.push(cur)
    } else {
        done
    }
}

/// Words joined by single spaces.
pub open spec fn joined(ws: Seq<Seq<char>>) -> Seq<char>
    decreases ws.len(),
{
    if ws.len() == 0 {
        Seq::empty()
    } else if ws.len() == 1 {
        ws[0]
    } else {
        joined(ws.drop_last()) + seq![' '] + ws.last()
    }
}

/// The line with its comment words dropped and its white space collapsed.
pub open spec fn uncommented(line: Seq<char>) -> Seq<char> {
    joined(kept_from(line, Seq::empty(), Seq::empty()))
}

fn comment_word(w: &Vec<char>) -> (r: bool)
    ensures
        r == is_comment(w@),
{
    let mut i: usize = 0;
    while i < w.len()
        invariant
            i <= w.len(),
            forall|k: int| 0 <= k < i ==> upper(#[trigger] w@[k]) || !alnum(w@[k]),
            forall|k: int| 0 <= k < i ==> w@[k] != '"',
        decreases w.len() - i,
    {
        let c = w[i];
        if c == '"' {
            assert(w@.contains('"'));
            return false;
        }
        if !(is_uppercase(c) || !is_alphanumeric(c)) {
            return false;
        }
        i += 1;
    }
    true
}

/// Appends `w` to the joined text `out` of the words `done`.
fn keep_word(out: &mut Vec<char>, w: &Vec<char>, Ghost(done): Ghost<Seq<Seq<char>>>) -> (kept: Ghost<
    Seq<Seq<char>>,
>)
    requires
        old(out)@ == joined(done),
        old(out)@.len() == 0 <==> done.len() == 0,
        forall|k: int| 0 <= k < done.len() ==> #[trigger] done[k].len() > 0,
    ensures
        kept@ == keep(w@, done),
        final(out)@ == joined(kept@),
        final(out)@.len() == 0 <==> kept@.len() == 0,
        forall|k: int| 0 <= k < kept@.len() ==> #[trigger] kept@[k].len() > 0,
{
    if w.len() > 0 && !comment_word(w) {
        let ghost start0 = out@;
        if out.len() > 0 {
            out.push(' ');
        }
        let mut i: usize = 0;
        let ghost start = out@;
        while i < w.len()
            invariant
                i <= w.len(),
                out@ == start + w@.subrange(0, i as int),
            decreases w.len() - i,
        {
            out.push(w[i]);
            i += 1;
            assert(out@ =~= start + w@.subrange(0, i as int));
        }
        let ghost d2 = done.push(w@);
        assert(d2.drop_last() =~= done);
        assert(w@.subrange(0, w.len() as int) =~= w@);
        proof {
            if done.len() == 0 {
                assert(out@ =~= w@);
            } else {
                assert(out@ =~= joined(done) + seq![' '] + w@);
            }
        }
        Ghost(d2)
    } else {
        Ghost(done)
    }
}

/// Drops the comment words of a line and joins the rest with single spaces.
pub fn strip_comments(line: &String) -> (r: String)
    ensures
        r@ == uncommented(line@),
{
    let cs = chars_of(line.as_str());
    let n = cs.len();
    let mut out: Vec<char> = Vec::new();
    let mut cur: Vec<char> = Vec::new();
    let ghost mut done: Seq<Seq<char>> = Seq::empty();
    let mut i: usize = 0;
    assert(cs@.subrange(0, n as int) =~= cs@);
    while i < n
        invariant
            n == cs.len(),
            cs@ == line@,
            i <= n,
            out@ == joined(done),
            out@.len() == 0 <==> done.len() == 0,
            forall|k: int| 0 <= k < done.len() ==> #[trigger] done[k].len() > 0,
            kept_from(line@, Seq::empty(), Seq::empty()) == kept_from(cs@.subrange(i as int, n as int), cur@, done),
        decreases n - i,
    {
        let ghost rest = cs@.subrange(i as int, n as int);
        assert(rest[0] == cs@[i as int]);
        assert(rest.drop_first() =~= cs@.subrange(i + 1, n as int));
        let c = cs[i];
        if is_whitespace(c) {
            let Ghost(d) = keep_word(&mut out, &cur, Ghost(done));
            proof {
                done = d;
            }
            cur = Vec::new();
            assert(cur@ =~= Seq::<char>::empty());
        } else {
            cur.push(c);
        }
        i += 1;
    }
    assert(cs@.subrange(n as int, n as int) =~= Seq::<char>::empty());
    let Ghost(d) = keep_word(&mut out, &cur, Ghost(done));
    string_of(&out)
}

// ---------------------------------------------------------------------------
// Vocabulary

/// The chapter names, in page order.
pub open spec fn chapter_index(w: Seq<char>) -> Option<int> {
    if w == "Presages"@ {
        Some(0)
    } else if w == "Hexes"@ {
        Some(1)
    } else if w == "Illusions"@ {
        Some(2)
    } else if w == "Incantations"@ {
        Some(3)
    } else if w == "Recipes"@ {
        Some(4)
    } else {
        None
    }
}

/// The ordinal words, as slot indices.
pub open spec fn ordinal_index(w: Seq<char>) -> Option<int> {
    if w == "first"@ {
        Some(0)
    } else if w == "second"@ {
        Some(1)
    } else if w == "third"@ {
        Some(2)
    } else {
        None
    }
}

/// The spell a name stands for.
pub open spec fn spell_of(w: Seq<char>) -> Option<CauldronSpell> {
    if w == "Coadjuvancy"@ {
        Some(CauldronSpell::Coadjuvancy)
    } else if w == "Judgement"@ {
        Some(CauldronSpell::Judgement)
    } else if w == "Reverberate"@ {
        Some(CauldronSpell::Reverberate)
    } else if w == "Entwinement"@ {
        Some(CauldronSpell::Entwinement)
    } else if w == "Belittlement"@ {
        Some(CauldronSpell::Belittlement)
    } else if w == "Reenactment"@ {
        Some(CauldronSpell::Reenactment)
    } else if w == "Apportionment"@ {
        Some(CauldronSpell::Apportionment)
    } else if w == "Antipodize"@ {
        Some(CauldronSpell::Antipodize)
    } else if w == "Juxtapose"@ {
        Some(CauldronSpell::Juxtapose)
    } else if w == "Amplify"@ {
        Some(CauldronSpell::Amplify)
    } else if w == "Squelch"@ {
        Some(CauldronSpell::Squelch)
    } else if w == "Diminish"@ {
        Some(CauldronSpell::Diminish)
    } else if w == "Vacation"@ {
        Some(CauldronSpell::Vacation)
    } else {
        None
    }
}

/// The fixed builtin vocabulary: ordinals, chapter names, the console and spell names.
pub open spec fn is_builtin(w: Seq<char>) -> bool {
    ordinal_index(w) is Some || chapter_index(w) is Some || w == "console"@ || spell_of(w) is Some
}

/// Whether `w` is exactly the literal `lit`.
pub fn word_is(w: &String, lit: &str) -> (r: bool)
    ensures
        r == (w@ == lit@),
{
    let l = String::from_str(lit);
    *w == l
}

pub fn chapter_number(w: &String) -> (r: Option<usize>)
    ensures
        r matches Some(i) ==> chapter_index(w@) == Some(i as int),
        r is None ==> chapter_index(w@) is None,
{
    if word_is(w, "Presages") {
        Some(0)
    } else if word_is(w, "Hexes") {
        Some(1)
    } else if word_is(w, "Illusions") {
        Some(2)
    } else if word_is(w, "Incantations") {
        Some(3)
    } else if word_is(w, "Recipes") {
        Some(4)
    } else {
        None
    }
}

pub fn ordinal_number(w: &String) -> (r: Option<usize>)
    ensures
        r matches Some(i) ==> ordinal_index(w@) == Some(i as int),
        r is None ==> ordinal_index(w@) is None,
{
    if word_is(w, "first") {
        Some(0)
    } else if word_is(w, "second") {
        Some(1)
    } else if word_is(w, "third") {
        Some(2)
    } else {
        None
    }
}

pub fn lookup_spell(w: &String) -> (r: Option<CauldronSpell>)
    ensures
        r == spell_of(w@),
{
    if word_is(w, "Coadjuvancy") {
        Some(CauldronSpell::Coadjuvancy)
    } else if word_is(w, "Judgement") {
        Some(CauldronSpell::Judgement)
    } else if word_is(w, "Reverberate") {
        Some(CauldronSpell::Reverberate)
    } else if word_is(w, "Entwinement") {
        Some(CauldronSpell::Entwinement)
    } else if word_is(w, "Belittlement") {
        Some(CauldronSpell::Belittlement)
    } else if word_is(w, "Reenactment") {
        Some(CauldronSpell::Reenactment)
    } else if word_is(w, "Apportionment") {
        Some(CauldronSpell::Apportionment)
    } else if word_is(w, "Antipodize") {
        Some(CauldronSpell::Antipodize)
    } else if word_is(w, "Juxtapose") {
        Some(CauldronSpell::Juxtapose)
    } else if word_is(w, "Amplify") {
        Some(CauldronSpell::Amplify)
    } else if word_is(w, "Squelch") {
        Some(CauldronSpell::Squelch)
    } else if word_is(w, "Diminish") {
        Some(CauldronSpell::Diminish)
    } else if word_is(w, "Vacation") {
        Some(CauldronSpell::Vacation)
    } else {
        None
    }
}

pub fn builtin(w: &String) -> (r: bool)
    ensures
        r == is_builtin(w@),
{
    ordinal_number(w).is_some() || chapter_number(w).is_some() || word_is(w, "console")
        || lookup_spell(w).is_some()
}

// ---------------------------------------------------------------------------
// Words to tokens

/// A word that is no keyphrase, as a token: a builtin, else an integer, else
/// a float (as the host parses it), else a boolean, else a quoted text
/// (quotes removed; `None` when the closing quote is missing), else an
/// identifier.
pub open spec fn word_token<H: Fn(Request) -> Reply>(host: H, w: Seq<char>, r: Option<TokenModel>) -> bool {
    if is_builtin(w) {
        r == Some(TokenModel::Builtin(w))
    } else if int_of_text(w) is Some {
        r == Some(TokenModel::Literal(Value::Integer(int_of_text(w)->0 as i64)))
    } else if is_float_token(r) {
        parse_outcome(host, w, Some(r->0->Literal_0->Float_0))
    } else {
        parse_outcome(host, w, None) && r == plain_word(w)
    }
}

pub open spec fn is_float_token(r: Option<TokenModel>) -> bool {
    r is Some && r->0 is Literal && r->0->Literal_0 is Float
}

/// A word that is no builtin and no number, as a token.
pub open spec fn plain_word(w: Seq<char>) -> Option<TokenModel> {
    if w == "true"@ {
        Some(TokenModel::Literal(Value::Boolean(true)))
    } else if w == "false"@ {
        Some(TokenModel::Literal(Value::Boolean(false)))
    } else if w.len() > 0 && w[0] == '"' {
        if w.len() >= 2 && w.last() == '"' {
            Some(TokenModel::Literal(Value::Text(w.subrange(1, w.len() - 1))))
        } else {
            None
        }
    } else {
        Some(TokenModel::Identifier(w))
    }
}

fn classify_word<H: Fn(Request) -> Reply>(w: &String, host: &H) -> (r: Option<Token>)
    requires
        serves(*host),
    ensures
        word_token(
            *host,
            w@,
            match r {
                Some(t) => Some(t@),
                None => None::<TokenModel>,
            },
        ),
{
    if builtin(w) {
        return Some(Token::Builtin(w.clone()));
    }
    match parse_int(w.as_str()) {
        Some(i) => return Some(Token::Literal(Variant::Integer(i))),
        None => {},
    }
    match host_parse_float(host, w) {
        Some(f) => return Some(Token::Literal(Variant::Float(f))),
        None => {},
    }
    if word_is(w, "true") {
        return Some(Token::Literal(Variant::Boolean(true)));
    }
    if word_is(w, "false") {
        return Some(Token::Literal(Variant::Boolean(false)));
    }
    let cs = chars_of(w.as_str());
    if cs.len() > 0 && cs[0] == '"' {
        if cs.len() >= 2 && cs[cs.len() - 1] == '"' {
            let mut inner: Vec<char> = Vec::new();
            let mut i: usize = 1;
            while i < cs.len() - 1
                invariant
                    cs.len() >= 2,
                    1 <= i <= cs.len() - 1,
                    inner@ == cs@.subrange(1, i as int),
                decreases cs.len() - i,
            {
                inner.push(cs[i]);
                i += 1;
                assert(inner@ =~= cs@.subrange(1, i as int));
            }
            return Some(Token::Literal(Variant::Str(string_of(&inner))));
        } else {
            return None;
        }
    }
    Some(Token::Identifier(w.clone()))
}

/// What the word at `i` starts.
pub enum Step {
    /// A token made of the next `n` words.
    Emit(TokenModel, nat),
    /// A keyphrase left incomplete.
    Fail,
    /// An ordinary word.
    Plain,
}

/// Word `j` of `ws` is `lit`.
pub open spec fn at(ws: Seq<Seq<char>>, j: int, lit: Seq<char>) -> bool {
    0 <= j < ws.len() && ws[j] == lit
}

pub open spec fn kp(k: Keyphrase, n: nat) -> Step {
    Step::Emit(TokenModel::Keyphrase(k), n)
}

/// The keyphrase table: what the word at `i` starts. A leading word commits to
/// its continuations, tried in order; a missing required continuation fails.
pub open spec fn phrase_step(ws: Seq<Seq<char>>, i: int) -> Step {
    if !(motion_step(ws, i) is Plain) {
        motion_step(ws, i)
    } else if !(record_step(ws, i) is Plain) {
        record_step(ws, i)
    } else if !(cauldron_step(ws, i) is Plain) {
        cauldron_step(ws, i)
    } else if !(joint_step(ws, i) is Plain) {
        joint_step(ws, i)
    } else if !(closing_step(ws, i) is Plain) {
        closing_step(ws, i)
    } else {
        operator_word_step(ws, i)
    }
}

pub open spec fn motion_step(ws: Seq<Seq<char>>, i: int) -> Step {
    let h = ws[i];
    if h == "turn"@ {
        if at(ws, i + 1, "to"@) && at(ws, i + 2, "chapter"@) {
            kp(Keyphrase::TurnToChapter, 3)
        } else {
            Step::Fail
        }
    } else if h == "tear"@ {
        if at(ws, i + 1, "out"@) && at(ws, i + 2, "chapter"@) {
            kp(Keyphrase::TearOutChapter, 3)
        } else {
            Step::Fail
        }
    } else if h == "take"@ {
        if at(ws, i + 1, "out"@) && at(ws, i + 2, "a"@) && at(ws, i + 3, "chapter"@) && at(ws, i + 4, "from"@)
            && at(ws, i + 5, "the"@) && at(ws, i + 6, "drawer"@) && at(ws, i + 7, "and"@) && at(ws, i + 8, "put"@)
            && at(ws, i + 9, "it"@) && at(ws, i + 10, "back"@) {
            kp(Keyphrase::TakeOutAChapterFromTheDrawerAndPutItBack, 11)
        } else {
            Step::Fail
        }
    } else if h == "pick"@ {
        if at(ws, i + 1, "up"@) && at(ws, i + 2, "chapter"@) && at(ws, i + 3, "off"@) && at(ws, i + 4, "the"@)
            && at(ws, i + 5, "floor"@) && at(ws, i + 6, "and"@) && at(ws, i + 7, "put"@) && at(ws, i + 8, "it"@)
            && at(ws, i + 9, "back"@) {
            kp(Keyphrase::PickUpChapterOffTheFloorAndPutItBack, 10)
        } else {
            Step::Fail
        }
    } else {
        Step::Plain
    }
}

pub open spec fn record_step(ws: Seq<Seq<char>>, i: int) -> Step {
    let h = ws[i];
    if h == "write"@ {
        kp(Keyphrase::Write, 1)
    } else if h == "copy"@ {
        kp(Keyphrase::Copy, 1)
    } else if h == "entry"@ {
        kp(Keyphrase::Entry, 1)
    } else if h == "under"@ {
        kp(Keyphrase::Under, 1)
    } else if h == "cast"@ {
        kp(Keyphrase::Cast, 1)
    } else if h == "memorize"@ {
        kp(Keyphrase::Memorize, 1)
    } else {
        Step::Plain
    }
}

pub open spec fn cauldron_step(ws: Seq<Seq<char>>, i: int) -> Step {
    let h = ws[i];
    if h == "on"@ {
        if at(ws, i + 1, "the"@) && at(ws, i + 2, "cauldron"@) {
            kp(Keyphrase::OnTheCauldron, 3)
        } else {
            Step::Fail
        }
    } else if h == "knock"@ {
        if at(ws, i + 1, "over"@) && at(ws, i + 2, "cauldron"@) {
            kp(Keyphrase::KnockOverCauldron, 3)
        } else {
            Step::Fail
        }
    } else if h == "from"@ {
        if at(ws, i + 1, "divine"@) && at(ws, i + 2, "intervention"@) {
            kp(Keyphrase::FromDivineIntervention, 3)
        } else if at(ws, i + 1, "memory"@) {
            kp(Keyphrase::FromMemory, 2)
        } else {
            Step::Fail
        }
    } else if h == "skip"@ {
        if at(ws, i + 1, "the"@) && at(ws, i + 2, "next"@) {
            kp(Keyphrase::SkipTheNext, 3)
        } else {
            Step::Fail
        }
    } else {
        Step::Plain
    }
}

pub open spec fn joint_step(ws: Seq<Seq<char>>, i: int) -> Step {
    let h = ws[i];
    if h == "repeat"@ {
        if at(ws, i + 1, "the"@) && at(ws, i + 2, "last"@) {
            kp(Keyphrase::RepeatTheLast, 3)
        } else {
            Step::Fail
        }
    } else if h == "publish"@ {
        if at(ws, i + 1, "spellbook"@) {
            kp(Keyphrase::PublishSpellbook, 2)
        } else {
            Step::Fail
        }
    } else if h == "and"@ {
        if at(ws, i + 1, "put"@) {
            if at(ws, i + 2, "it"@) && at(ws, i + 3, "in"@) && at(ws, i + 4, "the"@) && at(ws, i + 5, "drawer"@) {
                kp(Keyphrase::AndPutItInTheDrawer, 6)
            } else {
                Step::Fail
            }
        } else if at(ws, i + 1, "throw"@) {
            if at(ws, i + 2, "it"@) && at(ws, i + 3, "in"@) && at(ws, i + 4, "the"@) && at(ws, i + 5, "trash"@) {
                kp(Keyphrase::AndThrowItInTheTrash, 6)
            } else {
                Step::Fail
            }
        } else if at(ws, i + 1, "toss"@) {
            if at(ws, i + 2, "it"@) && at(ws, i + 3, "in"@) && at(ws, i + 4, "the"@) && at(ws, i + 5, "cauldron"@) {
                kp(Keyphrase::AndTossItInTheCauldron, 6)
            } else {
                Step::Fail
            }
        } else {
            Step::Emit(TokenModel::Operator(Operator::And), 1)
        }
    } else {
        Step::Plain
    }
}

pub open spec fn closing_step(ws: Seq<Seq<char>>, i: int) -> Step {
    let h = ws[i];
    if h == "sign"@ {
        if at(ws, i + 1, "chapter"@) && at(ws, i + 2, "with"@) {
            kp(Keyphrase::SignChapterWith, 3)
        } else if at(ws, i + 1, "acknowledgements"@) && at(ws, i + 2, "page"@) && at(ws, i + 3, "with"@) {
            kp(Keyphrase::SignAcknowledgementsPageWith, 4)
        } else {
            Step::Fail
        }
    } else if h == "slam"@ {
        if at(ws, i + 1, "spellbook"@) && at(ws, i + 2, "shut"@) {
            kp(Keyphrase::SlamSpellbookShut, 3)
        } else {
            Step::Fail
        }
    } else if h == "if"@ {
        Step::Emit(TokenModel::Conditional, 1)
    } else {
        Step::Plain
    }
}

pub open spec fn operator_word_step(ws: Seq<Seq<char>>, i: int) -> Step {
    let h = ws[i];
    if h == "sum"@ {
        operator_step(ws, i, Operator::Sum)
    } else if h == "difference"@ {
        operator_step(ws, i, Operator::Difference)
    } else if h == "product"@ {
        operator_step(ws, i, Operator::Product)
    } else if h == "quotient"@ {
        operator_step(ws, i, Operator::Quotient)
    } else if h == "remainder"@ {
        operator_step(ws, i, Operator::Remainder)
    } else if h == "concatenation"@ {
        operator_step(ws, i, Operator::Concatenation)
    } else {
        Step::Plain
    }
}

/// An operator word must be followed by `of`.
pub open spec fn operator_step(ws: Seq<Seq<char>>, i: int, o: Operator) -> Step {
    if at(ws, i + 1, "of"@) {
        Step::Emit(TokenModel::Operator(o), 2)
    } else {
        Step::Fail
    }
}

/// `out` is a possible result of tokenizing the words of `ws` from `i` on:
/// `None` for a lexical failure.
pub open spec fn lex_from<H: Fn(Request) -> Reply>(
    host: H,
    ws: Seq<Seq<char>>,
    i: int,
    out: Option<Seq<TokenModel>>,
) -> bool
    decreases ws.len() - i,
{
    if i < 0 || i >= ws.len() {
        out == Some(Seq::<TokenModel>::empty())
    } else {
        match phrase_step(ws, i) {
            Step::Emit(t, n) => {
                let j = if n >= 1 && i + n <= ws.len() { i + n } else { ws.len() as int };
                match out {
                    Some(o) => o.len() > 0 && o[0] == t && lex_from(host, ws, j, Some(o.drop_first())),
                    None => lex_from(host, ws, j, None),
                }
            },
            Step::Fail => out is None,
            Step::Plain => match out {
                Some(o) => o.len() > 0 && word_token(host, ws[i], Some(o[0])) && lex_from(
                    host,
                    ws,
                    i + 1,
                    Some(o.drop_first()),
                ),
                None => word_token(host, ws[i], None) || lex_from(host, ws, i + 1, None),
            },
        }
    }
}

/// The tokens of a source line (see `lex_from`), read from the words of the
/// line after comment words are dropped.
pub open spec fn lexed<H: Fn(Request) -> Reply>(host: H, line: Seq<char>, out: Option<Seq<TokenModel>>) -> bool {
    lex_from(host, split_words(uncommented(line)), 0, out)
}

/// A word that the splitters keep whole: no white space, quote or backslash.
pub open spec fn plain_chars(w: Seq<char>) -> bool {
    forall|k: int| 0 <= k < w.len() ==> !is_space(#[trigger] w[k]) && w[k] != '"' && w[k] != '\\'
}

proof fn lemma_kept_plain(w: Seq<char>, rest: Seq<char>, cur: Seq<char>, done: Seq<Seq<char>>)
    requires
        plain_chars(w),
    ensures
        kept_from(w + rest, cur, done) == kept_from(rest, cur + w, done),
    decreases w.len(),
{
    if w.len() == 0 {
        assert(w + rest =~= rest);
        assert(cur + w =~= cur);
    } else {
        assert((w + rest)[0] == w[0]);
        assert((w + rest).drop_first() =~= w.drop_first() + rest);
        lemma_kept_plain(w.drop_first(), rest, cur.push(w[0]), done);
        assert(cur.push(w[0]) + w.drop_first() =~= cur + w);
    }
}

proof fn lemma_split_plain(w: Seq<char>, rest: Seq<char>, cur: Seq<char>, done: Seq<Seq<char>>)
    requires
        plain_chars(w),
    ensures
        split_from(w + rest, cur, false, done) == split_from(rest, cur + w, false, done),
    decreases w.len(),
{
    if w.len() == 0 {
        assert(w + rest =~= rest);
        assert(cur + w =~= cur);
    } else {
        assert((w + rest)[0] == w[0]);
        assert((w + rest).drop_first() =~= w.drop_first() + rest);
        lemma_split_plain(w.drop_first(), rest, cur.push(w[0]), done);
        assert(cur.push(w[0]) + w.drop_first() =~= cur + w);
    }
}

/// A line of one plain word that is no comment is read as that single word.
proof fn lemma_one_word_line(w: Seq<char>)
    requires
        w.len() > 0,
        plain_chars(w),
        !is_comment(w),
    ensures
        split_words(uncommented(w)) == seq![w],
{
    let e = Seq::<char>::empty();
    lemma_kept_plain(w, e, e, Seq::empty());
    assert(w + e =~= w);
    assert(e + w =~= w);
    assert(kept_from(w, e, Seq::empty()) =~= seq![w]);
    assert(uncommented(w) == w);
    lemma_split_plain(w, e, e, Seq::empty());
    assert(split_words(w) =~= seq![w]);
}

/// The tokens of a one-word line whose word starts no keyphrase: that word's token.
proof fn lemma_one_plain_token<H: Fn(Request) -> Reply>(host: H, w: Seq<char>, out: Option<Seq<TokenModel>>)
    requires
        w.len() > 0,
        plain_chars(w),
        !is_comment(w),
        phrase_step(seq![w], 0) is Plain,
        lexed(host, w, out),
    ensures
        match out {
            Some(o) => o.len() == 1 && word_token(host, w, Some(o[0])),
            None => word_token(host, w, None),
        },
{
    lemma_one_word_line(w);
    let ws = seq![w];
    assert(ws[0] == w);
    match out {
        Some(o) => {
            assert(lex_from(host, ws, 1, Some(o.drop_first())));
            assert(o.drop_first().len() == 0);
        },
        None => {
            assert(!lex_from(host, ws, 1, None));
        },
    }
}

/// A one-word line holding a word of the builtin vocabulary is one builtin token.
pub proof fn lemma_builtin_word<H: Fn(Request) -> Reply>(host: H, w: Seq<char>, out: Option<Seq<TokenModel>>)
    requires
        is_builtin(w),
        plain_chars(w),
        exists|k: int| 0 <= k < w.len() && alnum(#[trigger] w[k]) && !upper(w[k]),
        phrase_step(seq![w], 0) is Plain,
        lexed(host, w, out),
    ensures
        out == Some(seq![TokenModel::Builtin(w)]),
{
    assert(!is_comment(w));
    lemma_one_plain_token(host, w, out);
    assert(out->0 =~= seq![TokenModel::Builtin(w)]);
}

/// A one-word line holding a word that starts no keyphrase, is no builtin, no
/// integer, no float the host reads, no boolean and no quoted text, is one
/// identifier token.
pub proof fn lemma_identifier_word<H: Fn(Request) -> Reply>(host: H, w: Seq<char>, out: Option<Seq<TokenModel>>)
    requires
        plain_chars(w),
        exists|k: int| 0 <= k < w.len() && alnum(#[trigger] w[k]) && !upper(w[k]),
        phrase_step(seq![w], 0) is Plain,
        !is_builtin(w),
        int_of_text(w) is None,
        forall|a: Reply| #[trigger] parse_answer(host, w, a) ==> !(a is Float),
        w != "true"@,
        w != "false"@,
        lexed(host, w, out),
    ensures
        out == Some(seq![TokenModel::Identifier(w)]),
{
    assert(!is_comment(w));
    assert(w[0] != '"');
    lemma_one_plain_token(host, w, out);
    let o = out->0;
    assert(!is_float_token(Some(o[0])));
    assert(o =~= seq![TokenModel::Identifier(w)]);
}

/// Word `j` of `ws` is `lit`.
fn expect_word(ws: &Vec<String>, i: usize, k: usize, lit: &str) -> (r: bool)
    requires
        i < ws.len(),
    ensures
        r == at(views_of(ws@), i + k, lit@),
{
    k < ws.len() - i && word_is(&ws[i + k], lit)
}

/// What the word at an index starts (the executable form of `Step`).
enum PhraseAt {
    Emit(Token, usize),
    Fail,
    Plain,
}

spec fn phrase_agrees(r: PhraseAt, s: Step) -> bool {
    match r {
        PhraseAt::Emit(t, n) => s == Step::Emit(t@, n as nat),
        PhraseAt::Fail => s is Fail,
        PhraseAt::Plain => s is Plain,
    }
}

fn keyphrase(k: Keyphrase, n: usize) -> (r: PhraseAt)
    ensures
        phrase_agrees(r, kp(k, n as nat)),
{
    PhraseAt::Emit(Token::Keyphrase(k), n)
}

fn operator_at(ws: &Vec<String>, i: usize, o: Operator) -> (r: PhraseAt)
    requires
        i < ws.len(),
    ensures
        phrase_agrees(r, operator_step(views_of(ws@), i as int, o)),
{
    if expect_word(ws, i, 1, "of") {
        PhraseAt::Emit(Token::Operator(o), 2)
    } else {
        PhraseAt::Fail
    }
}

fn motion_at(ws: &Vec<String>, i: usize) -> (r: PhraseAt)
    requires
        i < ws.len(),
    ensures
        phrase_agrees(r, motion_step(views_of(ws@), i as int)),
{
    let h = &ws[i];
    if word_is(h, "turn") {
        if expect_word(ws, i, 1, "to") && expect_word(ws, i, 2, "chapter") {
            keyphrase(Keyphrase::TurnToChapter, 3)
        } else {
            PhraseAt::Fail
        }
    } else if word_is(h, "tear") {
        if expect_word(ws, i, 1, "out") && expect_word(ws, i, 2, "chapter") {
            keyphrase(Keyphrase::TearOutChapter, 3)
        } else {
            PhraseAt::Fail
        }
    } else if word_is(h, "take") {
        if expect_word(ws, i, 1, "out")
            && expect_word(ws, i, 2, "a")
            && expect_word(ws, i, 3, "chapter")
            && expect_word(ws, i, 4, "from")
            && expect_word(ws, i, 5, "the")
            && expect_word(ws, i, 6, "drawer")
            && expect_word(ws, i, 7, "and")
            && expect_word(ws, i, 8, "put")
            && expect_word(ws, i, 9, "it")
            && expect_word(ws, i, 10, "back") {
            keyphrase(Keyphrase::TakeOutAChapterFromTheDrawerAndPutItBack, 11)
        } else {
            PhraseAt::Fail
        }
    } else if word_is(h, "pick") {
        if expect_word(ws, i, 1, "up")
            && expect_word(ws, i, 2, "chapter")
            && expect_word(ws, i, 3, "off")
            && expect_word(ws, i, 4, "the")
            && expect_word(ws, i, 5, "floor")
            && expect_word(ws, i, 6, "and")
            && expect_word(ws, i, 7, "put")
            && expect_word(ws, i, 8, "it")
            && expect_word(ws, i, 9, "back") {
            keyphrase(Keyphrase::PickUpChapterOffTheFloorAndPutItBack, 10)
        } else {
            PhraseAt::Fail
        }
    } else {
        PhraseAt::Plain
    }
}

fn record_at(ws: &Vec<String>, i: usize) -> (r: PhraseAt)
    requires
        i < ws.len(),
    ensures
        phrase_agrees(r, record_step(views_of(ws@), i as int)),
{
    let h = &ws[i];
    if word_is(h, "write") {
        keyphrase(Keyphrase::Write, 1)
    } else if word_is(h, "copy") {
        keyphrase(Keyphrase::Copy, 1)
    } else if word_is(h, "entry") {
        keyphrase(Keyphrase::Entry, 1)
    } else if word_is(h, "under") {
        keyphrase(Keyphrase::Under, 1)
    } else if word_is(h, "cast") {
        keyphrase(Keyphrase::Cast, 1)
    } else if word_is(h, "memorize") {
        keyphrase(Keyphrase::Memorize, 1)
    } else {
        PhraseAt::Plain
    }
}

fn cauldron_at(ws: &Vec<String>, i: usize) -> (r: PhraseAt)
    requires
        i < ws.len(),
    ensures
        phrase_agrees(r, cauldron_step(views_of(ws@), i as int)),
{
    let h = &ws[i];
    if word_is(h, "on") {
        if expect_word(ws, i, 1, "the") && expect_word(ws, i, 2, "cauldron") {
            keyphrase(Keyphrase::OnTheCauldron, 3)
        } else {
            PhraseAt::Fail
        }
    } else if word_is(h, "knock") {
        if expect_word(ws, i, 1, "over") && expect_word(ws, i, 2, "cauldron") {
            keyphrase(Keyphrase::KnockOverCauldron, 3)
        } else {
            PhraseAt::Fail
        }
    } else if word_is(h, "from") {
        if expect_word(ws, i, 1, "divine") && expect_word(ws, i, 2, "intervention") {
            keyphrase(Keyphrase::FromDivineIntervention, 3)
        } else if expect_word(ws, i, 1, "memory") {
            keyphrase(Keyphrase::FromMemory, 2)
        } else {
            PhraseAt::Fail
        }
    } else if word_is(h, "skip") {
        if expect_word(ws, i, 1, "the") && expect_word(ws, i, 2, "next") {
            keyphrase(Keyphrase::SkipTheNext, 3)
        } else {
            PhraseAt::Fail
        }
    } else {
        PhraseAt::Plain
    }
}

fn joint_at(ws: &Vec<String>, i: usize) -> (r: PhraseAt)
    requires
        i < ws.len(),
    ensures
        phrase_agrees(r, joint_step(views_of(ws@), i as int)),
{
    let h = &ws[i];
    if word_is(h, "repeat") {
        if expect_word(ws, i, 1, "the") && expect_word(ws, i, 2, "last") {
            keyphrase(Keyphrase::RepeatTheLast, 3)
        } else {
            PhraseAt::Fail
        }
    } else if word_is(h, "publish") {
        if expect_word(ws, i, 1, "spellbook") {
            keyphrase(Keyphrase::PublishSpellbook, 2)
        } else {
            PhraseAt::Fail
        }
    } else if word_is(h, "and") {
        if expect_word(ws, i, 1, "put") {
            if expect_word(ws, i, 2, "it")
                && expect_word(ws, i, 3, "in")
                && expect_word(ws, i, 4, "the")
                && expect_word(ws, i, 5, "drawer") {
                keyphrase(Keyphrase::AndPutItInTheDrawer, 6)
            } else {
                PhraseAt::Fail
            }
        } else if expect_word(ws, i, 1, "throw") {
            if expect_word(ws, i, 2, "it")
                && expect_word(ws, i, 3, "in")
                && expect_word(ws, i, 4, "the")
                && expect_word(ws, i, 5, "trash") {
                keyphrase(Keyphrase::AndThrowItInTheTrash, 6)
            } else {
                PhraseAt::Fail
            }
        } else if expect_word(ws, i, 1, "toss") {
            if expect_word(ws, i, 2, "it")
                && expect_word(ws, i, 3, "in")
                && expect_word(ws, i, 4, "the")
                && expect_word(ws, i, 5, "cauldron") {
                keyphrase(Keyphrase::AndTossItInTheCauldron, 6)
            } else {
                PhraseAt::Fail
            }
        } else {
            PhraseAt::Emit(Token::Operator(Operator::And), 1)
        }
    } else {
        PhraseAt::Plain
    }
}

fn closing_at(ws: &Vec<String>, i: usize) -> (r: PhraseAt)
    requires
        i < ws.len(),
    ensures
        phrase_agrees(r, closing_step(views_of(ws@), i as int)),
{
    let h = &ws[i];
    if word_is(h, "sign") {
        if expect_word(ws, i, 1, "chapter") && expect_word(ws, i, 2, "with") {
            keyphrase(Keyphrase::SignChapterWith, 3)
        } else if expect_word(ws, i, 1, "acknowledgements")
            && expect_word(ws, i, 2, "page")
            && expect_word(ws, i, 3, "with") {
            keyphrase(Keyphrase::SignAcknowledgementsPageWith, 4)
        } else {
            PhraseAt::Fail
        }
    } else if word_is(h, "slam") {
        if expect_word(ws, i, 1, "spellbook") && expect_word(ws, i, 2, "shut") {
            keyphrase(Keyphrase::SlamSpellbookShut, 3)
        } else {
            PhraseAt::Fail
        }
    } else if word_is(h, "if") {
        PhraseAt::Emit(Token::Conditional, 1)
    } else {
        PhraseAt::Plain
    }
}

fn operator_word_at(ws: &Vec<String>, i: usize) -> (r: PhraseAt)
    requires
        i < ws.len(),
    ensures
        phrase_agrees(r, operator_word_step(views_of(ws@), i as int)),
{
    let h = &ws[i];
    if word_is(h, "sum") {
        operator_at(ws, i, Operator::Sum)
    } else if word_is(h, "difference") {
        operator_at(ws, i, Operator::Difference)
    } else if word_is(h, "product") {
        operator_at(ws, i, Operator::Product)
    } else if word_is(h, "quotient") {
        operator_at(ws, i, Operator::Quotient)
    } else if word_is(h, "remainder") {
        operator_at(ws, i, Operator::Remainder)
    } else if word_is(h, "concatenation") {
        operator_at(ws, i, Operator::Concatenation)
    } else {
        PhraseAt::Plain
    }
}

fn phrase_at(ws: &Vec<String>, i: usize) -> (r: PhraseAt)
    requires
        i < ws.len(),
    ensures
        phrase_agrees(r, phrase_step(views_of(ws@), i as int)),
{
    let r = motion_at(ws, i);
    if !matches!(r, PhraseAt::Plain) {
        return r;
    }
    let r = record_at(ws, i);
    if !matches!(r, PhraseAt::Plain) {
        return r;
    }
    let r = cauldron_at(ws, i);
    if !matches!(r, PhraseAt::Plain) {
        return r;
    }
    let r = joint_at(ws, i);
    if !matches!(r, PhraseAt::Plain) {
        return r;
    }
    let r = closing_at(ws, i);
    if !matches!(r, PhraseAt::Plain) {
        return r;
    }
    operator_word_at(ws, i)
}

/// Splits one source line into tokens (see `lexed`). `None` is a lexical
/// failure: an incomplete keyphrase or an unterminated quoted text.
pub fn tokenize_line<H: Fn(Request) -> Reply>(line: String, host: &H) -> (r: Option<Vec<Token>>)
    requires
        serves(*host),
    ensures
        lexed(
            *host,
            line@,
            match r {
                Some(ts) => Some(token_views(ts@)),
                None => None::<Seq<TokenModel>>,
            },
        ),
{
    let stripped = strip_comments(&line);
    let ws = split_line_with_quotes(stripped);
    let ghost wv = views_of(ws@);
    let mut tokens: Vec<Token> = Vec::new();
    let mut i: usize = 0;
    while i < ws.len()
        invariant
            serves(*host),
            wv == views_of(ws@),
            wv == split_words(uncommented(line@)),
            i <= ws.len(),
            forall|rest: Seq<TokenModel>|
                #[trigger] lex_from(*host, wv, i as int, Some(rest)) ==> lex_from(
                    *host,
                    wv,
                    0,
                    Some(token_views(tokens@) + rest),
                ),
            lex_from(*host, wv, i as int, None) ==> lex_from(*host, wv, 0, None),
        decreases ws.len() - i,
    {
        let ghost before = token_views(tokens@);
        let ghost i0 = i as int;
        match phrase_at(&ws, i) {
            PhraseAt::Emit(t, n) => {
                let ghost tv = t@;
                let j = if n >= 1 && n <= ws.len() - i { i + n } else { ws.len() };
                tokens.push(t);
                assert(token_views(tokens@) =~= before.push(tv));
                assert forall|rest: Seq<TokenModel>|
                    #[trigger] lex_from(*host, wv, j as int, Some(rest)) implies lex_from(
                        *host,
                        wv,
                        0,
                        Some(token_views(tokens@) + rest),
                    ) by {
                    let o = seq![tv] + rest;
                    assert(o.drop_first() =~= rest);
                    assert(lex_from(*host, wv, i0, Some(o)));
                    assert(before + o =~= token_views(tokens@) + rest);
                }
                i = j;
            },
            PhraseAt::Fail => {
                return None;
            },
            PhraseAt::Plain => {
                match classify_word(&ws[i], host) {
                    Some(t) => {
                        let ghost tv = t@;
                        tokens.push(t);
                        assert(token_views(tokens@) =~= before.push(tv));
                        assert forall|rest: Seq<TokenModel>|
                            #[trigger] lex_from(*host, wv, i0 + 1, Some(rest)) implies lex_from(
                                *host,
                                wv,
                                0,
                                Some(token_views(tokens@) + rest),
                            ) by {
                            let o = seq![tv] + rest;
                            assert(o.drop_first() =~= rest);
                            assert(lex_from(*host, wv, i0, Some(o)));
                            assert(before + o =~= token_views(tokens@) + rest);
                        }
                        i += 1;
                    },
                    None => {
                        return None;
                    },
                }
            },
        }
    }
    assert(lex_from(*host, wv, i as int, Some(Seq::<TokenModel>::empty())));
    assert(token_views(tokens@) + Seq::<TokenModel>::empty() =~= token_views(tokens@));
    Some(tokens)
}

} // verus!
