//! The interpreter's state: the pages, the drawer and floor, memory, the
//! cauldron with its checkpoints, and the line cursor.
use rand::Rng;
use vstd::prelude::*;
use vstd::string::{StrSliceExecFns, StringExecFns};
use crate::cauldron::{spell_outcome, Cauldron, CauldronModel, CauldronSpell, CauldronSpellResult};
use crate::errors::{ErrorKind, SpellbookError};
use crate::host::{answers, host_parse_float, host_text, serves, text_outcome, Reply, Request};
use crate::lexer::{is_space, joined};
use crate::page::{duplicate_opt, first_free, write_outcome, Page, PageModel, PageType, SLOTS};
use crate::text::{chars_of, int_of_text, int_text, is_digit, parse_int, show_int, string_of};
use crate::variant::{opt_view, print_result, Value, Variant};

verus! {

/// Number of pages: one per kind.
pub const PAGES: usize = 5;

/// Printed at the end of a published book that has text in it.
pub const DEFAULT_WRAPUP: &'static str = "\n*~*~*~*~*~*~*~*~*~*~*~*~*~*~*~*~*~*~*\n               THE END  \n*~*~*~*~*~*~*~*~*~*~*~*~*~*~*~*~*~*~*\n";

/// Printed at the end of a published book with no text in it.
pub const DEFAULT_WRAPUP_QED: &'static str = "\n*~*~*~*~*~*~*~*~*~*~*~*~*~*~*~*~*~*~*\n                Q.E.D.\n*~*~*~*~*~*~*~*~*~*~*~*~*~*~*~*~*~*~*\n";

/// Relies on rand's `Rng::gen_range` over `0..=9` on the thread's generator:
/// a digit from 0 to 9.
#[verifier::external_body]
fn random_digit() -> (d: u8)
    ensures
        d <= 9,
{
    rand::thread_rng().gen_range(0..=9u8)
}

/// The kind of the page at each position.
pub open spec fn kind_at(i: int) -> PageType {
    if i == 0 {
        PageType::Boolean
    } else if i == 1 {
        PageType::Integer
    } else if i == 2 {
        PageType::Float
    } else if i == 3 {
        PageType::Str
    } else {
        PageType::Routine
    }
}

pub struct Program {
    pub pages: Vec<Page>,
    pub cauldron: Cauldron,
    /// Checkpoints: the line of a statement and the amplifier when it ran.
    pub spell_line_stack: Vec<(usize, usize)>,
    pub current_page: usize,
    pub turned_to_any_page: bool,
    pub drawer: Vec<Page>,
    pub floor: Option<Page>,
    pub memory: Option<Variant>,
    pub custom_signature: String,
    pub use_custom_signature: bool,
    /// Index of the current line among the program's non-blank lines.
    pub line_internal: usize,
    /// Source line number of the current line, for error reports.
    pub line_number: usize,
    pub exit: bool,
    pub debug_mode: bool,
    /// Published books not yet written out.
    pub output: Vec<Publication>,
}

/// A published book and where it goes: the console, or a file it is appended to.
#[derive(Debug, PartialEq, Clone)]
pub struct Publication {
    pub target: Option<String>,
    pub text: String,
}

impl View for Publication {
    type V = (Option<Seq<char>>, Seq<char>);

    open spec fn view(&self) -> (Option<Seq<char>>, Seq<char>) {
        (
            match self.target {
                Some(t) => Some(t@),
                None => None,
            },
            self.text@,
        )
    }
}

/// The model of the interpreter's state.
pub struct ProgramModel {
    pub pages: Seq<PageModel>,
    pub cauldron: CauldronModel,
    pub checkpoints: Seq<(usize, usize)>,
    pub current: usize,
    pub turned: bool,
    pub drawer: Seq<PageModel>,
    pub floor: Option<PageModel>,
    pub memory: Option<Value>,
    pub signature: Seq<char>,
    pub custom: bool,
    pub line: usize,
    pub line_number: usize,
    pub exit: bool,
    pub output: Seq<(Option<Seq<char>>, Seq<char>)>,
}

impl View for Program {
    type V = ProgramModel;

    open spec fn view(&self) -> ProgramModel {
        ProgramModel {
            pages: self.pages@.map_values(|p: Page| p@),
            cauldron: self.cauldron@,
            checkpoints: self.spell_line_stack@,
            current: self.current_page,
            turned: self.turned_to_any_page,
            drawer: self.drawer@.map_values(|p: Page| p@),
            floor: match self.floor {
                Some(p) => Some(p@),
                None => None,
            },
            memory: opt_view(self.memory),
            signature: self.custom_signature@,
            custom: self.use_custom_signature,
            line: self.line_internal,
            line_number: self.line_number,
            exit: self.exit,
            output: self.output@.map_values(|b: Publication| b@),
        }
    }
}

impl ProgramModel {
    /// The page that reads and writes address.
    pub open spec fn page(self) -> PageModel {
        self.pages[self.current as int]
    }

    /// A write of `name` is allowed: a page was selected, the name is not on
    /// it and it has an empty slot.
    pub open spec fn can_write(self, name: Seq<char>) -> bool {
        self.turned && !self.page().has_name(name) && !self.page().full()
    }

    pub open spec fn with_page(self, p: PageModel) -> ProgramModel {
        ProgramModel { pages: self.pages.update(self.current as int, p), ..self }
    }

    pub open spec fn totally_empty(self) -> bool {
        forall|i: int| 0 <= i < self.pages.len() ==> !(#[trigger] self.pages[i]).has_contents()
    }
}

/// The cauldron after a statement accrues charge.
pub open spec fn charged(c: CauldronModel) -> CauldronModel {
    CauldronModel {
        charge: if c.charge + c.amplifier > usize::MAX {
            usize::MAX
        } else {
            (c.charge + c.amplifier) as usize
        },
        ..c
    }
}

/// The charge left after popping checkpoints with amplifiers `amps`, the last first.
pub open spec fn drained(charge: usize, amps: Seq<(usize, usize)>) -> usize
    decreases amps.len(),
{
    if amps.len() == 0 {
        charge
    } else {
        let c = drained(charge, amps.drop_first());
        if c < amps[0].1 {
            0
        } else {
            (c - amps[0].1) as usize
        }
    }
}

/// `after` and `r` are a possible outcome of a spell whose cauldron step went
/// from `before.cauldron` to `mid` with result `res`.
pub open spec fn flow_outcome(
    before: ProgramModel,
    res: CauldronSpellResult,
    mid: CauldronModel,
    after: ProgramModel,
    r: Result<(), SpellbookError>,
) -> bool {
    let cps = before.checkpoints;
    match res {
        CauldronSpellResult::DoNothing => r is Ok && after == (ProgramModel {
            cauldron: charged(mid),
            checkpoints: cps.push((before.line, mid.amplifier)),
            ..before
        }),
        CauldronSpellResult::NoCharge => r is Ok && after == (ProgramModel { cauldron: mid, ..before }),
        CauldronSpellResult::SkipLine(n) => if before.line + n > usize::MAX {
            r == Err::<(), SpellbookError>(SpellbookError { kind: ErrorKind::Underflow, line: before.line_number })
                && after == before
        } else {
            r is Ok && after == (ProgramModel {
                cauldron: charged(mid),
                checkpoints: cps.push((before.line, mid.amplifier)),
                line: (before.line + n) as usize,
                ..before
            })
        },
        CauldronSpellResult::JumpBack(d) => if d >= cps.len() || cps[d as int].0 == 0 {
            r == Err::<(), SpellbookError>(SpellbookError { kind: ErrorKind::Underflow, line: before.line_number })
                && after == before
        } else {
            r is Ok && after == (ProgramModel {
                cauldron: CauldronModel {
                    charge: drained(mid.charge, cps.subrange(d + 1, cps.len() as int)),
                    amplifier: 1,
                    ..mid
                },
                checkpoints: cps.subrange(0, d + 1),
                line: (cps[d as int].0 - 1) as usize,
                ..before
            })
        },
    }
}

/// The white-space separated words of `rest`, with the word `cur` under way
/// and the words `done` complete.
pub open spec fn words_from(rest: Seq<char>, cur: Seq<char>, done: Seq<Seq<char>>) -> Seq<Seq<char>>
    decreases rest.len(),
{
    if rest.len() == 0 {
        if cur.len() > 0 {
            done.push(cur)
        } else {
            done
        }
    } else if is_space(rest[0]) {
        words_from(rest.drop_first(), Seq::empty(), if cur.len() > 0 {
            done.push(cur)
        } else {
            done
        })
    } else {
        words_from(rest.drop_first(), cur.push(rest[0]), done)
    }
}

pub open spec fn words(s: Seq<char>) -> Seq<Seq<char>> {
    words_from(s, Seq::empty(), Seq::empty())
}

pub open spec fn something() -> Seq<char> {
    seq!['s', 'o', 'm', 'e', 't', 'h', 'i', 'n', 'g']
}

/// `out` keeps the words of `ws` in order, each forgotten, kept, or blurred into "something".
pub open spec fn decayed_words(ws: Seq<Seq<char>>, out: Seq<Seq<char>>) -> bool {
    &&& out.len() <= ws.len()
    &&& forall|j: int| 0 <= j < out.len() ==> #[trigger] out[j] == something() || ws.contains(out[j])
}

/// `t` is the text `s`, or the text `s` with some words forgotten or blurred.
pub open spec fn text_decay(s: Seq<char>, t: Seq<char>) -> bool {
    t == s || exists|out: Seq<Seq<char>>| #[trigger] decayed_words(words(s), out) && t == joined(out)
}

/// Positions of a remembered value that are never forgotten.
pub const KEPT_POSITIONS: usize = 4;

/// The fate of each of `n` words, as the host gave it: the first positions
/// are always kept.
pub open spec fn word_fates<H: Fn(Request) -> Reply>(host: H, fs: Seq<Reply>, n: nat) -> bool {
    &&& fs.len() == n
    &&& forall|j: int|
        0 <= j < n ==> (j < KEPT_POSITIONS ==> #[trigger] fs[j] == Reply::Keep) && (j >= KEPT_POSITIONS
            ==> answers(host, Request::WordFate(j as usize), fs[j]))
}

/// No word is forgotten or blurred.
pub open spec fn all_kept(fs: Seq<Reply>) -> bool {
    forall|j: int| 0 <= j < fs.len() ==> !(#[trigger] fs[j] is Forget) && !(fs[j] is Blur)
}

/// The words `ws` after their fates `fs`: a forgotten word is dropped, a
/// blurred one becomes "something", any other stays.
pub open spec fn fated(ws: Seq<Seq<char>>, fs: Seq<Reply>) -> Seq<Seq<char>>
    decreases ws.len(),
{
    if ws.len() == 0 || fs.len() != ws.len() {
        Seq::empty()
    } else {
        let prev = fated(ws.drop_last(), fs.drop_last());
        match fs.last() {
            Reply::Forget => prev,
            Reply::Blur => prev.push(something()),
            _ => prev.push(ws.last()),
        }
    }
}

/// `t` is what the host's word fates make of the text `s`: `s` itself when
/// no word is touched, else the remaining words joined by single spaces.
pub open spec fn text_decay_by<H: Fn(Request) -> Reply>(host: H, s: Seq<char>, t: Seq<char>) -> bool {
    exists|fs: Seq<Reply>|
        #[trigger] word_fates(host, fs, words(s).len()) && t == if all_kept(fs) {
            s
        } else {
            joined(fated(words(s), fs))
        }
}

/// `d` is the printed number `t` with digits replaced where the host said so,
/// the first positions and `.` excepted.
pub open spec fn digit_decay<H: Fn(Request) -> Reply>(host: H, t: Seq<char>, d: Seq<char>) -> bool {
    &&& d.len() == t.len()
    &&& forall|k: int|
        0 <= k < t.len() ==> #[trigger] d[k] == t[k] || (k >= KEPT_POSITIONS && t[k] != '.' && answers(
            host,
            Request::DigitFate(k as usize),
            Reply::Replace,
        ) && is_digit(d[k]))
}

/// `r` is a possible decayed form of the integer `i`.
pub open spec fn int_decay<H: Fn(Request) -> Reply>(host: H, i: i64, r: i64) -> bool {
    &&& int_text(i as int).len() <= KEPT_POSITIONS ==> r == i
    &&& r == i || exists|d: Seq<char>|
        #[trigger] digit_decay(host, int_text(i as int), d) && int_of_text(d) == Some(r as int)
}

/// `t` is a possible decayed form of the text `s`.
pub open spec fn text_result<H: Fn(Request) -> Reply>(host: H, s: Seq<char>, t: Seq<char>) -> bool {
    &&& text_decay(s, t)
    &&& text_decay_by(host, s, t)
    &&& words(s).len() <= KEPT_POSITIONS ==> t == s
}

/// `r` is a possible decayed form of the remembered value `v`: of the same
/// kind; a number loses digits and a text words only where the host said so,
/// never in the first positions.
pub open spec fn decay_result<H: Fn(Request) -> Reply>(host: H, v: Value, r: Value) -> bool {
    match v {
        Value::Integer(i) => r is Integer && int_decay(host, i, r->Integer_0),
        Value::Float(_) => r is Float,
        Value::Text(s) => r is Text && text_result(host, s, r->Text_0),
        _ => r == v,
    }
}

/// No white space in `w`.
pub open spec fn solid(w: Seq<char>) -> bool {
    forall|k: int| 0 <= k < w.len() ==> !is_space(#[trigger] w[k])
}

proof fn lemma_words_solid(w: Seq<char>, rest: Seq<char>, cur: Seq<char>, done: Seq<Seq<char>>)
    requires
        solid(w),
    ensures
        words_from(w + rest, cur, done) == words_from(rest, cur + w, done),
    decreases w.len(),
{
    if w.len() == 0 {
        assert(w + rest =~= rest);
        assert(cur + w =~= cur);
    } else {
        assert((w + rest)[0] == w[0]);
        assert((w + rest).drop_first() =~= w.drop_first() + rest);
        lemma_words_solid(w.drop_first(), rest, cur.push(w[0]), done);
        assert(cur.push(w[0]) + w.drop_first() =~= cur + w);
    }
}

proof fn lemma_joined_front(ws: Seq<Seq<char>>)
    requires
        ws.len() >= 2,
    ensures
        joined(ws) == ws[0] + (seq![' '] + joined(ws.drop_first())),
    decreases ws.len(),
{
    if ws.len() == 2 {
        assert(ws.drop_last() =~= seq![ws[0]]);
        assert(ws.drop_first() =~= seq![ws[1]]);
        assert(joined(ws.drop_last()) == ws[0]);
        assert(joined(ws.drop_first()) == ws[1]);
        assert(joined(ws) =~= ws[0] + (seq![' '] + joined(ws.drop_first())));
    } else {
        lemma_joined_front(ws.drop_last());
        assert(ws.drop_last().drop_first() =~= ws.drop_first().drop_last());
        assert(ws.drop_first().last() == ws.last());
        assert(joined(ws) =~= ws[0] + (seq![' '] + joined(ws.drop_first())));
    }
}

/// Splitting words joined by single spaces gives them back.
proof fn lemma_words_joined(ws: Seq<Seq<char>>, done: Seq<Seq<char>>)
    requires
        forall|k: int| 0 <= k < ws.len() ==> (#[trigger] ws[k]).len() > 0 && solid(ws[k]),
    ensures
        words_from(joined(ws), Seq::empty(), done) == done + ws,
    decreases ws.len(),
{
    if ws.len() == 0 {
        assert(done + ws =~= done);
    } else if ws.len() == 1 {
        lemma_words_solid(ws[0], Seq::empty(), Seq::empty(), done);
        assert(ws[0] + Seq::<char>::empty() =~= ws[0]);
        assert(Seq::<char>::empty() + ws[0] =~= ws[0]);
        assert(done + ws =~= done.push(ws[0]));
    } else {
        lemma_joined_front(ws);
        let rest = seq![' '] + joined(ws.drop_first());
        lemma_words_solid(ws[0], rest, Seq::empty(), done);
        assert(Seq::<char>::empty() + ws[0] =~= ws[0]);
        assert(rest.drop_first() =~= joined(ws.drop_first()));
        lemma_words_joined(ws.drop_first(), done.push(ws[0]));
        assert(done.push(ws[0]) + ws.drop_first() =~= done + ws);
    }
}

/// The words of a text are non-empty and hold no white space.
proof fn lemma_words_are_solid(rest: Seq<char>, cur: Seq<char>, done: Seq<Seq<char>>)
    requires
        solid(cur),
        forall|k: int| 0 <= k < done.len() ==> (#[trigger] done[k]).len() > 0 && solid(done[k]),
    ensures
        forall|k: int|
            0 <= k < words_from(rest, cur, done).len() ==> (#[trigger] words_from(rest, cur, done)[k]).len() > 0
                && solid(words_from(rest, cur, done)[k]),
    decreases rest.len(),
{
    if rest.len() > 0 {
        if is_space(rest[0]) {
            let d2 = if cur.len() > 0 {
                done.push(cur)
            } else {
                done
            };
            assert forall|k: int| 0 <= k < d2.len() implies (#[trigger] d2[k]).len() > 0 && solid(d2[k]) by {
                if k < done.len() {
                    assert(d2[k] == done[k]);
                }
            }
            lemma_words_are_solid(rest.drop_first(), Seq::empty(), d2);
            assert(words_from(rest, cur, done) == words_from(rest.drop_first(), Seq::empty(), d2));
        } else {
            assert(solid(cur.push(rest[0])));
            lemma_words_are_solid(rest.drop_first(), cur.push(rest[0]), done);
            assert(words_from(rest, cur, done) == words_from(rest.drop_first(), cur.push(rest[0]), done));
        }
    } else {
        let d2 = if cur.len() > 0 {
            done.push(cur)
        } else {
            done
        };
        assert forall|k: int| 0 <= k < d2.len() implies (#[trigger] d2[k]).len() > 0 && solid(d2[k]) by {
            if k < done.len() {
                assert(d2[k] == done[k]);
            }
        }
        assert(words_from(rest, cur, done) == d2);
    }
}

/// A decayed text has at most as many words as the text it came from.
pub proof fn lemma_decay_keeps_word_count(s: Seq<char>, t: Seq<char>)
    requires
        text_decay(s, t),
    ensures
        words(t).len() <= words(s).len(),
{
    if t != s {
        let out = choose|out: Seq<Seq<char>>| #[trigger] decayed_words(words(s), out) && t == joined(out);
        lemma_words_are_solid(s, Seq::empty(), Seq::empty());
        assert(something().len() > 0 && solid(something()));
        assert forall|k: int| 0 <= k < out.len() implies (#[trigger] out[k]).len() > 0 && solid(out[k]) by {
            if out[k] != something() {
                let j = choose|j: int| 0 <= j < words(s).len() && words(s)[j] == out[k];
                assert(words(s)[j] == out[k]);
            }
        }
        lemma_words_joined(out, Seq::empty());
        assert(Seq::<Seq<char>>::empty() + out =~= out);
    }
}

/// The white-space separated words of a text.
fn split_words_plain(s: &String) -> (r: Vec<Vec<char>>)
    ensures
        r@.map_values(|w: Vec<char>| w@) == words(s@),
        forall|k: int| 0 <= k < r@.len() ==> (#[trigger] r@[k])@.len() > 0,
{
    let cs = chars_of(s.as_str());
    let n = cs.len();
    let mut out: Vec<Vec<char>> = Vec::new();
    let mut cur: Vec<char> = Vec::new();
    let mut i: usize = 0;
    assert(cs@.subrange(0, n as int) =~= cs@);
    assert(out@.map_values(|w: Vec<char>| w@) =~= Seq::<Seq<char>>::empty());
    while i < n
        invariant
            n == cs.len(),
            cs@ == s@,
            i <= n,
            words(s@) == words_from(cs@.subrange(i as int, n as int), cur@, out@.map_values(|w: Vec<char>| w@)),
            forall|k: int| 0 <= k < out@.len() ==> (#[trigger] out@[k])@.len() > 0,
        decreases n - i,
    {
        let ghost rest = cs@.subrange(i as int, n as int);
        let ghost done = out@.map_values(|w: Vec<char>| w@);
        assert(rest[0] == cs@[i as int]);
        assert(rest.drop_first() =~= cs@.subrange(i + 1, n as int));
        let c = cs[i];
        if crate::lexer::is_whitespace(c) {
            if cur.len() > 0 {
                let ghost cv = cur@;
                out.push(cur);
                assert(out@.map_values(|w: Vec<char>| w@) =~= done.push(cv));
                cur = Vec::new();
            }
            assert(cur@ =~= Seq::<char>::empty());
        } else {
            cur.push(c);
        }
        i += 1;
    }
    assert(cs@.subrange(n as int, n as int) =~= Seq::<char>::empty());
    if cur.len() > 0 {
        let ghost done = out@.map_values(|w: Vec<char>| w@);
        let ghost cv = cur@;
        out.push(cur);
        assert(out@.map_values(|w: Vec<char>| w@) =~= done.push(cv));
    }
    out
}

/// Forgets words of a remembered text, as the host decides for each position
/// past the first ones; a text with no word touched is returned as it was.
fn decay_text<H: Fn(Request) -> Reply>(s: &String, host: &H) -> (r: String)
    requires
        serves(*host),
    ensures
        text_result(*host, s@, r@),
{
    let ws = split_words_plain(s);
    let ghost wv = ws@.map_values(|w: Vec<char>| w@);
    let mut out: Vec<char> = Vec::new();
    let ghost mut kept: Seq<Seq<char>> = Seq::empty();
    let ghost mut fs: Seq<Reply> = Seq::empty();
    let mut changed = false;
    let mut k: usize = 0;
    while k < ws.len()
        invariant
            wv == ws@.map_values(|w: Vec<char>| w@),
            wv == words(s@),
            forall|j: int| 0 <= j < ws@.len() ==> (#[trigger] ws@[j])@.len() > 0,
            serves(*host),
            k <= ws.len(),
            kept.len() <= k,
            forall|j: int| 0 <= j < kept.len() ==> #[trigger] kept[j] == something() || wv.contains(kept[j]),
            forall|j: int| 0 <= j < kept.len() ==> (#[trigger] kept[j]).len() > 0,
            out@ == joined(kept),
            out@.len() == 0 <==> kept.len() == 0,
            word_fates(*host, fs, k as nat),
            kept == fated(wv.subrange(0, k as int), fs),
            changed == !all_kept(fs),
            changed ==> k > KEPT_POSITIONS,
        decreases ws.len() - k,
    {
        let fate = if k < KEPT_POSITIONS {
            Reply::Keep
        } else {
            let a = host(Request::WordFate(k));
            assert(answers(*host, Request::WordFate(k), a));
            a
        };
        let ghost fa = fate;
        let ghost fs2 = fs.push(fa);
        proof {
            assert(wv.subrange(0, k + 1).drop_last() =~= wv.subrange(0, k as int));
            assert(fs2.drop_last() =~= fs);
            assert(word_fates(*host, fs2, (k + 1) as nat));
        }
        let word: Option<Vec<char>> = match fate {
            Reply::Forget => {
                changed = true;
                None
            },
            Reply::Blur => {
                changed = true;
                let v = vec!['s', 'o', 'm', 'e', 't', 'h', 'i', 'n', 'g'];
                assert(v@ =~= something());
                Some(v)
            },
            _ => {
                let mut v: Vec<char> = Vec::new();
                let mut j: usize = 0;
                while j < ws[k].len()
                    invariant
                        k < ws.len(),
                        j <= ws@[k as int].len(),
                        v@ == ws@[k as int]@.subrange(0, j as int),
                    decreases ws@[k as int].len() - j,
                {
                    v.push(ws[k][j]);
                    j += 1;
                    assert(v@ =~= ws@[k as int]@.subrange(0, j as int));
                }
                assert(v@ =~= ws@[k as int]@);
                assert(wv[k as int] == v@);
                Some(v)
            },
        };
        proof {
            assert(changed == !all_kept(fs2)) by {
                if !all_kept(fs) {
                    let j = choose|j: int| 0 <= j < fs.len() && !(!(fs[j] is Forget) && !(fs[j] is Blur));
                    assert(fs2[j] == fs[j]);
                }
                if all_kept(fs) && !(fa is Forget) && !(fa is Blur) {
                    assert forall|j: int| 0 <= j < fs2.len() implies !(#[trigger] fs2[j] is Forget) && !(
                    fs2[j] is Blur) by {
                        if j < fs.len() {
                            assert(fs2[j] == fs[j]);
                        }
                    }
                }
                if fa is Forget || fa is Blur {
                    assert(fs2[k as int] == fa);
                }
            }
        }
        match word {
            Some(w) => {
                if out.len() > 0 {
                    out.push(' ');
                }
                let ghost start = out@;
                let mut j: usize = 0;
                while j < w.len()
                    invariant
                        j <= w.len(),
                        out@ == start + w@.subrange(0, j as int),
                    decreases w.len() - j,
                {
                    out.push(w[j]);
                    j += 1;
                    assert(out@ =~= start + w@.subrange(0, j as int));
                }
                assert(w@.subrange(0, w.len() as int) =~= w@);
                let ghost k2 = kept.push(w@);
                assert(k2.drop_last() =~= kept);
                proof {
                    if kept.len() == 0 {
                        assert(out@ =~= w@);
                    } else {
                        assert(out@ =~= joined(kept) + seq![' '] + w@);
                    }
                    kept = k2;
                }
            },
            None => {},
        }
        proof {
            fs = fs2;
        }
        k += 1;
    }
    assert(wv.subrange(0, ws.len() as int) =~= wv);
    assert(decayed_words(words(s@), kept));
    if changed {
        let r = string_of(&out);
        assert(word_fates(*host, fs, words(s@).len()));
        r
    } else {
        let r = s.clone();
        assert(word_fates(*host, fs, words(s@).len()));
        r
    }
}

/// Replaces digits of a printed number as the host decides for each position
/// past the first ones; `.` stays. `None` when no digit is replaced.
fn decay_digits<H: Fn(Request) -> Reply>(t: &String, host: &H) -> (r: Option<String>)
    requires
        serves(*host),
    ensures
        t@.len() <= KEPT_POSITIONS ==> r is None,
        r matches Some(d) ==> digit_decay(*host, t@, d@),
{
    let cs = chars_of(t.as_str());
    let mut out: Vec<char> = Vec::new();
    let mut changed = false;
    let mut k: usize = 0;
    while k < cs.len()
        invariant
            serves(*host),
            cs@ == t@,
            k <= cs.len(),
            out@.len() == k,
            changed ==> k > KEPT_POSITIONS,
            forall|j: int|
                0 <= j < k ==> #[trigger] out@[j] == cs@[j] || (j >= KEPT_POSITIONS && cs@[j] != '.' && answers(
                    *host,
                    Request::DigitFate(j as usize),
                    Reply::Replace,
                ) && is_digit(out@[j])),
        decreases cs.len() - k,
    {
        let c = cs[k];
        let replace = if c != '.' && k >= KEPT_POSITIONS {
            let fate = host(Request::DigitFate(k));
            assert(answers(*host, Request::DigitFate(k), fate));
            matches!(fate, Reply::Replace)
        } else {
            false
        };
        if replace {
            let d = random_digit();
            let digit = (d + 48) as char;
            assert(is_digit(digit));
            out.push(digit);
            changed = true;
        } else {
            out.push(c);
        }
        k += 1;
    }
    if changed {
        Some(string_of(&out))
    } else {
        None
    }
}

/// The remembered value, decayed: a number loses digits, a text loses words.
pub fn decay<H: Fn(Request) -> Reply>(v: &Variant, host: &H) -> (r: Variant)
    requires
        serves(*host),
    ensures
        decay_result(*host, v@, r@),
{
    match v {
        Variant::Integer(i) => {
            let t = show_int(*i);
            match decay_digits(&t, host) {
                Some(d) => match parse_int(d.as_str()) {
                    Some(j) => {
                        assert(digit_decay(*host, int_text(*i as int), d@));
                        Variant::Integer(j)
                    },
                    None => Variant::Integer(*i),
                },
                None => Variant::Integer(*i),
            }
        },
        Variant::Float(f) => match host_text(host, Request::ShowFloat(*f)) {
            Some(t) => match decay_digits(&t, host) {
                Some(d) => match host_parse_float(host, &d) {
                    Some(g) => Variant::Float(g),
                    None => Variant::Float(*f),
                },
                None => Variant::Float(*f),
            },
            None => Variant::Float(*f),
        },
        Variant::Str(s) => Variant::Str(decay_text(s, host)),
        _ => v.duplicate(),
    }
}

/// `after` and `r` are a possible outcome of writing `value` under `name` on the
/// current page of `before`: refused when the write is not allowed, else as the
/// page write goes, a failed conversion being fatal.
pub open spec fn literal_write_outcome<H: Fn(Request) -> Reply>(
    host: H,
    before: ProgramModel,
    name: Seq<char>,
    value: Option<Value>,
    r: Result<(), SpellbookError>,
    after: ProgramModel,
) -> bool {
    &&& !before.can_write(name) ==> r == Err::<(), SpellbookError>(
        SpellbookError { kind: ErrorKind::Precondition, line: before.line_number },
    ) && after == before
    &&& before.can_write(name) ==> {
        &&& after == before.with_page(after.page())
        &&& write_outcome(host, before.page(), name, value, false, 0, r is Ok, after.page())
        &&& r is Err ==> r == Err::<(), SpellbookError>(
            SpellbookError { kind: ErrorKind::Coercion, line: before.line_number },
        )
    }
}

/// A page write that succeeds leaves its name on the page: once an entry
/// name is on the current page, writing that name again is refused.
pub proof fn lemma_duplicate_name_refused<H: Fn(Request) -> Reply>(
    host: H,
    m0: ProgramModel,
    m1: ProgramModel,
    m2: ProgramModel,
    name: Seq<char>,
    v1: Value,
    v2: Option<Value>,
    r2: Result<(), SpellbookError>,
)
    requires
        m0.pages.len() == PAGES,
        m0.current < PAGES,
        m0.page().wf(),
        literal_write_outcome(host, m0, name, Some(v1), Ok(()), m1),
        literal_write_outcome(host, m1, name, v2, r2, m2),
    ensures
        r2 == Err::<(), SpellbookError>(
            SpellbookError { kind: ErrorKind::Precondition, line: m0.line_number },
        ),
        m2 == m1,
{
    assert(m0.can_write(name));
    let t = first_free(m0.page().values)->0;
    assert(m1.page().names[t] == name);
    assert(m1.page().has_name(name));
}

/// `after` is a possible result of writing the three slots of `src`, each into
/// the same slot of `before`, all successfully.
pub open spec fn put_back_outcome<H: Fn(Request) -> Reply>(
    host: H,
    before: PageModel,
    src: PageModel,
    after: PageModel,
) -> bool {
    exists|after_first: PageModel, after_second: PageModel|
        #[trigger] write_outcome(host, before, src.names[0], src.values[0], true, 0, true, after_first)
            && #[trigger] write_outcome(host, after_first, src.names[1], src.values[1], true, 1, true, after_second)
            && write_outcome(host, after_second, src.names[2], src.values[2], true, 2, true, after)
}

/// The printed piece of one slot: its printed value followed by the page's
/// signature, or nothing for an empty slot or an empty print.
pub open spec fn piece<H: Fn(Request) -> Reply>(
    host: H,
    v: Option<Value>,
    sig: Seq<char>,
    t: Seq<char>,
) -> bool {
    match v {
        None => t == Seq::<char>::empty(),
        Some(x) => printed_piece(host, x, sig, t),
    }
}

pub open spec fn printed_piece<H: Fn(Request) -> Reply>(
    host: H,
    x: Value,
    sig: Seq<char>,
    t: Seq<char>,
) -> bool {
    exists|p: Seq<char>|
        #[trigger] print_result(host, x, Some(p)) && t == if p.len() > 0 {
            p + sig
        } else {
            p
        }
}

/// Some slot of some page holds a float.
pub open spec fn holds_float(m: ProgramModel) -> bool {
    exists|i: int, k: int|
        0 <= i < PAGES && 0 <= k < SLOTS && #[trigger] m.pages[i].values[k] is Some && m.pages[i].values[k]->0 is Float
}

/// Some slot holds a float that the host may refuse to print.
pub open spec fn unprintable<H: Fn(Request) -> Reply>(host: H, m: ProgramModel) -> bool {
    exists|i: int, k: int|
        0 <= i < PAGES && 0 <= k < SLOTS && #[trigger] m.pages[i].values[k] is Some && m.pages[i].values[k]->0 is Float
            && text_outcome(host, Request::ShowFloat(m.pages[i].values[k]->0->Float_0), None)
}

/// What closes a published book: the custom signature when one was set, else
/// the default trailer when the text page has content, else the alternate one.
pub open spec fn trailer(m: ProgramModel) -> Seq<char> {
    if m.custom {
        m.signature
    } else if m.pages[3].has_contents() {
        DEFAULT_WRAPUP@
    } else {
        DEFAULT_WRAPUP_QED@
    }
}

/// `out` is a possible published book of `m`: the pieces of every slot, pages
/// in order and slots in order, then the trailer.
pub open spec fn book<H: Fn(Request) -> Reply>(host: H, m: ProgramModel, out: Seq<char>) -> bool {
    exists|pieces: Seq<Seq<char>>|
        #[trigger] pieces.len() == PAGES * SLOTS && (forall|k: int|
            0 <= k < PAGES * SLOTS ==> piece(
                host,
                m.pages[k / 3].values[k % 3],
                m.pages[k / 3].signature,
                #[trigger] pieces[k],
            )) && out == pieces.flatten_alt() + trailer(m)
}

proof fn lemma_flatten_empty(ps: Seq<Seq<char>>)
    requires
        forall|k: int| 0 <= k < ps.len() ==> (#[trigger] ps[k]).len() == 0,
    ensures
        ps.flatten_alt() =~= Seq::<char>::empty(),
    decreases ps.len(),
{
    if ps.len() > 0 {
        lemma_flatten_empty(ps.drop_last());
    }
}

/// A book published while no page holds a value and no custom signature is
/// set is the alternate trailer alone.
pub proof fn lemma_empty_book<H: Fn(Request) -> Reply>(host: H, m: ProgramModel, out: Seq<char>)
    requires
        m.pages.len() == PAGES,
        forall|i: int| 0 <= i < PAGES ==> (#[trigger] m.pages[i]).wf(),
        m.totally_empty(),
        !m.custom,
        book(host, m, out),
    ensures
        out == DEFAULT_WRAPUP_QED@,
{
    let pieces = choose|pieces: Seq<Seq<char>>|
        #[trigger] pieces.len() == PAGES * SLOTS && (forall|k: int|
            0 <= k < PAGES * SLOTS ==> piece(
                host,
                m.pages[k / 3].values[k % 3],
                m.pages[k / 3].signature,
                #[trigger] pieces[k],
            )) && out == pieces.flatten_alt() + trailer(m);
    assert forall|k: int| 0 <= k < pieces.len() implies (#[trigger] pieces[k]).len() == 0 by {
        let pg = m.pages[k / 3];
        assert(!pg.has_contents());
        assert(pg.values[k % 3] is None);
        assert(piece(host, pg.values[k % 3], pg.signature, pieces[k]));
    }
    lemma_flatten_empty(pieces);
    assert(!m.pages[3].has_contents());
    assert(out =~= DEFAULT_WRAPUP_QED@);
}

fn append_chars(out: &mut Vec<char>, s: &String)
    ensures
        final(out)@ == old(out)@ + s@,
{
    let cs = chars_of(s.as_str());
    let mut i: usize = 0;
    while i < cs.len()
        invariant
            i <= cs.len(),
            out@ == old(out)@ + cs@.subrange(0, i as int),
        decreases cs.len() - i,
    {
        out.push(cs[i]);
        i += 1;
        assert(out@ =~= old(out)@ + cs@.subrange(0, i as int));
    }
    assert(cs@.subrange(0, cs.len() as int) =~= cs@);
}

/// `after` and `r` are the outcome of moving the line cursor by `by`: an
/// integer moves it, unless that leaves the range of `usize`; anything else is fatal.
pub open spec fn line_move_outcome(
    before: ProgramModel,
    by: Value,
    r: Result<(), SpellbookError>,
    after: ProgramModel,
) -> bool {
    &&& match by {
        Value::Integer(k) => if 0 <= before.line + k <= usize::MAX {
            r is Ok && after == (ProgramModel {
                line: (before.line + k) as usize,
                ..before
            })
        } else {
            r == Err::<(), SpellbookError>(
                SpellbookError { kind: ErrorKind::Underflow, line: before.line_number },
            ) && after == before
        },
        _ => r == Err::<(), SpellbookError>(
            SpellbookError { kind: ErrorKind::Parse, line: before.line_number },
        ) && after == before,
    }
}

/// `after` and `r` are a possible outcome of writing the remembered value,
/// decayed, under `name` on the current page of `before`.
pub open spec fn memory_write_outcome<H: Fn(Request) -> Reply>(
    host: H,
    before: ProgramModel,
    name: Seq<char>,
    r: Result<(), SpellbookError>,
    after: ProgramModel,
) -> bool {
    &&& !before.can_write(name) || before.memory is None ==> r == Err::<(), SpellbookError>(
        SpellbookError { kind: ErrorKind::Precondition, line: before.line_number },
    ) && after == before
    &&& before.can_write(name) && before.memory is Some ==> {
        &&& after == before.with_page(after.page())
        &&& exists|d: Value|
            #[trigger] decay_result(host, before.memory->0, d) && write_outcome(
                host,
                before.page(),
                name,
                Some(d),
                false,
                0,
                r is Ok,
                after.page(),
            )
        &&& r is Err ==> r == Err::<(), SpellbookError>(
            SpellbookError { kind: ErrorKind::Coercion, line: before.line_number },
        )
    }
}

/// `after` and `r` are the outcome of signing the current page with `with`:
/// a page must have been selected, and it can be signed once.
pub open spec fn sign_outcome(
    before: ProgramModel,
    with: Seq<char>,
    r: Result<(), SpellbookError>,
    after: ProgramModel,
) -> bool {
    &&& (!before.turned || before.page().signed) ==> r == Err::<(), SpellbookError>(
        SpellbookError { kind: ErrorKind::Precondition, line: before.line_number },
    ) && after == before
    &&& (before.turned && !before.page().signed) ==> r is Ok && after == before.with_page(
        PageModel { signature: with, signed: true, ..before.page() },
    )
}

/// `after` and `r` are a possible outcome of casting `spell` in state `before`.
pub open spec fn cast_outcome<H: Fn(Request) -> Reply>(
    host: H,
    before: ProgramModel,
    spell: CauldronSpell,
    r: Result<(), SpellbookError>,
    after: ProgramModel,
) -> bool {
    &&& r is Err ==> r->Err_0.line == before.line_number
    &&& (exists|mid: CauldronModel, res: CauldronSpellResult|
        #[trigger] spell_outcome(host, spell, before.cauldron, mid, Some(res)) && flow_outcome(
            before,
            res,
            mid,
            after,
            r,
        )) || (spell_outcome(host, spell, before.cauldron, before.cauldron, None) && r
        == Err::<(), SpellbookError>(
        SpellbookError { kind: ErrorKind::Precondition, line: before.line_number },
    ) && after == before)
    &&& spell == CauldronSpell::Reverberate && before.checkpoints.len() == 0 ==> r
        == Err::<(), SpellbookError>(
        SpellbookError { kind: ErrorKind::Underflow, line: before.line_number },
    )
}

/// Folding the current page into the cauldron may fail: the cauldron holds a
/// page and some pair of slots does not combine.
pub open spec fn fold_refused<H: Fn(Request) -> Reply>(host: H, before: ProgramModel) -> bool {
    before.cauldron.page is Some && exists|i: int|
        0 <= i < SLOTS && #[trigger] crate::cauldron::slot_fails(
            host,
            crate::cauldron::mix_op(before.cauldron.mode),
            before.cauldron.page->0.values[i],
            before.page().values[i],
        )
}

/// `after` and `r` are a possible outcome of tearing out the current page of `before`.
pub open spec fn tear_outcome<H: Fn(Request) -> Reply>(
    host: H,
    before: ProgramModel,
    put_in_drawer: bool,
    put_in_cauldron: bool,
    r: Result<(), SpellbookError>,
    after: ProgramModel,
) -> bool {
    &&& !before.turned ==> r == Err::<(), SpellbookError>(
        SpellbookError { kind: ErrorKind::Precondition, line: before.line_number },
    ) && after == before
    &&& before.turned && r is Err ==> fold_refused(host, before)
    &&& before.turned && r is Err ==> r == Err::<(), SpellbookError>(
        SpellbookError { kind: ErrorKind::Combine, line: before.line_number },
    ) && after == before && put_in_cauldron
    &&& r is Ok ==> {
        &&& before.turned
        &&& after.pages == before.pages.update(before.current as int, before.page().cleared())
        &&& after.drawer == if put_in_drawer {
            before.drawer.push(before.page())
        } else {
            before.drawer
        }
        &&& !put_in_cauldron ==> after.cauldron == before.cauldron
        &&& after == (ProgramModel {
            pages: after.pages,
            drawer: after.drawer,
            cauldron: after.cauldron,
            ..before
        })
    }
    &&& r is Ok && put_in_cauldron ==> match before.cauldron.page {
        None => after.cauldron == (CauldronModel {
            page: Some(before.page()),
            ..before.cauldron
        }),
        Some(acc) => after.cauldron.page is Some && after.cauldron == (CauldronModel {
            page: after.cauldron.page,
            ..before.cauldron
        }) && crate::cauldron::folded_page(
            host,
            crate::cauldron::mix_op(before.cauldron.mode),
            acc,
            before.page(),
            after.cauldron.page->0,
        ),
    }
}

/// A page to put back is there: in the drawer, or on the floor.
pub open spec fn has_source(before: ProgramModel, from_drawer: bool) -> bool {
    if from_drawer {
        before.drawer.len() > 0
    } else {
        before.floor is Some
    }
}

/// The page put back: the last in the drawer, or the one on the floor.
pub open spec fn source(before: ProgramModel, from_drawer: bool) -> PageModel {
    if from_drawer {
        before.drawer.last()
    } else {
        before.floor->0
    }
}

/// The slot holds a value that the host may refuse to convert to `kind`.
pub open spec fn refuses_slot<H: Fn(Request) -> Reply>(host: H, kind: PageType, v: Option<Value>) -> bool {
    v is Some && crate::page::coerced(host, kind, v->0, None)
}

/// `after` and `r` are a possible outcome of putting a page back onto the
/// current page of `before`, from the drawer or from the floor.
pub open spec fn put_back_result<H: Fn(Request) -> Reply>(
    host: H,
    before: ProgramModel,
    from_drawer: bool,
    r: Result<(), SpellbookError>,
    after: ProgramModel,
) -> bool {
    &&& r is Err ==> after == before && r->Err_0.line == before.line_number
    &&& !before.turned ==> r is Err && r->Err_0.kind == ErrorKind::Precondition
    &&& from_drawer && before.drawer.len() == 0 ==> r is Err && r->Err_0.kind == ErrorKind::Precondition
    &&& !from_drawer && before.floor is None ==> r is Err && r->Err_0.kind == ErrorKind::Precondition
    &&& r is Err ==> r->Err_0.kind == ErrorKind::Precondition || r->Err_0.kind == ErrorKind::Coercion
    &&& r is Err && r->Err_0.kind == ErrorKind::Precondition ==> !before.turned || !has_source(before, from_drawer)
    &&& r is Err && r->Err_0.kind == ErrorKind::Coercion ==> exists|i: int|
        0 <= i < SLOTS && #[trigger] refuses_slot(host, before.page().kind, source(before, from_drawer).values[i])
    &&& before.turned && has_source(before, from_drawer) && (forall|i: int|
        0 <= i < SLOTS ==> !#[trigger] refuses_slot(host, before.page().kind, source(before, from_drawer).values[i]))
        ==> r is Ok
    &&& r is Ok ==> {
        let src = if from_drawer {
            before.drawer.last()
        } else {
            before.floor->0
        };
        let first_page = before.page();
        let last_page = after.page();
        &&& before.turned
        &&& put_back_outcome(host, first_page, src, last_page)
        &&& after == (ProgramModel {
            pages: before.pages.update(before.current as int, last_page),
            drawer: if from_drawer {
                before.drawer.drop_last()
            } else {
                before.drawer
            },
            ..before
        })
    }
}

impl Program {
    pub open spec fn wf(&self) -> bool {
        &&& self.pages.len() == PAGES
        &&& forall|i: int| 0 <= i < PAGES ==> (#[trigger] self.pages@[i]).wf() && self.pages@[i]@.kind == kind_at(i)
        &&& self.current_page < PAGES
        &&& self.cauldron.wf()
        &&& forall|i: int| 0 <= i < self.drawer.len() ==> (#[trigger] self.drawer@[i]).wf()
        &&& self.floor matches Some(p) ==> p.wf()
    }

    proof fn lemma_view_page(&self, i: int)
        requires
            self.wf(),
            0 <= i < PAGES,
        ensures
            self@.pages[i] == self.pages@[i]@,
            self@.pages[i].wf(),
            self@.pages.len() == PAGES,
    {
    }

    pub fn new(debug_mode: bool) -> (r: Program)
        ensures
            r.wf(),
            r@.pages == seq![
                PageModel::blank(PageType::Boolean),
                PageModel::blank(PageType::Integer),
                PageModel::blank(PageType::Float),
                PageModel::blank(PageType::Str),
                PageModel::blank(PageType::Routine),
            ],
            r@.cauldron == Cauldron::new_model(),
            r@.checkpoints.len() == 0,
            r@.current == 0,
            !r@.turned,
            r@.drawer.len() == 0,
            r@.floor is None,
            r@.memory is None,
            !r@.custom,
            r@.signature.len() == 0,
            r@.line == 0,
            r@.line_number == 1,
            !r@.exit,
            r@.output.len() == 0,
            r.debug_mode == debug_mode,
    {
        let pages = vec![
            Page::new(PageType::Boolean),
            Page::new(PageType::Integer),
            Page::new(PageType::Float),
            Page::new(PageType::Str),
            Page::new(PageType::Routine),
        ];
        let r = Program {
            pages,
            cauldron: Cauldron::new(),
            spell_line_stack: Vec::new(),
            current_page: 0,
            turned_to_any_page: false,
            drawer: Vec::new(),
            floor: None,
            memory: None,
            custom_signature: String::new(),
            use_custom_signature: false,
            line_internal: 0,
            line_number: 1,
            exit: false,
            debug_mode,
            output: Vec::new(),
        };
        assert(r@.pages =~= seq![
            PageModel::blank(PageType::Boolean),
            PageModel::blank(PageType::Integer),
            PageModel::blank(PageType::Float),
            PageModel::blank(PageType::Str),
            PageModel::blank(PageType::Routine),
        ]);
        r
    }

    fn fail(&self, kind: ErrorKind) -> (r: SpellbookError)
        ensures
            r == (SpellbookError { kind, line: self.line_number }),
    {
        SpellbookError { kind, line: self.line_number }
    }

    /// Moves the line cursor by an integer; anything else is fatal, and so is
    /// moving it out of range.
    pub fn change_line_by(&mut self, by: &Variant) -> (r: Result<(), SpellbookError>)
        ensures
            final(self).wf() == old(self).wf(),
            final(self).debug_mode == old(self).debug_mode,
            line_move_outcome(old(self)@, by@, r, final(self)@),
    {
        match by {
            Variant::Integer(k) => {
                let target: i128 = self.line_internal as i128 + *k as i128;
                if target < 0 || target > usize::MAX as i128 {
                    return Err(self.fail(ErrorKind::Underflow));
                }
                self.line_internal = target as usize;
                Ok(())
            },
            _ => Err(self.fail(ErrorKind::Parse)),
        }
    }

    pub fn is_totally_empty(&self) -> (r: bool)
        requires
            self.wf(),
        ensures
            r == self@.totally_empty(),
    {
        let mut i: usize = 0;
        while i < PAGES
            invariant
                self.wf(),
                i <= PAGES,
                forall|k: int| 0 <= k < i ==> !(#[trigger] self@.pages[k]).has_contents(),
            decreases PAGES - i,
        {
            if self.pages[i].has_any_contents() {
                assert(self@.pages[i as int].has_contents());
                return false;
            }
            i += 1;
        }
        true
    }

    /// Whether `name` may be written on the current page.
    pub fn can_write_to_page(&self, name: &String) -> (r: bool)
        requires
            self.wf(),
        ensures
            r == self@.can_write(name@),
    {
        proof {
            self.lemma_view_page(self.current_page as int);
        }
        self.turned_to_any_page && !self.pages[self.current_page].has_name(name)
            && !self.pages[self.current_page].is_full()
    }

    pub fn turn_to_page(&mut self, page_index: usize)
        requires
            old(self).wf(),
            page_index < PAGES,
        ensures
            final(self).wf(),
            final(self)@ == (ProgramModel { current: page_index, turned: true, ..old(self)@ }),
    {
        self.current_page = page_index;
        self.turned_to_any_page = true;
    }

    /// Sets the custom trailer of published books.
    pub fn set_signature(&mut self, signature: String)
        requires
            old(self).wf(),
        ensures
            final(self).wf(),
            final(self)@ == (ProgramModel { signature: signature@, custom: true, ..old(self)@ }),
    {
        self.custom_signature = signature;
        self.use_custom_signature = true;
    }

    /// Replaces the current page.
    fn put_page(&mut self, p: Page)
        requires
            old(self).wf(),
            p.wf(),
            p@.kind == old(self)@.page().kind,
        ensures
            final(self).wf(),
            final(self)@ == old(self)@.with_page(p@),
            final(self).debug_mode == old(self).debug_mode,
    {
        let ghost before = self@;
        let i = self.current_page;
        proof {
            self.lemma_view_page(i as int);
        }
        self.pages.set(i, p);
        assert(self@.pages =~= before.pages.update(i as int, p@));
        assert(self@.drawer =~= before.drawer);
        assert(self@.output =~= before.output);
    }

    /// Writes a value under `name` on the current page. Fatal when the write is
    /// not allowed (`can_write`) or the value does not convert to the page's kind.
    pub fn write_literal_value<H: Fn(Request) -> Reply>(
        &mut self,
        name: String,
        value: Option<Variant>,
        host: &H,
    ) -> (r: Result<(), SpellbookError>)
        requires
            old(self).wf(),
            serves(*host),
        ensures
            final(self).wf(),
            final(self).debug_mode == old(self).debug_mode,
            literal_write_outcome(*host, old(self)@, name@, opt_view(value), r, final(self)@),
    {
        if !self.can_write_to_page(&name) {
            return Err(self.fail(ErrorKind::Precondition));
        }
        proof {
            self.lemma_view_page(self.current_page as int);
        }
        let mut p = self.pages[self.current_page].duplicate();
        assert(p@ == old(self)@.page());
        if p.write_value(name, value, false, 0, host) {
            self.put_page(p);
            assert(self@.page() == p@);
            Ok(())
        } else {
            assert(self@.pages.update(self.current_page as int, self@.page()) =~= self@.pages);
            Err(self.fail(ErrorKind::Coercion))
        }
    }

    /// Writes the remembered value, decayed, under `name` on the current page.
    /// Fatal when the write is not allowed, nothing is remembered, or the value
    /// does not convert.
    pub fn write_memory_value<H: Fn(Request) -> Reply>(&mut self, name: String, host: &H) -> (r: Result<
        (),
        SpellbookError,
    >)
        requires
            old(self).wf(),
            serves(*host),
        ensures
            final(self).wf(),
            final(self).debug_mode == old(self).debug_mode,
            memory_write_outcome(*host, old(self)@, name@, r, final(self)@),
    {
        if !self.can_write_to_page(&name) {
            return Err(self.fail(ErrorKind::Precondition));
        }
        let d = match &self.memory {
            Some(v) => decay(v, host),
            None => return Err(self.fail(ErrorKind::Precondition)),
        };
        proof {
            self.lemma_view_page(self.current_page as int);
        }
        let ghost dv = d@;
        let mut p = self.pages[self.current_page].duplicate();
        if p.write_value(name, Some(d), false, 0, host) {
            self.put_page(p);
            assert(decay_result(*host, old(self)@.memory->0, dv));
            Ok(())
        } else {
            assert(self@.pages.update(self.current_page as int, self@.page()) =~= self@.pages);
            assert(decay_result(*host, old(self)@.memory->0, dv));
            Err(self.fail(ErrorKind::Coercion))
        }
    }

    /// The value in slot `index` of the current page.
    pub fn get_value_by_index(&self, index: usize) -> (r: Option<Variant>)
        requires
            self.wf(),
            index < SLOTS,
        ensures
            opt_view(r) == self@.page().values[index as int],
    {
        proof {
            self.lemma_view_page(self.current_page as int);
        }
        duplicate_opt(&self.pages[self.current_page].values[index])
    }

    /// The value under `name` on the current page.
    pub fn try_get_value(&self, name: &String) -> (r: Option<Variant>)
        requires
            self.wf(),
        ensures
            opt_view(r) == match crate::page::find_name(self@.page().names, name@) {
                Some(i) => self@.page().values[i],
                None => None::<Value>,
            },
    {
        proof {
            self.lemma_view_page(self.current_page as int);
        }
        self.pages[self.current_page].read_value_by_name(name)
    }

    /// Remembers a value, replacing what was remembered.
    pub fn memorize_value(&mut self, value: Option<Variant>)
        requires
            old(self).wf(),
        ensures
            final(self).wf(),
            final(self)@ == (ProgramModel { memory: opt_view(value), ..old(self)@ }),
    {
        self.memory = value;
    }

    /// Empties the cauldron onto the floor.
    pub fn knock_over_cauldron(&mut self)
        requires
            old(self).wf(),
        ensures
            final(self).wf(),
            final(self)@ == (ProgramModel {
                floor: old(self)@.cauldron.page,
                cauldron: CauldronModel { page: None, ..old(self)@.cauldron },
                ..old(self)@
            }),
    {
        self.floor = self.cauldron.knock_over();
    }

    /// Sets the current page's signature; it can be set once.
    pub fn sign_page(&mut self, with: String) -> (r: Result<(), SpellbookError>)
        requires
            old(self).wf(),
        ensures
            final(self).wf(),
            sign_outcome(old(self)@, with@, r, final(self)@),
    {
        proof {
            self.lemma_view_page(self.current_page as int);
        }
        if !self.turned_to_any_page || self.pages[self.current_page].changed_signature {
            return Err(self.fail(ErrorKind::Precondition));
        }
        let mut p = self.pages[self.current_page].duplicate();
        p.signature = with;
        p.changed_signature = true;
        assert(p@.names == old(self)@.page().names);
        self.put_page(p);
        Ok(())
    }

    /// Casts a spell on the cauldron and applies what it asks of the line
    /// cursor (see `flow_outcome`). Fatal when the spell fails, when a skip
    /// runs past the largest line, and when a jump finds no checkpoint.
    pub fn cast_cauldron_spell<H: Fn(Request) -> Reply>(
        &mut self,
        spell: &CauldronSpell,
        host: &H,
    ) -> (r: Result<(), SpellbookError>)
        requires
            old(self).wf(),
            serves(*host),
        ensures
            final(self).wf(),
            final(self).debug_mode == old(self).debug_mode,
            cast_outcome(*host, old(self)@, *spell, r, final(self)@),
    {
        let ghost before = self@;
        let mut c = Cauldron {
            page: self.cauldron.page.take(),
            spell_charge: self.cauldron.spell_charge,
            spell_charge_amplifier: self.cauldron.spell_charge_amplifier,
            mix_mode: self.cauldron.mix_mode,
        };
        assert(c@ == before.cauldron);
        let res = c.cast_spell(spell, host);
        let ghost mid = c@;
        match res {
            None => {
                self.cauldron = c;
                assert(self@.drawer =~= before.drawer);
                assert(self@.pages =~= before.pages);
                assert(self@.output =~= before.output);
                return Err(self.fail(ErrorKind::Precondition));
            },
            Some(CauldronSpellResult::DoNothing) => {
                let amp = c.get_amplifier();
                c.increase_charge(false, 0);
                self.cauldron = c;
                self.spell_line_stack.push((self.line_internal, amp));
                assert(self@.drawer =~= before.drawer);
                assert(self@.pages =~= before.pages);
                assert(self@.output =~= before.output);
                assert(flow_outcome(before, CauldronSpellResult::DoNothing, mid, self@, Ok(())));
                Ok(())
            },
            Some(CauldronSpellResult::NoCharge) => {
                self.cauldron = c;
                assert(self@.drawer =~= before.drawer);
                assert(self@.pages =~= before.pages);
                assert(self@.output =~= before.output);
                Ok(())
            },
            Some(CauldronSpellResult::SkipLine(n)) => {
                if n > usize::MAX - self.line_internal {
                    self.cauldron = c;
                    assert(mid == before.cauldron);
                    assert(self@.drawer =~= before.drawer);
                    assert(self@.pages =~= before.pages);
                    assert(self@.output =~= before.output);
                    assert(self@ == before);
                    return Err(self.fail(ErrorKind::Underflow));
                }
                let amp = c.get_amplifier();
                c.increase_charge(false, 0);
                self.cauldron = c;
                self.spell_line_stack.push((self.line_internal, amp));
                self.line_internal = self.line_internal + n;
                assert(self@.drawer =~= before.drawer);
                assert(self@.pages =~= before.pages);
                assert(self@.output =~= before.output);
                Ok(())
            },
            Some(CauldronSpellResult::JumpBack(d)) => {
                if d >= self.spell_line_stack.len() || self.spell_line_stack[d].0 == 0 {
                    self.cauldron = c;
                    assert(mid == before.cauldron);
                    assert(self@.drawer =~= before.drawer);
                    assert(self@.pages =~= before.pages);
                    assert(self@.output =~= before.output);
                    assert(self@ == before);
                    return Err(self.fail(ErrorKind::Underflow));
                }
                let target = self.spell_line_stack[d].0 - 1;
                let mut stack: Vec<(usize, usize)> = Vec::new();
                core::mem::swap(&mut stack, &mut self.spell_line_stack);
                assert(stack@ =~= before.checkpoints.subrange(0, stack.len() as int));
                assert(before.checkpoints.subrange(stack.len() as int, before.checkpoints.len() as int)
                    =~= Seq::<(usize, usize)>::empty());
                while stack.len() > d + 1
                    invariant
                        stack.len() > d,
                        stack.len() <= before.checkpoints.len(),
                        d < before.checkpoints.len(),
                        stack@ == before.checkpoints.subrange(0, stack.len() as int),
                        c.wf(),
                        c@ == (CauldronModel {
                            charge: drained(
                                mid.charge,
                                before.checkpoints.subrange(stack.len() as int, before.checkpoints.len() as int),
                            ),
                            ..mid
                        }),
                    decreases stack.len(),
                {
                    let ghost len = stack.len() as int;
                    let top = stack.pop();
                    match top {
                        Some(cp) => {
                            assert(cp == before.checkpoints[len - 1]);
                            c.decrease_charge(true, cp.1);
                        },
                        None => {},
                    }
                    proof {
                        let tail = before.checkpoints.subrange(len - 1, before.checkpoints.len() as int);
                        assert(tail.drop_first() =~= before.checkpoints.subrange(len, before.checkpoints.len() as int));
                        assert(stack@ =~= before.checkpoints.subrange(0, len - 1));
                    }
                }
                c.reset_amplifier();
                self.spell_line_stack = stack;
                self.cauldron = c;
                self.line_internal = target;
                assert(self@.drawer =~= before.drawer);
                assert(self@.pages =~= before.pages);
                assert(self@.output =~= before.output);
                Ok(())
            },
        }
    }

    /// Tears out the current page: a copy goes to the drawer and/or is folded
    /// into the cauldron, then the page is emptied (its signature stays).
    /// Fatal before any page was selected and when the fold fails; nothing
    /// changes then.
    pub fn tear_out_page<H: Fn(Request) -> Reply>(
        &mut self,
        put_in_drawer: bool,
        put_in_cauldron: bool,
        host: &H,
    ) -> (r: Result<(), SpellbookError>)
        requires
            old(self).wf(),
            serves(*host),
        ensures
            final(self).wf(),
            final(self).debug_mode == old(self).debug_mode,
            tear_outcome(*host, old(self)@, put_in_drawer, put_in_cauldron, r, final(self)@),
    {
        if !self.turned_to_any_page {
            return Err(self.fail(ErrorKind::Precondition));
        }
        let ghost before = self@;
        let i = self.current_page;
        proof {
            self.lemma_view_page(i as int);
        }
        if put_in_cauldron {
            let mut c = Cauldron {
                page: self.cauldron.page.take(),
                spell_charge: self.cauldron.spell_charge,
                spell_charge_amplifier: self.cauldron.spell_charge_amplifier,
                mix_mode: self.cauldron.mix_mode,
            };
            let ok = c.add_page(&self.pages[i], host);
            self.cauldron = c;
            if !ok {
                assert(self@.drawer =~= before.drawer);
                assert(self@.pages =~= before.pages);
                assert(self@.output =~= before.output);
                return Err(self.fail(ErrorKind::Combine));
            }
        }
        if put_in_drawer {
            let copy = self.pages[i].duplicate();
            self.drawer.push(copy);
        }
        let mut p = self.pages[i].duplicate();
        p.clear_page();
        self.pages.set(i, p);
        assert(self@.pages =~= before.pages.update(i as int, before.page().cleared()));
        assert(self@.output =~= before.output);
        if put_in_drawer {
            assert(self@.drawer =~= before.drawer.push(before.page()));
        } else {
            assert(self@.drawer =~= before.drawer);
        }
        Ok(())
    }

    /// Puts a page back onto the current page, slot by slot and without name
    /// checks: the last page in the drawer (taken out of it) or the page on the
    /// floor (which stays there). Fatal before any page was selected, with an
    /// empty drawer or floor, and when a value does not convert to the current
    /// page's kind; nothing changes then.
    pub fn put_back_page<H: Fn(Request) -> Reply>(&mut self, from_drawer: bool, host: &H) -> (r: Result<
        (),
        SpellbookError,
    >)
        requires
            old(self).wf(),
            serves(*host),
        ensures
            final(self).wf(),
            final(self).debug_mode == old(self).debug_mode,
            put_back_result(*host, old(self)@, from_drawer, r, final(self)@),
    {
        if !self.turned_to_any_page {
            return Err(self.fail(ErrorKind::Precondition));
        }
        let ghost before = self@;
        let i = self.current_page;
        proof {
            self.lemma_view_page(i as int);
        }
        let src = if from_drawer {
            let n = self.drawer.len();
            if n == 0 {
                return Err(self.fail(ErrorKind::Precondition));
            }
            self.drawer[n - 1].duplicate()
        } else {
            match &self.floor {
                Some(p) => p.duplicate(),
                None => return Err(self.fail(ErrorKind::Precondition)),
            }
        };
        assert(src@ == source(before, from_drawer));
        let ghost kind = before.page().kind;
        let mut p = self.pages[i].duplicate();
        let ghost first_page = p@;
        if !p.write_value(src.entry_names[0].clone(), duplicate_opt(&src.values[0]), true, 0, host) {
            assert(refuses_slot(*host, kind, src@.values[0]));
            return Err(self.fail(ErrorKind::Coercion));
        }
        let ghost after_first = p@;
        assert(p@.kind == kind);
        if !p.write_value(src.entry_names[1].clone(), duplicate_opt(&src.values[1]), true, 1, host) {
            assert(refuses_slot(*host, kind, src@.values[1]));
            return Err(self.fail(ErrorKind::Coercion));
        }
        let ghost after_second = p@;
        assert(p@.kind == kind);
        if !p.write_value(src.entry_names[2].clone(), duplicate_opt(&src.values[2]), true, 2, host) {
            assert(refuses_slot(*host, kind, src@.values[2]));
            return Err(self.fail(ErrorKind::Coercion));
        }
        if from_drawer {
            self.drawer.pop();
        }
        self.pages.set(i, p);
        assert(self@.pages =~= before.pages.update(i as int, p@));
        assert(self@.output =~= before.output);
        if from_drawer {
            assert(self@.drawer =~= before.drawer.drop_last());
        } else {
            assert(self@.drawer =~= before.drawer);
        }
        assert(write_outcome(*host, first_page, src@.names[0], src@.values[0], true, 0, true, after_first));
        assert(write_outcome(*host, after_first, src@.names[1], src@.values[1], true, 1, true, after_second));
        assert(self@.page() == p@);
        assert(first_page == before.page());
        assert(put_back_outcome(*host, first_page, src@, p@));
        assert(self@ == (ProgramModel {
            pages: before.pages.update(before.current as int, p@),
            drawer: if from_drawer {
                before.drawer.drop_last()
            } else {
                before.drawer
            },
            ..before
        }));
        Ok(())
    }

    /// The published book (see `book`). Fatal when the host cannot print a float.
    pub fn publish<H: Fn(Request) -> Reply>(&self, host: &H) -> (r: Result<String, SpellbookError>)
        requires
            self.wf(),
            serves(*host),
        ensures
            r matches Ok(s) ==> book(*host, self@, s@),
            r is Err ==> r == Err::<String, SpellbookError>(
                SpellbookError { kind: ErrorKind::Coercion, line: self.line_number },
            ) && unprintable(*host, self@),
            !holds_float(self@) ==> r is Ok,
    {
        let mut out: Vec<char> = Vec::new();
        let ghost mut pieces: Seq<Seq<char>> = Seq::empty();
        let mut p: usize = 0;
        while p < PAGES
            invariant
                self.wf(),
                serves(*host),
                p <= PAGES,
                pieces.len() == p * SLOTS,
                forall|k: int|
                    0 <= k < p * SLOTS ==> piece(
                        *host,
                        self@.pages[k / 3].values[k % 3],
                        self@.pages[k / 3].signature,
                        #[trigger] pieces[k],
                    ),
                out@ == pieces.flatten_alt(),
            decreases PAGES - p,
        {
            proof {
                self.lemma_view_page(p as int);
            }
            let mut v: usize = 0;
            while v < SLOTS
                invariant
                    self.wf(),
                    serves(*host),
                    p < PAGES,
                    v <= SLOTS,
                    pieces.len() == p * SLOTS + v,
                    forall|k: int|
                        0 <= k < p * SLOTS + v ==> piece(
                            *host,
                            self@.pages[k / 3].values[k % 3],
                            self@.pages[k / 3].signature,
                            #[trigger] pieces[k],
                        ),
                    out@ == pieces.flatten_alt(),
                decreases SLOTS - v,
            {
                proof {
                    self.lemma_view_page(p as int);
                }
                let ghost k = (p * SLOTS + v) as int;
                assert(k / 3 == p as int && k % 3 == v as int);
                let ghost start = out@;
                let ghost t: Seq<char>;
                match &self.pages[p].values[v] {
                    Some(val) => {
                        let printed = match val.print(host) {
                            Some(s) => s,
                            None => {
                                assert(val@ is Float);
                                assert(self@.pages[p as int].values[v as int] == Some(val@));
                                return Err(self.fail(ErrorKind::Coercion));
                            },
                        };
                        append_chars(&mut out, &printed);
                        if printed.as_str().unicode_len() > 0 {
                            append_chars(&mut out, &self.pages[p].signature);
                            proof {
                                t = printed@ + self.pages@[p as int].signature@;
                            }
                        } else {
                            proof {
                                t = printed@;
                            }
                        }
                        assert(print_result(*host, val@, Some(printed@)));
                        assert(printed_piece(*host, val@, self@.pages[p as int].signature, t));
                    },
                    None => {
                        proof {
                            t = Seq::empty();
                        }
                    },
                }
                let ghost np = pieces.push(t);
                assert(np.drop_last() =~= pieces);
                assert(out@ =~= np.flatten_alt());
                proof {
                    pieces = np;
                }
                v += 1;
            }
            p += 1;
        }
        let trailer_text: String = if self.use_custom_signature {
            self.custom_signature.clone()
        } else if self.pages[3].has_any_contents() {
            String::from_str(DEFAULT_WRAPUP)
        } else {
            String::from_str(DEFAULT_WRAPUP_QED)
        };
        append_chars(&mut out, &trailer_text);
        assert(book(*host, self@, out@));
        Ok(string_of(&out))
    }

    /// Moves on to the next line of a program of `line_count` lines; a cursor
    /// already past the last line is fatal.
    pub fn advance(&mut self, line_count: usize) -> (r: Result<(), SpellbookError>)
        requires
            old(self).wf(),
        ensures
            final(self).wf(),
            old(self)@.line >= line_count ==> r == Err::<(), SpellbookError>(
                SpellbookError { kind: ErrorKind::Underflow, line: old(self).line_number },
            ) && final(self)@ == old(self)@,
            old(self)@.line < line_count ==> r is Ok && final(self)@ == (ProgramModel {
                line: (old(self)@.line + 1) as usize,
                ..old(self)@
            }),
    {
        if self.line_internal >= line_count {
            return Err(self.fail(ErrorKind::Underflow));
        }
        self.line_internal = self.line_internal + 1;
        Ok(())
    }
}

} // verus!
