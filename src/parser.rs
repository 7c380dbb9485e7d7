//! The statement machine: feeds a line's tokens one at a time into a small
//! cache of partly recognized keyphrases and acts on the program as soon as a
//! statement is complete.
use vstd::prelude::*;
use vstd::string::StrSliceExecFns;
use crate::errors::{ErrorKind, SpellbookError};
use crate::host::{serves, Reply, Request};
use crate::cauldron::CauldronModel;
use crate::lexer::{
    chapter_index, chapter_number, lexed, lookup_spell, ordinal_index, ordinal_number, spell_of, token_views,
    tokenize_line, word_is, Keyphrase, Token, TokenModel,
};
use crate::page::find_name;
use crate::program::{
    book, cast_outcome, holds_float, unprintable, line_move_outcome, literal_write_outcome, memory_write_outcome, put_back_result,
    sign_outcome, tear_outcome, Program, ProgramModel, Publication, PAGES,
};
use crate::variant::{opt_view, Value, Variant};

verus! {

/// Where the machine stands: expecting a new keyphrase, or the argument of one.
#[derive(Clone, Copy, Debug, PartialEq, Eq, Structural)]
pub enum ParseStateStatus {
    Top,
    Keyphrase(Keyphrase),
}

pub struct ParserState {
    pub status: ParseStateStatus,
    pub cached_keyphrase: Option<Keyphrase>,
    pub cached_identifier: String,
    pub cached_builtin: String,
    pub cached_literal: Option<Variant>,
    pub cached_operand_list: Vec<Variant>,
}

/// The model of the machine's cache.
pub struct CacheModel {
    pub status: ParseStateStatus,
    pub keyphrase: Option<Keyphrase>,
    pub identifier: Seq<char>,
    pub builtin: Seq<char>,
    pub literal: Option<Value>,
    pub operands: nat,
}

impl CacheModel {
    /// Nothing is cached and a new keyphrase is expected.
    pub open spec fn is_clear(self) -> bool {
        &&& self.keyphrase is None
        &&& self.identifier.len() == 0
        &&& self.builtin.len() == 0
        &&& self.literal is None
        &&& self.operands == 0
        &&& self.status == ParseStateStatus::Top
    }
}

impl CacheModel {
    /// The cache of a machine that has seen nothing yet.
    pub open spec fn fresh() -> CacheModel {
        CacheModel {
            status: ParseStateStatus::Top,
            keyphrase: None,
            identifier: Seq::empty(),
            builtin: Seq::empty(),
            literal: None,
            operands: 0,
        }
    }
}

impl View for ParserState {
    type V = CacheModel;

    open spec fn view(&self) -> CacheModel {
        CacheModel {
            status: self.status,
            keyphrase: self.cached_keyphrase,
            identifier: self.cached_identifier@,
            builtin: self.cached_builtin@,
            literal: opt_view(self.cached_literal),
            operands: self.cached_operand_list@.len(),
        }
    }
}

impl ParserState {
    /// Nothing is cached and a new keyphrase is expected.
    pub open spec fn clear(&self) -> bool {
        self@.is_clear()
    }

    pub fn new() -> (r: ParserState)
        ensures
            r.clear(),
            r@ == CacheModel::fresh(),
    {
        let r = ParserState {
            status: ParseStateStatus::Top,
            cached_keyphrase: None,
            cached_identifier: String::new(),
            cached_builtin: String::new(),
            cached_literal: None,
            cached_operand_list: Vec::new(),
        };
        assert(r@.identifier =~= Seq::<char>::empty());
        assert(r@.builtin =~= Seq::<char>::empty());
        r
    }

    pub fn clear_cache(&mut self)
        ensures
            final(self).clear(),
    {
        self.cached_keyphrase = None;
        self.cached_identifier = String::new();
        self.cached_builtin = String::new();
        self.cached_literal = None;
        self.cached_operand_list = Vec::new();
        self.status = ParseStateStatus::Top;
    }

    pub fn is_cache_clear(&self) -> (r: bool)
        ensures
            r == self.clear(),
    {
        self.cached_keyphrase.is_none() && self.cached_identifier.as_str().unicode_len() == 0
            && self.cached_builtin.as_str().unicode_len() == 0 && self.cached_literal.is_none()
            && self.cached_operand_list.len() == 0 && self.status == ParseStateStatus::Top
    }
}

pub open spec fn parse_failure(p: ProgramModel) -> Result<(), SpellbookError> {
    Err(SpellbookError { kind: ErrorKind::Parse, line: p.line_number })
}

pub open spec fn precondition_failure(p: ProgramModel) -> Result<(), SpellbookError> {
    Err(SpellbookError { kind: ErrorKind::Precondition, line: p.line_number })
}

/// The value under `name` on the current page, if that slot holds one.
pub open spec fn page_lookup(p: ProgramModel, name: Seq<char>) -> Option<Value> {
    match find_name(p.page().names, name) {
        Some(i) => p.page().values[i],
        None => None,
    }
}

/// A parse failure that changes nothing.
pub open spec fn refused(p: ProgramModel, p_next: ProgramModel, r: Result<(), SpellbookError>) -> bool {
    r == parse_failure(p) && p_next == p
}

/// A step that only caches: the program stays as it is.
pub open spec fn caches(
    p: ProgramModel,
    s2: CacheModel,
    want: CacheModel,
    p_next: ProgramModel,
    r: Result<(), SpellbookError>,
) -> bool {
    r is Ok && s2 == want && p_next == p
}

/// Where `publish spellbook to` sends the book: the console, or a file.
pub open spec fn publish_target(t: TokenModel) -> Option<Option<Seq<char>>> {
    match t {
        TokenModel::Builtin(w) => if w == "console"@ {
            Some(None)
        } else {
            None
        },
        TokenModel::Literal(Value::Text(w)) => if w == "console"@ {
            Some(None)
        } else {
            Some(Some(w))
        },
        _ => None,
    }
}

/// The book of `p` is published to `target`, or, only when some slot holds a
/// float, the host cannot print it.
pub open spec fn published<H: Fn(Request) -> Reply>(
    host: H,
    p: ProgramModel,
    target: Option<Seq<char>>,
    s2: CacheModel,
    p_next: ProgramModel,
    r: Result<(), SpellbookError>,
) -> bool {
    &&& s2.is_clear()
    &&& r is Ok ==> exists|out: Seq<char>|
        #[trigger] book(host, p, out) && p_next == (ProgramModel { output: p.output.push((target, out)), ..p })
    &&& r is Err ==> r == Err::<(), SpellbookError>(
        SpellbookError { kind: ErrorKind::Coercion, line: p.line_number },
    ) && p_next == p && unprintable(host, p)
    &&& !holds_float(p) ==> r is Ok
}

/// `s2`, `p_next` and `r` are a possible outcome of feeding token `t` to the
/// machine in cache state `s` (expecting the argument of keyphrase `k`) and
/// program state `p`; `has_next` tells whether more tokens of the line follow.
pub open spec fn keyphrase_step<H: Fn(Request) -> Reply>(
    host: H,
    k: Keyphrase,
    s: CacheModel,
    t: TokenModel,
    has_next: bool,
    p: ProgramModel,
    s2: CacheModel,
    p_next: ProgramModel,
    r: Result<(), SpellbookError>,
) -> bool {
    let top = CacheModel { status: ParseStateStatus::Top, ..s };
    match k {
        Keyphrase::TurnToChapter => match t {
            TokenModel::Builtin(w) => match chapter_index(w) {
                Some(i) => if i < PAGES {
                    r is Ok && s2.is_clear() && p_next == (ProgramModel { current: i as usize, turned: true, ..p })
                } else {
                    refused(p, p_next, r)
                },
                None => refused(p, p_next, r),
            },
            _ => refused(p, p_next, r),
        },
        Keyphrase::Write => match t {
            TokenModel::Literal(v) => caches(
                p,
                s2,
                CacheModel { literal: Some(v), keyphrase: Some(Keyphrase::Write), ..top },
                p_next,
                r,
            ),
            TokenModel::Keyphrase(Keyphrase::FromMemory) => caches(
                p,
                s2,
                CacheModel { keyphrase: Some(Keyphrase::FromMemory), ..top },
                p_next,
                r,
            ),
            _ => refused(p, p_next, r),
        },
        Keyphrase::Copy => match t {
            TokenModel::Identifier(n) => caches(
                p,
                s2,
                CacheModel { identifier: n, keyphrase: Some(Keyphrase::Copy), ..top },
                p_next,
                r,
            ),
            _ => refused(p, p_next, r),
        },
        Keyphrase::Under => match t {
            TokenModel::Identifier(n) => match s.keyphrase {
                Some(Keyphrase::Write) => literal_write_outcome(host, p, n, s.literal, r, p_next) && s2.is_clear(),
                Some(Keyphrase::Copy) => match page_lookup(p, s.identifier) {
                    Some(v) => literal_write_outcome(host, p, n, Some(v), r, p_next) && s2.is_clear(),
                    None => r == precondition_failure(p) && p_next == p,
                },
                Some(Keyphrase::FromMemory) => memory_write_outcome(host, p, n, r, p_next) && s2.is_clear(),
                _ => refused(p, p_next, r),
            },
            _ => refused(p, p_next, r),
        },
        Keyphrase::SignChapterWith => match t {
            TokenModel::Literal(Value::Text(w)) => sign_outcome(p, w, r, p_next) && s2.is_clear(),
            _ => refused(p, p_next, r),
        },
        Keyphrase::TearOutChapter => caches(
            p,
            s2,
            CacheModel { keyphrase: Some(Keyphrase::TearOutChapter), ..top },
            p_next,
            r,
        ),
        Keyphrase::AndThrowItInTheTrash | Keyphrase::AndPutItInTheDrawer | Keyphrase::AndTossItInTheCauldron => {
            if s.keyphrase == Some(Keyphrase::TearOutChapter) {
                tear_outcome(
                    host,
                    p,
                    k == Keyphrase::AndPutItInTheDrawer,
                    k == Keyphrase::AndTossItInTheCauldron,
                    r,
                    p_next,
                ) && s2.is_clear()
            } else {
                refused(p, p_next, r)
            }
        },
        Keyphrase::TakeOutAChapterFromTheDrawerAndPutItBack => put_back_result(host, p, true, r, p_next)
            && s2.is_clear(),
        Keyphrase::PickUpChapterOffTheFloorAndPutItBack => put_back_result(host, p, false, r, p_next)
            && s2.is_clear(),
        Keyphrase::Cast => match t {
            TokenModel::Builtin(w) => caches(p, s2, CacheModel { builtin: w, ..top }, p_next, r),
            _ => refused(p, p_next, r),
        },
        Keyphrase::OnTheCauldron => match spell_of(s.builtin) {
            Some(sp) => cast_outcome(host, p, sp, r, p_next) && s2.is_clear(),
            None => r == precondition_failure(p) && p_next == p,
        },
        Keyphrase::KnockOverCauldron => r is Ok && s2.is_clear() && p_next == (ProgramModel {
            floor: p.cauldron.page,
            cauldron: CauldronModel { page: None, ..p.cauldron },
            ..p
        }),
        Keyphrase::SkipTheNext => match t {
            TokenModel::Literal(v) => if has_next {
                caches(p, s2, CacheModel { literal: Some(v), keyphrase: Some(Keyphrase::SkipTheNext), ..s }, p_next, r)
            } else {
                line_move_outcome(p, v, r, p_next) && s2.is_clear()
            },
            _ => refused(p, p_next, r),
        },
        Keyphrase::PublishSpellbook => if s.identifier == "to"@ {
            match publish_target(t) {
                Some(target) => published(host, p, target, s2, p_next, r),
                None => refused(p, p_next, r),
            }
        } else if has_next && t == TokenModel::Identifier("to"@) {
            caches(p, s2, CacheModel { identifier: "to"@, ..s }, p_next, r)
        } else {
            published(host, p, None, s2, p_next, r)
        },
        Keyphrase::SignAcknowledgementsPageWith => match t {
            TokenModel::Literal(Value::Text(w)) => r is Ok && s2.is_clear() && p_next == (ProgramModel {
                signature: w,
                custom: true,
                ..p
            }),
            _ => refused(p, p_next, r),
        },
        Keyphrase::Memorize => match t {
            TokenModel::Identifier(n) => match page_lookup(p, n) {
                Some(v) => if p.turned {
                    r is Ok && s2.is_clear() && p_next == (ProgramModel { memory: Some(v), ..p })
                } else {
                    r == precondition_failure(p) && p_next == p
                },
                None => r == precondition_failure(p) && p_next == p,
            },
            TokenModel::Literal(v) => r is Ok && s2.is_clear() && p_next == (ProgramModel { memory: Some(v), ..p }),
            TokenModel::Builtin(w) => caches(
                p,
                s2,
                CacheModel { keyphrase: Some(Keyphrase::Memorize), builtin: w, ..top },
                p_next,
                r,
            ),
            _ => refused(p, p_next, r),
        },
        Keyphrase::Entry => if s.keyphrase == Some(Keyphrase::Memorize) {
            match ordinal_index(s.builtin) {
                Some(i) => if p.turned {
                    r is Ok && s2.is_clear() && p_next == (ProgramModel { memory: p.page().values[i], ..p })
                } else {
                    r == precondition_failure(p) && p_next == p
                },
                None => refused(p, p_next, r),
            }
        } else {
            refused(p, p_next, r)
        },
        Keyphrase::SlamSpellbookShut => r is Ok && s2.is_clear() && p_next == (ProgramModel { exit: true, ..p }),
        _ => r is Ok && s2 == s && p_next == p,
    }
}

/// One step of the machine: a new statement must start with a keyphrase.
pub open spec fn step<H: Fn(Request) -> Reply>(
    host: H,
    s: CacheModel,
    t: TokenModel,
    has_next: bool,
    p: ProgramModel,
    s2: CacheModel,
    p_next: ProgramModel,
    r: Result<(), SpellbookError>,
) -> bool {
    match s.status {
        ParseStateStatus::Top => match t {
            TokenModel::Keyphrase(k) => caches(
                p,
                s2,
                CacheModel { status: ParseStateStatus::Keyphrase(k), ..s },
                p_next,
                r,
            ),
            _ => refused(p, p_next, r),
        },
        ParseStateStatus::Keyphrase(k) => keyphrase_step(host, k, s, t, has_next, p, s2, p_next, r),
    }
}

fn parse_error(program: &Program) -> (r: SpellbookError)
    ensures
        r == (SpellbookError { kind: ErrorKind::Parse, line: program.line_number }),
{
    SpellbookError { kind: ErrorKind::Parse, line: program.line_number }
}

/// Feeds one token to the machine. `has_next` tells whether more tokens of
/// the line follow. Every error carries the current line number.
#[verifier::rlimit(50)]
fn execute_tokens<H: Fn(Request) -> Reply>(
    current: &Token,
    has_next: bool,
    state: &mut ParserState,
    program: &mut Program,
    host: &H,
) -> (r: Result<(), SpellbookError>)
    requires
        old(program).wf(),
        serves(*host),
    ensures
        final(program).wf(),
        final(program).line_number == old(program).line_number,
        r is Err ==> r->Err_0.line == old(program).line_number,
        step(*host, old(state)@, current@, has_next, old(program)@, final(state)@, final(program)@, r),
{
    let kp = match state.status {
        ParseStateStatus::Top => {
            return match current {
                Token::Keyphrase(k) => {
                    state.status = ParseStateStatus::Keyphrase(*k);
                    Ok(())
                },
                _ => Err(parse_error(program)),
            };
        },
        ParseStateStatus::Keyphrase(k) => k,
    };
    match kp {
        Keyphrase::TurnToChapter => match current {
            Token::Builtin(chapter) => match chapter_number(chapter) {
                Some(index) => {
                    if index >= PAGES {
                        return Err(parse_error(program));
                    }
                    program.turn_to_page(index);
                    state.clear_cache();
                    Ok(())
                },
                None => Err(parse_error(program)),
            },
            _ => Err(parse_error(program)),
        },
        Keyphrase::Write => match current {
            Token::Literal(lit) => {
                state.cached_literal = Some(lit.duplicate());
                state.cached_keyphrase = Some(Keyphrase::Write);
                state.status = ParseStateStatus::Top;
                Ok(())
            },
            Token::Keyphrase(Keyphrase::FromMemory) => {
                state.cached_keyphrase = Some(Keyphrase::FromMemory);
                state.status = ParseStateStatus::Top;
                Ok(())
            },
            _ => Err(parse_error(program)),
        },
        Keyphrase::Copy => match current {
            Token::Identifier(ident) => {
                state.cached_identifier = ident.clone();
                state.cached_keyphrase = Some(Keyphrase::Copy);
                state.status = ParseStateStatus::Top;
                Ok(())
            },
            _ => Err(parse_error(program)),
        },
        Keyphrase::Under => match current {
            Token::Identifier(ident) => match state.cached_keyphrase {
                Some(Keyphrase::Write) => {
                    let lit = match &state.cached_literal {
                        Some(v) => Some(v.duplicate()),
                        None => None,
                    };
                    let r = program.write_literal_value(ident.clone(), lit, host);
                    state.clear_cache();
                    r
                },
                Some(Keyphrase::Copy) => match program.try_get_value(&state.cached_identifier) {
                    Some(val) => {
                        let r = program.write_literal_value(ident.clone(), Some(val), host);
                        state.clear_cache();
                        r
                    },
                    None => Err(SpellbookError { kind: ErrorKind::Precondition, line: program.line_number }),
                },
                Some(Keyphrase::FromMemory) => {
                    let r = program.write_memory_value(ident.clone(), host);
                    state.clear_cache();
                    r
                },
                _ => Err(parse_error(program)),
            },
            _ => Err(parse_error(program)),
        },
        Keyphrase::SignChapterWith => match current {
            Token::Literal(Variant::Str(s)) => {
                let r = program.sign_page(s.clone());
                state.clear_cache();
                r
            },
            _ => Err(parse_error(program)),
        },
        Keyphrase::TearOutChapter => {
            state.cached_keyphrase = Some(Keyphrase::TearOutChapter);
            state.status = ParseStateStatus::Top;
            Ok(())
        },
        Keyphrase::AndThrowItInTheTrash | Keyphrase::AndPutItInTheDrawer | Keyphrase::AndTossItInTheCauldron => {
            if state.cached_keyphrase == Some(Keyphrase::TearOutChapter) {
                let drawer = kp == Keyphrase::AndPutItInTheDrawer;
                let cauldron = kp == Keyphrase::AndTossItInTheCauldron;
                let r = program.tear_out_page(drawer, cauldron, host);
                state.clear_cache();
                r
            } else {
                Err(parse_error(program))
            }
        },
        Keyphrase::TakeOutAChapterFromTheDrawerAndPutItBack => {
            let r = program.put_back_page(true, host);
            state.clear_cache();
            r
        },
        Keyphrase::PickUpChapterOffTheFloorAndPutItBack => {
            let r = program.put_back_page(false, host);
            state.clear_cache();
            r
        },
        Keyphrase::Cast => match current {
            Token::Builtin(bt) => {
                state.cached_builtin = bt.clone();
                state.status = ParseStateStatus::Top;
                Ok(())
            },
            _ => Err(parse_error(program)),
        },
        Keyphrase::OnTheCauldron => match lookup_spell(&state.cached_builtin) {
            Some(spell) => {
                let r = program.cast_cauldron_spell(&spell, host);
                state.clear_cache();
                r
            },
            None => Err(SpellbookError { kind: ErrorKind::Precondition, line: program.line_number }),
        },
        Keyphrase::KnockOverCauldron => {
            program.knock_over_cauldron();
            state.clear_cache();
            Ok(())
        },
        Keyphrase::SkipTheNext => match current {
            Token::Literal(lit) => {
                if has_next {
                    state.cached_literal = Some(lit.duplicate());
                    state.cached_keyphrase = Some(Keyphrase::SkipTheNext);
                    Ok(())
                } else {
                    let r = program.change_line_by(lit);
                    state.clear_cache();
                    r
                }
            },
            _ => Err(parse_error(program)),
        },
        Keyphrase::PublishSpellbook => {
            let target: Option<String> = if word_is(&state.cached_identifier, "to") {
                match current {
                    Token::Builtin(w) => {
                        if word_is(w, "console") {
                            None
                        } else {
                            return Err(parse_error(program));
                        }
                    },
                    Token::Literal(Variant::Str(w)) => {
                        if word_is(w, "console") {
                            None
                        } else {
                            Some(w.clone())
                        }
                    },
                    _ => return Err(parse_error(program)),
                }
            } else {
                match current {
                    Token::Identifier(w) => {
                        if has_next && word_is(w, "to") {
                            state.cached_identifier = w.clone();
                            return Ok(());
                        }
                    },
                    _ => {},
                }
                None
            };
            let ghost tv = match &target {
                Some(t) => Some(t@),
                None => None,
            };
            let r = match program.publish(host) {
                Ok(text) => {
                    let ghost before = program@;
                    let ghost out = text@;
                    let b = Publication { target, text };
                    assert(b@ == (tv, out));
                    program.output.push(b);
                    assert(program@.output =~= before.output.push((tv, out)));
                    assert(book(*host, before, out));
                    Ok(())
                },
                Err(e) => Err(e),
            };
            state.clear_cache();
            r
        },
        Keyphrase::SignAcknowledgementsPageWith => match current {
            Token::Literal(Variant::Str(s)) => {
                program.set_signature(s.clone());
                state.clear_cache();
                Ok(())
            },
            _ => Err(parse_error(program)),
        },
        Keyphrase::Memorize => match current {
            Token::Identifier(ident) => match program.try_get_value(ident) {
                Some(val) => {
                    if !program.turned_to_any_page {
                        return Err(SpellbookError { kind: ErrorKind::Precondition, line: program.line_number });
                    }
                    program.memorize_value(Some(val));
                    state.clear_cache();
                    Ok(())
                },
                None => Err(SpellbookError { kind: ErrorKind::Precondition, line: program.line_number }),
            },
            Token::Literal(lit) => {
                program.memorize_value(Some(lit.duplicate()));
                state.clear_cache();
                Ok(())
            },
            Token::Builtin(bt) => {
                state.cached_keyphrase = Some(Keyphrase::Memorize);
                state.cached_builtin = bt.clone();
                state.status = ParseStateStatus::Top;
                Ok(())
            },
            _ => Err(parse_error(program)),
        },
        Keyphrase::Entry => match state.cached_keyphrase {
            Some(Keyphrase::Memorize) => match ordinal_number(&state.cached_builtin) {
                Some(index) => {
                    if !program.turned_to_any_page {
                        return Err(SpellbookError { kind: ErrorKind::Precondition, line: program.line_number });
                    }
                    let v = program.get_value_by_index(index);
                    program.memorize_value(v);
                    state.clear_cache();
                    Ok(())
                },
                None => Err(parse_error(program)),
            },
            _ => Err(parse_error(program)),
        },
        Keyphrase::SlamSpellbookShut => {
            program.exit = true;
            state.clear_cache();
            Ok(())
        },
        _ => Ok(()),
    }
}

/// `p_end` and `r` are a possible outcome of replaying the last token `t`
/// with nothing after it, at most `fuel` times, until the cache is clear; a
/// statement still incomplete then is a parse failure.
pub open spec fn flushes<H: Fn(Request) -> Reply>(
    host: H,
    t: TokenModel,
    fuel: nat,
    s: CacheModel,
    p: ProgramModel,
    p_end: ProgramModel,
    r: Result<(), SpellbookError>,
) -> bool
    decreases fuel,
{
    if s.is_clear() {
        r is Ok && p_end == p
    } else if fuel == 0 {
        r == parse_failure(p) && p_end == p
    } else {
        exists|s2: CacheModel, p_next: ProgramModel, r2: Result<(), SpellbookError>|
            #[trigger] step(host, s, t, false, p, s2, p_next, r2) && (r2 is Err ==> r == r2 && p_end == p_next) && (r2 is Ok
                ==> flushes(host, t, (fuel - 1) as nat, s2, p_next, p_end, r))
    }
}

/// `p_end` and `r` are a possible outcome of feeding the tokens `toks` from
/// index `i` on, each with its successor in view, then flushing the last one.
pub open spec fn feeds<H: Fn(Request) -> Reply>(
    host: H,
    toks: Seq<TokenModel>,
    i: int,
    s: CacheModel,
    p: ProgramModel,
    p_end: ProgramModel,
    r: Result<(), SpellbookError>,
) -> bool
    decreases toks.len() - i,
{
    if i < 0 || i + 1 >= toks.len() {
        flushes(host, toks.last(), FLUSH_STEPS as nat, s, p, p_end, r)
    } else {
        exists|s2: CacheModel, p_next: ProgramModel, r2: Result<(), SpellbookError>|
            #[trigger] step(host, s, toks[i], true, p, s2, p_next, r2) && (r2 is Err ==> r == r2 && p_end == p_next) && (r2
                is Ok ==> feeds(host, toks, i + 1, s2, p_next, p_end, r))
    }
}

/// `p_end` and `r` are a possible outcome of executing a line of tokens in
/// program state `p`: nothing for no tokens; a lone token fed twice, as the
/// keyphrase that opens a statement and as its own argument; else `feeds`
/// from a fresh cache.
pub open spec fn line_outcome<H: Fn(Request) -> Reply>(
    host: H,
    toks: Seq<TokenModel>,
    p: ProgramModel,
    p_end: ProgramModel,
    r: Result<(), SpellbookError>,
) -> bool {
    if toks.len() == 0 {
        r is Ok && p_end == p
    } else if toks.len() == 1 {
        exists|s2: CacheModel, p_next: ProgramModel, r2: Result<(), SpellbookError>|
            #[trigger] step(host, CacheModel::fresh(), toks[0], false, p, s2, p_next, r2) && (r2 is Err ==> r == r2
                && p_end == p_next) && (r2 is Ok ==> exists|s3: CacheModel| #[trigger]
                step(host, s2, toks[0], false, p_next, s3, p_end, r))
    } else {
        feeds(host, toks, 0, CacheModel::fresh(), p, p_end, r)
    }
}

/// Replays at most this many end-of-line steps.
pub const FLUSH_STEPS: usize = 4;

/// Executes one line's tokens against the program. An empty line does
/// nothing. A single token is a statement by itself. Otherwise each token is
/// fed with its successor in view, then the last token is fed again, with
/// nothing after it, until the statement under way completes; one that does
/// not complete is a parse error. Every error carries the current line number.
pub fn execute_token_vector<H: Fn(Request) -> Reply>(
    program: &mut Program,
    tokens: Vec<Token>,
    host: &H,
) -> (r: Result<(), SpellbookError>)
    requires
        old(program).wf(),
        serves(*host),
    ensures
        final(program).wf(),
        r is Err ==> r->Err_0.line == old(program).line_number,
        line_outcome(*host, token_views(tokens@), old(program)@, final(program)@, r),
{
    let ghost tv = token_views(tokens@);
    let ghost start = program@;
    let n = tokens.len();
    if n == 0 {
        return Ok(());
    }
    let mut state = ParserState::new();
    if n == 1 {
        let ghost s1 = state@;
        let first = execute_tokens(&tokens[0], false, &mut state, program, host);
        assert(tv[0] == tokens@[0]@);
        match first {
            Err(e) => {
                assert(step(*host, s1, tv[0], false, start, state@, program@, first));
                return Err(e);
            },
            Ok(()) => {},
        }
        let ghost s2 = state@;
        let ghost p_next = program@;
        let second = execute_tokens(&tokens[0], false, &mut state, program, host);
        assert(step(*host, s1, tv[0], false, start, s2, p_next, Ok(())));
        assert(step(*host, s2, tv[0], false, p_next, state@, program@, second));
        return second;
    }
    let line = program.line_number;
    let mut i: usize = 0;
    while i + 1 < n
        invariant
            n == tokens.len(),
            tv == token_views(tokens@),
            n >= 2,
            i + 1 <= n,
            program.wf(),
            serves(*host),
            program.line_number == line,
            line == start.line_number,
            start == old(program)@,
            forall|pe: ProgramModel, re: Result<(), SpellbookError>|
                #[trigger] feeds(*host, tv, i as int, state@, program@, pe, re) ==> line_outcome(
                    *host,
                    tv,
                    start,
                    pe,
                    re,
                ),
        decreases n - i,
    {
        let ghost si = state@;
        let ghost pi = program@;
        let res = execute_tokens(&tokens[i], true, &mut state, program, host);
        assert(tv[i as int] == tokens@[i as int]@);
        match res {
            Err(e) => {
                assert(feeds(*host, tv, i as int, si, pi, program@, res));
                return Err(e);
            },
            Ok(()) => {},
        }
        let ghost s2 = state@;
        let ghost p_next = program@;
        assert forall|pe: ProgramModel, re: Result<(), SpellbookError>|
            #[trigger] feeds(*host, tv, i + 1, s2, p_next, pe, re) implies line_outcome(*host, tv, start, pe, re) by {
            assert(step(*host, si, tv[i as int], true, pi, s2, p_next, Ok(())));
            assert(feeds(*host, tv, i as int, si, pi, pe, re));
        }
        i += 1;
    }
    let mut steps: usize = 0;
    let ghost last = tv.last();
    assert(last == tokens@[n - 1]@);
    assert forall|pe: ProgramModel, re: Result<(), SpellbookError>|
        #[trigger] flushes(*host, last, FLUSH_STEPS as nat, state@, program@, pe, re) implies line_outcome(
            *host,
            tv,
            start,
            pe,
            re,
        ) by {
        assert(feeds(*host, tv, i as int, state@, program@, pe, re));
    }
    while !state.is_cache_clear()
        invariant
            n == tokens.len(),
            tv == token_views(tokens@),
            n >= 2,
            last == tokens@[n - 1]@,
            last == tv.last(),
            program.wf(),
            serves(*host),
            program.line_number == line,
            line == start.line_number,
            start == old(program)@,
            steps <= FLUSH_STEPS,
            forall|pe: ProgramModel, re: Result<(), SpellbookError>|
                #[trigger] flushes(*host, last, (FLUSH_STEPS - steps) as nat, state@, program@, pe, re)
                    ==> line_outcome(*host, tv, start, pe, re),
        decreases FLUSH_STEPS - steps,
    {
        if steps == FLUSH_STEPS {
            assert(flushes(
                *host,
                last,
                (FLUSH_STEPS - steps) as nat,
                state@,
                program@,
                program@,
                parse_failure(program@),
            ));
            return Err(parse_error(program));
        }
        let ghost si = state@;
        let ghost pi = program@;
        let ghost fuel = (FLUSH_STEPS - steps) as nat;
        let res = execute_tokens(&tokens[n - 1], false, &mut state, program, host);
        match res {
            Err(e) => {
                assert(flushes(*host, last, fuel, si, pi, program@, res));
                return Err(e);
            },
            Ok(()) => {},
        }
        let ghost s2 = state@;
        let ghost p_next = program@;
        assert forall|pe: ProgramModel, re: Result<(), SpellbookError>|
            #[trigger] flushes(*host, last, (fuel - 1) as nat, s2, p_next, pe, re) implies line_outcome(
                *host,
                tv,
                start,
                pe,
                re,
            ) by {
            assert(step(*host, si, last, false, pi, s2, p_next, Ok(())));
            assert(flushes(*host, last, fuel, si, pi, pe, re));
        }
        steps += 1;
    }
    assert(flushes(*host, last, (FLUSH_STEPS - steps) as nat, state@, program@, program@, Ok(())));
    Ok(())
}

/// `p_end` and `r` are a possible outcome of executing the source line `line`
/// in program state `p`: a lexical failure changes nothing; otherwise its
/// tokens run as `line_outcome` says.
pub open spec fn line_result<H: Fn(Request) -> Reply>(
    host: H,
    line: Seq<char>,
    p: ProgramModel,
    p_end: ProgramModel,
    r: Result<(), SpellbookError>,
) -> bool {
    (lexed(host, line, None) && r == Err::<(), SpellbookError>(
        SpellbookError { kind: ErrorKind::Lexical, line: p.line_number },
    ) && p_end == p) || exists|toks: Seq<TokenModel>|
        #[trigger] lexed(host, line, Some(toks)) && line_outcome(host, toks, p, p_end, r)
}

/// Tokenizes one source line and executes it (see `line_result`).
pub fn execute_line<H: Fn(Request) -> Reply>(program: &mut Program, line: String, host: &H) -> (r: Result<
    (),
    SpellbookError,
>)
    requires
        old(program).wf(),
        serves(*host),
    ensures
        final(program).wf(),
        r is Err ==> r->Err_0.line == old(program).line_number,
        line_result(*host, line@, old(program)@, final(program)@, r),
{
    let ghost text = line@;
    match tokenize_line(line, host) {
        Some(tokens) => {
            let ghost tv = token_views(tokens@);
            let r = execute_token_vector(program, tokens, host);
            assert(lexed(*host, text, Some(tv)));
            r
        },
        None => Err(SpellbookError { kind: ErrorKind::Lexical, line: program.line_number }),
    }
}

} // verus!
