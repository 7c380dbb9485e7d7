//! The cauldron: an accumulator that pages are folded into, and the counters
//! that drive skipping ahead and jumping back.
use vstd::prelude::*;
use crate::host::{answers, host_parse_float, serves, Arith, Reply, Request};
use crate::page::{coerced, duplicate_opt, first_free, fits, Page, PageModel, PageType, SLOTS};
use crate::text::{chars_of, is_word, parse_int, reversed, string_of};
use crate::variant::{arith_result, inverse, opt_view, truth, Value, Variant};

verus! {

#[derive(Clone, Copy, Debug, PartialEq, Eq, Structural)]
pub enum CauldronSpell {
    /// Read a line of input into the cauldron's page.
    Coadjuvancy,
    /// Skip ahead unless every value on the (boolean) page is true.
    Judgement,
    /// Jump back by the accumulated charge.
    Reverberate,
    /// Fold by sum.
    Entwinement,
    /// Fold by difference.
    Belittlement,
    /// Fold by product.
    Reenactment,
    /// Fold by quotient.
    Apportionment,
    /// Reverse each name and invert each value.
    Antipodize,
    /// Replace the page by three comparisons of its slots.
    Juxtapose,
    /// Raise the amplifier by one.
    Amplify,
    /// Reset charge and amplifier.
    Squelch,
    /// Lower the charge by the amplifier.
    Diminish,
    /// Nothing.
    Vacation,
}

/// What a spell asks of the line cursor.
#[derive(Clone, Copy, Debug, PartialEq, Eq, Structural)]
pub enum CauldronSpellResult {
    /// No control flow; the statement accrues charge.
    DoNothing,
    /// Fully handled; no checkpoint and no charge.
    NoCharge,
    /// Move ahead by this many lines.
    SkipLine(usize),
    /// Return to the checkpoint at this depth.
    JumpBack(usize),
}

/// The rule by which a folded value meets the one already in the cauldron.
#[derive(Clone, Copy, Debug, PartialEq, Eq, Structural)]
pub enum CauldronMixMode {
    Add,
    Sub,
    Mul,
    Div,
}

pub open spec fn mix_op(m: CauldronMixMode) -> Arith {
    match m {
        CauldronMixMode::Add => Arith::Add,
        CauldronMixMode::Sub => Arith::Sub,
        CauldronMixMode::Mul => Arith::Mul,
        CauldronMixMode::Div => Arith::Div,
    }
}

pub struct Cauldron {
    pub page: Option<Page>,
    pub spell_charge: usize,
    pub spell_charge_amplifier: usize,
    pub mix_mode: CauldronMixMode,
}

/// The model of the cauldron.
pub struct CauldronModel {
    pub page: Option<PageModel>,
    pub charge: usize,
    pub amplifier: usize,
    pub mode: CauldronMixMode,
}

impl View for Cauldron {
    type V = CauldronModel;

    open spec fn view(&self) -> CauldronModel {
        CauldronModel {
            page: match self.page {
                Some(p) => Some(p@),
                None => None,
            },
            charge: self.spell_charge,
            amplifier: self.spell_charge_amplifier,
            mode: self.mix_mode,
        }
    }
}

/// Slot `c` is what folding slot `b` into slot `a` gives: an empty incoming
/// slot leaves `a`, an empty `a` takes `b`, two values combine.
pub open spec fn folded_slot<H: Fn(Request) -> Reply>(
    host: H,
    op: Arith,
    a: Option<Value>,
    b: Option<Value>,
    c: Option<Value>,
) -> bool {
    match b {
        None => c == a,
        Some(y) => match a {
            None => c == Some(y),
            Some(x) => c is Some && arith_result(host, op, x, y, c),
        },
    }
}

/// Folding slot `b` into slot `a` fails: both hold values that do not combine.
pub open spec fn slot_fails<H: Fn(Request) -> Reply>(
    host: H,
    op: Arith,
    a: Option<Value>,
    b: Option<Value>,
) -> bool {
    a is Some && b is Some && arith_result(host, op, a->0, b->0, None)
}

/// The name a slot carries after a fold: names are joined where a value arrives.
pub open spec fn folded_name(a: Seq<char>, b: Seq<char>, incoming: Option<Value>) -> Seq<char> {
    if incoming is Some {
        a + b
    } else {
        a
    }
}

/// `after` is a possible result of folding page `inc` into page `acc`.
pub open spec fn folded_page<H: Fn(Request) -> Reply>(
    host: H,
    op: Arith,
    acc: PageModel,
    inc: PageModel,
    after: PageModel,
) -> bool {
    &&& after.wf()
    &&& after.kind == acc.kind
    &&& after.signature == acc.signature
    &&& after.signed == acc.signed
    &&& forall|i: int|
        0 <= i < SLOTS ==> #[trigger] after.names[i] == folded_name(
            acc.names[i],
            inc.names[i],
            inc.values[i],
        )
    &&& forall|i: int|
        0 <= i < SLOTS ==> folded_slot(host, op, acc.values[i], inc.values[i], #[trigger] after.values[i])
}

/// The three comparisons of `Juxtapose`, as booleans.
pub open spec fn juxtaposed(
    both_later: bool,
    first_not_below_third: bool,
    first_equals_second: bool,
) -> PageModel {
    PageModel {
        names: seq![Seq::<char>::empty(), Seq::<char>::empty(), Seq::<char>::empty()],
        values: seq![
            Some(Value::Boolean(both_later)),
            Some(Value::Boolean(first_not_below_third)),
            Some(Value::Boolean(first_equals_second)),
        ],
        kind: PageType::Boolean,
        signature: Seq::empty(),
        signed: false,
    }
}

/// Every filled slot of the page is true.
pub open spec fn all_true(p: PageModel) -> bool {
    forall|i: int| 0 <= i < SLOTS ==> (#[trigger] p.values[i] matches Some(v) ==> truth(v))
}

/// An order between two optional values.
#[derive(Clone, Copy, Debug, PartialEq, Eq, Structural)]
pub enum Order {
    Less,
    Equal,
    Greater,
}

/// The rank of a value's kind in the order between kinds.
pub open spec fn rank(v: Value) -> int {
    match v {
        Value::Boolean(_) => 0,
        Value::Integer(_) => 1,
        Value::Float(_) => 2,
        Value::Text(_) => 3,
        Value::Routine => 4,
    }
}

pub open spec fn order_of_ints(a: int, b: int) -> Order {
    if a < b {
        Order::Less
    } else if a == b {
        Order::Equal
    } else {
        Order::Greater
    }
}

/// Lexicographic order of character sequences.
pub open spec fn text_order(a: Seq<char>, b: Seq<char>) -> Order
    decreases a.len(),
{
    if a.len() == 0 && b.len() == 0 {
        Order::Equal
    } else if a.len() == 0 {
        Order::Less
    } else if b.len() == 0 {
        Order::Greater
    } else if a[0] != b[0] {
        order_of_ints(a[0] as int, b[0] as int)
    } else {
        text_order(a.drop_first(), b.drop_first())
    }
}

/// `r` is a possible order between two optional values: an empty slot comes
/// first, then kinds by rank, then values; floats are compared by the host and
/// may be unordered.
pub open spec fn order_result<H: Fn(Request) -> Reply>(
    host: H,
    a: Option<Value>,
    b: Option<Value>,
    r: Option<Order>,
) -> bool {
    match (a, b) {
        (None, None) => r == Some(Order::Equal),
        (None, Some(_)) => r == Some(Order::Less),
        (Some(_), None) => r == Some(Order::Greater),
        (Some(x), Some(y)) => if rank(x) != rank(y) {
            r == Some(order_of_ints(rank(x), rank(y)))
        } else {
            match (x, y) {
                (Value::Boolean(p), Value::Boolean(q)) => r == Some(
                    order_of_ints(if p { 1 } else { 0 }, if q { 1 } else { 0 }),
                ),
                (Value::Integer(p), Value::Integer(q)) => r == Some(order_of_ints(p as int, q as int)),
                (Value::Text(p), Value::Text(q)) => r == Some(text_order(p, q)),
                (Value::Float(p), Value::Float(q)) => float_order(host, p, q, r),
                _ => r == Some(Order::Equal),
            }
        },
    }
}

/// `r` is what the host's comparison of two floats gives.
pub open spec fn float_order<H: Fn(Request) -> Reply>(host: H, p: u64, q: u64, r: Option<Order>) -> bool {
    match r {
        Some(Order::Less) => answers(host, Request::CompareFloats(p, q), Reply::Less),
        Some(Order::Equal) => answers(host, Request::CompareFloats(p, q), Reply::Equal),
        Some(Order::Greater) => answers(host, Request::CompareFloats(p, q), Reply::Greater),
        None => exists|a: Reply|
            #[trigger] answers(host, Request::CompareFloats(p, q), a) && !(a is Less) && !(a is Equal)
                && !(a is Greater),
    }
}

/// What a line of input is read as: a boolean, else an integer, else a float,
/// else the text itself.
pub open spec fn input_value<H: Fn(Request) -> Reply>(host: H, line: Seq<char>, v: Value) -> bool {
    if line == seq!['t', 'r', 'u', 'e'] {
        v == Value::Boolean(true)
    } else if line == seq!['f', 'a', 'l', 's', 'e'] {
        v == Value::Boolean(false)
    } else if crate::text::int_of_text(line) is Some {
        v == Value::Integer(crate::text::int_of_text(line)->0 as i64)
    } else {
        match v {
            Value::Float(f) => crate::host::parse_outcome(host, line, Some(f)),
            Value::Text(t) => t == line && crate::host::parse_outcome(host, line, None),
            _ => false,
        }
    }
}

/// Order two characters sequences lexicographically.
fn compare_text(a: &Vec<char>, b: &Vec<char>) -> (r: Order)
    ensures
        r == text_order(a@, b@),
{
    let mut i: usize = 0;
    assert(a@.subrange(0, a.len() as int) =~= a@);
    assert(b@.subrange(0, b.len() as int) =~= b@);
    while i < a.len() && i < b.len()
        invariant
            i <= a.len(),
            i <= b.len(),
            text_order(a@, b@) == text_order(a@.subrange(i as int, a.len() as int), b@.subrange(i as int, b.len() as int)),
        decreases a.len() - i,
    {
        let ghost sa = a@.subrange(i as int, a.len() as int);
        let ghost sb = b@.subrange(i as int, b.len() as int);
        if a[i] != b[i] {
            assert(sa[0] == a@[i as int] && sb[0] == b@[i as int]);
            return if a[i] < b[i] {
                Order::Less
            } else {
                Order::Greater
            };
        }
        assert(sa.drop_first() =~= a@.subrange(i + 1, a.len() as int));
        assert(sb.drop_first() =~= b@.subrange(i + 1, b.len() as int));
        i += 1;
    }
    let ghost sa = a@.subrange(i as int, a.len() as int);
    let ghost sb = b@.subrange(i as int, b.len() as int);
    if i < a.len() {
        assert(sb.len() == 0 && sa.len() > 0);
        Order::Greater
    } else if i < b.len() {
        assert(sa.len() == 0 && sb.len() > 0);
        Order::Less
    } else {
        assert(sa.len() == 0 && sb.len() == 0);
        Order::Equal
    }
}

fn rank_of(v: &Variant) -> (r: u8)
    ensures
        r as int == rank(v@),
{
    match v {
        Variant::Boolean(_) => 0,
        Variant::Integer(_) => 1,
        Variant::Float(_) => 2,
        Variant::Str(_) => 3,
        Variant::Routine => 4,
    }
}

fn order_ints(a: i64, b: i64) -> (r: Order)
    ensures
        r == order_of_ints(a as int, b as int),
{
    if a < b {
        Order::Less
    } else if a == b {
        Order::Equal
    } else {
        Order::Greater
    }
}

/// Compare two optional values (see `order_result`).
pub fn compare_values<H: Fn(Request) -> Reply>(
    a: &Option<Variant>,
    b: &Option<Variant>,
    host: &H,
) -> (r: Option<Order>)
    requires
        serves(*host),
    ensures
        order_result(*host, opt_view(*a), opt_view(*b), r),
{
    match (a, b) {
        (None, None) => Some(Order::Equal),
        (None, Some(_)) => Some(Order::Less),
        (Some(_), None) => Some(Order::Greater),
        (Some(x), Some(y)) => {
            let rx = rank_of(x);
            let ry = rank_of(y);
            if rx != ry {
                return Some(order_ints(rx as i64, ry as i64));
            }
            match (x, y) {
                (Variant::Boolean(p), Variant::Boolean(q)) => Some(
                    order_ints(if *p { 1 } else { 0 }, if *q { 1 } else { 0 }),
                ),
                (Variant::Integer(p), Variant::Integer(q)) => Some(order_ints(*p, *q)),
                (Variant::Str(p), Variant::Str(q)) => {
                    let pc = chars_of(p.as_str());
                    let qc = chars_of(q.as_str());
                    Some(compare_text(&pc, &qc))
                },
                (Variant::Float(p), Variant::Float(q)) => {
                    let ans = host(Request::CompareFloats(*p, *q));
                    assert(answers(*host, Request::CompareFloats(*p, *q), ans));
                    match ans {
                        Reply::Less => Some(Order::Less),
                        Reply::Equal => Some(Order::Equal),
                        Reply::Greater => Some(Order::Greater),
                        _ => None,
                    }
                },
                _ => Some(Order::Equal),
            }
        },
    }
}

/// Fold one incoming slot into one held slot.
fn fold_slot<H: Fn(Request) -> Reply>(
    op: Arith,
    a: &Option<Variant>,
    b: &Option<Variant>,
    host: &H,
) -> (r: Option<Option<Variant>>)
    requires
        serves(*host),
    ensures
        r matches Some(c) ==> folded_slot(*host, op, opt_view(*a), opt_view(*b), opt_view(c)),
        r is None ==> slot_fails(*host, op, opt_view(*a), opt_view(*b)),
{
    match b {
        None => Some(duplicate_opt(a)),
        Some(y) => match a {
            None => Some(Some(y.duplicate())),
            Some(x) => match x.arith(op, y, host) {
                Some(z) => Some(Some(z)),
                None => None,
            },
        },
    }
}

impl Cauldron {
    pub open spec fn wf(&self) -> bool {
        &&& self.spell_charge_amplifier >= 1
        &&& self.page matches Some(p) ==> p.wf()
    }

    pub open spec fn new_model() -> CauldronModel {
        CauldronModel { page: None, charge: 0, amplifier: 1, mode: CauldronMixMode::Add }
    }

    pub fn new() -> (r: Cauldron)
        ensures
            r.wf(),
            r@ == Cauldron::new_model(),
    {
        Cauldron {
            page: None,
            spell_charge: 0,
            spell_charge_amplifier: 1,
            mix_mode: CauldronMixMode::Add,
        }
    }

    pub fn get_amplifier(&self) -> (r: usize)
        ensures
            r == self@.amplifier,
    {
        self.spell_charge_amplifier
    }

    pub fn get_charge(&self) -> (r: usize)
        ensures
            r == self@.charge,
    {
        self.spell_charge
    }

    /// Raises the charge by `amount` (when `override_amount`) or by the
    /// amplifier, stopping at the largest `usize`.
    pub fn increase_charge(&mut self, override_amount: bool, amount: usize)
        ensures
            final(self)@ == (CauldronModel {
                charge: {
                    let by = if override_amount { amount } else { old(self)@.amplifier };
                    if old(self)@.charge + by > usize::MAX {
                        usize::MAX
                    } else {
                        (old(self)@.charge + by) as usize
                    }
                },
                ..old(self)@
            }),
            final(self).page == old(self).page,
    {
        let by = if override_amount { amount } else { self.spell_charge_amplifier };
        self.spell_charge = self.spell_charge.saturating_add(by);
    }

    /// Lowers the charge by `amount` (when `override_amount`) or by the
    /// amplifier, stopping at zero.
    pub fn decrease_charge(&mut self, override_amount: bool, amount: usize)
        ensures
            final(self)@ == (CauldronModel {
                charge: {
                    let by = if override_amount { amount } else { old(self)@.amplifier };
                    if old(self)@.charge < by {
                        0
                    } else {
                        (old(self)@.charge - by) as usize
                    }
                },
                ..old(self)@
            }),
            final(self).page == old(self).page,
    {
        let by = if override_amount { amount } else { self.spell_charge_amplifier };
        self.spell_charge = self.spell_charge.saturating_sub(by);
    }

    pub fn reset_charge(&mut self)
        ensures
            final(self)@ == (CauldronModel { charge: 0, ..old(self)@ }),
            final(self).page == old(self).page,
    {
        self.spell_charge = 0;
    }

    pub fn reset_amplifier(&mut self)
        ensures
            final(self)@ == (CauldronModel { amplifier: 1, ..old(self)@ }),
            final(self).page == old(self).page,
    {
        self.spell_charge_amplifier = 1;
    }

    /// Folds `page` into the cauldron. An empty cauldron takes a copy of it;
    /// otherwise each filled incoming slot joins its name to the held name and
    /// its value to the held value by the mixing rule. Fails, changing nothing,
    /// when some pair of values does not combine.
    pub fn add_page<H: Fn(Request) -> Reply>(&mut self, page: &Page, host: &H) -> (r: bool)
        requires
            old(self).wf(),
            page.wf(),
            serves(*host),
        ensures
            final(self).wf(),
            match old(self)@.page {
                None => r && final(self)@ == (CauldronModel { page: Some(page@), ..old(self)@ }),
                Some(acc) => {
                    &&& r ==> (final(self)@.page is Some && final(self)@ == (CauldronModel {
                        page: final(self)@.page,
                        ..old(self)@
                    }) && folded_page(*host, mix_op(old(self)@.mode), acc, page@, final(self)@.page->0))
                    &&& !r ==> final(self)@ == old(self)@ && exists|i: int|
                        0 <= i < SLOTS && #[trigger] slot_fails(
                            *host,
                            mix_op(old(self)@.mode),
                            acc.values[i],
                            page@.values[i],
                        )
                },
            },
    {
        let op = match self.mix_mode {
            CauldronMixMode::Add => Arith::Add,
            CauldronMixMode::Sub => Arith::Sub,
            CauldronMixMode::Mul => Arith::Mul,
            CauldronMixMode::Div => Arith::Div,
        };
        match &self.page {
            None => {
                self.page = Some(page.duplicate());
                true
            },
            Some(acc) => {
                let mut names: Vec<String> = Vec::new();
                let mut values: Vec<Option<Variant>> = Vec::new();
                let mut i: usize = 0;
                while i < SLOTS
                    invariant
                        *self == *old(self),
                        self.page == Some(*acc),
                        old(self).wf(),
                        acc.wf(),
                        page.wf(),
                        serves(*host),
                        op == mix_op(old(self)@.mode),
                        i <= SLOTS,
                        names.len() == i,
                        values.len() == i,
                        forall|k: int|
                            0 <= k < i ==> (#[trigger] names@[k])@ == folded_name(
                                acc@.names[k],
                                page@.names[k],
                                page@.values[k],
                            ),
                        forall|k: int|
                            0 <= k < i ==> folded_slot(
                                *host,
                                op,
                                acc@.values[k],
                                page@.values[k],
                                opt_view(#[trigger] values@[k]),
                            ),
                    decreases SLOTS - i,
                {
                    match fold_slot(op, &acc.values[i], &page.values[i], host) {
                        Some(c) => {
                            let name = if page.values[i].is_some() {
                                acc.entry_names[i].clone().concat(page.entry_names[i].as_str())
                            } else {
                                acc.entry_names[i].clone()
                            };
                            names.push(name);
                            values.push(c);
                        },
                        None => {
                            assert(slot_fails(
                                *host,
                                mix_op(old(self)@.mode),
                                acc@.values[i as int],
                                page@.values[i as int],
                            ));
                            return false;
                        },
                    }
                    i += 1;
                }
                let after = Page {
                    entry_names: names,
                    values,
                    page_type: acc.page_type,
                    signature: acc.signature.clone(),
                    changed_signature: acc.changed_signature,
                };
                assert(folded_page(*host, op, acc@, page@, after@));
                self.page = Some(after);
                true
            },
        }
    }

    /// Empties the cauldron, returning what it held.
    pub fn knock_over(&mut self) -> (r: Option<Page>)
        ensures
            r == old(self).page,
            final(self)@ == (CauldronModel { page: None, ..old(self)@ }),
    {
        let page = self.page.take();
        page
    }
}


/// Read a line of input as a value: a boolean, else an integer, else a float,
/// else the text itself.
pub fn classify_input<H: Fn(Request) -> Reply>(line: &String, host: &H) -> (r: Variant)
    requires
        serves(*host),
    ensures
        input_value(*host, line@, r@),
{
    let cs = chars_of(line.as_str());
    if is_word(&cs, "true") {
        proof { reveal_strlit("true"); }
        assert("true"@ =~= seq!['t', 'r', 'u', 'e']);
        return Variant::Boolean(true);
    }
    if is_word(&cs, "false") {
        proof { reveal_strlit("false"); }
        assert("false"@ =~= seq!['f', 'a', 'l', 's', 'e']);
        return Variant::Boolean(false);
    }
    proof {
        reveal_strlit("true");
        reveal_strlit("false");
        assert("true"@ =~= seq!['t', 'r', 'u', 'e']);
        assert("false"@ =~= seq!['f', 'a', 'l', 's', 'e']);
    }
    match parse_int(line.as_str()) {
        Some(i) => Variant::Integer(i),
        None => match host_parse_float(host, line) {
            Some(f) => Variant::Float(f),
            None => Variant::Str(line.clone()),
        },
    }
}

/// The cauldron's page after `Antipodize`: names reversed, values inverted;
/// `None` when some value has no inverse.
pub open spec fn antipodized(p: PageModel) -> Option<PageModel> {
    if exists|i: int| 0 <= i < SLOTS && #[trigger] p.values[i] is Some && inverse(p.values[i]->0) is None {
        None
    } else {
        Some(
            PageModel {
                names: p.names.map_values(|n: Seq<char>| n.reverse()),
                values: p.values.map_values(
                    |v: Option<Value>|
                        match v {
                            Some(x) => inverse(x),
                            None => None,
                        },
                ),
                ..p
            },
        )
    }
}

/// Reading a line of input for a page of `kind` may fail: the host may give no
/// text, or a line whose value does not convert to the kind.
pub open spec fn read_refused<H: Fn(Request) -> Reply>(host: H, kind: PageType) -> bool {
    (exists|a: Reply| #[trigger] answers(host, Request::ReadLine, a) && !(a is Text)) || (exists|
        line: String,
        v: Value,
    |
        #[trigger] answers(host, Request::ReadLine, Reply::Text(line)) && #[trigger] input_value(host, line@, v)
            && coerced(host, kind, v, None))
}

/// `after` and `r` are a possible outcome of casting `spell` on a cauldron in
/// state `before`. A spell that fails (`r` is `None`) changes nothing.
pub open spec fn spell_outcome<H: Fn(Request) -> Reply>(
    host: H,
    spell: CauldronSpell,
    before: CauldronModel,
    after: CauldronModel,
    r: Option<CauldronSpellResult>,
) -> bool {
    &&& r is None ==> after == before
    &&& match spell {
        CauldronSpell::Coadjuvancy => (r is None ==> before.page is None || before.page->0.full() || read_refused(
            host,
            before.page->0.kind,
        )) && (r is Some ==> (before.page is Some && after.page is Some && {
            let p = before.page->0;
            let q = after.page->0;
            let t = first_free(p.values)->0;
            &&& r == Some(CauldronSpellResult::DoNothing)
            &&& !p.full()
            &&& after == (CauldronModel { page: Some(q), ..before })
            &&& q == p.with_slot(t, Seq::empty(), q.values[t])
            &&& q.values[t] is Some
            &&& fits(p.kind, q.values[t]->0)
            &&& exists|line: String, v: Value|
                #[trigger] answers(host, Request::ReadLine, Reply::Text(line))
                    && #[trigger] input_value(host, line@, v) && coerced(host, p.kind, v, q.values[t])
        })),
        CauldronSpell::Judgement => after == before && match before.page {
            Some(p) => if p.kind == PageType::Boolean {
                r == Some(
                    if all_true(p) {
                        CauldronSpellResult::DoNothing
                    } else {
                        CauldronSpellResult::SkipLine(before.charge)
                    },
                )
            } else {
                r is None
            },
            None => r is None,
        },
        CauldronSpell::Reverberate => r == Some(CauldronSpellResult::JumpBack(before.charge))
            && after == before,
        CauldronSpell::Entwinement => r == Some(CauldronSpellResult::DoNothing) && after == (
        CauldronModel { mode: CauldronMixMode::Add, ..before }),
        CauldronSpell::Belittlement => r == Some(CauldronSpellResult::DoNothing) && after == (
        CauldronModel { mode: CauldronMixMode::Sub, ..before }),
        CauldronSpell::Reenactment => r == Some(CauldronSpellResult::DoNothing) && after == (
        CauldronModel { mode: CauldronMixMode::Mul, ..before }),
        CauldronSpell::Apportionment => r == Some(CauldronSpellResult::DoNothing) && after == (
        CauldronModel { mode: CauldronMixMode::Div, ..before }),
        CauldronSpell::Antipodize => match before.page {
            Some(p) => match antipodized(p) {
                Some(q) => r == Some(CauldronSpellResult::DoNothing) && after == (CauldronModel {
                    page: Some(q),
                    ..before
                }),
                None => r is None,
            },
            None => r is None,
        },
        CauldronSpell::Juxtapose => match before.page {
            Some(p) => r == Some(CauldronSpellResult::DoNothing) && exists|o1: Option<Order>, o2: Option<Order>|
                #[trigger] order_result(host, p.values[0], p.values[2], o1) && #[trigger] order_result(
                    host,
                    p.values[0],
                    p.values[1],
                    o2,
                ) && after == (CauldronModel {
                    page: Some(
                        juxtaposed(
                            p.values[1] is Some && p.values[2] is Some,
                            o1 == Some(Order::Greater) || o1 == Some(Order::Equal),
                            o2 == Some(Order::Equal),
                        ),
                    ),
                    ..before
                }),
            None => r is None,
        },
        CauldronSpell::Amplify => if before.amplifier < usize::MAX {
            r == Some(CauldronSpellResult::NoCharge) && after == (CauldronModel {
                amplifier: (before.amplifier + 1) as usize,
                ..before
            })
        } else {
            r is None
        },
        CauldronSpell::Squelch => r == Some(CauldronSpellResult::NoCharge) && after == (
        CauldronModel { charge: 0, amplifier: 1, ..before }),
        CauldronSpell::Diminish => r == Some(CauldronSpellResult::NoCharge) && after == (
        CauldronModel {
            charge: if before.charge < before.amplifier {
                0
            } else {
                (before.charge - before.amplifier) as usize
            },
            ..before
        }),
        CauldronSpell::Vacation => r == Some(CauldronSpellResult::DoNothing) && after == before,
    }
}

impl Cauldron {
    fn read_input<H: Fn(Request) -> Reply>(&mut self, host: &H) -> (r: Option<CauldronSpellResult>)
        requires
            old(self).wf(),
            serves(*host),
        ensures
            final(self).wf(),
            spell_outcome(*host, CauldronSpell::Coadjuvancy, old(self)@, final(self)@, r),
    {
        let mut p = match self.page.take() {
            Some(p) => p,
            None => return None,
        };
        if p.is_full() {
            self.page = Some(p);
            return None;
        }
        let ghost before = p@;
        let ans = host(Request::ReadLine);
        assert(answers(*host, Request::ReadLine, ans));
        let line = match ans {
            Reply::Text(s) => s,
            _ => {
                assert(read_refused(*host, before.kind));
                self.page = Some(p);
                return None;
            },
        };
        let v = classify_input(&line, host);
        let ghost slot = first_free(before.values)->0;
        if p.write_value(String::new(), Some(v), false, 0, host) {
            assert(answers(*host, Request::ReadLine, Reply::Text(line)) && input_value(*host, line@, v@)
                && coerced(*host, before.kind, v@, Some(p@.values[slot]->0)));
            self.page = Some(p);
            Some(CauldronSpellResult::DoNothing)
        } else {
            assert(answers(*host, Request::ReadLine, Reply::Text(line)) && input_value(*host, line@, v@)
                && coerced(*host, before.kind, v@, None));
            assert(read_refused(*host, before.kind));
            self.page = Some(p);
            None
        }
    }

    fn antipodize(&mut self) -> (r: Option<CauldronSpellResult>)
        requires
            old(self).wf(),
        ensures
            final(self).wf(),
            match old(self)@.page {
                Some(p) => match antipodized(p) {
                    Some(q) => r == Some(CauldronSpellResult::DoNothing) && final(self)@ == (CauldronModel {
                        page: Some(q),
                        ..old(self)@
                    }),
                    None => r is None && final(self)@ == old(self)@,
                },
                None => r is None && final(self)@ == old(self)@,
            },
    {
        let p = match &self.page {
            Some(p) => p,
            None => return None,
        };
        let mut names: Vec<String> = Vec::new();
        let mut values: Vec<Option<Variant>> = Vec::new();
        let mut i: usize = 0;
        while i < SLOTS
            invariant
                *self == *old(self),
                self.page == Some(*p),
                old(self).wf(),
                p.wf(),
                i <= SLOTS,
                names.len() == i,
                values.len() == i,
                forall|k: int| 0 <= k < i ==> (#[trigger] names@[k])@ == p@.names[k].reverse(),
                forall|k: int|
                    0 <= k < i ==> opt_view(#[trigger] values@[k]) == match p@.values[k] {
                        Some(x) => inverse(x),
                        None => None,
                    },
                forall|k: int| 0 <= k < i ==> (#[trigger] p@.values[k]) is Some ==> inverse(p@.values[k]->0) is Some,
            decreases SLOTS - i,
        {
            let cs = chars_of(p.entry_names[i].as_str());
            let rs = reversed(&cs);
            names.push(string_of(&rs));
            match &p.values[i] {
                Some(v) => match v.inverted() {
                    Some(w) => values.push(Some(w)),
                    None => {
                        assert(p@.values[i as int] is Some && inverse(p@.values[i as int]->0) is None);
                        return None;
                    },
                },
                None => values.push(None),
            }
            i += 1;
        }
        let q = Page {
            entry_names: names,
            values,
            page_type: p.page_type,
            signature: p.signature.clone(),
            changed_signature: p.changed_signature,
        };
        assert(antipodized(p@) is Some);
        assert(q@.names =~= antipodized(p@)->0.names);
        assert(q@.values =~= antipodized(p@)->0.values);
        self.page = Some(q);
        Some(CauldronSpellResult::DoNothing)
    }

    fn juxtapose<H: Fn(Request) -> Reply>(&mut self, host: &H) -> (r: Option<CauldronSpellResult>)
        requires
            old(self).wf(),
            serves(*host),
        ensures
            final(self).wf(),
            spell_outcome(*host, CauldronSpell::Juxtapose, old(self)@, final(self)@, r),
    {
        let p = match &self.page {
            Some(p) => p,
            None => return None,
        };
        let both = p.values[1].is_some() && p.values[2].is_some();
        let o1 = compare_values(&p.values[0], &p.values[2], host);
        let o2 = compare_values(&p.values[0], &p.values[1], host);
        let b1 = match o1 {
            Some(Order::Greater) | Some(Order::Equal) => true,
            _ => false,
        };
        let b2 = match o2 {
            Some(Order::Equal) => true,
            _ => false,
        };
        let mut q = Page::new(PageType::Boolean);
        q.values.set(0, Some(Variant::Boolean(both)));
        q.values.set(1, Some(Variant::Boolean(b1)));
        q.values.set(2, Some(Variant::Boolean(b2)));
        assert(q@.values =~= juxtaposed(both, b1, b2).values);
        assert(q@.names =~= juxtaposed(both, b1, b2).names);
        self.page = Some(q);
        assert(order_result(*host, old(self)@.page->0.values[0], old(self)@.page->0.values[2], o1));
        assert(order_result(*host, old(self)@.page->0.values[0], old(self)@.page->0.values[1], o2));
        Some(CauldronSpellResult::DoNothing)
    }

    /// Casts `spell` on the cauldron (see `spell_outcome`). `None` means the
    /// spell failed: no page to act on, a page of the wrong kind or a full
    /// page, a value that does not convert, or input that could not be read.
    pub fn cast_spell<H: Fn(Request) -> Reply>(
        &mut self,
        spell: &CauldronSpell,
        host: &H,
    ) -> (r: Option<CauldronSpellResult>)
        requires
            old(self).wf(),
            serves(*host),
        ensures
            final(self).wf(),
            spell_outcome(*host, *spell, old(self)@, final(self)@, r),
    {
        match spell {
            CauldronSpell::Coadjuvancy => self.read_input(host),
            CauldronSpell::Entwinement => {
                self.mix_mode = CauldronMixMode::Add;
                Some(CauldronSpellResult::DoNothing)
            },
            CauldronSpell::Belittlement => {
                self.mix_mode = CauldronMixMode::Sub;
                Some(CauldronSpellResult::DoNothing)
            },
            CauldronSpell::Reenactment => {
                self.mix_mode = CauldronMixMode::Mul;
                Some(CauldronSpellResult::DoNothing)
            },
            CauldronSpell::Apportionment => {
                self.mix_mode = CauldronMixMode::Div;
                Some(CauldronSpellResult::DoNothing)
            },
            CauldronSpell::Antipodize => self.antipodize(),
            CauldronSpell::Juxtapose => self.juxtapose(host),
            CauldronSpell::Judgement => match &self.page {
                Some(p) => {
                    if p.page_type != PageType::Boolean {
                        return None;
                    }
                    let mut i: usize = 0;
                    while i < SLOTS
                        invariant
                            *spell == CauldronSpell::Judgement,
                            *self == *old(self),
                            self.page == Some(*p),
                            old(self).wf(),
                            p.wf(),
                            p@.kind == PageType::Boolean,
                            i <= SLOTS,
                            forall|k: int| 0 <= k < i ==> (#[trigger] p@.values[k] matches Some(v) ==> truth(v)),
                        decreases SLOTS - i,
                    {
                        match &p.values[i] {
                            Some(v) => {
                                if !(match v {
                                    Variant::Routine => false,
                                    _ => v.to_bool(),
                                }) {
                                    assert(p@.values[i as int] == Some(v@) && !truth(v@));
                                    assert(!all_true(p@));
                                    return Some(CauldronSpellResult::SkipLine(self.spell_charge));
                                }
                            },
                            None => {},
                        }
                        i += 1;
                    }
                    Some(CauldronSpellResult::DoNothing)
                },
                None => None,
            },
            CauldronSpell::Amplify => {
                if self.spell_charge_amplifier == usize::MAX {
                    return None;
                }
                self.spell_charge_amplifier += 1;
                Some(CauldronSpellResult::NoCharge)
            },
            CauldronSpell::Squelch => {
                self.reset_charge();
                self.reset_amplifier();
                Some(CauldronSpellResult::NoCharge)
            },
            CauldronSpell::Diminish => {
                self.decrease_charge(false, 0);
                Some(CauldronSpellResult::NoCharge)
            },
            CauldronSpell::Reverberate => Some(CauldronSpellResult::JumpBack(self.spell_charge)),
            CauldronSpell::Vacation => Some(CauldronSpellResult::DoNothing),
        }
    }
}

/// Values of integer or text kind, all of one kind, that `op` combines
/// associatively: sums and products of integers, joins of texts.
pub open spec fn associative_kinds(op: Arith, vs: Seq<Option<Value>>) -> bool {
    &&& (op == Arith::Add || op == Arith::Mul)
    &&& (forall|i: int| 0 <= i < vs.len() && (#[trigger] vs[i]) is Some ==> vs[i]->0 is Integer) || (op
        == Arith::Add && forall|i: int| 0 <= i < vs.len() && (#[trigger] vs[i]) is Some ==> vs[i]->0 is Text)
}

/// Folding is associative slot by slot within one kind: folding `b` then `c`
/// into `a` gives what folding into `a` the fold of `c` into `b` gives,
/// wherever all these folds succeed.
pub proof fn lemma_fold_slot_associative<H: Fn(Request) -> Reply>(
    host: H,
    op: Arith,
    a: Option<Value>,
    b: Option<Value>,
    c: Option<Value>,
    ab: Option<Value>,
    x: Option<Value>,
    bc: Option<Value>,
    y: Option<Value>,
)
    requires
        associative_kinds(op, seq![a, b, c]),
        folded_slot(host, op, a, b, ab),
        folded_slot(host, op, ab, c, x),
        folded_slot(host, op, b, c, bc),
        folded_slot(host, op, a, bc, y),
    ensures
        x == y,
{
    let vs = seq![a, b, c];
    assert(vs[0] == a && vs[1] == b && vs[2] == c);
    if a is Some && b is Some && c is Some {
        match (a->0, b->0, c->0) {
            (Value::Integer(p), Value::Integer(q), Value::Integer(r)) => {
                if op == Arith::Mul {
                    assert((p * q) * r == p * (q * r)) by (nonlinear_arith);
                }
            },
            (Value::Text(p), Value::Text(q), Value::Text(r)) => {
                assert((p + q) + r =~= p + (q + r));
            },
            _ => {},
        }
    }
}

/// Folding whole pages is associative in their values: folding `b` then `c`
/// into `a` leaves the same values as folding into `a` the fold of `c` into
/// `b`, when every slot holds integers (sums, products) or texts (sums) and
/// all four folds succeed.
pub proof fn lemma_fold_associative<H: Fn(Request) -> Reply>(
    host: H,
    op: Arith,
    a: PageModel,
    b: PageModel,
    c: PageModel,
    ab: PageModel,
    x: PageModel,
    bc: PageModel,
    y: PageModel,
)
    requires
        forall|i: int| 0 <= i < SLOTS ==> associative_kinds(op, seq![a.values[i], b.values[i], c.values[i]]),
        folded_page(host, op, a, b, ab),
        folded_page(host, op, ab, c, x),
        folded_page(host, op, b, c, bc),
        folded_page(host, op, a, bc, y),
    ensures
        x.values == y.values,
{
    assert forall|i: int| 0 <= i < SLOTS implies x.values[i] == y.values[i] by {
        lemma_fold_slot_associative(
            host,
            op,
            a.values[i],
            b.values[i],
            c.values[i],
            ab.values[i],
            x.values[i],
            bc.values[i],
            y.values[i],
        );
    }
    assert(x.values =~= y.values);
}

/// Values of different kinds never combine: a fold whose incoming page holds,
/// in some slot, a value of another kind than the cauldron's value there has
/// no result, so it fails rather than dropping or truncating anything.
pub proof fn lemma_fold_rejects_mixed_kinds<H: Fn(Request) -> Reply>(
    host: H,
    op: Arith,
    acc: PageModel,
    inc: PageModel,
    after: PageModel,
    i: int,
)
    requires
        0 <= i < SLOTS,
        acc.values[i] is Some,
        inc.values[i] is Some,
        rank(acc.values[i]->0) != rank(inc.values[i]->0),
    ensures
        !folded_page(host, op, acc, inc, after),
        slot_fails(host, op, acc.values[i], inc.values[i]),
{
    if folded_page(host, op, acc, inc, after) {
        assert(folded_slot(host, op, acc.values[i], inc.values[i], after.values[i]));
    }
}

} // verus!
