//! Pages: three named slots holding values of one declared kind.
use vstd::prelude::*;
use crate::host::{serves, Reply, Request};
use crate::variant::{
    float_result, int_result, opt_view, print_result, truth, Value, Variant,
};

verus! {

/// Number of slots on a page.
pub const SLOTS: usize = 3;

/// The kind of value a page holds.
#[derive(Clone, Copy, Debug, PartialEq, Eq, Structural)]
pub enum PageType {
    Boolean,
    Integer,
    Float,
    Str,
    Routine,
}

/// The model of a page.
pub struct PageModel {
    pub names: Seq<Seq<char>>,
    pub values: Seq<Option<Value>>,
    pub kind: PageType,
    pub signature: Seq<char>,
    pub signed: bool,
}

#[derive(Debug)]
pub struct Page {
    pub entry_names: Vec<String>,
    pub values: Vec<Option<Variant>>,
    pub page_type: PageType,
    /// Printed after each value of this page when the book is published.
    pub signature: String,
    /// Whether the signature has been set; it can be set once.
    pub changed_signature: bool,
}

impl View for Page {
    type V = PageModel;

    open spec fn view(&self) -> PageModel {
        PageModel {
            names: self.entry_names@.map_values(|s: String| s@),
            values: self.values@.map_values(|v: Option<Variant>| opt_view(v)),
            kind: self.page_type,
            signature: self.signature@,
            signed: self.changed_signature,
        }
    }
}

/// A value of the given kind.
pub open spec fn fits(kind: PageType, v: Value) -> bool {
    match kind {
        PageType::Boolean => v is Boolean,
        PageType::Integer => v is Integer,
        PageType::Float => v is Float,
        PageType::Str => v is Text,
        PageType::Routine => v is Routine,
    }
}

/// `r` is a possible result of converting `v` to the kind `kind`: `None` when
/// the conversion fails.
pub open spec fn coerced<H: Fn(Request) -> Reply>(
    host: H,
    kind: PageType,
    v: Value,
    r: Option<Value>,
) -> bool {
    match kind {
        PageType::Boolean => r == if v is Routine {
            None::<Value>
        } else {
            Some(Value::Boolean(truth(v)))
        },
        PageType::Integer => match r {
            Some(Value::Integer(i)) => int_result(host, v, Some(i)),
            None => int_result(host, v, None),
            _ => false,
        },
        PageType::Float => match r {
            Some(Value::Float(f)) => float_result(host, v, Some(f)),
            None => float_result(host, v, None),
            _ => false,
        },
        PageType::Str => match r {
            Some(Value::Text(t)) => !(v is Routine) && print_result(host, v, Some(t)),
            None => v is Routine || print_result(host, v, None),
            _ => false,
        },
        PageType::Routine => r == Some(Value::Routine),
    }
}

/// The first empty slot.
pub open spec fn first_free(values: Seq<Option<Value>>) -> Option<int> {
    if values.len() > 0 && values[0] is None {
        Some(0)
    } else if values.len() > 1 && values[1] is None {
        Some(1)
    } else if values.len() > 2 && values[2] is None {
        Some(2)
    } else {
        None
    }
}

/// The first slot carrying the name `n`.
pub open spec fn find_name(names: Seq<Seq<char>>, n: Seq<char>) -> Option<int> {
    if names.len() > 0 && names[0] == n {
        Some(0)
    } else if names.len() > 1 && names[1] == n {
        Some(1)
    } else if names.len() > 2 && names[2] == n {
        Some(2)
    } else {
        None
    }
}

impl PageModel {
    pub open spec fn has_contents(self) -> bool {
        exists|i: int| 0 <= i < self.values.len() && #[trigger] self.values[i] is Some
    }

    pub open spec fn full(self) -> bool {
        forall|i: int| 0 <= i < self.values.len() ==> #[trigger] self.values[i] is Some
    }

    pub open spec fn has_name(self, n: Seq<char>) -> bool {
        self.names.contains(n)
    }

    /// The same page with slot `i` holding `n` and `v`.
    pub open spec fn with_slot(self, i: int, n: Seq<char>, v: Option<Value>) -> PageModel {
        PageModel { names: self.names.update(i, n), values: self.values.update(i, v), ..self }
    }

    /// The same page with its slots emptied; kind and signature stay.
    pub open spec fn cleared(self) -> PageModel {
        PageModel {
            names: seq![Seq::<char>::empty(), Seq::<char>::empty(), Seq::<char>::empty()],
            values: seq![None, None, None],
            ..self
        }
    }

    /// An unused page of the given kind.
    pub open spec fn blank(kind: PageType) -> PageModel {
        PageModel {
            names: seq![Seq::<char>::empty(), Seq::<char>::empty(), Seq::<char>::empty()],
            values: seq![None, None, None],
            kind,
            signature: Seq::empty(),
            signed: false,
        }
    }

    pub open spec fn wf(self) -> bool {
        self.names.len() == SLOTS && self.values.len() == SLOTS
    }
}

/// `after` and `r` are a possible outcome of writing `value` under `name` on
/// page `before`: into slot `index` when `index_override`, else into the first
/// empty slot. No value empties the slot and its name. A write that fails
/// changes nothing; one that succeeds stores the value converted to the page's
/// kind.
pub open spec fn write_outcome<H: Fn(Request) -> Reply>(
    host: H,
    before: PageModel,
    name: Seq<char>,
    value: Option<Value>,
    index_override: bool,
    index: int,
    r: bool,
    after: PageModel,
) -> bool {
    let target = if index_override {
        Some(index)
    } else {
        first_free(before.values)
    };
    match target {
        None => !r && after == before,
        Some(t) => match value {
            None => r && after == before.with_slot(t, Seq::empty(), None),
            Some(v) => {
                &&& r ==> (after == before.with_slot(t, name, after.values[t]) && after.values[t] is Some
                    && fits(before.kind, after.values[t]->0) && coerced(host, before.kind, v, after.values[t]))
                &&& !r ==> after == before && coerced(host, before.kind, v, None)
            },
        },
    }
}

/// A copy of an optional value.
pub fn duplicate_opt(v: &Option<Variant>) -> (r: Option<Variant>)
    ensures
        opt_view(r) == opt_view(*v),
{
    match v {
        Some(x) => Some(x.duplicate()),
        None => None,
    }
}

/// Convert `v` to the kind `kind`.
pub fn coerce<H: Fn(Request) -> Reply>(kind: PageType, v: &Variant, host: &H) -> (r: Option<Variant>)
    requires
        serves(*host),
    ensures
        coerced(*host, kind, v@, opt_view(r)),
        r matches Some(c) ==> fits(kind, c@),
{
    match kind {
        PageType::Boolean => match v {
            Variant::Routine => None,
            _ => Some(Variant::Boolean(v.to_bool())),
        },
        PageType::Integer => match v.to_int(host) {
            Some(i) => Some(Variant::Integer(i)),
            None => None,
        },
        PageType::Float => match v.to_float(host) {
            Some(f) => Some(Variant::Float(f)),
            None => None,
        },
        PageType::Str => match v.to_string(host) {
            Some(s) => Some(Variant::Str(s)),
            None => None,
        },
        PageType::Routine => Some(Variant::Routine),
    }
}

impl Page {
    pub open spec fn wf(&self) -> bool {
        self.entry_names.len() == SLOTS && self.values.len() == SLOTS
    }

    pub fn new(page_type: PageType) -> (r: Page)
        ensures
            r.wf(),
            r@ == PageModel::blank(page_type),
    {
        let r = Page {
            entry_names: vec![String::new(), String::new(), String::new()],
            values: vec![None, None, None],
            page_type,
            signature: String::new(),
            changed_signature: false,
        };
        assert(r@.names =~= PageModel::blank(page_type).names);
        assert(r@.values =~= PageModel::blank(page_type).values);
        r
    }

    pub fn page_type(&self) -> (r: PageType)
        ensures
            r == self@.kind,
    {
        self.page_type
    }

    /// A copy of the page.
    pub fn duplicate(&self) -> (r: Page)
        requires
            self.wf(),
        ensures
            r.wf(),
            r@ == self@,
    {
        let mut names: Vec<String> = Vec::new();
        let mut values: Vec<Option<Variant>> = Vec::new();
        let mut i: usize = 0;
        while i < SLOTS
            invariant
                self.wf(),
                i <= SLOTS,
                names.len() == i,
                values.len() == i,
                forall|k: int| 0 <= k < i ==> (#[trigger] names@[k])@ == self.entry_names@[k]@,
                forall|k: int| 0 <= k < i ==> opt_view(#[trigger] values@[k]) == opt_view(self.values@[k]),
            decreases SLOTS - i,
        {
            names.push(self.entry_names[i].clone());
            values.push(duplicate_opt(&self.values[i]));
            i += 1;
        }
        let r = Page {
            entry_names: names,
            values,
            page_type: self.page_type,
            signature: self.signature.clone(),
            changed_signature: self.changed_signature,
        };
        assert(r@.names =~= self@.names);
        assert(r@.values =~= self@.values);
        r
    }

    /// The value in the first slot named `name`; `None` when no slot has that
    /// name or that slot is empty.
    pub fn read_value_by_name(&self, name: &String) -> (r: Option<Variant>)
        requires
            self.wf(),
        ensures
            opt_view(r) == match find_name(self@.names, name@) {
                Some(i) => self@.values[i],
                None => None::<Value>,
            },
    {
        let mut i: usize = 0;
        while i < SLOTS
            invariant
                self.wf(),
                i <= SLOTS,
                forall|k: int| 0 <= k < i ==> self@.names[k] != name@,
            decreases SLOTS - i,
        {
            if self.entry_names[i] == *name {
                return duplicate_opt(&self.values[i]);
            }
            i += 1;
        }
        None
    }

    /// The first empty slot.
    pub fn free_slot(&self) -> (r: Option<usize>)
        requires
            self.wf(),
        ensures
            r matches Some(i) ==> first_free(self@.values) == Some(i as int),
            r is None ==> first_free(self@.values) is None,
    {
        let mut i: usize = 0;
        while i < SLOTS
            invariant
                self.wf(),
                i <= SLOTS,
                forall|k: int| 0 <= k < i ==> self@.values[k] is Some,
            decreases SLOTS - i,
        {
            if self.values[i].is_none() {
                return Some(i);
            }
            i += 1;
        }
        None
    }

    /// Writes `value` under `name` into slot `index` (when `index_override`) or
    /// into the first empty slot, converted to the page's kind. Writing no value
    /// empties the slot and its name. Fails, changing nothing, when there is no
    /// empty slot or the value cannot be converted.
    pub fn write_value<H: Fn(Request) -> Reply>(
        &mut self,
        name: String,
        value: Option<Variant>,
        index_override: bool,
        index: usize,
        host: &H,
    ) -> (r: bool)
        requires
            old(self).wf(),
            index_override ==> index < SLOTS,
            serves(*host),
        ensures
            final(self).wf(),
            write_outcome(*host, old(self)@, name@, opt_view(value), index_override, index as int, r, final(self)@),
    {
        let slot = if index_override {
            index
        } else {
            match self.free_slot() {
                Some(i) => i,
                None => return false,
            }
        };
        match value {
            Some(v) => {
                match coerce(self.page_type, &v, host) {
                    Some(c) => {
                        self.entry_names.set(slot, name);
                        self.values.set(slot, Some(c));
                        assert(self@.names =~= old(self)@.names.update(slot as int, name@));
                        assert(self@.values =~= old(self)@.values.update(slot as int, self@.values[slot as int]));
                        true
                    },
                    None => false,
                }
            },
            None => {
                self.entry_names.set(slot, String::new());
                self.values.set(slot, None);
                assert(self@.names =~= old(self)@.names.update(slot as int, Seq::empty()));
                assert(self@.values =~= old(self)@.values.update(slot as int, None));
                true
            },
        }
    }

    pub fn has_any_contents(&self) -> (r: bool)
        requires
            self.wf(),
        ensures
            r == self@.has_contents(),
    {
        let mut i: usize = 0;
        while i < SLOTS
            invariant
                self.wf(),
                i <= SLOTS,
                forall|k: int| 0 <= k < i ==> self@.values[k] is None,
            decreases SLOTS - i,
        {
            if self.values[i].is_some() {
                assert(self@.values[i as int] is Some);
                return true;
            }
            i += 1;
        }
        false
    }

    pub fn is_full(&self) -> (r: bool)
        requires
            self.wf(),
        ensures
            r == self@.full(),
    {
        match self.free_slot() {
            Some(i) => {
                assert(self@.values[i as int] is None);
                false
            },
            None => true,
        }
    }

    /// Whether some slot carries the name `name`.
    pub fn has_name(&self, name: &String) -> (r: bool)
        requires
            self.wf(),
        ensures
            r == self@.has_name(name@),
    {
        let mut i: usize = 0;
        while i < SLOTS
            invariant
                self.wf(),
                i <= SLOTS,
                forall|k: int| 0 <= k < i ==> self@.names[k] != name@,
            decreases SLOTS - i,
        {
            if self.entry_names[i] == *name {
                assert(self@.names[i as int] == name@);
                return true;
            }
            i += 1;
        }
        false
    }

    /// Empties every slot; the kind and the signature stay.
    pub fn clear_page(&mut self)
        requires
            old(self).wf(),
        ensures
            final(self).wf(),
            final(self)@ == old(self)@.cleared(),
    {
        self.values = vec![None, None, None];
        self.entry_names = vec![String::new(), String::new(), String::new()];
        assert(self@.names =~= old(self)@.cleared().names);
        assert(self@.values =~= old(self)@.cleared().values);
    }
}

} // verus!
