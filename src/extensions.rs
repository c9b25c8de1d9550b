//! Request extensions: a per-request store keyed by the type of the value.
//! The types it can hold are declared up front, one variant each.
use vstd::prelude::*;

verus! {

/// How errors are turned into responses, as a request carries it for
/// middleware that format their own errors.
#[derive(Clone, Copy, PartialEq, Eq, Structural, Debug)]
pub enum ErrorFormat {
    /// Plain text bodies.
    Plain,
    /// JSON bodies.
    Json,
    /// An error handler of the application's own, which middleware reach
    /// through the chain; the built-in refusals (404, 405, 413, timeout)
    /// use plain text.
    Custom,
}

/// A value that the extensions can hold, one variant per type.
#[derive(Debug, PartialEq, Eq)]
pub enum Extension {
    Text(String),
    Number(u64),
    Flag(bool),
    /// A list of markers, which middleware extend as the request passes.
    Trail(Vec<String>),
    Bytes(Vec<u8>),
    /// Path parameters bound by routing.
    Params(Vec<(String, String)>),
    /// The application's error format.
    ErrorFormat(ErrorFormat),
}

/// The type of an extension value: the key it is stored under.
#[derive(Clone, Copy, PartialEq, Eq, Structural, Debug)]
pub enum ExtensionKind {
    Text,
    Number,
    Flag,
    Trail,
    Bytes,
    Params,
    ErrorFormat,
}

/// The type of `e`.
pub open spec fn kind_of(e: Extension) -> ExtensionKind {
    match e {
        Extension::Text(_) => ExtensionKind::Text,
        Extension::Number(_) => ExtensionKind::Number,
        Extension::Flag(_) => ExtensionKind::Flag,
        Extension::Trail(_) => ExtensionKind::Trail,
        Extension::Bytes(_) => ExtensionKind::Bytes,
        Extension::Params(_) => ExtensionKind::Params,
        Extension::ErrorFormat(_) => ExtensionKind::ErrorFormat,
    }
}

/// The slot of a kind.
pub open spec fn slot_of(k: ExtensionKind) -> int {
    match k {
        ExtensionKind::Text => 0,
        ExtensionKind::Number => 1,
        ExtensionKind::Flag => 2,
        ExtensionKind::Trail => 3,
        ExtensionKind::Bytes => 4,
        ExtensionKind::Params => 5,
        ExtensionKind::ErrorFormat => 6,
    }
}

/// The number of kinds.
pub const KIND_COUNT: usize = 7;

impl Extension {
    /// The type of this value.
    pub fn kind(&self) -> (r: ExtensionKind)
        ensures
            r == kind_of(*self),
    {
        match self {
            Extension::Text(_) => ExtensionKind::Text,
            Extension::Number(_) => ExtensionKind::Number,
            Extension::Flag(_) => ExtensionKind::Flag,
            Extension::Trail(_) => ExtensionKind::Trail,
            Extension::Bytes(_) => ExtensionKind::Bytes,
            Extension::Params(_) => ExtensionKind::Params,
            Extension::ErrorFormat(_) => ExtensionKind::ErrorFormat,
        }
    }
}

impl ExtensionKind {
    fn slot(&self) -> (r: usize)
        ensures
            r == slot_of(*self),
            r < KIND_COUNT,
    {
        match self {
            ExtensionKind::Text => 0,
            ExtensionKind::Number => 1,
            ExtensionKind::Flag => 2,
            ExtensionKind::Trail => 3,
            ExtensionKind::Bytes => 4,
            ExtensionKind::Params => 5,
            ExtensionKind::ErrorFormat => 6,
        }
    }
}

/// A per-request store holding at most one value of each type.
pub struct Extensions {
    slots: Vec<Option<Extension>>,
}

impl View for Extensions {
    type V = Map<ExtensionKind, Extension>;

    closed spec fn view(&self) -> Map<ExtensionKind, Extension> {
        Map::new(
            |k: ExtensionKind| self.slots@[slot_of(k)] is Some,
            |k: ExtensionKind| self.slots@[slot_of(k)]->Some_0,
        )
    }
}

impl Extensions {
    /// The store keeps one slot per type.
    pub closed spec fn wf(&self) -> bool {
        self.slots@.len() == KIND_COUNT
    }

    /// An empty store.
    pub fn new() -> (r: Extensions)
        ensures
            r.wf(),
            r@ == Map::<ExtensionKind, Extension>::empty(),
    {
        let mut slots: Vec<Option<Extension>> = Vec::new();
        let mut i: usize = 0;
        while i < KIND_COUNT
            invariant
                i <= KIND_COUNT,
                slots@.len() == i,
                forall|j: int| 0 <= j < i ==> slots@[j] is None,
            decreases KIND_COUNT - i,
        {
            slots.push(None);
            i = i + 1;
        }
        let r = Extensions { slots };
        assert(r@ =~= Map::<ExtensionKind, Extension>::empty());
        r
    }

    /// Stores `value` under its type; returns the value of that type that
    /// was there before, which it replaces.
    pub fn insert(&mut self, value: Extension) -> (r: Option<Extension>)
        requires
            old(self).wf(),
        ensures
            final(self).wf(),
            final(self)@ == old(self)@.insert(kind_of(value), value),
            old(self)@.contains_key(kind_of(value)) ==> r == Some(old(self)@[kind_of(value)]),
            !old(self)@.contains_key(kind_of(value)) ==> r is None,
    {
        let ghost k = kind_of(value);
        let i = value.kind().slot();
        let mut slot = Some(value);
        std::mem::swap(&mut slot, &mut self.slots[i]);
        assert(self@ =~= old(self)@.insert(k, value));
        slot
    }

    /// The value of type `kind`, if there is one.
    pub fn get(&self, kind: ExtensionKind) -> (r: Option<&Extension>)
        requires
            self.wf(),
        ensures
            self@.contains_key(kind) ==> r == Some(&self@[kind]),
            !self@.contains_key(kind) ==> r is None,
    {
        let i = kind.slot();
        match &self.slots[i] {
            Some(e) => Some(e),
            None => None,
        }
    }

    /// The value of type `kind`, to change in place, if there is one.
    pub fn get_mut(&mut self, kind: ExtensionKind) -> (r: Option<&mut Extension>)
        requires
            old(self).wf(),
        ensures
            !old(self)@.contains_key(kind) ==> (r is None && final(self).wf() && final(self)@ == old(self)@),
            old(self)@.contains_key(kind) ==> (r matches Some(x) && *x == old(self)@[kind]
                && final(self).wf() && final(self)@ == old(self)@.insert(kind, *final(x))),
    {
        let i = kind.slot();
        match &mut self.slots[i] {
            Some(e) => Some(e),
            None => None,
        }
    }

    /// Takes out the value of type `kind`, if there is one.
    pub fn remove(&mut self, kind: ExtensionKind) -> (r: Option<Extension>)
        requires
            old(self).wf(),
        ensures
            final(self).wf(),
            final(self)@ == old(self)@.remove(kind),
            old(self)@.contains_key(kind) ==> r == Some(old(self)@[kind]),
            !old(self)@.contains_key(kind) ==> r is None,
    {
        let i = kind.slot();
        let mut slot: Option<Extension> = None;
        std::mem::swap(&mut slot, &mut self.slots[i]);
        assert(self@ =~= old(self)@.remove(kind));
        slot
    }

    /// Whether a value of type `kind` is stored.
    pub fn contains(&self, kind: ExtensionKind) -> (r: bool)
        requires
            self.wf(),
        ensures
            r == self@.contains_key(kind),
    {
        let i = kind.slot();
        self.slots[i].is_some()
    }

    /// Removes every value.
    pub fn clear(&mut self)
        requires
            old(self).wf(),
        ensures
            final(self).wf(),
            final(self)@ == Map::<ExtensionKind, Extension>::empty(),
    {
        *self = Extensions::new();
    }

    /// How many values are stored.
    pub fn count(&self) -> (r: usize)
        requires
            self.wf(),
        ensures
            r == self@.dom().len(),
    {
        let mut n: usize = 0;
        let mut i: usize = 0;
        let ghost kinds = seq![
            ExtensionKind::Text,
            ExtensionKind::Number,
            ExtensionKind::Flag,
            ExtensionKind::Trail,
            ExtensionKind::Bytes,
            ExtensionKind::Params,
            ExtensionKind::ErrorFormat,
        ];
        let ghost mut seen = Set::<ExtensionKind>::empty();
        while i < KIND_COUNT
            invariant
                i <= KIND_COUNT,
                self.wf(),
                kinds.len() == KIND_COUNT,
                forall|j: int| 0 <= j < KIND_COUNT ==> slot_of(#[trigger] kinds[j]) == j,
                seen == Set::new(|k: ExtensionKind| slot_of(k) < i && self@.contains_key(k)),
                seen.finite(),
                n == seen.len(),
                n <= i,
            decreases KIND_COUNT - i,
        {
            proof {
                let k = kinds[i as int];
                let next = Set::new(|x: ExtensionKind| slot_of(x) < i + 1 && self@.contains_key(x));
                if self.slots@[i as int] is Some {
                    assert(next =~= seen.insert(k));
                    assert(!seen.contains(k));
                    seen = next;
                } else {
                    assert(next =~= seen);
                    seen = next;
                }
            }
            if self.slots[i].is_some() {
                n = n + 1;
            }
            i = i + 1;
        }
        assert(seen =~= self@.dom());
        n
    }
}

/// Storing a value replaces the one of its type and is what a later lookup
/// of that type finds; after a removal, a lookup of that type finds
/// nothing.
pub proof fn lemma_insert_get_remove(m: Map<ExtensionKind, Extension>, v: Extension, k: ExtensionKind)
    ensures
        m.insert(kind_of(v), v).contains_key(kind_of(v)),
        m.insert(kind_of(v), v)[kind_of(v)] == v,
        m.insert(kind_of(v), v).dom() == m.dom().insert(kind_of(v)),
        !m.remove(k).contains_key(k),
{
}

} // verus!
