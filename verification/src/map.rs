//! The interning map: a bidirectional association between owned text and
//! non-zero 32-bit identifiers, together with the allocation counter for the
//! next identifier.
//!
//! The map is modelled by [`MapModel`]: the forward table (text to
//! identifier), the backward table (identifier to text) and the counter.
//! The counter only grows; once it stands at `u32::MAX` the identifier
//! space is exhausted and no further identifier can be allocated, so
//! `u32::MAX` itself is never handed out. A well-formed map never hands out
//! the identifier zero and never reuses an identifier it has handed out
//! before.

use crate::tables;
use crate::tables::BwdTable;
use crate::tables::FwdTable;
use std::hash::RandomState;
use vstd::prelude::*;

verus! {

/// The mathematical content of an interning map: both tables and the
/// allocation counter. `counter == u32::MAX` means the identifier space is
/// exhausted and no further identifier can be allocated.
#[verifier::ext_equal]
pub struct MapModel {
    pub fwd: Map<Seq<char>, u32>,
    pub bwd: Map<u32, Seq<char>>,
    pub counter: u32,
}

/// A map with nothing interned whose first identifier to allocate is
/// `counter`.
pub open spec fn empty_model(counter: u32) -> MapModel {
    MapModel { fwd: tables::fwd_empty(), bwd: tables::bwd_empty(), counter }
}

/// Well-formedness of an interning map:
/// - the counter is never zero: it starts above zero and only grows, so
///   the identifier zero is never handed out;
/// - every forward entry is backed by the backward table, so resolving an
///   identifier the map handed out for some text yields that text again;
/// - every identifier in the backward table is non-zero and below the
///   counter, so a freshly allocated identifier never collides with an
///   existing one.
///
/// The backward table may hold several identifiers for equal text: racing
/// writers are allowed to intern the same new text twice, and that is kept
/// as a storage inefficiency, never as wrong resolution.
pub open spec fn model_wf(m: MapModel) -> bool {
    &&& m.counter != 0
    &&& forall|t: Seq<char>| #[trigger] m.fwd.contains_key(t)
        ==> m.bwd.contains_key(m.fwd[t]) && m.bwd[m.fwd[t]] == t
    &&& forall|id: u32| #[trigger] m.bwd.contains_key(id) ==> id != 0 && id < m.counter
}

/// Whether `internalize` can serve text `t` on map `m`: either the text is
/// already interned, or an identifier is still available.
pub open spec fn can_intern(m: MapModel, t: Seq<char>) -> bool {
    m.fwd.contains_key(t) || m.counter != u32::MAX
}

/// The identifier `internalize` returns for text `t` on map `m`: the
/// existing one if the text is present, otherwise the counter's value.
pub open spec fn intern_id(m: MapModel, t: Seq<char>) -> u32 {
    if m.fwd.contains_key(t) {
        m.fwd[t]
    } else {
        m.counter
    }
}

/// The map after `internalize` of text `t` on map `m`: unchanged if the
/// text is present, otherwise both tables gain the new pair and the counter
/// advances by one.
pub open spec fn intern_step(m: MapModel, t: Seq<char>) -> MapModel {
    if m.fwd.contains_key(t) {
        m
    } else {
        MapModel {
            fwd: m.fwd.insert(t, m.counter),
            bwd: m.bwd.insert(m.counter, t),
            counter: (m.counter + 1) as u32,
        }
    }
}

/// The map after the pre-seeding insertion of the pair `(id, t)`: both
/// tables gain the pair, the counter does not move.
pub open spec fn insert_step(m: MapModel, id: u32, t: Seq<char>) -> MapModel {
    MapModel { fwd: m.fwd.insert(t, id), bwd: m.bwd.insert(id, t), counter: m.counter }
}

/// A value that can be interned: anything that can be turned into the owned
/// text the map stores. Symbols resolve through their pool first and so
/// intern their resolved text.
pub trait Internalize {
    /// The text this value stands for.
    spec fn txt(&self) -> Seq<char>;

    /// Turn the value into the owned text the map will store.
    fn internalize(self) -> (s: String)
        ensures
            s@ == self.txt(),
    ;
}

impl Internalize for String {
    open spec fn txt(&self) -> Seq<char> {
        self@
    }

    fn internalize(self) -> (s: String) {
        self
    }
}

impl Internalize for &str {
    open spec fn txt(&self) -> Seq<char> {
        self@
    }

    fn internalize(self) -> (s: String) {
        self.to_owned()
    }
}

/// The interning map. Identifiers start at the initial counter value and
/// are handed out in increasing order; once the counter stands at
/// `u32::MAX` the identifier space is exhausted and stays so. `u32::MAX`
/// itself is never handed out: allocation fails before the counter would
/// have to move past it.
pub struct InternMap {
    counter: u32,
    fwd: FwdTable,
    bwd: BwdTable,
}

impl InternMap {
    /// The mathematical content of this map.
    pub closed spec fn model(self) -> MapModel {
        MapModel {
            fwd: tables::fwd_view(self.fwd),
            bwd: tables::bwd_view(self.bwd),
            counter: self.counter,
        }
    }

    /// An empty map whose first identifier to allocate is `init_counter`,
    /// with a randomly seeded hash strategy for each table.
    pub fn new(init_counter: u32) -> (m: InternMap)
        requires
            init_counter != 0,
        ensures
            m.model() == empty_model(init_counter),
    {
        Self::new_with_hashers(init_counter, tables::random_state(), tables::random_state())
    }

    /// An empty map whose first identifier to allocate is `init_counter`,
    /// with the given hash strategies for the forward and backward table.
    pub fn new_with_hashers(init_counter: u32, key_to_val: RandomState, val_to_key: RandomState) -> (m: InternMap)
        requires
            init_counter != 0,
        ensures
            m.model() == empty_model(init_counter),
    {
        InternMap {
            counter: init_counter,
            fwd: tables::fwd_with_hasher(key_to_val),
            bwd: tables::bwd_with_hasher(val_to_key),
        }
    }

    /// Pre-seeding insertion of a known pair: reserves identifier `key` for
    /// text `val` in both tables without touching the counter. Only for use
    /// before the map is handed to general callers: the identifier must be
    /// fresh, non-zero, and below the first identifier the counter will
    /// allocate.
    pub fn insert_mut(&mut self, key: u32, val: String)
        requires
            model_wf(old(self).model()),
            key != 0,
            key < old(self).model().counter,
            !old(self).model().bwd.contains_key(key),
        ensures
            final(self).model() == insert_step(old(self).model(), key, val@),
            model_wf(final(self).model()),
    {
        proof {
            lemma_insert_step_wf(self.model(), key, val@);
        }
        tables::bwd_insert(&mut self.bwd, key, val.clone());
        tables::fwd_insert(&mut self.fwd, val, key);
    }

    /// The same pre-seeding insertion as [`Self::insert_mut`].
    pub fn insert(&mut self, key: u32, val: String)
        requires
            model_wf(old(self).model()),
            key != 0,
            key < old(self).model().counter,
            !old(self).model().bwd.contains_key(key),
        ensures
            final(self).model() == insert_step(old(self).model(), key, val@),
            model_wf(final(self).model()),
    {
        self.insert_mut(key, val);
    }

    /// Whether `internalize` can serve `text`: either the text is already
    /// interned or an identifier is still available.
    pub fn can_internalize(&self, text: &str) -> (r: bool)
        ensures
            r == can_intern(self.model(), text@),
    {
        match tables::fwd_get(&self.fwd, text) {
            Some(_) => true,
            None => self.counter != u32::MAX,
        }
    }

    /// Intern owned text: return the existing identifier if the text is
    /// present, otherwise allocate the next identifier and file the pair in
    /// both tables. The caller must know that the identifier space is not
    /// exhausted; [`Self::try_internalize`] is the total variant.
    pub fn internalize_owned(&mut self, text: String) -> (id: u32)
        requires
            model_wf(old(self).model()),
            can_intern(old(self).model(), text@),
        ensures
            final(self).model() == intern_step(old(self).model(), text@),
            id == intern_id(old(self).model(), text@),
            id != 0,
            model_wf(final(self).model()),
            final(self).model().bwd.contains_key(id),
            final(self).model().bwd[id] == text@,
    {
        proof {
            lemma_intern_step_wf(self.model(), text@);
        }
        match tables::fwd_get(&self.fwd, text.as_str()) {
            Some(id) => id,
            None => {
                let id = self.counter;
                self.counter = id + 1;
                tables::bwd_insert(&mut self.bwd, id, text.clone());
                tables::fwd_insert(&mut self.fwd, text, id);
                id
            },
        }
    }

    /// Intern any value that can be turned into owned text.
    pub fn internalize<V: Internalize>(&mut self, st: V) -> (id: u32)
        requires
            model_wf(old(self).model()),
            can_intern(old(self).model(), st.txt()),
        ensures
            final(self).model() == intern_step(old(self).model(), st.txt()),
            id == intern_id(old(self).model(), st.txt()),
            id != 0,
            model_wf(final(self).model()),
            final(self).model().bwd.contains_key(id),
            final(self).model().bwd[id] == st.txt(),
    {
        let text = st.internalize();
        self.internalize_owned(text)
    }

    /// Intern any value that can be turned into owned text, or report that
    /// the identifier space is exhausted and the text was new, leaving the
    /// map unchanged.
    pub fn try_internalize<V: Internalize>(&mut self, st: V) -> (r: Option<u32>)
        requires
            model_wf(old(self).model()),
        ensures
            model_wf(final(self).model()),
            r is Some <==> can_intern(old(self).model(), st.txt()),
            (r matches Some(id) ==> {
                &&& final(self).model() == intern_step(old(self).model(), st.txt())
                &&& id == intern_id(old(self).model(), st.txt())
                &&& id != 0
                &&& final(self).model().bwd.contains_key(id)
                &&& final(self).model().bwd[id] == st.txt()
            }),
            r is None ==> *final(self) == *old(self),
    {
        let text = st.internalize();
        if self.can_internalize(text.as_str()) {
            Some(self.internalize_owned(text))
        } else {
            None
        }
    }

    /// Look up already-interned text without interning it: the read-only
    /// fast path of shared interning.
    pub fn lookup(&self, text: &str) -> (r: Option<u32>)
        ensures
            match r {
                Some(id) => self.model().fwd.contains_key(text@) && id == self.model().fwd[text@],
                None => !self.model().fwd.contains_key(text@),
            },
    {
        tables::fwd_get(&self.fwd, text)
    }

    /// Resolve an identifier to the text it was interned for, or `None` for
    /// an identifier this map never handed out.
    pub fn get(&self, key: u32) -> (r: Option<String>)
        ensures
            match r {
                Some(s) => self.model().bwd.contains_key(key) && s@ == self.model().bwd[key],
                None => !self.model().bwd.contains_key(key),
            },
    {
        tables::bwd_get(&self.bwd, key)
    }

    /// The next identifier this map would allocate, or `u32::MAX` once the
    /// identifier space is exhausted: that value is never handed out.
    pub fn next_id(&self) -> (c: u32)
        ensures
            c == self.model().counter,
    {
        self.counter
    }
}

/// Interning preserves well-formedness.
pub proof fn lemma_intern_step_wf(m: MapModel, t: Seq<char>)
    requires
        model_wf(m),
        can_intern(m, t),
    ensures
        model_wf(intern_step(m, t)),
{
}

/// Pre-seeding insertion of a fresh pair preserves well-formedness.
pub proof fn lemma_insert_step_wf(m: MapModel, id: u32, t: Seq<char>)
    requires
        model_wf(m),
        id != 0,
        id < m.counter,
        !m.bwd.contains_key(id),
    ensures
        model_wf(insert_step(m, id, t)),
{
    let s = insert_step(m, id, t);
    assert forall|u: Seq<char>| #[trigger] s.fwd.contains_key(u)
        implies s.bwd.contains_key(s.fwd[u]) && s.bwd[s.fwd[u]] == u by {
        if u != t {
            assert(m.fwd.contains_key(u));
            assert(m.fwd[u] != id);
        }
    }
}

} // verus!
