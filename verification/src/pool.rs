//! A pool: one namespace with its own interning map.
//!
//! A pool is built once, before general use, from a fixed list of constant
//! texts. The constants receive the reserved identifiers `1..=N` in
//! declaration order, and the dynamic counter starts at `N + 1`, so a
//! dynamically allocated identifier never collides with a reserved one.
//! Each pool owns its map outright, so distinct pools have fully independent
//! identifier spaces: nothing done to one pool can be seen through another.

use crate::map::can_intern;
use crate::map::intern_id;
use crate::map::intern_step;
use crate::map::model_wf;
use crate::map::InternMap;
use crate::map::Internalize;
use crate::map::MapModel;
use vstd::prelude::*;

verus! {

/// A namespace: an interning map pre-seeded with this namespace's constants.
pub struct Pool {
    map: InternMap,
}

impl Pool {
    /// The mathematical content of this pool's map.
    pub closed spec fn model(self) -> MapModel {
        self.map.model()
    }

    /// Build the namespace's map, reserving identifier `i + 1` for
    /// `constants[i]`. The backward table then holds exactly the
    /// identifiers `1..=N`, each resolving to its declared text; the
    /// forward table holds exactly the declared texts, each mapped — by
    /// well-formedness — to a reserved identifier that resolves back to it;
    /// the counter starts at `N + 1`. Declaring the same text twice wastes
    /// the earlier identifier, as both keep resolving to the text but only
    /// one is found by interning.
    pub fn new(constants: &Vec<String>) -> (p: Pool)
        requires
            constants@.len() + 1 <= u32::MAX,
        ensures
            model_wf(p.model()),
            p.model().counter == constants@.len() + 1,
            forall|id: u32| 1 <= id <= constants@.len()
                ==> #[trigger] p.model().bwd.contains_key(id)
                    && p.model().bwd[id] == constants@[id - 1]@,
            forall|id: u32| #[trigger] p.model().bwd.contains_key(id)
                ==> 1 <= id <= constants@.len(),
            forall|t: Seq<char>| #[trigger] p.model().fwd.contains_key(t)
                <==> exists|i: int| 0 <= i < constants@.len() && constants@[i]@ == t,
    {
        let n = constants.len();
        let mut map = InternMap::new((n + 1) as u32);
        let mut k: usize = 0;
        while k < n
            invariant
                n == constants@.len(),
                n + 1 <= u32::MAX,
                0 <= k <= n,
                model_wf(map.model()),
                map.model().counter == n + 1,
                forall|id: u32| 1 <= id <= k
                    ==> #[trigger] map.model().bwd.contains_key(id)
                        && map.model().bwd[id] == constants@[id - 1]@,
                forall|id: u32| #[trigger] map.model().bwd.contains_key(id) ==> 1 <= id <= k,
                forall|t: Seq<char>| #[trigger] map.model().fwd.contains_key(t)
                    <==> exists|i: int| 0 <= i < k && constants@[i]@ == t,
            decreases n - k,
        {
            let ghost prev = map.model();
            let ghost kk = ((k + 1) as u32);
            map.insert_mut((k + 1) as u32, constants[k].clone());
            proof {
                assert(map.model().bwd == prev.bwd.insert(kk, constants@[k as int]@));
                assert(map.model().fwd == prev.fwd.insert(constants@[k as int]@, kk));
                assert forall|id: u32| 1 <= id <= k + 1
                    implies #[trigger] map.model().bwd.contains_key(id)
                        && map.model().bwd[id] == constants@[id - 1]@ by {
                    if id <= k {
                        assert(prev.bwd.contains_key(id));
                        assert(id != kk);
                    }
                }
                assert forall|t: Seq<char>| #[trigger] map.model().fwd.contains_key(t)
                    <==> exists|i: int| 0 <= i < k + 1 && constants@[i]@ == t by {
                    if map.model().fwd.contains_key(t) {
                        if t == constants@[k as int]@ {
                            assert(0 <= k < k + 1 && constants@[k as int]@ == t);
                        } else {
                            assert(prev.fwd.contains_key(t));
                        }
                    }
                    if exists|i: int| 0 <= i < k + 1 && constants@[i]@ == t {
                        let i = choose|i: int| 0 <= i < k + 1 && constants@[i]@ == t;
                        if i < k {
                            assert(prev.fwd.contains_key(t));
                        }
                    }
                }
            }
            k = k + 1;
        }
        Pool { map }
    }

    /// Intern a value against this namespace's map.
    pub fn internalize<V: Internalize>(&mut self, st: V) -> (id: u32)
        requires
            model_wf(old(self).model()),
            can_intern(old(self).model(), st.txt()),
        ensures
            final(self).model() == intern_step(old(self).model(), st.txt()),
            id == intern_id(old(self).model(), st.txt()),
            id != 0,
            model_wf(final(self).model()),
            final(self).model().bwd.contains_key(id),
            final(self).model().bwd[id] == st.txt(),
    {
        self.map.internalize(st)
    }

    /// Resolve an identifier against this namespace's map.
    pub fn get(&self, key: u32) -> (r: Option<String>)
        ensures
            match r {
                Some(s) => self.model().bwd.contains_key(key) && s@ == self.model().bwd[key],
                None => !self.model().bwd.contains_key(key),
            },
    {
        self.map.get(key)
    }

    /// Whether interning `text` can be served by this namespace's map.
    pub fn can_internalize(&self, text: &str) -> (r: bool)
        ensures
            r == can_intern(self.model(), text@),
    {
        self.map.can_internalize(text)
    }

    /// This namespace's map, for read-only access.
    pub fn get_map(&self) -> (m: &InternMap)
        ensures
            m.model() == self.model(),
    {
        &self.map
    }

    /// Give up the pool and hand its map out, for sharing it between
    /// threads once seeding is done.
    pub fn into_map(self) -> (m: InternMap)
        ensures
            m.model() == self.model(),
    {
        self.map
    }
}

} // verus!
