//! The laws the interning map obeys, stated over its model and proved once
//! and for all. The executable operations tie themselves to the model in
//! their own contracts — `internalize` returns `intern_id` and moves the map
//! to `intern_step` — so each law below carries over to any sequence of
//! calls.

use crate::map::can_intern;
use crate::map::intern_id;
use crate::map::intern_step;
use crate::map::model_wf;
use crate::map::MapModel;
use vstd::prelude::*;

verus! {

/// Interning is idempotent: interning the same text twice in a row yields
/// the same identifier both times, and the second interning leaves the map
/// exactly as the first left it.
pub proof fn lemma_intern_idempotent(m: MapModel, t: Seq<char>)
    requires
        model_wf(m),
        can_intern(m, t),
    ensures
        intern_id(intern_step(m, t), t) == intern_id(m, t),
        intern_step(intern_step(m, t), t) == intern_step(m, t),
{
    assert(intern_step(m, t).fwd.contains_key(t));
}

/// Round trip: the identifier interning returns resolves, on the map the
/// interning leaves behind, to exactly the text that was interned.
pub proof fn lemma_intern_round_trip(m: MapModel, t: Seq<char>)
    requires
        model_wf(m),
        can_intern(m, t),
    ensures
        intern_step(m, t).bwd.contains_key(intern_id(m, t)),
        intern_step(m, t).bwd[intern_id(m, t)] == t,
{
}

/// Interning never disturbs a resolution: every identifier the map already
/// resolves keeps resolving to the same text after any further interning.
/// An identifier, once handed out, means the same text for the lifetime of
/// the map.
pub proof fn lemma_intern_preserves_resolutions(m: MapModel, t: Seq<char>)
    requires
        model_wf(m),
    ensures
        forall|id: u32| #[trigger] m.bwd.contains_key(id)
            ==> intern_step(m, t).bwd.contains_key(id) && intern_step(m, t).bwd[id] == m.bwd[id],
{
}

/// Static reservations are stable: on a map whose counter starts above `n` —
/// as a pool with `n` declared constants starts at `n + 1` — dynamic
/// interning of new text never hands out an identifier at or below `n`, so
/// the reserved identifiers `1..=n` keep meaning the declared constants.
pub proof fn lemma_static_reservation_stable(m: MapModel, t: Seq<char>, n: u32)
    requires
        model_wf(m),
        m.counter > n,
        !m.fwd.contains_key(t),
    ensures
        intern_id(m, t) > n,
{
}

} // verus!
