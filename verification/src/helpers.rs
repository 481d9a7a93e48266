//! A small type-selection device for namespace declarations: given either a
//! one-element tuple holding only a default, or a pair of the default and an
//! override, pick the type to use.

use vstd::prelude::*;

verus! {

/// Picks a type from a tuple: the only one given, or the override in second
/// position.
pub trait TyOrDefault {
    type Type;
}

impl<T> TyOrDefault for (T,) {
    type Type = T;
}

impl<T, U> TyOrDefault for (T, U) {
    type Type = U;
}

} // verus!
