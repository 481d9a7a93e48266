//! The typed handle over an interned string: a copyable value wrapping one
//! non-zero identifier.
//!
//! A symbol owns no text; it resolves through the pool it was interned
//! against. Two symbols of one pool are equal exactly when their identifiers
//! are equal. Ordering, by contrast, goes by the resolved text, never by the
//! identifiers: identifier order reflects insertion time, not content.

use crate::map::can_intern;
use crate::map::intern_id;
use crate::map::intern_step;
use crate::map::model_wf;
use crate::map::Internalize;
use crate::pool::Pool;
use vstd::prelude::*;

verus! {

/// Strict lexicographic order on text, by Unicode scalar value. This is the
/// order `str` comparison gives: a proper prefix comes first, otherwise the
/// first differing character decides.
pub open spec fn lex_lt(a: Seq<char>, b: Seq<char>) -> bool
    decreases a.len(),
{
    if b.len() == 0 {
        false
    } else if a.len() == 0 {
        true
    } else if a[0] != b[0] {
        (a[0] as u32) < (b[0] as u32)
    } else {
        lex_lt(a.skip(1), b.skip(1))
    }
}

/// When two texts agree on their first `i` characters, their order is
/// decided by what remains.
pub proof fn lemma_lex_lt_common_prefix(a: Seq<char>, b: Seq<char>, i: int)
    requires
        0 <= i <= a.len(),
        i <= b.len(),
        forall|j: int| 0 <= j < i ==> a[j] == b[j],
    ensures
        lex_lt(a, b) == lex_lt(a.skip(i), b.skip(i)),
    decreases i,
{
    if i > 0 {
        assert(a[0] == b[0]);
        assert forall|j: int| 0 <= j < i - 1 implies a.skip(1)[j] == b.skip(1)[j] by {
            assert(a[j + 1] == b[j + 1]);
        }
        lemma_lex_lt_common_prefix(a.skip(1), b.skip(1), i - 1);
        assert(a.skip(1).skip(i - 1) =~= a.skip(i));
        assert(b.skip(1).skip(i - 1) =~= b.skip(i));
    } else {
        assert(a.skip(0) =~= a);
        assert(b.skip(0) =~= b);
    }
}

/// Compare two strings in the lexicographic order [`lex_lt`].
pub fn str_lex_lt(a: &str, b: &str) -> (r: bool)
    ensures
        r == lex_lt(a@, b@),
{
    let a_len = a.unicode_len();
    let b_len = b.unicode_len();
    let mut i: usize = 0;
    while i < a_len && i < b_len
        invariant
            a_len == a@.len(),
            b_len == b@.len(),
            0 <= i <= a_len,
            i <= b_len,
            forall|j: int| 0 <= j < i ==> a@[j] == b@[j],
        decreases a_len - i,
    {
        let ca = a.get_char(i);
        let cb = b.get_char(i);
        if ca != cb {
            proof {
                lemma_lex_lt_common_prefix(a@, b@, i as int);
            }
            return (ca as u32) < (cb as u32);
        }
        i = i + 1;
    }
    proof {
        lemma_lex_lt_common_prefix(a@, b@, i as int);
    }
    a_len < b_len
}

/// A copyable handle for an interned string: one non-zero identifier.
/// Symbols of one pool are equal exactly when their identifiers are.
#[derive(Clone, Copy, Debug, Eq, Hash, PartialEq, Structural)]
pub struct Symbol {
    id: u32,
}

impl View for Symbol {
    type V = u32;

    /// The identifier this symbol wraps.
    closed spec fn view(&self) -> u32 {
        self.id
    }
}

impl Symbol {
    /// Wrap a known identifier without consulting any pool. The caller
    /// vouches that the identifier is non-zero, as every identifier a pool
    /// hands out is; namespaces reserve `1..=N` for their declared
    /// constants, so constant number `i` is `Symbol::new_unchecked(i + 1)`.
    pub fn new_unchecked(val: u32) -> (s: Symbol)
        requires
            val != 0,
        ensures
            s@ == val,
    {
        Symbol { id: val }
    }

    /// Intern a value against the pool and wrap the identifier it receives.
    pub fn intern<V: Internalize>(pool: &mut Pool, val: V) -> (s: Symbol)
        requires
            model_wf(old(pool).model()),
            can_intern(old(pool).model(), val.txt()),
        ensures
            s@ == intern_id(old(pool).model(), val.txt()),
            s@ != 0,
            final(pool).model() == intern_step(old(pool).model(), val.txt()),
            model_wf(final(pool).model()),
            final(pool).model().bwd.contains_key(s@),
            final(pool).model().bwd[s@] == val.txt(),
    {
        let id = pool.internalize(val);
        Symbol::new_unchecked(id)
    }

    /// Intern the text a symbol of another pool resolves to: the handle
    /// itself can be interned, sharing its text between namespaces. The
    /// identifier comes from this pool; the source pool is only read.
    pub fn intern_from(pool: &mut Pool, sym: &Symbol, source: &Pool) -> (s: Symbol)
        requires
            model_wf(old(pool).model()),
            source.model().bwd.contains_key(sym@),
            can_intern(old(pool).model(), source.model().bwd[sym@]),
        ensures
            s@ == intern_id(old(pool).model(), source.model().bwd[sym@]),
            s@ != 0,
            final(pool).model() == intern_step(old(pool).model(), source.model().bwd[sym@]),
            model_wf(final(pool).model()),
            final(pool).model().bwd.contains_key(s@),
            final(pool).model().bwd[s@] == source.model().bwd[sym@],
    {
        let text = sym.as_str(source);
        Symbol::intern(pool, text)
    }

    /// Resolve this symbol to the text it was interned for. The symbol must
    /// come from this pool: resolving a foreign identifier is an internal
    /// invariant violation, not a recoverable condition, and is ruled out
    /// here rather than reported.
    pub fn as_str(&self, pool: &Pool) -> (s: String)
        requires
            pool.model().bwd.contains_key(self@),
        ensures
            s@ == pool.model().bwd[self@],
    {
        pool.get(self.id).unwrap()
    }

    /// Whether this symbol's text comes strictly before the other symbol's
    /// text in lexicographic order. The identifiers play no part: a symbol
    /// interned later can come first.
    pub fn lt(&self, other: &Symbol, pool: &Pool) -> (r: bool)
        requires
            pool.model().bwd.contains_key(self@),
            pool.model().bwd.contains_key(other@),
        ensures
            r == lex_lt(pool.model().bwd[self@], pool.model().bwd[other@]),
    {
        let a = self.as_str(pool);
        let b = other.as_str(pool);
        str_lex_lt(a.as_str(), b.as_str())
    }

    /// Whether this symbol resolves to exactly the given text.
    pub fn eq_str(&self, other: &str, pool: &Pool) -> (r: bool)
        requires
            pool.model().bwd.contains_key(self@),
        ensures
            r == (pool.model().bwd[self@] == other@),
    {
        let s = self.as_str(pool);
        let o = other.to_owned();
        s == o
    }
}

} // verus!
