use interner::InternMap;
use interner::Pool;
use interner::Symbol;

fn pool_with(consts: &[&str]) -> Pool {
    let consts: Vec<String> = consts.iter().map(|s| s.to_string()).collect();
    Pool::new(&consts)
}

#[test]
fn pool_test() {
    let mut pool = pool_with(&["foo"]);
    let foo = Symbol::new_unchecked(1);
    assert!(foo == Symbol::intern(&mut pool, "foo"));
}

#[test]
fn intern_idempotent() {
    let mut pool = pool_with(&[]);
    let a = Symbol::intern(&mut pool, "alpha");
    let b = Symbol::intern(&mut pool, "alpha");
    assert_eq!(a, b);
    assert_eq!(a.as_str(&pool), "alpha");
}

#[test]
fn round_trip() {
    let mut pool = pool_with(&[]);
    for text in ["", "a", "beta", "gamma delta", "\u{e9}tude"] {
        let s = Symbol::intern(&mut pool, text);
        assert_eq!(s.as_str(&pool), text);
    }
}

#[test]
fn namespace_isolation() {
    let mut first = pool_with(&[]);
    let mut second = pool_with(&[]);
    // skew the first pool's counter, then intern the same text in both
    Symbol::intern(&mut first, "skew");
    let a = Symbol::intern(&mut first, "shared text");
    let b = Symbol::intern(&mut second, "shared text");
    // each resolves correctly against its own pool
    assert_eq!(a.as_str(&first), "shared text");
    assert_eq!(b.as_str(&second), "shared text");
    // the identifier spaces moved independently
    assert_eq!(first.get_map().next_id(), 3);
    assert_eq!(second.get_map().next_id(), 2);
}

#[test]
fn static_reservation() {
    let mut pool = pool_with(&["one", "two", "three"]);
    // constants hold the reserved identifiers 1..=3 in declaration order
    assert_eq!(pool.get(1), Some("one".to_string()));
    assert_eq!(pool.get(2), Some("two".to_string()));
    assert_eq!(pool.get(3), Some("three".to_string()));
    // interning a declared text returns its reserved identifier
    let two = Symbol::intern(&mut pool, "two");
    assert!(two == Symbol::new_unchecked(2));
    // dynamic interning never reuses an identifier at or below 3
    let fresh = Symbol::intern(&mut pool, "four");
    assert!(fresh == Symbol::new_unchecked(4));
    assert_eq!(pool.get(4), Some("four".to_string()));
    // the reserved identifiers still resolve as declared
    assert_eq!(pool.get(1), Some("one".to_string()));
}

#[test]
fn ordering_matches_content() {
    let mut pool = pool_with(&[]);
    // interned in reverse content order: "b" receives the lower identifier
    let b = Symbol::intern(&mut pool, "b");
    let a = Symbol::intern(&mut pool, "a");
    assert!(a.lt(&b, &pool));
    assert!(!b.lt(&a, &pool));
    assert!(!a.lt(&a, &pool));
    // a proper prefix comes first
    let ab = Symbol::intern(&mut pool, "ab");
    let abc = Symbol::intern(&mut pool, "abc");
    assert!(ab.lt(&abc, &pool));
    assert!(!abc.lt(&ab, &pool));
    // the empty text comes before everything else
    let empty = Symbol::intern(&mut pool, "");
    assert!(empty.lt(&a, &pool));
    assert!(!a.lt(&empty, &pool));
    // order is by Unicode scalar value: "z" comes before "\u{e9}"
    let z = Symbol::intern(&mut pool, "z");
    let e_acute = Symbol::intern(&mut pool, "\u{e9}");
    assert!(z.lt(&e_acute, &pool));
    assert!(!e_acute.lt(&z, &pool));
}

#[test]
fn duplicate_constants_share_text() {
    let mut pool = pool_with(&["twin", "twin"]);
    // both reserved identifiers resolve to the declared text
    assert_eq!(pool.get(1), Some("twin".to_string()));
    assert_eq!(pool.get(2), Some("twin".to_string()));
    // interning the text finds one of the reservations, never a fresh slot
    let s = Symbol::intern(&mut pool, "twin");
    assert!(s == Symbol::new_unchecked(1) || s == Symbol::new_unchecked(2));
    assert_eq!(pool.get_map().next_id(), 3);
}

#[test]
fn scenario_foo_bar() {
    let mut pool = pool_with(&["foo"]);
    let foo = Symbol::new_unchecked(1);
    let again = Symbol::intern(&mut pool, "foo");
    assert!(again == foo);
    let bar = Symbol::intern(&mut pool, "bar");
    assert!(bar == Symbol::new_unchecked(2));
    assert_eq!(pool.get(2), Some("bar".to_string()));
}

#[test]
fn intern_symbol_across_pools() {
    let mut first = pool_with(&[]);
    let mut second = pool_with(&["head start"]);
    let a = Symbol::intern(&mut first, "shared");
    let b = Symbol::intern_from(&mut second, &a, &first);
    assert_eq!(b.as_str(&second), "shared");
    assert!(b == Symbol::new_unchecked(2));
    // interning the text directly in the second pool finds the same handle
    assert!(Symbol::intern(&mut second, "shared") == b);
}

#[test]
fn eq_str_checks_text() {
    let mut pool = pool_with(&[]);
    let s = Symbol::intern(&mut pool, "hello");
    assert!(s.eq_str("hello", &pool));
    assert!(!s.eq_str("world", &pool));
    assert!(!s.eq_str("", &pool));
}

#[test]
fn symbols_are_copyable_values() {
    let mut pool = pool_with(&[]);
    let s = Symbol::intern(&mut pool, "copy me");
    let t = s;
    assert_eq!(s, t);
    assert_eq!(t.as_str(&pool), "copy me");
}

#[test]
fn map_insert_get() {
    let mut map = InternMap::new(10);
    map.insert_mut(3, "three".to_string());
    map.insert(7, "seven".to_string());
    assert_eq!(map.get(3), Some("three".to_string()));
    assert_eq!(map.get(7), Some("seven".to_string()));
    assert_eq!(map.get(4), None);
    // interning the seeded text finds the seeded identifier
    let id = map.internalize("three".to_string());
    assert_eq!(id, 3);
    // fresh text allocates at the counter
    let id = map.internalize("eleven".to_string());
    assert_eq!(id, 10);
    assert_eq!(map.get(10), Some("eleven".to_string()));
}

#[test]
fn map_lookup_does_not_intern() {
    let mut map = InternMap::new(1);
    assert_eq!(map.lookup("quiet"), None);
    assert_eq!(map.next_id(), 1);
    let id = map.internalize("quiet");
    assert_eq!(map.lookup("quiet"), Some(id));
    assert_eq!(map.next_id(), 2);
}

#[test]
fn map_internalize_string_and_str() {
    let mut map = InternMap::new(1);
    let a = map.internalize("same");
    let b = map.internalize("same".to_string());
    assert_eq!(a, b);
    assert_eq!(a, 1);
}

#[test]
fn counter_exhaustion() {
    // the greatest allocatable identifier is u32::MAX - 1: a counter
    // standing at u32::MAX means the space is exhausted, and that value is
    // never handed out
    let mut map = InternMap::new(u32::MAX - 1);
    let last = map.internalize("last".to_string());
    assert_eq!(last, u32::MAX - 1);
    assert_eq!(map.next_id(), u32::MAX);
    assert_eq!(map.get(u32::MAX - 1), Some("last".to_string()));
    // known text can still be served, new text cannot
    assert!(map.can_internalize("last"));
    assert!(!map.can_internalize("next"));
    assert_eq!(map.try_internalize("last".to_string()), Some(u32::MAX - 1));
    assert_eq!(map.try_internalize("next".to_string()), None);
    // the map is left valid and non-advancing
    assert_eq!(map.next_id(), u32::MAX);
    assert_eq!(map.get(u32::MAX - 1), Some("last".to_string()));
    // a map can even start exhausted
    let mut dead = InternMap::new(u32::MAX);
    assert!(!dead.can_internalize("anything"));
    assert_eq!(dead.try_internalize("anything".to_string()), None);
}

#[test]
fn map_with_hashers() {
    let mut map = InternMap::new_with_hashers(
        5,
        std::hash::RandomState::new(),
        std::hash::RandomState::new(),
    );
    assert_eq!(map.next_id(), 5);
    let id = map.internalize("text".to_string());
    assert_eq!(id, 5);
    assert_eq!(map.get(5), Some("text".to_string()));
}
