use interner::Pool;
use interner::SharedInternMap;

#[test]
fn shared_map_intern_and_resolve() {
    let pool = Pool::new(&vec!["base".to_string()]);
    let shared = SharedInternMap::new(pool.into_map());
    // the seeded constant is served with its reserved identifier
    assert_eq!(shared.internalize("base".to_string()), Some(1));
    assert_eq!(shared.get(1), Some("base".to_string()));
    // new text receives the first dynamic identifier
    let id = shared.internalize("fresh".to_string()).unwrap();
    assert_eq!(id, 2);
    assert_eq!(shared.get(id), Some("fresh".to_string()));
    // interning again returns the same identifier
    assert_eq!(shared.internalize("fresh".to_string()), Some(id));
    // a foreign identifier resolves to nothing
    assert_eq!(shared.get(99), None);
}
