use es_runtime::registry::CachedObjectRegistry;

#[test]
fn ids_are_fresh_and_never_reused() {
    let mut reg: CachedObjectRegistry<&'static str> = CachedObjectRegistry::new();
    let a = reg.register("a").ok().unwrap();
    let b = reg.register("b").ok().unwrap();
    assert_eq!(a, 1);
    assert_eq!(b, 2);
    assert_eq!(reg.consume(a), Some("a"));
    let c = reg.register("c").ok().unwrap();
    assert_eq!(c, 3);
    assert!(!reg.contains(a));
    assert_eq!(reg.consume(a), None);
    assert_eq!(reg.len(), 2);
}

#[test]
fn retained_handle_stays_until_consumed() {
    let mut reg: CachedObjectRegistry<u32> = CachedObjectRegistry::new();
    let f = reg.register(21).ok().unwrap();
    for i in 0..10 {
        let other = reg.register(i).ok().unwrap();
        assert_eq!(reg.get(f), Some(&21));
        reg.consume(other);
        assert_eq!(reg.get(f), Some(&21));
    }
    assert_eq!(reg.consume(f), Some(21));
    assert_eq!(reg.get(f), None);
}
