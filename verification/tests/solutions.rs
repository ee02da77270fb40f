use fwop::apply_transform;
use fwop::canonicalize;
use fwop::generate_map;
use fwop::get_entry;
use fwop::press_weight;
use fwop::solve;
use fwop::SolveCache;
use fwop::SolveError;

#[test]
fn test_get_entry_search() {
    let pairs: Vec<(u32, u32)> = vec![(0, 0), (3, 7), (35, 1), (100, 42), (4674152, 1081348)];
    assert_eq!(get_entry(&pairs, 0), Some(0));
    assert_eq!(get_entry(&pairs, 35), Some(1));
    assert_eq!(get_entry(&pairs, 4674152), Some(1081348));
    assert_eq!(get_entry(&pairs, 1), None);
    assert_eq!(get_entry(&pairs, 5000000), None);
    let empty: Vec<(u32, u32)> = Vec::new();
    assert_eq!(get_entry(&empty, 0), None);
}

#[test]
fn test_cache_build_and_query() {
    let mut cache = SolveCache::new();
    cache.add_range(0, 4096);
    // every press maps to its lit-pattern, and entries carry minimal weight
    assert_eq!(cache.get(0), Some(0));
    let lit = generate_map(5);
    let best = cache.get(lit).unwrap();
    assert_eq!(generate_map(best), lit);
    assert!(press_weight(best) <= press_weight(5));
    // the tie-break keeps the smallest press-pattern of minimal weight
    let lit1 = generate_map(1);
    assert_eq!(cache.get(lit1), Some(1));
}

#[test]
fn test_cache_entry_weight_bound() {
    // presses at cells 2, 15 and 20 light the fixed example pattern
    let press: u32 = (1 << 2) | (1 << 15) | (1 << 20);
    let mut cache = SolveCache::new();
    cache.add_range(press, press + 1);
    let lit = generate_map(press);
    let best = cache.get(lit).unwrap();
    assert!(press_weight(best) <= 3);
}

#[test]
fn test_cache_merge() {
    let mut a = SolveCache::new();
    a.add_range(0, 64);
    let mut b = SolveCache::new();
    b.add_range(64, 256);
    a.merge(&b);
    let lit = generate_map(200);
    let best = a.get(lit).unwrap();
    assert_eq!(generate_map(best), lit);
    assert!(press_weight(best) <= press_weight(200));
}

#[test]
fn test_solve_all_off_target() {
    let mut cache = SolveCache::new();
    cache.add_range(0, 256);
    let pairs = cache.canonical_pairs(0, 1024);
    assert_eq!(solve(&pairs, 0), Ok(0));
}

#[test]
fn test_solve_round_trip() {
    let mut cache = SolveCache::new();
    for p in [1u32, 5, 99, 2000, 1081348] {
        let lit = generate_map(p);
        let (c, rot, refl) = canonicalize(lit);
        let p2 = apply_transform(p, rot, refl);
        assert_eq!(generate_map(p2), c);
        cache.add_range(p2, p2 + 1);
        let pairs = cache.canonical_pairs(c, c + 1);
        let answer = solve(&pairs, lit).unwrap();
        assert_eq!(generate_map(answer), lit);
        assert!(press_weight(answer) <= press_weight(p));
    }
}

#[test]
fn test_solve_cache_miss() {
    let pairs: Vec<(u32, u32)> = Vec::new();
    assert_eq!(solve(&pairs, 1), Err(SolveError::CacheMiss));
}
