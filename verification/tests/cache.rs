use ashdaemon::cache::SeedCache;

#[test]
fn first_appearance_of_a_seed_builds() {
    let mut c = SeedCache::new();
    assert_eq!(c.builds(), 0);
    let (slot, fresh) = c.get_or_build(&b"seed-a".to_vec());
    assert_eq!(slot, 0);
    assert!(fresh);
    assert_eq!(c.builds(), 1);
}

#[test]
fn a_seed_is_built_at_most_once() {
    let mut c = SeedCache::new();
    let (first_slot, first_fresh) = c.get_or_build(&b"deadbeef".to_vec());
    let (second_slot, second_fresh) = c.get_or_build(&b"deadbeef".to_vec());
    assert!(first_fresh);
    assert!(!second_fresh);
    assert_eq!(first_slot, second_slot);
    assert_eq!(c.builds(), 1);
}

#[test]
fn distinct_seeds_get_distinct_slots() {
    let mut c = SeedCache::new();
    let (a, _) = c.get_or_build(&b"one".to_vec());
    let (b, _) = c.get_or_build(&b"two".to_vec());
    let (a_again, fresh) = c.get_or_build(&b"one".to_vec());
    assert_ne!(a, b);
    assert_eq!(a, a_again);
    assert!(!fresh);
    assert_eq!(c.builds(), 2);
}

#[test]
fn entries_are_never_evicted() {
    let mut c = SeedCache::new();
    for i in 0..64u32 {
        let seed = i.to_be_bytes().to_vec();
        let (slot, fresh) = c.get_or_build(&seed);
        assert_eq!(slot as u32, i);
        assert!(fresh);
    }
    assert_eq!(c.builds(), 64);
    for i in 0..64u32 {
        let seed = i.to_be_bytes().to_vec();
        let (slot, fresh) = c.get_or_build(&seed);
        assert_eq!(slot as u32, i);
        assert!(!fresh);
    }
    assert_eq!(c.builds(), 64);
}
