use fruits::hits::HitCounts;
use fruits::stream::ObjectCounts;

fn map() -> ObjectCounts {
    ObjectCounts { n_fruits: 40, n_droplets: 10, max_combo: 50 }
}

#[test]
fn fresh_counts_are_empty() {
    let h = HitCounts::new();
    assert_eq!(h.combo_hits(), 0);
    assert_eq!(h.successful_hits(), 0);
    assert_eq!(h.total_hits(), 0);
}

#[test]
fn hit_sums() {
    let h = HitCounts {
        n_fruits: Some(30),
        n_droplets: Some(8),
        n_tiny_droplets: Some(5),
        n_tiny_droplet_misses: Some(2),
        n_misses: 3,
    };
    assert_eq!(h.combo_hits(), 41);
    assert_eq!(h.successful_hits(), 43);
    assert_eq!(h.total_hits(), 48);
}

#[test]
fn settle_without_misses() {
    let settled = HitCounts::new().settle(map(), 50).unwrap();
    assert_eq!(settled.n_droplets, Some(10));
    assert_eq!(settled.n_fruits, Some(50));
    assert_eq!(settled.n_tiny_droplets, Some(0));
    assert_eq!(settled.n_tiny_droplet_misses, Some(0));
}

#[test]
fn settle_takes_misses_from_droplets_first() {
    let mut h = HitCounts::new();
    h.n_misses = 13;
    let settled = h.settle(map(), 30).unwrap();
    assert_eq!(settled.n_droplets, Some(0));
    assert_eq!(settled.n_fruits, Some(37));
    assert_eq!(settled.n_misses, 13);
}

#[test]
fn settle_keeps_given_counts() {
    let mut h = HitCounts::new();
    h.n_fruits = Some(12);
    h.n_droplets = Some(4);
    let settled = h.settle(map(), 16).unwrap();
    assert_eq!(settled.n_fruits, Some(12));
    assert_eq!(settled.n_droplets, Some(4));
}

#[test]
fn settle_refuses_tiny_droplets_beyond_the_map() {
    let mut h = HitCounts::new();
    h.n_misses = 20;
    // 30 fruits and no droplet are left; 45 hits asked for leaves 15 tiny droplets
    assert_eq!(h.settle(map(), 45), None);
}
