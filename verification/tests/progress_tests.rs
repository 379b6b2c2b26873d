use moon_upgrade::progress::{percent_tenths, ProgressAggregator};
use std::sync::{Arc, Mutex};

#[test]
fn snapshot_sums_are_exact() {
    let mut agg = ProgressAggregator::new();
    let a = "bin/moon".to_string();
    let b = "core.zip".to_string();
    agg.register(&a);
    agg.register(&b);
    assert_eq!(agg.snapshot(), (0, 0));
    agg.set_total(&a, 100);
    agg.set_total(&b, 400);
    assert_eq!(agg.snapshot(), (0, 500));
    agg.advance(&a, 30);
    agg.advance(&b, 100);
    agg.advance(&a, 70);
    assert_eq!(agg.snapshot(), (200, 500));
    agg.advance(&b, 300);
    assert_eq!(agg.snapshot(), (500, 500));
}

#[test]
fn advancing_an_unknown_item_changes_nothing() {
    let mut agg = ProgressAggregator::new();
    let a = "bin/moon".to_string();
    agg.register(&a);
    agg.set_total(&a, 10);
    agg.advance(&"bin/never-registered".to_string(), 5);
    assert_eq!(agg.snapshot(), (0, 10));
}

#[test]
fn setting_a_total_resets_the_downloaded_count() {
    let mut agg = ProgressAggregator::new();
    let a = "bin/moon".to_string();
    agg.register(&a);
    agg.set_total(&a, 10);
    agg.advance(&a, 4);
    assert_eq!(agg.snapshot(), (4, 10));
    // headers arrive before any chunk, so a fresh total starts from zero
    agg.set_total(&a, 12);
    assert_eq!(agg.snapshot(), (0, 12));
}

#[test]
fn interleaved_advances_lose_no_update() {
    // simulated parallel writers: N items advanced in many small interleaved
    // steps through a shared lock, as the concurrent fetch tasks do; every
    // mutation goes through `&mut self` behind the lock, so the final sum is
    // exactly the number of bytes credited
    let names: Vec<String> = (0..8).map(|i| format!("item-{}", i)).collect();
    let mut agg = ProgressAggregator::new();
    for n in names.iter() {
        agg.register(n);
        agg.set_total(n, 1000);
    }
    let shared = Arc::new(Mutex::new(agg));
    // writers take turns in a scrambled order, as a scheduler would interleave them
    for round in 0..100 {
        for k in 0..names.len() {
            let idx = (k * 5 + round * 3) % names.len();
            let mut guard = shared.lock().unwrap();
            guard.advance(&names[idx], 10);
        }
    }
    let (down, total) = shared.lock().unwrap().snapshot();
    assert_eq!(down, 8 * 100 * 10);
    assert_eq!(total, 8 * 1000);
}

#[test]
fn percentage_rendering() {
    assert_eq!(percent_tenths(0, 0), None);
    assert_eq!(percent_tenths(50, 100), Some(500));
    assert_eq!(percent_tenths(1, 3), Some(333));
    assert_eq!(percent_tenths(500, 500), Some(1000));
}
