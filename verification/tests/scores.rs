use search_bench::checkpoints::{Checkpoint, PruningCheckpoints, ScanCheckpoints};
use search_bench::counting::{UnoptimizedCount, UnoptimizedCountSegmentCollector};
use search_bench::threads::writer_threads;
use search_bench::top_scores::TopScores;

#[test]
fn top_scores_keep_the_largest() {
    let mut t = TopScores::new(3);
    for k in [5u32, 1, 9, 7, 3] {
        t.push(k);
    }
    assert_eq!(t.len(), 3);
    assert_eq!(t.threshold(), 5);
    t.push(6);
    assert_eq!(t.threshold(), 6);
    t.push(6);
    assert_eq!(t.threshold(), 6);
    t.push(100);
    assert_eq!(t.threshold(), 7);
    t.push(200);
    assert_eq!(t.threshold(), 9);
}

#[test]
fn top_scores_before_full() {
    let mut t = TopScores::new(10);
    t.push(4);
    assert_eq!(t.threshold(), 4);
    t.push(2);
    assert_eq!(t.threshold(), 2);
    assert_eq!(t.len(), 2);
}

#[test]
fn pruning_checkpoints() {
    let mut p = PruningCheckpoints::new(2);
    assert_eq!(p.on_hit(1, 5), 5);
    assert_eq!(p.on_hit(2, 3), 3);
    assert_eq!(p.on_hit(3, 8), 5);
    assert_eq!(p.on_hit(4, 6), 6);
    assert_eq!(
        p.checkpoints().clone(),
        vec![
            Checkpoint { doc: 1, limit: 5, score: 5 },
            Checkpoint { doc: 2, limit: 3, score: 3 },
            Checkpoint { doc: 3, limit: 8, score: 8 },
            Checkpoint { doc: 4, limit: 6, score: 6 },
        ]
    );
}

#[test]
fn scan_checkpoints() {
    let mut s = ScanCheckpoints::new(2, 0);
    s.on_doc(1, 5);
    assert_eq!(s.limit(), 5);
    s.on_doc(2, 3);
    assert_eq!(s.limit(), 5);
    s.on_doc(3, 8);
    assert_eq!(s.limit(), 5);
    s.on_doc(4, 6);
    assert_eq!(s.limit(), 6);
    s.on_doc(5, 6);
    assert_eq!(s.limit(), 6);
    assert_eq!(
        s.checkpoints().clone(),
        vec![
            Checkpoint { doc: 1, limit: 0, score: 5 },
            Checkpoint { doc: 3, limit: 5, score: 8 },
            Checkpoint { doc: 4, limit: 5, score: 6 },
        ]
    );
}

#[test]
fn unoptimized_count() {
    let c = UnoptimizedCount;
    let mut seg = c.for_segment();
    assert_eq!(seg.0, 0);
    seg.collect(3);
    seg.collect(9);
    assert_eq!(seg.harvest(), 2);
    assert!(!c.requires_scoring());
    assert_eq!(c.merge_fruits(&vec![2, 5, 0]), Some(7));
    assert_eq!(c.merge_fruits(&vec![]), Some(0));
    assert_eq!(c.merge_fruits(&vec![u64::MAX, 1]), None);
    let mut full = UnoptimizedCountSegmentCollector(u64::MAX - 1);
    full.collect(0);
    assert_eq!(full.harvest(), u64::MAX);
}

#[test]
fn writer_thread_counts() {
    assert_eq!(writer_threads(Some(16)), 4);
    assert_eq!(writer_threads(Some(4)), 4);
    assert_eq!(writer_threads(Some(2)), 2);
    assert_eq!(writer_threads(None), 4);
}

#[test]
fn zero_capacity_keeps_nothing() {
    let mut t = TopScores::new(0);
    t.push(3);
    assert_eq!(t.len(), 0);
    let mut s = ScanCheckpoints::new(0, 10);
    s.on_doc(1, 4);
    assert!(s.checkpoints().is_empty());
    assert_eq!(s.capacity_of(), 0);
}

#[test]
fn pruned_and_unpruned_walks_record_the_same_hits() {
    let hits: Vec<(u32, u32)> =
        vec![(0, 7), (1, 3), (2, 9), (3, 9), (4, 1), (5, 12), (6, 8), (7, 10), (8, 2), (9, 11)];
    let start = 2;
    let mut scan = ScanCheckpoints::new(3, start);
    for &(d, k) in &hits {
        scan.on_doc(d, k);
    }
    let mut pruned = PruningCheckpoints::new(3);
    let mut threshold = start;
    for &(d, k) in &hits {
        if k > threshold {
            threshold = pruned.on_hit(d, k);
        }
    }
    let a: Vec<(u32, u32)> = pruned.checkpoints().iter().map(|c| (c.doc, c.score)).collect();
    let b: Vec<(u32, u32)> = scan.checkpoints().iter().map(|c| (c.doc, c.score)).collect();
    assert_eq!(a, b);
    assert_eq!(threshold, scan.limit());
    assert_eq!(scan.checkpoints()[0].limit, start);
}

#[test]
fn harvest_counts_collects_and_merge_is_additive() {
    let c = UnoptimizedCount;
    let mut seg = c.for_segment();
    for d in 0..37u32 {
        seg.collect(d);
    }
    assert_eq!(seg.harvest(), 37);
    let a = vec![3u64, 9, 1];
    let b = vec![4u64, 0];
    let mut ab = a.clone();
    ab.extend(&b);
    assert_eq!(c.merge_fruits(&ab), Some(c.merge_fruits(&a).unwrap() + c.merge_fruits(&b).unwrap()));
    assert_eq!(c.merge_fruits(&vec![0, 4, 1, 9, 3]), c.merge_fruits(&ab));
}
