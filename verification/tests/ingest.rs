use search_bench::ingest::{Ingest, BATCH, PROGRESS_EVERY};

#[test]
fn full_batch_is_handed_out() {
    let mut ing = Ingest::new();
    for i in 0..BATCH - 1 {
        let step = ing.push(format!("doc {i}"));
        assert!(step.batch.is_none());
        assert!(step.progress.is_none());
    }
    let step = ing.push("last".to_string());
    let batch = step.batch.unwrap();
    assert_eq!(batch.len(), BATCH);
    assert_eq!(batch[0], "doc 0");
    assert_eq!(batch[BATCH - 1], "last");
    assert!(step.progress.is_none());
    assert_eq!(ing.total(), BATCH as u64);
    assert!(ing.finish().is_none());
}

#[test]
fn last_partial_batch() {
    let mut ing = Ingest::new();
    ing.push("a".to_string());
    ing.push("b".to_string());
    assert_eq!(ing.total(), 0);
    assert!(ing.can_finish());
    let rest = ing.finish().unwrap();
    assert_eq!(rest, vec!["a".to_string(), "b".to_string()]);
    assert_eq!(ing.total(), 2);
    assert!(ing.finish().is_none());
}

#[test]
fn progress_every_million() {
    let mut ing = Ingest::new();
    let mut reports = Vec::new();
    let mut batches = 0;
    for _ in 0..PROGRESS_EVERY {
        let step = ing.push(String::new());
        if step.batch.is_some() {
            batches += 1;
        }
        if let Some(p) = step.progress {
            reports.push(p);
        }
    }
    assert_eq!(batches, 20);
    assert_eq!(reports, vec![1_000_000]);
    assert!(ing.can_push());
}

#[test]
fn batches_concatenate_to_the_accepted_docs() {
    let mut ing = Ingest::new();
    let n = 2 * BATCH + 7;
    let mut out: Vec<String> = Vec::new();
    let mut sizes = Vec::new();
    for i in 0..n {
        if let Some(b) = ing.push(i.to_string()).batch {
            sizes.push(b.len());
            out.extend(b);
        }
    }
    if let Some(b) = ing.finish() {
        sizes.push(b.len());
        out.extend(b);
    }
    assert_eq!(sizes, vec![BATCH, BATCH, 7]);
    assert_eq!(out, (0..n).map(|i| i.to_string()).collect::<Vec<_>>());
    assert_eq!(ing.total(), n as u64);
}
