//! Tests for the ingestion batching/backpressure controller: batch
//! sealing every thousandth line, skipping of blank lines, the final
//! flush, milestone cadence, and the throttle threshold.

use calmbench::ingest::{should_throttle, Action, IngestStep, Ingestor};

fn drive(ing: &mut Ingestor, line: &str) -> (Option<Vec<Action>>, bool, bool) {
    match ing.offer(line) {
        IngestStep::Skipped => (None, false, true),
        IngestStep::Accepted { flush, milestone } => (flush, milestone, false),
    }
}

#[test]
fn seals_every_thousandth_line() {
    let mut ing = Ingestor::new();
    let mut flushes: Vec<Vec<Action>> = Vec::new();
    for i in 0..2500u32 {
        let (flush, _, skipped) = drive(&mut ing, &format!("doc {}", i));
        assert!(!skipped);
        if let Some(batch) = flush {
            assert_eq!((i + 1) % 1000, 0);
            assert_eq!(batch.len(), 1000);
            flushes.push(batch);
        }
    }
    assert_eq!(flushes.len(), 2);
    let tail = ing.finish().expect("a remainder batch is pending");
    assert_eq!(tail.len(), 500);
    flushes.push(tail);
    // ceil(2500 / 1000) == 3 mutate calls, payloads in arrival order.
    assert_eq!(flushes.len(), 3);
    let all: Vec<&str> = flushes.iter().flatten().map(|a| a.payload.as_str()).collect();
    assert_eq!(all.len(), 2500);
    for (i, payload) in all.iter().enumerate() {
        assert_eq!(*payload, format!("doc {}", i));
    }
}

#[test]
fn exact_multiple_leaves_nothing_pending() {
    let mut ing = Ingestor::new();
    let mut batches = 0;
    for i in 0..2000u32 {
        if let (Some(_), _, _) = drive(&mut ing, &format!("doc {}", i)) {
            batches += 1;
        }
    }
    assert_eq!(batches, 2);
    assert!(ing.finish().is_none());
    assert_eq!(ing.total(), 2000);
}

#[test]
fn single_line_is_flushed_at_finish() {
    let mut ing = Ingestor::new();
    let (flush, milestone, skipped) = drive(&mut ing, "only line");
    assert!(flush.is_none() && !milestone && !skipped);
    let tail = ing.finish().expect("one line is pending");
    assert_eq!(tail.len(), 1);
    assert_eq!(tail[0].payload, "only line");
    assert_eq!(tail[0].key, "");
}

#[test]
fn blank_lines_are_skipped_and_not_counted() {
    let mut ing = Ingestor::new();
    for line in ["", "   ", "\t", " \u{a0} "] {
        let (flush, milestone, skipped) = drive(&mut ing, line);
        assert!(skipped && flush.is_none() && !milestone);
    }
    assert_eq!(ing.total(), 0);
    assert!(ing.finish().is_none());
}

#[test]
fn blank_lines_do_not_disturb_batch_cadence() {
    let mut ing = Ingestor::new();
    let mut flushed: Option<Vec<Action>> = None;
    for i in 0..999u32 {
        let (flush, _, _) = drive(&mut ing, &format!("doc {}", i));
        assert!(flush.is_none());
        let (flush, _, skipped) = drive(&mut ing, "  ");
        assert!(flush.is_none() && skipped);
    }
    let (flush, _, _) = drive(&mut ing, "doc 999");
    if let Some(batch) = flush {
        assert_eq!(batch.len(), 1000);
        assert!(batch.iter().all(|a| !a.payload.trim().is_empty()));
        flushed = Some(batch);
    }
    assert!(flushed.is_some(), "the thousandth accepted line seals the batch");
    assert_eq!(ing.total(), 1000);
}

#[test]
fn milestone_at_every_hundred_thousandth_line() {
    let mut ing = Ingestor::new();
    for i in 1..=100000u32 {
        let (_, milestone, _) = drive(&mut ing, "doc");
        assert_eq!(milestone, i == 100000, "milestone only at line {}", i);
    }
    let (_, milestone, _) = drive(&mut ing, "doc");
    assert!(!milestone);
}

#[test]
fn throttle_threshold_is_strictly_more_than_three() {
    assert!(!should_throttle(0));
    assert!(!should_throttle(3));
    assert!(should_throttle(4));
    assert!(should_throttle(100));
}
