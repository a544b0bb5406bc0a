//! Tests of the candidate source's batching and of the first-result slot.

use zip_pw_finder::batch::{make_batches, Batcher, SourceStep};
use zip_pw_finder::slot::ResultSlot;

fn dict(words: &[&str]) -> Vec<String> {
    words.iter().map(|w| w.to_string()).collect()
}

#[test]
fn batches_of_two_with_trailing_partial() {
    let lines = dict(&["a", "b", "c", "d", "e"]);
    let batches = make_batches(&lines, 2);
    assert_eq!(batches.len(), 3);
    assert_eq!(batches[0], dict(&["a", "b"]));
    assert_eq!(batches[1], dict(&["c", "d"]));
    assert_eq!(batches[2], dict(&["e"]));
}

#[test]
fn batch_larger_than_dictionary() {
    let lines = dict(&["a", "b", "c"]);
    let batches = make_batches(&lines, 10);
    assert_eq!(batches.len(), 1);
    assert_eq!(batches[0], dict(&["a", "b", "c"]));
}

#[test]
fn exact_division_leaves_no_partial() {
    let lines = dict(&["a", "b", "c", "d"]);
    let batches = make_batches(&lines, 2);
    assert_eq!(batches.len(), 2);
    assert_eq!(batches[0], dict(&["a", "b"]));
    assert_eq!(batches[1], dict(&["c", "d"]));
}

#[test]
fn empty_dictionary_yields_no_batches() {
    let lines: Vec<String> = Vec::new();
    let batches = make_batches(&lines, 3);
    assert!(batches.is_empty());
}

#[test]
fn batcher_publishes_when_full() {
    let mut batcher = Batcher::new(2);
    assert!(matches!(batcher.offer("a".to_string(), false), SourceStep::Accepted));
    match batcher.offer("b".to_string(), false) {
        SourceStep::Publish(batch) => assert_eq!(batch, dict(&["a", "b"])),
        _ => panic!("expected a published batch"),
    }
    assert!(matches!(batcher.offer("c".to_string(), false), SourceStep::Accepted));
    match batcher.flush() {
        Some(tail) => assert_eq!(tail, dict(&["c"])),
        None => panic!("expected a trailing partial batch"),
    }
    assert!(batcher.flush().is_none());
}

#[test]
fn cancelled_batcher_never_publishes() {
    let mut batcher = Batcher::new(2);
    assert!(matches!(batcher.offer("a".to_string(), true), SourceStep::Accepted));
    // The filling line meets an observed cancellation: the batch is dropped.
    assert!(matches!(batcher.offer("b".to_string(), true), SourceStep::Halted));
    assert!(batcher.flush().is_none());
}

#[test]
fn slot_first_writer_wins() {
    let mut slot = ResultSlot::new();
    assert!(!slot.is_filled());
    assert!(slot.publish("first".to_string()));
    assert!(slot.is_filled());
    // A later publication is a cheap refusal, not a block.
    assert!(!slot.publish("second".to_string()));
    assert_eq!(slot.take(), Some("first".to_string()));
    assert!(!slot.is_filled());
    assert_eq!(slot.take(), None);
}
