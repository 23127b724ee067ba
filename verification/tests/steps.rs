use buffer::consumer::{poll, ConsumerStep};
use buffer::producer::{offer, on_read, ProducerStep};
use buffer::queue::Queue;
use buffer::source::ReadEvent;

#[test]
fn data_is_queued_and_the_producer_reads_on() {
    let mut q = Queue::with_capacity(2).unwrap();
    assert!(matches!(on_read(&mut q, ReadEvent::Data(vec![1, 2, 3])), ProducerStep::Read));
    assert_eq!(q.len(), 1);
    assert!(!q.is_complete());
    assert_eq!(q.try_dequeue(), Some(vec![1, 2, 3]));
}

#[test]
fn producer_waits_with_its_chunk_while_the_queue_is_full() {
    let mut q = Queue::with_capacity(1).unwrap();
    assert!(matches!(on_read(&mut q, ReadEvent::Data(vec![1])), ProducerStep::Read));
    let held = match on_read(&mut q, ReadEvent::Data(vec![2, 2])) {
        ProducerStep::Wait(chunk) => chunk,
        _ => panic!("expected a wait"),
    };
    assert_eq!(held, vec![2, 2]);
    assert_eq!(q.len(), 1);
    let held = match offer(&mut q, held) {
        ProducerStep::Wait(chunk) => chunk,
        _ => panic!("expected a wait"),
    };
    assert_eq!(held, vec![2, 2]);
    assert_eq!(q.len(), 1);
    assert_eq!(q.try_dequeue(), Some(vec![1]));
    assert!(matches!(offer(&mut q, held), ProducerStep::Read));
    assert_eq!(q.try_dequeue(), Some(vec![2, 2]));
}

#[test]
fn end_of_stream_marks_the_queue_complete_and_stops() {
    let mut q = Queue::with_capacity(2).unwrap();
    assert!(matches!(on_read(&mut q, ReadEvent::Data(vec![5])), ProducerStep::Read));
    assert!(matches!(on_read(&mut q, ReadEvent::EndOfStream), ProducerStep::Stop));
    assert!(q.is_complete());
    assert_eq!(q.len(), 1);
}

#[test]
fn empty_chunk_counts_as_end_of_stream() {
    let mut q = Queue::with_capacity(2).unwrap();
    assert!(matches!(on_read(&mut q, ReadEvent::Data(Vec::new())), ProducerStep::Stop));
    assert!(q.is_complete());
    assert_eq!(q.len(), 0);
}

#[test]
fn failed_read_is_reported_and_changes_nothing() {
    let mut q = Queue::with_capacity(2).unwrap();
    assert!(matches!(on_read(&mut q, ReadEvent::Data(vec![5])), ProducerStep::Read));
    assert!(matches!(on_read(&mut q, ReadEvent::Failed), ProducerStep::Report));
    assert!(!q.is_complete());
    assert_eq!(q.len(), 1);
}

#[test]
fn consumer_writes_the_head_then_yields_then_stops() {
    let mut q = Queue::with_capacity(2).unwrap();
    assert!(matches!(poll(&mut q), ConsumerStep::Yield));
    assert_eq!(q.try_enqueue(vec![1]), Ok(()));
    assert_eq!(q.try_enqueue(vec![2]), Ok(()));
    q.mark_complete();
    match poll(&mut q) {
        ConsumerStep::Write(chunk) => assert_eq!(chunk, vec![1]),
        _ => panic!("expected a chunk"),
    }
    match poll(&mut q) {
        ConsumerStep::Write(chunk) => assert_eq!(chunk, vec![2]),
        _ => panic!("expected a chunk"),
    }
    assert!(matches!(poll(&mut q), ConsumerStep::Stop));
    assert_eq!(q.len(), 0);
}

#[test]
fn consumer_does_not_stop_on_an_empty_incomplete_queue() {
    let mut q = Queue::with_capacity(1).unwrap();
    for _ in 0..3 {
        assert!(matches!(poll(&mut q), ConsumerStep::Yield));
        assert_eq!(q.len(), 0);
    }
}
