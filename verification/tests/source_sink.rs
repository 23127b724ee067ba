use buffer::sink::{PendingWrite, WriteStep};
use buffer::source::{read_buffer, read_event, ReadEvent, CHUNK_SIZE};

#[test]
fn read_buffer_is_one_zeroed_chunk() {
    let b = read_buffer();
    assert_eq!(CHUNK_SIZE, 1024);
    assert_eq!(b.len(), 1024);
    assert!(b.iter().all(|x| *x == 0));
}

#[test]
fn failed_read_is_reported_as_failed() {
    assert!(matches!(read_event(vec![1, 2, 3], None), ReadEvent::Failed));
}

#[test]
fn zero_bytes_read_is_end_of_stream() {
    assert!(matches!(read_event(vec![1, 2, 3], Some(0)), ReadEvent::EndOfStream));
    assert!(matches!(read_event(Vec::new(), Some(4)), ReadEvent::EndOfStream));
}

#[test]
fn chunk_is_the_filled_front_of_the_buffer() {
    match read_event(vec![7, 8, 9, 0, 0], Some(3)) {
        ReadEvent::Data(chunk) => assert_eq!(chunk, vec![7, 8, 9]),
        _ => panic!("expected data"),
    }
    match read_event(vec![7, 8, 9], Some(3)) {
        ReadEvent::Data(chunk) => assert_eq!(chunk, vec![7, 8, 9]),
        _ => panic!("expected data"),
    }
    match read_event(vec![7, 8, 9], Some(2000)) {
        ReadEvent::Data(chunk) => assert_eq!(chunk, vec![7, 8, 9]),
        _ => panic!("expected data"),
    }
}

#[test]
fn empty_chunk_needs_no_write() {
    assert!(matches!(PendingWrite::start(Vec::new()), WriteStep::Done));
}

#[test]
fn short_writes_are_continued_until_the_chunk_is_out() {
    let pending = match PendingWrite::start(b"hello".to_vec()) {
        WriteStep::Continue(p) => p,
        _ => panic!("expected a write"),
    };
    assert_eq!(pending.remaining(), b"hello");
    let pending = match pending.advance(Some(2)) {
        WriteStep::Continue(p) => p,
        _ => panic!("expected more to write"),
    };
    assert_eq!(pending.remaining(), b"llo");
    let pending = match pending.advance(Some(1)) {
        WriteStep::Continue(p) => p,
        _ => panic!("expected more to write"),
    };
    assert_eq!(pending.remaining(), b"lo");
    assert!(matches!(pending.advance(Some(2)), WriteStep::Done));
}

#[test]
fn whole_write_finishes_the_chunk() {
    let pending = match PendingWrite::start(vec![1, 2, 3]) {
        WriteStep::Continue(p) => p,
        _ => panic!("expected a write"),
    };
    assert!(matches!(pending.advance(Some(3)), WriteStep::Done));
    let pending = match PendingWrite::start(vec![1, 2, 3]) {
        WriteStep::Continue(p) => p,
        _ => panic!("expected a write"),
    };
    assert!(matches!(pending.advance(Some(usize::MAX)), WriteStep::Done));
}

#[test]
fn failed_or_empty_write_gives_the_chunk_up() {
    let pending = match PendingWrite::start(vec![1, 2, 3]) {
        WriteStep::Continue(p) => p,
        _ => panic!("expected a write"),
    };
    assert!(matches!(pending.advance(None), WriteStep::Failed));
    let pending = match PendingWrite::start(vec![1, 2, 3]) {
        WriteStep::Continue(p) => p,
        _ => panic!("expected a write"),
    };
    assert!(matches!(pending.advance(Some(0)), WriteStep::Failed));
}
