//! Turning the outcome of one read into a chunk, an end-of-stream signal or
//! a failure.

use vstd::prelude::*;

verus! {

/// The size in bytes of the buffer handed to one read, and so the largest chunk.
pub const CHUNK_SIZE: usize = 1024;

/// What one read of the input came to.
#[derive(Debug)]
pub enum ReadEvent {
    /// The bytes that the read delivered, at least one.
    Data(Vec<u8>),
    /// The input is exhausted.
    EndOfStream,
    /// The read failed; the input may still deliver more.
    Failed,
}

/// A [`ReadEvent`] as mathematical values.
pub enum ReadEventModel {
    Data(Seq<u8>),
    EndOfStream,
    Failed,
}

impl View for ReadEvent {
    type V = ReadEventModel;

    open spec fn view(&self) -> ReadEventModel {
        match self {
            ReadEvent::Data(chunk) => ReadEventModel::Data(chunk@),
            ReadEvent::EndOfStream => ReadEventModel::EndOfStream,
            ReadEvent::Failed => ReadEventModel::Failed,
        }
    }
}

/// The number of bytes of a buffer of `capacity` bytes that a read
/// reporting `count` bytes has filled.
pub open spec fn filled(capacity: nat, count: nat) -> nat {
    if count <= capacity {
        count
    } else {
        capacity
    }
}

/// The event for a read into `buffer` that reported `outcome`: `None` for a
/// failed read, else the number of bytes read. No byte read means the end
/// of the stream; otherwise the chunk is the filled front of the buffer.
pub open spec fn event_of_read(buffer: Seq<u8>, outcome: Option<usize>) -> ReadEventModel {
    match outcome {
        None => ReadEventModel::Failed,
        Some(count) => {
            let n = filled(buffer.len(), count as nat);
            if n == 0 {
                ReadEventModel::EndOfStream
            } else {
                ReadEventModel::Data(buffer.subrange(0, n as int))
            }
        },
    }
}

/// A zeroed buffer of [`CHUNK_SIZE`] bytes for the next read.
pub fn read_buffer() -> (buffer: Vec<u8>)
    ensures
        buffer@ == Seq::new(CHUNK_SIZE as nat, |i: int| 0u8),
{
    let mut buffer: Vec<u8> = Vec::with_capacity(CHUNK_SIZE);
    while buffer.len() < CHUNK_SIZE
        invariant
            buffer.len() <= CHUNK_SIZE,
            buffer@ =~= Seq::new(buffer.len() as nat, |i: int| 0u8),
        decreases CHUNK_SIZE - buffer.len(),
    {
        buffer.push(0u8);
    }
    buffer
}

/// Classifies one read: `buffer` is what was handed to the read, `outcome`
/// what it reported.
pub fn read_event(buffer: Vec<u8>, outcome: Option<usize>) -> (event: ReadEvent)
    ensures
        event@ == event_of_read(buffer@, outcome),
{
    match outcome {
        None => ReadEvent::Failed,
        Some(count) => {
            let mut data = buffer;
            data.truncate(count);
            assert(data@ =~= buffer@.subrange(0, filled(buffer@.len(), count as nat) as int));
            if data.len() == 0 {
                ReadEvent::EndOfStream
            } else {
                ReadEvent::Data(data)
            }
        },
    }
}

} // verus!
