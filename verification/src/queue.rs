//! The capacity-limited FIFO of chunks with its end-of-stream flag.

use std::collections::VecDeque;
use vstd::prelude::*;

verus! {

/// Capacity, in chunks, of a queue made by [`Queue::new`].
pub const DEFAULT_CAPACITY: usize = 8192;

/// What a queue holds, as mathematical values.
pub struct QueueModel {
    /// The queued chunks, oldest first.
    pub chunks: Seq<Seq<u8>>,
    /// The largest number of chunks held at once.
    pub capacity: nat,
    /// Whether the end of the stream has been signalled.
    pub complete: bool,
}

impl QueueModel {
    /// The empty, incomplete queue of the given capacity.
    pub open spec fn empty(capacity: nat) -> QueueModel {
        QueueModel { chunks: Seq::empty(), capacity, complete: false }
    }

    /// The capacity is positive and never exceeded.
    pub open spec fn wf(self) -> bool {
        1 <= self.capacity && self.chunks.len() <= self.capacity
    }

    pub open spec fn is_full(self) -> bool {
        self.chunks.len() >= self.capacity
    }

    pub open spec fn is_empty(self) -> bool {
        self.chunks.len() == 0
    }

    /// The queue after an attempt to append `chunk`: unchanged when full.
    pub open spec fn enqueue(self, chunk: Seq<u8>) -> QueueModel {
        if self.is_full() {
            self
        } else {
            QueueModel { chunks: self.chunks.push(chunk), ..self }
        }
    }

    /// The queue after an attempt to remove its head: unchanged when empty.
    pub open spec fn dequeue(self) -> QueueModel {
        if self.is_empty() {
            self
        } else {
            QueueModel { chunks: self.chunks.drop_first(), ..self }
        }
    }

    /// The oldest chunk, if there is one.
    pub open spec fn head(self) -> Option<Seq<u8>> {
        if self.is_empty() {
            None
        } else {
            Some(self.chunks[0])
        }
    }

    /// The queue with the end of the stream signalled.
    pub open spec fn completed(self) -> QueueModel {
        QueueModel { complete: true, ..self }
    }
}

/// Whether the producer has signalled the end of the stream.
#[derive(Clone, Copy, Debug)]
pub enum QueueState {
    Incomplete,
    Complete,
}

/// A bounded FIFO of byte chunks shared by one producer and one consumer.
///
/// The queue itself is not synchronised: the caller keeps it behind a
/// single lock and holds that lock for the length of one operation.
pub struct Queue {
    state: QueueState,
    data: VecDeque<Vec<u8>>,
    capacity: usize,
}

impl View for Queue {
    type V = QueueModel;

    closed spec fn view(&self) -> QueueModel {
        QueueModel {
            chunks: self.data@.map_values(|c: Vec<u8>| c@),
            capacity: self.capacity as nat,
            complete: self.state == QueueState::Complete,
        }
    }
}

impl Queue {
    /// The invariant that every constructor establishes and every operation keeps.
    pub open spec fn wf(&self) -> bool {
        self@.wf()
    }

    /// An empty, incomplete queue of [`DEFAULT_CAPACITY`] chunks.
    pub fn new() -> (q: Queue)
        ensures
            q.wf(),
            q@ == QueueModel::empty(DEFAULT_CAPACITY as nat),
    {
        let q = Queue {
            state: QueueState::Incomplete,
            data: VecDeque::new(),
            capacity: DEFAULT_CAPACITY,
        };
        assert(q@.chunks =~= Seq::empty());
        q
    }

    /// An empty, incomplete queue that holds at most `capacity` chunks.
    /// A capacity of zero admits nothing and is refused.
    pub fn with_capacity(capacity: usize) -> (q: Option<Queue>)
        ensures
            q is None <==> capacity == 0,
            q matches Some(q) ==> q.wf() && q@ == QueueModel::empty(capacity as nat),
    {
        if capacity == 0 {
            return None;
        }
        let q = Queue { state: QueueState::Incomplete, data: VecDeque::new(), capacity };
        assert(q@.chunks =~= Seq::empty());
        Some(q)
    }

    /// Appends `chunk` at the tail if there is room. A full queue stays as
    /// it is and hands the chunk back.
    pub fn try_enqueue(&mut self, chunk: Vec<u8>) -> (res: Result<(), Vec<u8>>)
        requires
            old(self).wf(),
        ensures
            final(self).wf(),
            final(self)@ == old(self)@.enqueue(chunk@),
            res is Err <==> old(self)@.is_full(),
            res matches Err(back) ==> back == chunk && final(self)@ == old(self)@,
            res is Ok ==> final(self)@.chunks == old(self)@.chunks.push(chunk@),
            final(self)@.complete == old(self)@.complete,
            final(self)@.capacity == old(self)@.capacity,
            final(self)@.chunks.len() <= final(self)@.capacity,
    {
        if self.data.len() >= self.capacity {
            Err(chunk)
        } else {
            self.data.push_back(chunk);
            assert(final(self)@.chunks =~= old(self)@.chunks.push(chunk@));
            Ok(())
        }
    }

    /// Removes and returns the oldest chunk. An empty queue stays as it is.
    pub fn try_dequeue(&mut self) -> (res: Option<Vec<u8>>)
        requires
            old(self).wf(),
        ensures
            final(self).wf(),
            final(self)@ == old(self)@.dequeue(),
            res is None <==> old(self)@.is_empty(),
            res is None ==> final(self)@ == old(self)@,
            final(self)@.complete == old(self)@.complete,
            final(self)@.capacity == old(self)@.capacity,
            res matches Some(chunk) ==> chunk@ == old(self)@.chunks[0] && final(self)@.chunks
                == old(self)@.chunks.drop_first(),
    {
        let res = self.data.pop_front();
        assert(final(self)@.chunks =~= old(self)@.dequeue().chunks);
        res
    }

    /// Signals the end of the stream. The chunks stay; the flag never goes back.
    pub fn mark_complete(&mut self)
        requires
            old(self).wf(),
        ensures
            final(self).wf(),
            final(self)@ == old(self)@.completed(),
            final(self)@.complete,
            final(self)@.chunks == old(self)@.chunks,
            final(self)@.capacity == old(self)@.capacity,
    {
        self.state = QueueState::Complete;
    }

    /// Whether the end of the stream has been signalled.
    pub fn is_complete(&self) -> (b: bool)
        ensures
            b == self@.complete,
    {
        match self.state {
            QueueState::Complete => true,
            QueueState::Incomplete => false,
        }
    }

    /// The number of chunks held.
    pub fn len(&self) -> (n: usize)
        ensures
            n == self@.chunks.len(),
    {
        self.data.len()
    }

    /// The largest number of chunks held at once.
    pub fn capacity(&self) -> (n: usize)
        ensures
            n == self@.capacity,
    {
        self.capacity
    }
}

} // verus!
