//! The reading side: what to do with the outcome of each read.

use crate::queue::{Queue, QueueModel};
use crate::source::{ReadEvent, ReadEventModel};
use vstd::prelude::*;

verus! {

/// What the reading side does next.
#[derive(Debug)]
pub enum ProducerStep {
    /// Read the next chunk.
    Read,
    /// Report the failed read, then read again.
    Report,
    /// The queue is full: yield, then offer the chunk again.
    Wait(Vec<u8>),
    /// The end of the stream has been signalled: stop.
    Stop,
}

/// A [`ProducerStep`] as mathematical values.
pub enum ProducerStepModel {
    Read,
    Report,
    Wait(Seq<u8>),
    Stop,
}

impl View for ProducerStep {
    type V = ProducerStepModel;

    open spec fn view(&self) -> ProducerStepModel {
        match self {
            ProducerStep::Read => ProducerStepModel::Read,
            ProducerStep::Report => ProducerStepModel::Report,
            ProducerStep::Wait(chunk) => ProducerStepModel::Wait(chunk@),
            ProducerStep::Stop => ProducerStepModel::Stop,
        }
    }
}

/// The step after `chunk` is offered to `queue`: read on once it is
/// admitted, wait with it while the queue is full.
pub open spec fn step_of_offer(queue: QueueModel, chunk: Seq<u8>) -> ProducerStepModel {
    if queue.is_full() {
        ProducerStepModel::Wait(chunk)
    } else {
        ProducerStepModel::Read
    }
}

/// The step after a read that came to `event`.
pub open spec fn step_of_read(queue: QueueModel, event: ReadEventModel) -> ProducerStepModel {
    match event {
        ReadEventModel::Data(chunk) => if chunk.len() == 0 {
            ProducerStepModel::Stop
        } else {
            step_of_offer(queue, chunk)
        },
        ReadEventModel::EndOfStream => ProducerStepModel::Stop,
        ReadEventModel::Failed => ProducerStepModel::Report,
    }
}

/// The queue after a read that came to `event`: a chunk is appended if
/// there is room, the end of the stream (or an empty chunk) sets the flag,
/// a failed read changes nothing.
pub open spec fn queue_after_read(queue: QueueModel, event: ReadEventModel) -> QueueModel {
    match event {
        ReadEventModel::Data(chunk) => if chunk.len() == 0 {
            queue.completed()
        } else {
            queue.enqueue(chunk)
        },
        ReadEventModel::EndOfStream => queue.completed(),
        ReadEventModel::Failed => queue,
    }
}

/// Offers `chunk` to the queue, for the first time or after a wait.
pub fn offer(queue: &mut Queue, chunk: Vec<u8>) -> (step: ProducerStep)
    requires
        old(queue).wf(),
    ensures
        final(queue).wf(),
        final(queue)@ == old(queue)@.enqueue(chunk@),
        step@ == step_of_offer(old(queue)@, chunk@),
{
    match queue.try_enqueue(chunk) {
        Ok(()) => ProducerStep::Read,
        Err(back) => ProducerStep::Wait(back),
    }
}

/// Takes in the outcome of one read.
pub fn on_read(queue: &mut Queue, event: ReadEvent) -> (step: ProducerStep)
    requires
        old(queue).wf(),
    ensures
        final(queue).wf(),
        final(queue)@ == queue_after_read(old(queue)@, event@),
        step@ == step_of_read(old(queue)@, event@),
{
    match event {
        ReadEvent::Data(chunk) => {
            if chunk.len() == 0 {
                queue.mark_complete();
                ProducerStep::Stop
            } else {
                offer(queue, chunk)
            }
        },
        ReadEvent::EndOfStream => {
            queue.mark_complete();
            ProducerStep::Stop
        },
        ReadEvent::Failed => ProducerStep::Report,
    }
}

} // verus!
