//! The writing side: what to do after each look at the queue.

use crate::queue::{Queue, QueueModel};
use vstd::prelude::*;

verus! {

/// What the writing side does next.
#[derive(Debug)]
pub enum ConsumerStep {
    /// Write this chunk, then look again.
    Write(Vec<u8>),
    /// Nothing is queued but more may come: yield, then look again.
    Yield,
    /// Nothing is queued and nothing will come: stop.
    Stop,
}

/// A [`ConsumerStep`] as mathematical values.
pub enum ConsumerStepModel {
    Write(Seq<u8>),
    Yield,
    Stop,
}

impl View for ConsumerStep {
    type V = ConsumerStepModel;

    open spec fn view(&self) -> ConsumerStepModel {
        match self {
            ConsumerStep::Write(chunk) => ConsumerStepModel::Write(chunk@),
            ConsumerStep::Yield => ConsumerStepModel::Yield,
            ConsumerStep::Stop => ConsumerStepModel::Stop,
        }
    }
}

/// The step after a look at `queue`: its head if it has one; otherwise stop
/// exactly when the end of the stream has been signalled.
pub open spec fn step_of_poll(queue: QueueModel) -> ConsumerStepModel {
    match queue.head() {
        Some(chunk) => ConsumerStepModel::Write(chunk),
        None => if queue.complete {
            ConsumerStepModel::Stop
        } else {
            ConsumerStepModel::Yield
        },
    }
}

/// Takes the oldest chunk off the queue, or decides between waiting and
/// stopping. Emptiness and the flag are read in one go, so a chunk that is
/// queued before the flag is set is never left behind.
pub fn poll(queue: &mut Queue) -> (step: ConsumerStep)
    requires
        old(queue).wf(),
    ensures
        final(queue).wf(),
        final(queue)@ == old(queue)@.dequeue(),
        step@ == step_of_poll(old(queue)@),
{
    match queue.try_dequeue() {
        Some(chunk) => ConsumerStep::Write(chunk),
        None => {
            if queue.is_complete() {
                ConsumerStep::Stop
            } else {
                ConsumerStep::Yield
            }
        },
    }
}

} // verus!
