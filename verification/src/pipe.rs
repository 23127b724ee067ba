//! The whole pipe as a mathematical model: a finite input, the two sides
//! and the queue between them, taking turns in any order. The laws below
//! are stated over the same spec functions as the contracts of the steps.

use crate::consumer::{step_of_poll, ConsumerStepModel};
use crate::producer::{queue_after_read, step_of_offer, step_of_read, ProducerStepModel};
use crate::queue::QueueModel;
use crate::source::ReadEventModel;
use vstd::prelude::*;

verus! {

/// One state of the pipe.
pub struct Pipe {
    /// The chunks that the input has yet to deliver.
    pub source: Seq<Seq<u8>>,
    /// The chunk that the reading side holds while the queue is full.
    pub waiting: Option<Seq<u8>>,
    /// The reading side has stopped.
    pub producer_stopped: bool,
    /// The shared queue.
    pub queue: QueueModel,
    /// The chunks handed to the output, oldest first.
    pub sink: Seq<Seq<u8>>,
    /// The writing side has stopped.
    pub consumer_stopped: bool,
}

/// Whose turn it is.
pub enum Turn {
    /// The reading side offers the chunk it holds, or reads and acts on the outcome.
    Producer,
    /// The reading side reads, and the read fails.
    FailedRead,
    /// The writing side looks at the queue and acts on what it finds.
    Consumer,
}

/// Every chunk holds at least one byte.
pub open spec fn all_nonempty(chunks: Seq<Seq<u8>>) -> bool {
    forall|i: int| 0 <= i < chunks.len() ==> (#[trigger] chunks[i]).len() > 0
}

impl Pipe {
    /// The pipe before the first turn.
    pub open spec fn initial(input: Seq<Seq<u8>>, capacity: nat) -> Pipe {
        Pipe {
            source: input,
            waiting: None,
            producer_stopped: false,
            queue: QueueModel::empty(capacity),
            sink: Seq::empty(),
            consumer_stopped: false,
        }
    }

    /// What the next successful read comes to.
    pub open spec fn next_read(self) -> ReadEventModel {
        if self.source.len() == 0 {
            ReadEventModel::EndOfStream
        } else {
            ReadEventModel::Data(self.source[0])
        }
    }

    /// The pipe once the reading side has taken in `step`.
    pub open spec fn with_producer_step(self, step: ProducerStepModel) -> Pipe {
        match step {
            ProducerStepModel::Read => Pipe { waiting: None, ..self },
            ProducerStepModel::Report => Pipe { waiting: None, ..self },
            ProducerStepModel::Wait(chunk) => Pipe { waiting: Some(chunk), ..self },
            ProducerStepModel::Stop => Pipe { waiting: None, producer_stopped: true, ..self },
        }
    }

    /// The pipe after a read that came to `event`, the reading side holding no chunk.
    pub open spec fn after_read(self, event: ReadEventModel) -> Pipe {
        Pipe {
            queue: queue_after_read(self.queue, event),
            ..self.with_producer_step(step_of_read(self.queue, event))
        }
    }

    /// One turn of the reading side.
    pub open spec fn producer_turn(self) -> Pipe {
        if self.producer_stopped {
            self
        } else {
            match self.waiting {
                Some(chunk) => Pipe {
                    queue: self.queue.enqueue(chunk),
                    ..self.with_producer_step(step_of_offer(self.queue, chunk))
                },
                None => Pipe {
                    source: if self.source.len() == 0 {
                        self.source
                    } else {
                        self.source.drop_first()
                    },
                    ..self.after_read(self.next_read())
                },
            }
        }
    }

    /// One turn of the reading side in which the read fails.
    pub open spec fn failed_read_turn(self) -> Pipe {
        if self.producer_stopped || self.waiting is Some {
            self
        } else {
            self.after_read(ReadEventModel::Failed)
        }
    }

    /// One turn of the writing side.
    pub open spec fn consumer_turn(self) -> Pipe {
        if self.consumer_stopped {
            self
        } else {
            match step_of_poll(self.queue) {
                ConsumerStepModel::Write(chunk) => Pipe {
                    queue: self.queue.dequeue(),
                    sink: self.sink.push(chunk),
                    ..self
                },
                ConsumerStepModel::Yield => self,
                ConsumerStepModel::Stop => Pipe { consumer_stopped: true, ..self },
            }
        }
    }

    pub open spec fn turn(self, t: Turn) -> Pipe {
        match t {
            Turn::Producer => self.producer_turn(),
            Turn::FailedRead => self.failed_read_turn(),
            Turn::Consumer => self.consumer_turn(),
        }
    }

    /// The pipe after the turns of `schedule`, first to last.
    pub open spec fn run(self, schedule: Seq<Turn>) -> Pipe
        decreases schedule.len(),
    {
        if schedule.len() == 0 {
            self
        } else {
            self.turn(schedule[0]).run(schedule.drop_first())
        }
    }

    /// The chunk that the reading side holds, as a sequence of at most one.
    pub open spec fn held(self) -> Seq<Seq<u8>> {
        match self.waiting {
            Some(chunk) => seq![chunk],
            None => Seq::empty(),
        }
    }

    /// Every chunk of the pipe in the order of the input: those written,
    /// those queued, the one held, those still to be read.
    pub open spec fn chunks(self) -> Seq<Seq<u8>> {
        self.sink + self.queue.chunks + self.held() + self.source
    }

    /// What holds of every state that a pipe fed with `input` reaches.
    pub open spec fn inv(self, input: Seq<Seq<u8>>) -> bool {
        &&& all_nonempty(input)
        &&& self.queue.wf()
        &&& self.chunks() == input
        &&& self.queue.complete <==> self.producer_stopped
        &&& self.producer_stopped ==> self.source.len() == 0 && self.waiting is None
        &&& self.consumer_stopped ==> self.producer_stopped && self.queue.is_empty()
    }

    /// The turns that are at most still needed: three for a chunk to be
    /// read, two for one held, one for one queued, one for each side to stop.
    pub open spec fn work(self) -> nat {
        3 * self.source.len() + 2 * self.held().len() + self.queue.chunks.len() + (
        if self.producer_stopped {
            0nat
        } else {
            1nat
        }) + (if self.consumer_stopped {
            0nat
        } else {
            1nat
        })
    }
}

/// The schedule in which the two sides take turns, the reading side first,
/// for `rounds` rounds.
pub open spec fn alternating(rounds: nat) -> Seq<Turn>
    decreases rounds,
{
    if rounds == 0 {
        Seq::empty()
    } else {
        seq![Turn::Producer, Turn::Consumer] + alternating((rounds - 1) as nat)
    }
}

/// A turn of either side, in any state that the pipe reaches, leads to such
/// a state again: no chunk is lost, doubled or reordered, and the queue
/// stays within its capacity.
pub proof fn lemma_turn_keeps_inv(p: Pipe, input: Seq<Seq<u8>>, t: Turn)
    requires
        p.inv(input),
    ensures
        p.turn(t).inv(input),
{
    if !p.producer_stopped && p.waiting is None && p.source.len() > 0 {
        assert(p.source[0] == input[(p.sink.len() + p.queue.chunks.len()) as int]);
    }
    assert(p.turn(t).chunks() =~= p.chunks());
}

/// Order and capacity under every interleaving: whatever the order of the
/// turns, the chunks handed to the output are the first chunks of the
/// input, in the input's order; the queue never holds more chunks than its
/// capacity; and once the writing side has stopped the output has received
/// the whole input.
pub proof fn lemma_run_delivers_in_order(input: Seq<Seq<u8>>, capacity: nat, schedule: Seq<Turn>)
    requires
        all_nonempty(input),
        capacity >= 1,
    ensures
        ({
            let p = Pipe::initial(input, capacity).run(schedule);
            &&& p.sink.len() <= input.len()
            &&& p.sink == input.subrange(0, p.sink.len() as int)
            &&& p.queue.capacity == capacity
            &&& p.queue.chunks.len() <= capacity
            &&& p.consumer_stopped ==> p.sink == input
        }),
{
    let start = Pipe::initial(input, capacity);
    assert(start.chunks() =~= input);
    lemma_run_keeps_inv(start, input, schedule);
    let p = start.run(schedule);
    assert(p.chunks() == input);
    assert(p.sink =~= input.subrange(0, p.sink.len() as int));
    if p.consumer_stopped {
        assert(p.sink =~= p.chunks());
    }
}

/// Any number of turns, in any order, keeps the invariant and the capacity.
pub proof fn lemma_run_keeps_inv(p: Pipe, input: Seq<Seq<u8>>, schedule: Seq<Turn>)
    requires
        p.inv(input),
    ensures
        p.run(schedule).inv(input),
        p.run(schedule).queue.capacity == p.queue.capacity,
    decreases schedule.len(),
{
    if schedule.len() > 0 {
        lemma_turn_keeps_inv(p, input, schedule[0]);
        lemma_run_keeps_inv(p.turn(schedule[0]), input, schedule.drop_first());
    }
}

/// No turn adds to the work that is left, and while the writing side has
/// not stopped, a turn of one of the two sides takes some of it away: the
/// pipe cannot be stuck, whatever the capacity.
pub proof fn lemma_some_turn_progresses(p: Pipe, input: Seq<Seq<u8>>)
    requires
        p.inv(input),
    ensures
        p.producer_turn().work() <= p.work(),
        p.failed_read_turn().work() <= p.work(),
        p.consumer_turn().work() <= p.work(),
        !p.consumer_stopped ==> p.producer_turn().work() < p.work() || p.consumer_turn().work()
            < p.work(),
{
    if !p.producer_stopped && p.waiting is None && p.source.len() > 0 {
        assert(p.source[0] == input[(p.sink.len() + p.queue.chunks.len()) as int]);
    }
}

/// A finite input is delivered in finitely many turns: from every state
/// that the pipe reaches there is a schedule, no longer than the work left,
/// after which both sides have stopped and the output has received the
/// whole input.
pub proof fn lemma_finishing_schedule(p: Pipe, input: Seq<Seq<u8>>) -> (schedule: Seq<Turn>)
    requires
        p.inv(input),
    ensures
        schedule.len() <= p.work(),
        p.run(schedule).producer_stopped,
        p.run(schedule).consumer_stopped,
        p.run(schedule).sink == input,
    decreases p.work(),
{
    if p.consumer_stopped {
        assert(p.sink =~= p.chunks());
        Seq::empty()
    } else {
        lemma_some_turn_progresses(p, input);
        let t = if p.producer_turn().work() < p.work() {
            Turn::Producer
        } else {
            Turn::Consumer
        };
        lemma_turn_keeps_inv(p, input, t);
        let rest = lemma_finishing_schedule(p.turn(t), input);
        let schedule = seq![t] + rest;
        assert(schedule[0] == t);
        assert(schedule.drop_first() =~= rest);
        schedule
    }
}

/// When the two sides take turns, a finite input is delivered within as
/// many rounds as there is work left: after them both sides have stopped
/// and the output has received the whole input.
pub proof fn lemma_alternation_finishes(p: Pipe, input: Seq<Seq<u8>>, rounds: nat)
    requires
        p.inv(input),
        rounds >= p.work(),
    ensures
        p.run(alternating(rounds)).producer_stopped,
        p.run(alternating(rounds)).consumer_stopped,
        p.run(alternating(rounds)).sink == input,
    decreases rounds,
{
    if rounds == 0 {
        assert(p.sink =~= p.chunks());
    } else {
        let rest = alternating((rounds - 1) as nat);
        let schedule = alternating(rounds);
        let read = p.producer_turn();
        let drained = read.consumer_turn();
        assert(schedule[0] == Turn::Producer);
        assert(schedule.drop_first() =~= seq![Turn::Consumer] + rest);
        assert(schedule.drop_first().drop_first() =~= rest);
        assert(read.run(schedule.drop_first()) == drained.run(rest));
        lemma_some_turn_progresses(p, input);
        lemma_turn_keeps_inv(p, input, Turn::Producer);
        lemma_some_turn_progresses(read, input);
        lemma_turn_keeps_inv(read, input, Turn::Consumer);
        if !p.consumer_stopped && read.work() == p.work() {
            assert(read == p);
        }
        lemma_alternation_finishes(drained, input, (rounds - 1) as nat);
    }
}

} // verus!
