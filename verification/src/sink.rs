//! Writing one chunk in full: what is left of it after each write.

use vstd::prelude::*;

verus! {

/// A chunk on its way to the output, with the number of bytes already accepted.
pub struct PendingWrite {
    chunk: Vec<u8>,
    offset: usize,
}

/// A [`PendingWrite`] as mathematical values.
pub struct PendingWriteModel {
    /// The whole chunk.
    pub chunk: Seq<u8>,
    /// How many of its bytes the output has accepted.
    pub offset: nat,
}

impl PendingWriteModel {
    /// Some bytes are still to be written.
    pub open spec fn wf(self) -> bool {
        self.offset < self.chunk.len()
    }

    /// The bytes that the output has accepted.
    pub open spec fn written(self) -> Seq<u8> {
        self.chunk.subrange(0, self.offset as int)
    }

    /// The bytes still to be written.
    pub open spec fn remaining(self) -> Seq<u8> {
        self.chunk.subrange(self.offset as int, self.chunk.len() as int)
    }

    /// The bytes that a write of the remaining bytes has put out when it
    /// reports `outcome`: none when it failed, else the first of them, as
    /// many as it reports.
    pub open spec fn accepted(self, outcome: Option<usize>) -> Seq<u8> {
        match outcome {
            None => Seq::empty(),
            Some(count) => if count >= self.remaining().len() {
                self.remaining()
            } else {
                self.remaining().subrange(0, count as int)
            },
        }
    }

    /// What follows a write of the remaining bytes that reported `outcome`:
    /// `None` for a failed write, else the number of bytes accepted. A write
    /// that accepts nothing counts as failed.
    pub open spec fn after(self, outcome: Option<usize>) -> WriteStepModel {
        match outcome {
            None => WriteStepModel::Failed,
            Some(count) => if count == 0 {
                WriteStepModel::Failed
            } else if self.offset + count >= self.chunk.len() {
                WriteStepModel::Done
            } else {
                WriteStepModel::Continue(
                    PendingWriteModel { chunk: self.chunk, offset: (self.offset + count) as nat },
                )
            },
        }
    }
}

/// What the consumer does next with the chunk it is writing.
pub enum WriteStep {
    /// Every byte of the chunk has been accepted.
    Done,
    /// Write the remaining bytes.
    Continue(PendingWrite),
    /// The write failed: report it and drop the chunk.
    Failed,
}

/// A [`WriteStep`] as mathematical values.
pub enum WriteStepModel {
    Done,
    Continue(PendingWriteModel),
    Failed,
}

impl View for PendingWrite {
    type V = PendingWriteModel;

    closed spec fn view(&self) -> PendingWriteModel {
        PendingWriteModel { chunk: self.chunk@, offset: self.offset as nat }
    }
}

impl View for WriteStep {
    type V = WriteStepModel;

    open spec fn view(&self) -> WriteStepModel {
        match self {
            WriteStep::Done => WriteStepModel::Done,
            WriteStep::Continue(pending) => WriteStepModel::Continue(pending@),
            WriteStep::Failed => WriteStepModel::Failed,
        }
    }
}

/// A write that accepts some but not all of the remaining bytes adds
/// exactly those bytes, in order, to the ones written; a chunk is done only
/// when the bytes written and the bytes just accepted make up the whole of
/// it; and only a failed write or one that accepts nothing gives it up.
pub proof fn lemma_write_extends_written(p: PendingWriteModel, outcome: Option<usize>)
    requires
        p.wf(),
    ensures
        match p.after(outcome) {
            WriteStepModel::Continue(next) => {
                &&& outcome is Some
                &&& next.wf()
                &&& next.chunk == p.chunk
                &&& next.written() == p.written() + p.remaining().subrange(
                    0,
                    outcome->Some_0 as int,
                )
            },
            WriteStepModel::Done => {
                &&& outcome is Some
                &&& outcome->Some_0 >= p.remaining().len()
                &&& p.written() + p.remaining() == p.chunk
            },
            WriteStepModel::Failed => outcome is None || outcome == Some(0usize),
        },
{
    match p.after(outcome) {
        WriteStepModel::Continue(next) => {
            assert(next.written() =~= p.written() + p.remaining().subrange(
                0,
                outcome->Some_0 as int,
            ));
        },
        WriteStepModel::Done => {
            assert(p.written() + p.remaining() =~= p.chunk);
        },
        WriteStepModel::Failed => {},
    }
}

/// The step reached and the bytes put out when the writes that `step` asks
/// for report `outcomes`, one after the other. Outcomes past the end of
/// the chunk's writing are not used.
pub open spec fn write_run(step: WriteStepModel, outcomes: Seq<Option<usize>>) -> (
    WriteStepModel,
    Seq<u8>,
)
    decreases outcomes.len(),
{
    match step {
        WriteStepModel::Continue(p) => if outcomes.len() == 0 {
            (step, Seq::empty())
        } else {
            let rest = write_run(p.after(outcomes[0]), outcomes.drop_first());
            (rest.0, p.accepted(outcomes[0]) + rest.1)
        },
        _ => (step, Seq::empty()),
    }
}

/// Whatever the writes report, the bytes put out for a chunk are its first
/// bytes, in order, and a chunk that is done has been put out whole.
pub proof fn lemma_write_run_puts_out_chunk(chunk: Seq<u8>, outcomes: Seq<Option<usize>>)
    ensures
        ({
            let (last, bytes) = write_run(start_of(chunk), outcomes);
            &&& bytes.len() <= chunk.len()
            &&& bytes == chunk.subrange(0, bytes.len() as int)
            &&& last is Done ==> bytes == chunk
        }),
{
    let (last, bytes) = write_run(start_of(chunk), outcomes);
    if chunk.len() == 0 {
        assert(bytes =~= chunk.subrange(0, 0));
        assert(bytes =~= chunk);
    } else {
        let p = PendingWriteModel { chunk, offset: 0 };
        lemma_write_run_from(p, outcomes);
        assert(p.written() + bytes =~= bytes);
    }
}

/// From any point of a chunk's writing on, the bytes written before and
/// the bytes put out from there on are the first bytes of the chunk, and
/// the whole of it once the chunk is done.
pub proof fn lemma_write_run_from(p: PendingWriteModel, outcomes: Seq<Option<usize>>)
    requires
        p.wf(),
    ensures
        ({
            let (last, bytes) = write_run(WriteStepModel::Continue(p), outcomes);
            &&& p.offset + bytes.len() <= p.chunk.len()
            &&& p.written() + bytes == p.chunk.subrange(0, (p.offset + bytes.len()) as int)
            &&& last is Done ==> p.written() + bytes == p.chunk
        }),
    decreases outcomes.len(),
{
    let (last, bytes) = write_run(WriteStepModel::Continue(p), outcomes);
    if outcomes.len() == 0 {
        assert(p.written() + bytes =~= p.chunk.subrange(0, (p.offset + bytes.len()) as int));
    } else {
        let next = p.after(outcomes[0]);
        let rest = write_run(next, outcomes.drop_first());
        lemma_write_extends_written(p, outcomes[0]);
        match next {
            WriteStepModel::Continue(q) => {
                lemma_write_run_from(q, outcomes.drop_first());
                assert(p.written() + bytes =~= q.written() + rest.1);
            },
            WriteStepModel::Done => {
                assert(p.written() + bytes =~= p.chunk);
                assert(p.chunk =~= p.chunk.subrange(0, (p.offset + bytes.len()) as int));
            },
            WriteStepModel::Failed => {
                assert(p.written() + bytes =~= p.chunk.subrange(0, (p.offset + bytes.len()) as int));
            },
        }
    }
}

/// The first step for `chunk`: nothing to do for an empty one.
pub open spec fn start_of(chunk: Seq<u8>) -> WriteStepModel {
    if chunk.len() == 0 {
        WriteStepModel::Done
    } else {
        WriteStepModel::Continue(PendingWriteModel { chunk, offset: 0 })
    }
}

impl PendingWrite {
    /// The invariant: some bytes are still to be written.
    pub open spec fn wf(&self) -> bool {
        self@.wf()
    }

    #[verifier::type_invariant]
    spec fn bytes_left(&self) -> bool {
        self.wf()
    }

    /// Begins the write of `chunk`.
    pub fn start(chunk: Vec<u8>) -> (step: WriteStep)
        ensures
            step@ == start_of(chunk@),
            step matches WriteStep::Continue(pending) ==> pending.wf(),
    {
        if chunk.len() == 0 {
            WriteStep::Done
        } else {
            WriteStep::Continue(PendingWrite { chunk, offset: 0 })
        }
    }

    /// The bytes to hand to the next write.
    pub fn remaining(&self) -> (bytes: &[u8])
        ensures
            self.wf(),
            bytes@ == self@.remaining(),
    {
        proof {
            use_type_invariant(self);
        }
        vstd::slice::slice_subrange(self.chunk.as_slice(), self.offset, self.chunk.len())
    }

    /// Takes in the outcome of the write of [`PendingWrite::remaining`].
    pub fn advance(self, outcome: Option<usize>) -> (step: WriteStep)
        ensures
            self.wf(),
            step@ == self@.after(outcome),
            step matches WriteStep::Continue(pending) ==> pending.wf(),
    {
        proof {
            use_type_invariant(&self);
        }
        match outcome {
            None => WriteStep::Failed,
            Some(count) => {
                if count == 0 {
                    WriteStep::Failed
                } else if count >= self.chunk.len() - self.offset {
                    WriteStep::Done
                } else {
                    let offset: usize = self.offset + count;
                    WriteStep::Continue(PendingWrite { chunk: self.chunk, offset })
                }
            },
        }
    }
}

} // verus!
