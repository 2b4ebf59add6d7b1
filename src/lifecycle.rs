//! The abstract lifecycle of a streaming context: what it has absorbed since
//! its last `init` or `reset`, and whether it has been finalized since.
use vstd::prelude::*;

use crate::errors::UnknownCryptoError;

verus! {

/// Abstract state of a streaming context.
pub struct StreamView {
    /// Bytes absorbed since the last `init` or `reset`, in order.
    pub absorbed: Seq<u8>,
    /// Whether `finalize` succeeded since the last `init` or `reset`.
    pub finalized: bool,
}

/// One call on a streaming context.
pub enum StreamOp {
    Update(Seq<u8>),
    Finalize,
    Reset,
}

impl StreamView {
    /// The state produced by `init`, and by `reset` from any state.
    pub open spec fn fresh() -> StreamView {
        StreamView { absorbed: Seq::empty(), finalized: false }
    }

    /// Whether `op` succeeds in this state.
    pub open spec fn accepts(self, op: StreamOp) -> bool {
        match op {
            StreamOp::Update(_) => !self.finalized,
            StreamOp::Finalize => !self.finalized,
            StreamOp::Reset => true,
        }
    }

    /// The state after `op`; a rejected operation leaves the state as it was.
    pub open spec fn step(self, op: StreamOp) -> StreamView {
        if !self.accepts(op) {
            self
        } else {
            match op {
                StreamOp::Update(bytes) => StreamView {
                    absorbed: self.absorbed + bytes,
                    finalized: false,
                },
                StreamOp::Finalize => StreamView { absorbed: self.absorbed, finalized: true },
                StreamOp::Reset => StreamView::fresh(),
            }
        }
    }

    /// The state after the operations `ops`, applied in order.
    pub open spec fn run(self, ops: Seq<StreamOp>) -> StreamView
        decreases ops.len(),
    {
        if ops.len() == 0 {
            self
        } else {
            self.step(ops[0]).run(ops.drop_first())
        }
    }

    /// How many of the operations `ops`, applied in order, are finalizations
    /// that succeed.
    pub open spec fn accepted_finalizes(self, ops: Seq<StreamOp>) -> nat
        decreases ops.len(),
    {
        if ops.len() == 0 {
            0
        } else {
            let here: nat = if ops[0] is Finalize && self.accepts(ops[0]) { 1 } else { 0 };
            here + self.step(ops[0]).accepted_finalizes(ops.drop_first())
        }
    }
}

/// What a conforming `update` returns, with the state it leaves.
pub open spec fn update_outcome(v: StreamView, input: Seq<u8>) -> (StreamView, Result<(), UnknownCryptoError>) {
    (
        v.step(StreamOp::Update(input)),
        if v.accepts(StreamOp::Update(input)) { Ok(()) } else { Err(UnknownCryptoError::StateError) },
    )
}

/// What a conforming `finalize` returns, `result` being the result value over
/// what `v` absorbed, with the state it leaves.
pub open spec fn finalize_outcome<R>(v: StreamView, result: R) -> (StreamView, Result<R, UnknownCryptoError>) {
    (
        v.step(StreamOp::Finalize),
        if v.accepts(StreamOp::Finalize) { Ok(result) } else { Err(UnknownCryptoError::StateError) },
    )
}

/// What a conforming `reset` returns, with the state it leaves.
pub open spec fn reset_outcome(v: StreamView) -> (StreamView, Result<(), UnknownCryptoError>) {
    (v.step(StreamOp::Reset), Ok(()))
}

/// One `update` call per chunk, in order.
pub open spec fn updates(chunks: Seq<Seq<u8>>) -> Seq<StreamOp> {
    chunks.map_values(|c: Seq<u8>| StreamOp::Update(c))
}

/// Applying `ops` and then `op` is stepping with `op` from where `ops` leads.
pub proof fn lemma_run_push(v: StreamView, ops: Seq<StreamOp>, op: StreamOp)
    ensures
        v.run(ops.push(op)) == v.run(ops).step(op),
    decreases ops.len(),
{
    if ops.len() == 0 {
        assert(ops.push(op).drop_first() =~= ops);
        assert(v.step(op).run(ops) == v.step(op));
    } else {
        assert(ops.push(op)[0] == ops[0]);
        assert(ops.push(op).drop_first() =~= ops.drop_first().push(op));
        lemma_run_push(v.step(ops[0]), ops.drop_first(), op);
    }
}

/// Feeding chunks one `update` at a time to an unfinalized context appends
/// their concatenation, whatever the chunks are.
pub proof fn lemma_updates_append(v: StreamView, chunks: Seq<Seq<u8>>)
    requires
        !v.finalized,
    ensures
        v.run(updates(chunks)) == (StreamView { absorbed: v.absorbed + chunks.flatten(), finalized: false }),
    decreases chunks.len(),
{
    if chunks.len() == 0 {
        assert(v.absorbed + chunks.flatten() =~= v.absorbed);
    } else {
        assert(updates(chunks).drop_first() =~= updates(chunks.drop_first()));
        let next = v.step(StreamOp::Update(chunks[0]));
        lemma_updates_append(next, chunks.drop_first());
        assert(v.absorbed + chunks.flatten() =~= next.absorbed + chunks.drop_first().flatten());
    }
}

/// Chunking invariance: a fresh context fed any partition of `d` into
/// consecutive chunks, one `update` per chunk, holds exactly `d` and may
/// still be finalized.
pub proof fn lemma_chunking_invariance(chunks: Seq<Seq<u8>>)
    ensures
        StreamView::fresh().run(updates(chunks)) == (StreamView { absorbed: chunks.flatten(), finalized: false }),
        StreamView::fresh().run(updates(chunks)).accepts(StreamOp::Finalize),
{
    lemma_updates_append(StreamView::fresh(), chunks);
    assert(Seq::<u8>::empty() + chunks.flatten() =~= chunks.flatten());
}

/// Without a `reset`, at most one `finalize` succeeds, none once finalized,
/// and exactly one if the context was not finalized and a `finalize` occurs.
proof fn lemma_finalizes_without_reset(v: StreamView, ops: Seq<StreamOp>)
    requires
        forall|i: int| 0 <= i < ops.len() ==> !(#[trigger] ops[i] is Reset),
    ensures
        v.accepted_finalizes(ops) <= (if v.finalized { 0nat } else { 1nat }),
        v.run(ops).finalized == (v.finalized || exists|i: int| 0 <= i < ops.len() && #[trigger] ops[i] is Finalize),
        !v.finalized && (exists|i: int| 0 <= i < ops.len() && #[trigger] ops[i] is Finalize)
            ==> v.accepted_finalizes(ops) == 1,
    decreases ops.len(),
{
    if ops.len() > 0 {
        let rest = ops.drop_first();
        assert forall|i: int| 0 <= i < rest.len() implies !(#[trigger] rest[i] is Reset) by {
            assert(rest[i] == ops[i + 1]);
        }
        lemma_finalizes_without_reset(v.step(ops[0]), rest);
        if exists|i: int| 0 <= i < ops.len() && #[trigger] ops[i] is Finalize {
            let i = choose|i: int| 0 <= i < ops.len() && #[trigger] ops[i] is Finalize;
            if i > 0 {
                assert(rest[i - 1] is Finalize);
            }
        }
        if exists|i: int| 0 <= i < rest.len() && #[trigger] rest[i] is Finalize {
            let i = choose|i: int| 0 <= i < rest.len() && #[trigger] rest[i] is Finalize;
            assert(ops[i + 1] is Finalize);
        }
    }
}

/// Within one lifecycle segment (a run of operations without `reset`,
/// starting unfinalized, as after `init` or `reset`), `finalize` succeeds
/// exactly once if it is called at all: every later call fails.
pub proof fn lemma_finalize_once_per_segment(ops: Seq<StreamOp>, absorbed: Seq<u8>)
    requires
        forall|i: int| 0 <= i < ops.len() ==> !(#[trigger] ops[i] is Reset),
    ensures
        (StreamView { absorbed, finalized: false }).accepted_finalizes(ops) <= 1,
        (exists|i: int| 0 <= i < ops.len() && #[trigger] ops[i] is Finalize)
            ==> (StreamView { absorbed, finalized: false }).accepted_finalizes(ops) == 1,
        (exists|i: int| 0 <= i < ops.len() && #[trigger] ops[i] is Finalize)
            ==> !(StreamView { absorbed, finalized: false }).run(ops).accepts(StreamOp::Finalize),
{
    lemma_finalizes_without_reset(StreamView { absorbed, finalized: false }, ops);
}

/// Whatever happened before, a context whose last operation is `reset` is in
/// the state that `init` produces.
pub proof fn lemma_reset_restores_fresh(v: StreamView, ops: Seq<StreamOp>)
    ensures
        v.run(ops.push(StreamOp::Reset)) == StreamView::fresh(),
{
    lemma_run_push(v, ops, StreamOp::Reset);
}

} // verus!
