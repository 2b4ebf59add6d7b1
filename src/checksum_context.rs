//! A small block-buffered streaming checksum that meets the streaming
//! contract. It is not a cryptographic hash.
use vstd::prelude::*;

use crate::errors::UnknownCryptoError;
use crate::lifecycle::{finalize_outcome, reset_outcome, update_outcome, StreamView};
use crate::stream_interface::{conforms, DefaultTestableStreamingContext};

verus! {

/// Bytes the checksum context buffers before folding them into its running
/// state.
pub const CHECKSUM_BLOCKSIZE: usize = 16;

/// The checksum over `s`: starting from 0, each byte `b` takes `h` to
/// `(31 * h + b) mod 2^32`.
pub open spec fn checksum(s: Seq<u8>) -> u64
    decreases s.len(),
{
    if s.len() == 0 {
        0
    } else {
        ((checksum(s.drop_last()) as int * 31 + s.last() as int) % 0x1_0000_0000) as u64
    }
}

/// One checksum step.
fn checksum_step(h: u64, b: u8) -> (r: u64)
    requires
        h < 0x1_0000_0000,
    ensures
        r == ((h as int * 31 + b as int) % 0x1_0000_0000) as u64,
        r < 0x1_0000_0000,
{
    (h * 31 + b as u64) % 0x1_0000_0000
}

proof fn lemma_checksum_bound(s: Seq<u8>)
    ensures
        checksum(s) < 0x1_0000_0000,
    decreases s.len(),
{
    if s.len() > 0 {
        lemma_checksum_bound(s.drop_last());
    }
}

proof fn lemma_checksum_push(s: Seq<u8>, b: u8)
    ensures
        checksum(s.push(b)) == ((checksum(s) as int * 31 + b as int) % 0x1_0000_0000) as u64,
{
    assert(s.push(b).drop_last() =~= s);
}

/// The checksum of `processed` followed by `bytes`, from `h` = the checksum of
/// `processed`.
fn fold_bytes(h: u64, bytes: &[u8], Ghost(processed): Ghost<Seq<u8>>) -> (r: u64)
    requires
        h == checksum(processed),
    ensures
        r == checksum(processed + bytes@),
{
    let mut acc = h;
    let mut i: usize = 0;
    proof {
        lemma_checksum_bound(processed);
        assert(processed + bytes@.subrange(0, 0) =~= processed);
    }
    while i < bytes.len()
        invariant
            i <= bytes@.len(),
            acc == checksum(processed + bytes@.subrange(0, i as int)),
            acc < 0x1_0000_0000,
        decreases bytes@.len() - i,
    {
        proof {
            lemma_checksum_push(processed + bytes@.subrange(0, i as int), bytes@[i as int]);
            assert((processed + bytes@.subrange(0, i as int)).push(bytes@[i as int])
                =~= processed + bytes@.subrange(0, i + 1));
        }
        acc = checksum_step(acc, bytes[i]);
        i = i + 1;
    }
    assert(bytes@.subrange(0, i as int) =~= bytes@);
    acc
}

/// The whole blocks at the front of `s`.
pub open spec fn whole_blocks(s: Seq<u8>) -> Seq<u8> {
    s.subrange(0, s.len() - s.len() % (CHECKSUM_BLOCKSIZE as nat))
}

/// The bytes of `s` after its whole blocks.
pub open spec fn leftover(s: Seq<u8>) -> Seq<u8> {
    s.subrange(s.len() - s.len() % (CHECKSUM_BLOCKSIZE as nat), s.len() as int)
}

/// A streaming checksum (see `checksum`) that buffers input in blocks of
/// `CHECKSUM_BLOCKSIZE` bytes.
pub struct ChecksumContext {
    /// Checksum over the bytes already folded in.
    running: u64,
    /// Bytes not yet folded in; always shorter than a block.
    buffer: Vec<u8>,
    is_finalized: bool,
    /// The bytes already folded in.
    processed: Ghost<Seq<u8>>,
}

impl ChecksumContext {
    #[verifier::type_invariant]
    spec fn inv(self) -> bool {
        &&& self.running == checksum(self.processed@)
        &&& self.buffer@.len() < CHECKSUM_BLOCKSIZE
        &&& self.processed@.len() % (CHECKSUM_BLOCKSIZE as nat) == 0
    }
}

impl DefaultTestableStreamingContext<u64> for ChecksumContext {
    closed spec fn lifecycle(&self) -> StreamView {
        StreamView { absorbed: self.processed@ + self.buffer@, finalized: self.is_finalized }
    }

    open spec fn result_of(input: Seq<u8>) -> u64 {
        checksum(input)
    }

    open spec fn init_spec() -> StreamView {
        StreamView::fresh()
    }

    open spec fn update_spec(v: StreamView, input: Seq<u8>) -> (StreamView, Result<(), UnknownCryptoError>) {
        update_outcome(v, input)
    }

    open spec fn finalize_spec(v: StreamView) -> (StreamView, Result<u64, UnknownCryptoError>) {
        finalize_outcome(v, checksum(v.absorbed))
    }

    open spec fn reset_spec(v: StreamView) -> (StreamView, Result<(), UnknownCryptoError>) {
        reset_outcome(v)
    }

    open spec fn one_shot_spec(input: Seq<u8>) -> Result<u64, UnknownCryptoError> {
        Ok(checksum(input))
    }

    /// The running checksum, the buffered bytes and the finalized flag agree.
    open spec fn compare_spec(a: StreamView, b: StreamView) -> bool {
        &&& checksum(whole_blocks(a.absorbed)) == checksum(whole_blocks(b.absorbed))
        &&& leftover(a.absorbed) == leftover(b.absorbed)
        &&& a.finalized == b.finalized
    }

    fn init() -> (r: Self) {
        let r = ChecksumContext { running: 0, buffer: Vec::new(), is_finalized: false, processed: Ghost(Seq::empty()) };
        assert(r.processed@ + r.buffer@ =~= Seq::<u8>::empty());
        r
    }

    fn reset(&mut self) -> (r: Result<(), UnknownCryptoError>) {
        *self = ChecksumContext { running: 0, buffer: Vec::new(), is_finalized: false, processed: Ghost(Seq::empty()) };
        assert(self.processed@ + self.buffer@ =~= Seq::<u8>::empty());
        Ok(())
    }

    fn update(&mut self, input: &[u8]) -> (r: Result<(), UnknownCryptoError>) {
        if self.is_finalized {
            return Err(UnknownCryptoError::StateError);
        }
        proof {
            use_type_invariant(&*self);
        }
        let ghost absorbed = self.processed@ + self.buffer@;
        let mut running = self.running;
        let mut buffer = self.buffer.clone();
        let ghost mut processed = self.processed@;
        assert(buffer@ == self.buffer@);
        assert(absorbed + input@.subrange(0, 0) =~= absorbed);
        let mut i: usize = 0;
        while i < input.len()
            invariant
                i <= input@.len(),
                running == checksum(processed),
                buffer@.len() < CHECKSUM_BLOCKSIZE,
                processed.len() % (CHECKSUM_BLOCKSIZE as nat) == 0,
                processed + buffer@ == absorbed + input@.subrange(0, i as int),
            decreases input@.len() - i,
        {
            let ghost before = buffer@;
            buffer.push(input[i]);
            proof {
                assert(absorbed + input@.subrange(0, i + 1) =~= (absorbed + input@.subrange(0, i as int)).push(input@[i as int]));
                assert(processed + buffer@ =~= (processed + before).push(input@[i as int]));
            }
            if buffer.len() == CHECKSUM_BLOCKSIZE {
                running = fold_bytes(running, buffer.as_slice(), Ghost(processed));
                proof {
                    assert((processed + buffer@).len() == processed.len() + CHECKSUM_BLOCKSIZE);
                    processed = processed + buffer@;
                }
                buffer = Vec::new();
                assert(processed + buffer@ =~= processed);
            }
            i = i + 1;
        }
        assert(input@.subrange(0, i as int) =~= input@);
        *self = ChecksumContext { running, buffer, is_finalized: false, processed: Ghost(processed) };
        Ok(())
    }

    fn finalize(&mut self) -> (r: Result<u64, UnknownCryptoError>) {
        if self.is_finalized {
            return Err(UnknownCryptoError::StateError);
        }
        proof {
            use_type_invariant(&*self);
        }
        let digest = fold_bytes(self.running, self.buffer.as_slice(), Ghost(self.processed@));
        self.is_finalized = true;
        Ok(digest)
    }

    fn one_shot(input: &[u8]) -> (r: Result<u64, UnknownCryptoError>) {
        assert(Seq::<u8>::empty() + input@ =~= input@);
        Ok(fold_bytes(0, input, Ghost(Seq::empty())))
    }

    fn compare_states(state_1: &Self, state_2: &Self) -> (r: bool) {
        proof {
            use_type_invariant(state_1);
            use_type_invariant(state_2);
            lemma_split(state_1.processed@, state_1.buffer@);
            lemma_split(state_2.processed@, state_2.buffer@);
        }
        if state_1.running != state_2.running || state_1.is_finalized != state_2.is_finalized
            || state_1.buffer.len() != state_2.buffer.len() {
            return false;
        }
        let mut i: usize = 0;
        while i < state_1.buffer.len()
            invariant
                state_1.buffer@.len() == state_2.buffer@.len(),
                i <= state_1.buffer@.len(),
                state_1.buffer@.subrange(0, i as int) == state_2.buffer@.subrange(0, i as int),
                Self::compare_spec(state_1.lifecycle(), state_2.lifecycle()) <==> state_1.buffer@ == state_2.buffer@,
            decreases state_1.buffer@.len() - i,
        {
            if state_1.buffer[i] != state_2.buffer[i] {
                assert(state_1.buffer@[i as int] != state_2.buffer@[i as int]);
                return false;
            }
            assert(state_1.buffer@.subrange(0, i + 1) =~= state_1.buffer@.subrange(0, i as int).push(state_1.buffer@[i as int]));
            assert(state_2.buffer@.subrange(0, i + 1) =~= state_2.buffer@.subrange(0, i as int).push(state_2.buffer@[i as int]));
            i = i + 1;
        }
        assert(state_1.buffer@ =~= state_1.buffer@.subrange(0, i as int));
        assert(state_2.buffer@ =~= state_2.buffer@.subrange(0, i as int));
        true
    }
}

/// A sequence of whole blocks followed by fewer bytes than a block splits
/// back into those two parts.
proof fn lemma_split(p: Seq<u8>, b: Seq<u8>)
    requires
        p.len() % (CHECKSUM_BLOCKSIZE as nat) == 0,
        b.len() < CHECKSUM_BLOCKSIZE,
    ensures
        whole_blocks(p + b) == p,
        leftover(p + b) == b,
{
    assert(CHECKSUM_BLOCKSIZE == 16);
    let total = p.len() + b.len();
    assert((p + b).len() == total);
    assert(total % 16 == b.len()) by (nonlinear_arith)
        requires
            p.len() % 16 == 0,
            b.len() < 16,
            total == p.len() + b.len(),
    ;
    assert(whole_blocks(p + b) =~= p);
    assert(leftover(p + b) =~= b);
}

/// The checksum context meets the streaming-context contract.
pub proof fn lemma_checksum_context_conforms()
    ensures
        conforms::<u64, ChecksumContext>(),
{
}

} // verus!
