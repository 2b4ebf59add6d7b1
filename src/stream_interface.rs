//! The streaming-context contract and the suite that checks a primitive
//! against it.
use vstd::prelude::*;
use vstd::std_specs::cmp::PartialEqSpec;
use vstd::string::StringSliceAdditionalSpecFns;

use crate::errors::UnknownCryptoError;
use crate::lifecycle::{
    finalize_outcome, lemma_chunking_invariance, reset_outcome, update_outcome, updates, StreamView,
};

verus! {

/// A streaming hash or MAC context.
///
/// Each call follows a model that the implementation defines over its
/// abstract state (`lifecycle`): `init_spec`, `update_spec`, `finalize_spec`,
/// `reset_spec`, `one_shot_spec` and `compare_spec`. The contract proper, that
/// this model is the lifecycle of `StreamView` with results given by
/// `result_of`, is `conforms`; the suite below checks it at run time.
pub trait DefaultTestableStreamingContext<T: PartialEq>: Sized {
    /// The abstract state of this context.
    spec fn lifecycle(&self) -> StreamView;

    /// The result value computed over `input`.
    spec fn result_of(input: Seq<u8>) -> T;

    /// The state `init` produces.
    spec fn init_spec() -> StreamView;

    /// The state `update(input)` leaves from `v`, and what it returns.
    spec fn update_spec(v: StreamView, input: Seq<u8>) -> (StreamView, Result<(), UnknownCryptoError>);

    /// The state `finalize` leaves from `v`, and what it returns.
    spec fn finalize_spec(v: StreamView) -> (StreamView, Result<T, UnknownCryptoError>);

    /// The state `reset` leaves from `v`, and what it returns.
    spec fn reset_spec(v: StreamView) -> (StreamView, Result<(), UnknownCryptoError>);

    /// What `one_shot(input)` returns.
    spec fn one_shot_spec(input: Seq<u8>) -> Result<T, UnknownCryptoError>;

    /// What `compare_states` returns on contexts in states `a` and `b`.
    spec fn compare_spec(a: StreamView, b: StreamView) -> bool;

    fn init() -> (r: Self)
        ensures
            r.lifecycle() == Self::init_spec(),
    ;

    fn reset(&mut self) -> (r: Result<(), UnknownCryptoError>)
        ensures
            (final(self).lifecycle(), r) == Self::reset_spec(old(self).lifecycle()),
    ;

    fn update(&mut self, input: &[u8]) -> (r: Result<(), UnknownCryptoError>)
        ensures
            (final(self).lifecycle(), r) == Self::update_spec(old(self).lifecycle(), input@),
    ;

    fn finalize(&mut self) -> (r: Result<T, UnknownCryptoError>)
        ensures
            (final(self).lifecycle(), r) == Self::finalize_spec(old(self).lifecycle()),
    ;

    fn one_shot(input: &[u8]) -> (r: Result<T, UnknownCryptoError>)
        ensures
            r == Self::one_shot_spec(input@),
    ;

    /// Whether two contexts are in the same internal state (buffer, running
    /// state, finalized flag).
    fn compare_states(state_1: &Self, state_2: &Self) -> (r: bool)
        ensures
            r == Self::compare_spec(state_1.lifecycle(), state_2.lifecycle()),
    ;
}

/// The streaming-context contract: `init` gives a fresh context; `update`
/// and `finalize` fail with `StateError`, changing nothing, once the context
/// is finalized, and otherwise absorb, or give the result over what was
/// absorbed and mark the context finalized; `reset` always succeeds and gives
/// a fresh context; `one_shot` gives the result over its input; contexts with
/// the same history compare equal, and contexts that compare equal agree on
/// whether they are finalized.
pub open spec fn conforms<R: PartialEq, T: DefaultTestableStreamingContext<R>>() -> bool {
    &&& T::init_spec() == StreamView::fresh()
    &&& forall|v: StreamView, input: Seq<u8>| #[trigger] T::update_spec(v, input) == update_outcome(v, input)
    &&& forall|v: StreamView| #[trigger] T::finalize_spec(v) == finalize_outcome(v, T::result_of(v.absorbed))
    &&& forall|v: StreamView| #[trigger] T::reset_spec(v) == reset_outcome(v)
    &&& forall|input: Seq<u8>| #[trigger] T::one_shot_spec(input) == Ok::<R, UnknownCryptoError>(T::result_of(input))
    &&& forall|a: StreamView| #[trigger] T::compare_spec(a, a)
    &&& forall|a: StreamView, b: StreamView| #[trigger] T::compare_spec(a, b) ==> a.finalized == b.finalized
}

/// Whether `a` and `b` are both `Ok` with results that `==` finds equal.
pub open spec fn same_ok<R: PartialEq>(a: Result<R, UnknownCryptoError>, b: Result<R, UnknownCryptoError>) -> bool {
    &&& a is Ok
    &&& b is Ok
    &&& a->Ok_0.eq_spec(&b->Ok_0)
}

/// The bytes of "WRONG DATA".
pub open spec fn wrong_data() -> Seq<u8> {
    seq![0x57u8, 0x52u8, 0x4fu8, 0x4eu8, 0x47u8, 0x20u8, 0x44u8, 0x41u8, 0x54u8, 0x41u8]
}

/// The bytes of "Extra".
pub open spec fn extra_data() -> Seq<u8> {
    seq![0x45u8, 0x78u8, 0x74u8, 0x72u8, 0x61u8]
}

/// `n` zero bytes.
pub open spec fn zeros(n: nat) -> Seq<u8> {
    Seq::new(n, |i: int| 0u8)
}

/// The result of `init`, `update(d)`, `finalize` (and, where `reset_first`,
/// of `init`, `reset`, `update(d)`, `finalize`); `Err` where a call failed.
pub open spec fn update_finalize<R: PartialEq, T: DefaultTestableStreamingContext<R>>(
    v: StreamView,
    d: Seq<u8>,
) -> Result<R, UnknownCryptoError> {
    let (s1, u) = T::update_spec(v, d);
    if u is Err { Err(u->Err_0) } else { T::finalize_spec(s1).1 }
}

/// What `consistency(d)` returns, over the context's model.
pub open spec fn consistency_verdict<R: PartialEq, T: DefaultTestableStreamingContext<R>>(d: Seq<u8>) -> Option<R> {
    let init = T::init_spec();
    // init(), update(), finalize()
    let res_1 = update_finalize::<R, T>(init, d);
    // init(), reset(), update(), finalize()
    let (s2, r2) = T::reset_spec(init);
    let res_2 = if r2 is Err { Err(r2->Err_0) } else { update_finalize::<R, T>(s2, d) };
    // init(), update(), reset(), update(), finalize()
    let (s3a, u3) = T::update_spec(init, d);
    let (s3b, r3) = T::reset_spec(s3a);
    let res_3 = if u3 is Err { Err(u3->Err_0) } else if r3 is Err { Err(r3->Err_0) } else { update_finalize::<R, T>(s3b, d) };
    // init(), update(), finalize(), reset(), update(), finalize()
    let (s4a, u4) = T::update_spec(init, d);
    let (s4b, f4) = T::finalize_spec(s4a);
    let (s4c, r4) = T::reset_spec(s4b);
    let res_4 = if u4 is Err { Err(u4->Err_0) } else if f4 is Err { Err(f4->Err_0) } else if r4 is Err { Err(r4->Err_0) } else {
        update_finalize::<R, T>(s4c, d)
    };
    // init(), finalize()
    let res_5 = T::finalize_spec(init).1;
    // init(), reset(), finalize()
    let (s6, r6) = T::reset_spec(init);
    let res_6 = if r6 is Err { Err(r6->Err_0) } else { T::finalize_spec(s6).1 };
    // init(), update(), reset(), finalize()
    let (s7a, u7) = T::update_spec(init, wrong_data());
    let (s7b, r7) = T::reset_spec(s7a);
    let res_7 = if u7 is Err { Err(u7->Err_0) } else if r7 is Err { Err(r7->Err_0) } else { T::finalize_spec(s7b).1 };
    if !(same_ok(res_1, res_2) && same_ok(res_2, res_3) && same_ok(res_3, res_4)) {
        None
    } else if d.len() == 0 && !(same_ok(res_4, res_5) && same_ok(res_5, res_6) && same_ok(res_6, res_7)) {
        None
    } else {
        Some(res_4->Ok_0)
    }
}

/// What `produces_same_state(d)` returns, over the context's model.
pub open spec fn same_state_verdict<R: PartialEq, T: DefaultTestableStreamingContext<R>>(d: Seq<u8>) -> bool {
    let init = T::init_spec();
    let (s2, r2) = T::reset_spec(init);
    let (s3a, u3) = T::update_spec(init, d);
    let (s3, r3) = T::reset_spec(s3a);
    let (s4a, u4) = T::update_spec(init, d);
    let (s4b, f4) = T::finalize_spec(s4a);
    let (s4, r4) = T::reset_spec(s4b);
    &&& r2 is Ok
    &&& u3 is Ok && r3 is Ok
    &&& u4 is Ok && f4 is Ok && r4 is Ok
    &&& T::compare_spec(init, s2) && T::compare_spec(s2, s3) && T::compare_spec(s3, s4)
}

/// The bytes `incremental_processing_with_leftover` feeds for input length
/// `len`, beyond the `len` zero bytes.
pub open spec fn leftover_tail(blocksize: nat, len: nat) -> Seq<u8> {
    (if len > 2 * blocksize { extra_data() } else { Seq::empty() }) + (if len > 3 * blocksize {
        zeros(256)
    } else {
        Seq::empty()
    })
}

/// Whether, for input length `len`, feeding `len` zero bytes, then past one,
/// two and three block sizes an empty input, "Extra" and 256 zero bytes, in
/// separate `update` calls, gives the one-shot result over all of it.
pub open spec fn leftover_case<R: PartialEq, T: DefaultTestableStreamingContext<R>>(blocksize: nat, len: nat) -> bool {
    let (s1, u1) = T::update_spec(T::init_spec(), zeros(len));
    let (s2, u2) = if len > blocksize { T::update_spec(s1, Seq::empty()) } else { (s1, Ok(())) };
    let (s3, u3) = if len > 2 * blocksize { T::update_spec(s2, extra_data()) } else { (s2, Ok(())) };
    let (s4, u4) = if len > 3 * blocksize { T::update_spec(s3, zeros(256)) } else { (s3, Ok(())) };
    &&& u1 is Ok && u2 is Ok && u3 is Ok && u4 is Ok
    &&& same_ok(T::finalize_spec(s4).1, T::one_shot_spec(zeros(len) + leftover_tail(blocksize, len)))
}

/// What `incremental_processing_with_leftover(blocksize)` returns.
pub open spec fn leftover_verdict<R: PartialEq, T: DefaultTestableStreamingContext<R>>(blocksize: nat) -> bool {
    forall|len: nat| len <= 4 * blocksize ==> #[trigger] leftover_case::<R, T>(blocksize, len)
}

/// The state after `init`, `update(d)`, `finalize`, and whether both calls
/// succeeded.
pub open spec fn finalized_with<R: PartialEq, T: DefaultTestableStreamingContext<R>>(d: Seq<u8>) -> (StreamView, bool) {
    let (s1, u) = T::update_spec(T::init_spec(), d);
    let (s2, f) = T::finalize_spec(s1);
    (s2, u is Ok && f is Ok)
}

/// What `double_finalize_with_reset_no_update_ok(d)` returns.
pub open spec fn finalize_after_reset_verdict<R: PartialEq, T: DefaultTestableStreamingContext<R>>(d: Seq<u8>) -> bool {
    let (s, ok) = finalized_with::<R, T>(d);
    let (s1, r) = T::reset_spec(s);
    ok && r is Ok && T::finalize_spec(s1).1 is Ok
}

/// What `double_finalize_with_reset_ok(d)` returns.
pub open spec fn update_finalize_after_reset_verdict<R: PartialEq, T: DefaultTestableStreamingContext<R>>(d: Seq<u8>) -> bool {
    let (s, ok) = finalized_with::<R, T>(d);
    let (s1, r) = T::reset_spec(s);
    ok && r is Ok && update_finalize::<R, T>(s1, d) is Ok
}

/// What `double_finalize_err(d)` returns.
pub open spec fn double_finalize_verdict<R: PartialEq, T: DefaultTestableStreamingContext<R>>(d: Seq<u8>) -> bool {
    let (s, ok) = finalized_with::<R, T>(d);
    ok && T::finalize_spec(s).1 == Err::<R, UnknownCryptoError>(UnknownCryptoError::StateError)
}

/// What `update_after_finalize_with_reset_ok(d)` returns.
pub open spec fn update_after_reset_verdict<R: PartialEq, T: DefaultTestableStreamingContext<R>>(d: Seq<u8>) -> bool {
    let (s, ok) = finalized_with::<R, T>(d);
    ok && T::update_spec(T::reset_spec(s).0, d).1 is Ok
}

/// What `update_after_finalize_err(d)` returns.
pub open spec fn update_after_finalize_verdict<R: PartialEq, T: DefaultTestableStreamingContext<R>>(d: Seq<u8>) -> bool {
    let (s, ok) = finalized_with::<R, T>(d);
    ok && T::update_spec(s, d).1 == Err::<(), UnknownCryptoError>(UnknownCryptoError::StateError)
}

/// What `double_reset_ok(d)` returns.
pub open spec fn double_reset_verdict<R: PartialEq, T: DefaultTestableStreamingContext<R>>(d: Seq<u8>) -> bool {
    let (s, ok) = finalized_with::<R, T>(d);
    ok && T::reset_spec(T::reset_spec(s).0).1 is Ok
}

/// The checks of the suite on `d` that need no block size.
pub open spec fn checks_verdict<R: PartialEq, T: DefaultTestableStreamingContext<R>>(d: Seq<u8>) -> bool {
    &&& consistency_verdict::<R, T>(d) is Some
    &&& consistency_verdict::<R, T>(Seq::empty()) is Some
    &&& same_state_verdict::<R, T>(d)
    &&& finalize_after_reset_verdict::<R, T>(d)
    &&& update_finalize_after_reset_verdict::<R, T>(d)
    &&& double_finalize_verdict::<R, T>(d)
    &&& update_after_reset_verdict::<R, T>(d)
    &&& update_after_finalize_verdict::<R, T>(d)
    &&& double_reset_verdict::<R, T>(d)
}

/// The input `run_all_tests` uses.
pub open spec fn sample_input() -> Seq<u8> {
    "Testing streaming context consistency and correctness".spec_bytes()
}

/// `==` on `R` holds of any value and itself, so that equal results compare
/// equal at run time.
pub open spec fn eq_is_reflexive<R: PartialEq>() -> bool {
    &&& R::obeys_eq_spec()
    &&& forall|a: R| #[trigger] a.eq_spec(&a)
}

/// Runs the consistency suite over the streaming context type `T`, whose
/// internal block size is `blocksize`.
///
/// Each check returns exactly its verdict over the context's model (the
/// `*_verdict` spec functions), so a context that breaks the contract on the
/// sequence a check drives is reported; every conforming context passes
/// every check (`lemma_conforming_context_passes`).
pub struct StreamingContextConsistencyTester<R: PartialEq, T: DefaultTestableStreamingContext<R>> {
    _return_type: R,
    _streaming_context: T,
    blocksize: usize,
}

impl<R: PartialEq, T: DefaultTestableStreamingContext<R>> StreamingContextConsistencyTester<R, T> {
    /// The block size the suite was made with.
    pub closed spec fn block_size(&self) -> usize {
        self.blocksize
    }

    /// A suite for contexts like `streaming_context`, producing results like
    /// `return_type`, that buffer input in blocks of `blocksize` bytes.
    pub fn new(streaming_context: T, return_type: R, blocksize: usize) -> (r: Self)
        ensures
            r.block_size() == blocksize,
    {
        Self { _return_type: return_type, _streaming_context: streaming_context, blocksize }
    }

    /// Checks that every combination of `init`, `update`, `reset` and
    /// `finalize` that ends in absorbing `data` yields the same result; for
    /// empty `data`, also the combinations that never absorb anything.
    /// Returns that common result, or `None` where a call failed or two
    /// results differed.
    pub fn consistency(&self, data: &[u8]) -> (r: Option<R>)
        requires
            R::obeys_eq_spec(),
        ensures
            r == consistency_verdict::<R, T>(data@),
    {
        // init(), update(), finalize()
        let mut state_1 = T::init();
        let res_1 = match state_1.update(data) {
            Err(e) => Err(e),
            Ok(_) => state_1.finalize(),
        };

        // init(), reset(), update(), finalize()
        let mut state_2 = T::init();
        let res_2 = match state_2.reset() {
            Err(e) => Err(e),
            Ok(_) => match state_2.update(data) {
                Err(e) => Err(e),
                Ok(_) => state_2.finalize(),
            },
        };

        // init(), update(), reset(), update(), finalize()
        let mut state_3 = T::init();
        let res_3 = match state_3.update(data) {
            Err(e) => Err(e),
            Ok(_) => match state_3.reset() {
                Err(e) => Err(e),
                Ok(_) => match state_3.update(data) {
                    Err(e) => Err(e),
                    Ok(_) => state_3.finalize(),
                },
            },
        };

        // init(), update(), finalize(), reset(), update(), finalize()
        let mut state_4 = T::init();
        let res_4 = match state_4.update(data) {
            Err(e) => Err(e),
            Ok(_) => match state_4.finalize() {
                Err(e) => Err(e),
                Ok(_) => match state_4.reset() {
                    Err(e) => Err(e),
                    Ok(_) => match state_4.update(data) {
                        Err(e) => Err(e),
                        Ok(_) => state_4.finalize(),
                    },
                },
            },
        };

        if !(Self::same_ok(&res_1, &res_2) && Self::same_ok(&res_2, &res_3) && Self::same_ok(&res_3, &res_4)) {
            return None;
        }
        if data.len() == 0 {
            // init(), finalize()
            let mut state_5 = T::init();
            let res_5 = state_5.finalize();

            // init(), reset(), finalize()
            let mut state_6 = T::init();
            let res_6 = match state_6.reset() {
                Err(e) => Err(e),
                Ok(_) => state_6.finalize(),
            };

            // init(), update(), reset(), finalize()
            let mut state_7 = T::init();
            let wrong: Vec<u8> = vec![0x57u8, 0x52u8, 0x4fu8, 0x4eu8, 0x47u8, 0x20u8, 0x44u8, 0x41u8, 0x54u8, 0x41u8];
            assert(wrong@ =~= wrong_data());
            let res_7 = match state_7.update(wrong.as_slice()) {
                Err(e) => Err(e),
                Ok(_) => match state_7.reset() {
                    Err(e) => Err(e),
                    Ok(_) => state_7.finalize(),
                },
            };

            if !(Self::same_ok(&res_4, &res_5) && Self::same_ok(&res_5, &res_6) && Self::same_ok(&res_6, &res_7)) {
                return None;
            }
        }
        match res_4 {
            Ok(v) => Some(v),
            Err(_) => None,
        }
    }

    /// Whether `a` and `b` are both `Ok` with results that `==` finds equal.
    fn same_ok(a: &Result<R, UnknownCryptoError>, b: &Result<R, UnknownCryptoError>) -> (r: bool)
        requires
            R::obeys_eq_spec(),
        ensures
            r == same_ok(*a, *b),
    {
        match (a, b) {
            (Ok(x), Ok(y)) => x == y,
            _ => false,
        }
    }

    /// The state after `init`, `update(data)`, `finalize`, and whether both
    /// calls succeeded.
    fn finalized_with(data: &[u8]) -> (r: (T, bool))
        ensures
            (r.0.lifecycle(), r.1) == finalized_with::<R, T>(data@),
    {
        let mut state = T::init();
        let u = state.update(data);
        let f = state.finalize();
        (state, u.is_ok() && f.is_ok())
    }

    /// Checks that `init`; `init`, `reset`; `init`, `update`, `reset`; and
    /// `init`, `update`, `finalize`, `reset` all leave the same internal state.
    pub fn produces_same_state(&self, data: &[u8]) -> (r: bool)
        ensures
            r == same_state_verdict::<R, T>(data@),
    {
        // init()
        let state_1 = T::init();

        // init(), reset()
        let mut state_2 = T::init();
        let r2 = state_2.reset();

        // init(), update(), reset()
        let mut state_3 = T::init();
        let u3 = state_3.update(data);
        let r3 = state_3.reset();

        // init(), update(), finalize(), reset()
        let mut state_4 = T::init();
        let u4 = state_4.update(data);
        let f4 = state_4.finalize();
        let r4 = state_4.reset();

        r2.is_ok() && u3.is_ok() && r3.is_ok() && u4.is_ok() && f4.is_ok() && r4.is_ok()
            && T::compare_states(&state_1, &state_2) && T::compare_states(&state_2, &state_3)
            && T::compare_states(&state_3, &state_4)
    }

    /// Checks, for every input length up to four block sizes, that input fed
    /// in one `update` and then, past one, two and three block sizes, in
    /// further `update` calls yields the one-shot result over all of it.
    pub fn incremental_processing_with_leftover(&self, blocksize: usize) -> (r: bool)
        requires
            R::obeys_eq_spec(),
            blocksize <= usize::MAX / 4,
        ensures
            r == leftover_verdict::<R, T>(blocksize as nat),
    {
        let bound: usize = blocksize * 4;
        let empty: Vec<u8> = Vec::new();
        // The bytes of "Extra".
        let extra: Vec<u8> = vec![0x45u8, 0x78u8, 0x74u8, 0x72u8, 0x61u8];
        let zeros_256: Vec<u8> = vec![0u8; 256];
        assert(extra@ =~= extra_data());
        assert(zeros_256@ =~= zeros(256));
        assert(empty@ =~= Seq::<u8>::empty());
        let mut len: usize = 0;
        while len <= bound
            invariant
                R::obeys_eq_spec(),
                blocksize <= usize::MAX / 4,
                bound == blocksize * 4,
                len <= bound + 1,
                extra@ == extra_data(),
                zeros_256@ == zeros(256),
                empty@ == Seq::<u8>::empty(),
                forall|l: nat| l < len ==> #[trigger] leftover_case::<R, T>(blocksize as nat, l),
            decreases bound + 1 - len,
        {
            let data: Vec<u8> = vec![0u8; len];
            assert(data@ =~= zeros(len as nat));
            let mut state = T::init();
            let mut other_data: Vec<u8> = Vec::new();
            let ghost bs = blocksize as nat;
            let ghost (s1, g1) = T::update_spec(T::init_spec(), zeros(len as nat));
            let ghost (s2, g2) = if len > blocksize { T::update_spec(s1, Seq::empty()) } else { (s1, Ok(())) };
            let ghost (s3, g3) = if len > 2 * blocksize { T::update_spec(s2, extra_data()) } else { (s2, Ok(())) };
            let ghost (s4, g4) = if len > 3 * blocksize { T::update_spec(s3, zeros(256)) } else { (s3, Ok(())) };

            other_data.extend_from_slice(data.as_slice());
            let mut ok = state.update(data.as_slice()).is_ok();
            assert(other_data@ =~= zeros(len as nat));

            if data.len() > blocksize {
                other_data.extend_from_slice(empty.as_slice());
                let u = state.update(empty.as_slice());
                ok = ok && u.is_ok();
            }
            assert(other_data@ =~= zeros(len as nat));
            if data.len() > blocksize * 2 {
                other_data.extend_from_slice(extra.as_slice());
                let u = state.update(extra.as_slice());
                ok = ok && u.is_ok();
            }
            if data.len() > blocksize * 3 {
                other_data.extend_from_slice(zeros_256.as_slice());
                let u = state.update(zeros_256.as_slice());
                ok = ok && u.is_ok();
            }
            assert(other_data@ =~= zeros(len as nat) + leftover_tail(bs, len as nat));
            assert(state.lifecycle() == s4);
            assert(ok == (g1 is Ok && g2 is Ok && g3 is Ok && g4 is Ok));

            let streaming_result = state.finalize();
            let one_shot_result = T::one_shot(other_data.as_slice());
            if !(ok && Self::same_ok(&streaming_result, &one_shot_result)) {
                assert(!leftover_case::<R, T>(bs, len as nat));
                return false;
            }
            assert(leftover_case::<R, T>(bs, len as nat));
            len = len + 1;
        }
        true
    }

    /// Checks that `finalize` succeeds again after `finalize` and `reset`,
    /// with nothing absorbed in between.
    pub fn double_finalize_with_reset_no_update_ok(&self, data: &[u8]) -> (r: bool)
        ensures
            r == finalize_after_reset_verdict::<R, T>(data@),
    {
        let (mut state, ok) = Self::finalized_with(data);
        let r = state.reset();
        let f = state.finalize();
        ok && r.is_ok() && f.is_ok()
    }

    /// Checks that `finalize` succeeds again after `finalize`, `reset` and
    /// `update`.
    pub fn double_finalize_with_reset_ok(&self, data: &[u8]) -> (r: bool)
        ensures
            r == update_finalize_after_reset_verdict::<R, T>(data@),
    {
        let (mut state, ok) = Self::finalized_with(data);
        let r = state.reset();
        let res = match state.update(data) {
            Err(e) => Err(e),
            Ok(_) => state.finalize(),
        };
        ok && r.is_ok() && res.is_ok()
    }

    /// Checks that a second `finalize` without `reset` fails with
    /// `StateError`.
    pub fn double_finalize_err(&self, data: &[u8]) -> (r: bool)
        ensures
            r == double_finalize_verdict::<R, T>(data@),
    {
        let (mut state, ok) = Self::finalized_with(data);
        let f = state.finalize();
        ok && match f {
            Err(UnknownCryptoError::StateError) => true,
            _ => false,
        }
    }

    /// Checks that `update` succeeds after `finalize` and `reset`.
    pub fn update_after_finalize_with_reset_ok(&self, data: &[u8]) -> (r: bool)
        ensures
            r == update_after_reset_verdict::<R, T>(data@),
    {
        let (mut state, ok) = Self::finalized_with(data);
        let _ = state.reset();
        let u = state.update(data);
        ok && u.is_ok()
    }

    /// Checks that `update` after `finalize`, without `reset`, fails with
    /// `StateError`.
    pub fn update_after_finalize_err(&self, data: &[u8]) -> (r: bool)
        ensures
            r == update_after_finalize_verdict::<R, T>(data@),
    {
        let (mut state, ok) = Self::finalized_with(data);
        let u = state.update(data);
        ok && match u {
            Err(UnknownCryptoError::StateError) => true,
            _ => false,
        }
    }

    /// Checks that `reset` succeeds right after another `reset`.
    pub fn double_reset_ok(&self, data: &[u8]) -> (r: bool)
        ensures
            r == double_reset_verdict::<R, T>(data@),
    {
        let (mut state, ok) = Self::finalized_with(data);
        let _ = state.reset();
        let r = state.reset();
        ok && r.is_ok()
    }

    /// Runs every check on `data`, on empty input, and on inputs around the
    /// block size.
    pub fn run_all_tests_with_input(&self, data: &[u8]) -> (r: bool)
        requires
            R::obeys_eq_spec(),
            self.block_size() <= usize::MAX / 4,
        ensures
            r == (checks_verdict::<R, T>(data@) && leftover_verdict::<R, T>(self.block_size() as nat)),
    {
        let no_data: Vec<u8> = Vec::new();
        assert(no_data@ =~= Seq::<u8>::empty());
        self.consistency(data).is_some() && self.consistency(no_data.as_slice()).is_some()
            && self.produces_same_state(data) && self.incremental_processing_with_leftover(self.blocksize)
            && self.double_finalize_with_reset_no_update_ok(data) && self.double_finalize_with_reset_ok(data)
            && self.double_finalize_err(data) && self.update_after_finalize_with_reset_ok(data)
            && self.update_after_finalize_err(data) && self.double_reset_ok(data)
    }

    /// Runs every check but the block-size one on a fixed sample input.
    pub fn run_all_tests(&self) -> (r: bool)
        requires
            R::obeys_eq_spec(),
        ensures
            r == checks_verdict::<R, T>(sample_input()),
    {
        let data = "Testing streaming context consistency and correctness".as_bytes();
        let no_data: Vec<u8> = Vec::new();
        assert(no_data@ =~= Seq::<u8>::empty());
        self.consistency(data).is_some() && self.consistency(no_data.as_slice()).is_some()
            && self.produces_same_state(data) && self.double_finalize_with_reset_no_update_ok(data)
            && self.double_finalize_with_reset_ok(data) && self.double_finalize_err(data)
            && self.update_after_finalize_with_reset_ok(data) && self.update_after_finalize_err(data)
            && self.double_reset_ok(data)
    }
}

/// For any conforming context type, feeding the chunks of `d` to a fresh
/// context, one `update` per chunk, lets `finalize` succeed with the result
/// `one_shot(d)` gives, whatever the partition.
pub proof fn lemma_streaming_matches_one_shot<R: PartialEq, T: DefaultTestableStreamingContext<R>>(chunks: Seq<Seq<u8>>)
    requires
        conforms::<R, T>(),
    ensures
        T::finalize_spec(T::init_spec().run(updates(chunks))).1 == T::one_shot_spec(chunks.flatten()),
{
    lemma_chunking_invariance(chunks);
}

/// Every check of the suite passes on a conforming context type, and
/// `consistency` returns the result over its input.
pub proof fn lemma_conforming_context_passes<R: PartialEq, T: DefaultTestableStreamingContext<R>>(d: Seq<u8>, blocksize: nat)
    requires
        conforms::<R, T>(),
        eq_is_reflexive::<R>(),
    ensures
        consistency_verdict::<R, T>(d) == Some(T::result_of(d)),
        checks_verdict::<R, T>(d),
        leftover_verdict::<R, T>(blocksize),
{
    let e = Seq::<u8>::empty();
    assert(e + d =~= d);
    lemma_consistency_on::<R, T>(d);
    lemma_consistency_on::<R, T>(e);
    assert forall|len: nat| len <= 4 * blocksize implies #[trigger] leftover_case::<R, T>(blocksize, len) by {
        let z = zeros(len);
        assert(e + z =~= z);
        assert(z + e =~= z);
        let tail = leftover_tail(blocksize, len);
        if len > 3 * blocksize {
            assert(z + extra_data() + zeros(256) =~= z + tail);
        } else if len > 2 * blocksize {
            assert(z + extra_data() =~= z + tail);
        } else {
            assert(z =~= z + tail);
        }
    }
}

proof fn lemma_consistency_on<R: PartialEq, T: DefaultTestableStreamingContext<R>>(d: Seq<u8>)
    requires
        conforms::<R, T>(),
        eq_is_reflexive::<R>(),
    ensures
        consistency_verdict::<R, T>(d) == Some(T::result_of(d)),
{
    let e = Seq::<u8>::empty();
    assert(e + d =~= d);
    assert(e + wrong_data() =~= wrong_data());
    let r = T::result_of(d);
    assert(r.eq_spec(&r));
    if d.len() == 0 {
        assert(d =~= e);
    }
}

} // verus!