//! The counter-mode cipher contract, its block-counter arithmetic, and the
//! suite that checks an encrypt/decrypt pair against it.
use vstd::prelude::*;

use crate::errors::UnknownCryptoError;

verus! {

/// Bytes of keystream per block counter value.
pub const COUNTER_BLOCKSIZE: usize = 64;

/// Keystream blocks needed for `n` bytes: `ceil(n / 64)`.
pub open spec fn blocks_required(n: nat) -> nat {
    ((n + 63) / 64) as nat
}

/// Whether every block counter used for `n` bytes from `counter` on, the
/// last being `counter + blocks_required(n) - 1`, fits in 32 bits.
pub open spec fn counter_fits(counter: u32, n: nat) -> bool {
    n == 0 || counter + blocks_required(n) - 1 <= u32::MAX
}

/// Whether an encrypt or decrypt call with these sizes must succeed: input
/// not empty, output at least as long, and no counter overflow.
pub open spec fn invocation_valid(counter: u32, input_len: nat, output_len: nat) -> bool {
    &&& input_len > 0
    &&& output_len >= input_len
    &&& counter_fits(counter, input_len)
}

/// `a` combined byte by byte with `keystream` by exclusive or.
pub open spec fn xor_bytes(a: Seq<u8>, keystream: Seq<u8>) -> Seq<u8> {
    Seq::new(a.len(), |i: int| a[i] ^ keystream[i])
}

/// What a successful call leaves in `output`: `input` combined with the
/// keystream in its first `input.len()` bytes; the rest keeps its length and
/// is otherwise unconstrained.
pub open spec fn counter_mode_output(input: Seq<u8>, keystream: Seq<u8>, out_before: Seq<u8>, out_after: Seq<u8>) -> bool {
    &&& out_after.len() == out_before.len()
    &&& out_after.subrange(0, input.len() as int) == xor_bytes(input, keystream)
}

/// A counter-mode stream cipher over keys `Key` and nonces `Nonce`.
///
/// Each call follows a model that the implementation defines:
/// `encrypt_spec` and `decrypt_spec` give the output buffer afterwards and the
/// result. The contract proper is `cipher_conforms`; the suite below checks
/// it at run time.
pub trait CounterModeCipher<Key, Nonce> {
    /// The keystream block for block counter `block_counter` under `key` and
    /// `nonce`.
    spec fn keystream_block(key: Key, nonce: Nonce, block_counter: u32) -> Seq<u8>;

    /// The output buffer after `encrypt` from `output`, and its result.
    spec fn encrypt_spec(key: Key, nonce: Nonce, counter: u32, input: Seq<u8>, output: Seq<u8>) -> (Seq<u8>, Result<(), UnknownCryptoError>);

    /// The output buffer after `decrypt` from `output`, and its result.
    spec fn decrypt_spec(key: Key, nonce: Nonce, counter: u32, input: Seq<u8>, output: Seq<u8>) -> (Seq<u8>, Result<(), UnknownCryptoError>);

    fn encrypt(&self, key: &Key, nonce: &Nonce, counter: u32, input: &[u8], output: &mut [u8]) -> (r: Result<(), UnknownCryptoError>)
        ensures
            (final(output)@, r) == Self::encrypt_spec(*key, *nonce, counter, input@, old(output)@),
    ;

    fn decrypt(&self, key: &Key, nonce: &Nonce, counter: u32, input: &[u8], output: &mut [u8]) -> (r: Result<(), UnknownCryptoError>)
        ensures
            (final(output)@, r) == Self::decrypt_spec(*key, *nonce, counter, input@, old(output)@),
    ;
}

/// The keystream for `len` bytes from initial block counter `counter`: byte
/// `i` is byte `i % 64` of the block for counter `counter + i / 64`.
pub open spec fn keystream<Key, Nonce, C: CounterModeCipher<Key, Nonce>>(key: Key, nonce: Nonce, counter: u32, len: nat) -> Seq<u8> {
    Seq::new(len, |i: int| C::keystream_block(key, nonce, (counter + i / 64) as u32)[i % 64])
}

/// Whether `outcome` is what a conforming call from block counter `counter`
/// on `input`, with keystream `ks` and output buffer `out_before`, gives: it
/// succeeds exactly when the call is `invocation_valid`, then combining the
/// input with the keystream; otherwise it fails with `ValidationError`
/// before writing anything.
pub open spec fn outcome_conforms(
    counter: u32,
    input: Seq<u8>,
    ks: Seq<u8>,
    out_before: Seq<u8>,
    outcome: (Seq<u8>, Result<(), UnknownCryptoError>),
) -> bool {
    &&& outcome.1 is Ok <==> invocation_valid(counter, input.len(), out_before.len())
    &&& outcome.1 is Err ==> outcome.1 == Err::<(), UnknownCryptoError>(UnknownCryptoError::ValidationError)
    &&& outcome.1 is Err ==> outcome.0 == out_before
    &&& outcome.1 is Ok ==> counter_mode_output(input, ks, out_before, outcome.0)
}

/// The counter-mode contract: keystream blocks are 64 bytes, and both
/// operations behave as `outcome_conforms` says with the keystream of
/// `keystream`, so that each undoes the other.
pub open spec fn cipher_conforms<Key, Nonce, C: CounterModeCipher<Key, Nonce>>() -> bool {
    &&& forall|k: Key, n: Nonce, b: u32| (#[trigger] C::keystream_block(k, n, b)).len() == 64
    &&& forall|k: Key, n: Nonce, c: u32, input: Seq<u8>, out: Seq<u8>|
        outcome_conforms(c, input, keystream::<Key, Nonce, C>(k, n, c, input.len()), out, #[trigger] C::encrypt_spec(k, n, c, input, out))
    &&& forall|k: Key, n: Nonce, c: u32, input: Seq<u8>, out: Seq<u8>|
        outcome_conforms(c, input, keystream::<Key, Nonce, C>(k, n, c, input.len()), out, #[trigger] C::decrypt_spec(k, n, c, input, out))
}

/// `n` zero bytes.
pub open spec fn zero_bytes(n: nat) -> Seq<u8> {
    Seq::new(n, |i: int| 0u8)
}

/// Whether encrypting, then decrypting into the same buffer, both fail.
pub open spec fn both_rejected<Key, Nonce, C: CounterModeCipher<Key, Nonce>>(k: Key, n: Nonce, c: u32, input: Seq<u8>, out: Seq<u8>) -> bool {
    let (o, e) = C::encrypt_spec(k, n, c, input, out);
    e is Err && C::decrypt_spec(k, n, c, input, o).1 is Err
}

/// Whether encrypting, then decrypting into the same buffer, both succeed.
pub open spec fn both_accepted<Key, Nonce, C: CounterModeCipher<Key, Nonce>>(k: Key, n: Nonce, c: u32, input: Seq<u8>, out: Seq<u8>) -> bool {
    let (o, e) = C::encrypt_spec(k, n, c, input, out);
    e is Ok && C::decrypt_spec(k, n, c, input, o).1 is Ok
}

/// What `encrypt_decrypt_out_length` returns.
pub open spec fn out_length_verdict<Key, Nonce, C: CounterModeCipher<Key, Nonce>>(k: Key, n: Nonce, input: Seq<u8>) -> bool {
    &&& both_rejected::<Key, Nonce, C>(k, n, 0, input, Seq::empty())
    &&& both_rejected::<Key, Nonce, C>(k, n, 0, input, zero_bytes((input.len() - 1) as nat))
    &&& both_accepted::<Key, Nonce, C>(k, n, 0, input, zero_bytes(input.len()))
    &&& both_accepted::<Key, Nonce, C>(k, n, 0, input, zero_bytes(input.len() + 1))
}

/// What `encrypt_decrypt_same_plaintext` returns: where the counter would
/// overflow, whether both operations reject the call; otherwise whether
/// decrypting the ciphertext gives `input` back.
pub open spec fn same_plaintext_verdict<Key, Nonce, C: CounterModeCipher<Key, Nonce>>(k: Key, n: Nonce, c: u32, input: Seq<u8>) -> bool {
    if !counter_fits(c, input.len()) {
        both_rejected::<Key, Nonce, C>(k, n, c, input, zero_bytes(input.len()))
    } else {
        let (ct, e) = C::encrypt_spec(k, n, c, input, zero_bytes(input.len()));
        let (pt, d) = C::decrypt_spec(k, n, c, ct, zero_bytes(input.len()));
        e is Ok && d is Ok && pt == input
    }
}

/// What `StreamCipherTestRunner` returns.
pub open spec fn runner_verdict<Key, Nonce, C: CounterModeCipher<Key, Nonce>>(k: Key, n: Nonce, c: u32, input: Seq<u8>) -> bool {
    &&& input.len() > 0 ==> same_plaintext_verdict::<Key, Nonce, C>(k, n, c, input) && out_length_verdict::<Key, Nonce, C>(k, n, input)
    &&& both_rejected::<Key, Nonce, C>(k, n, 0, Seq::empty(), zero_bytes(64))
    &&& both_rejected::<Key, Nonce, C>(k, n, u32::MAX, zero_bytes(65), zero_bytes(128))
    &&& both_accepted::<Key, Nonce, C>(k, n, u32::MAX, zero_bytes(64), zero_bytes(64))
}

/// How many times the block counter advances beyond its initial value while
/// `len` bytes are processed.
pub fn counter_increase_times(len: usize) -> (r: usize)
    ensures
        r == (if len == 0 { 0 } else { blocks_required(len as nat) - 1 }),
{
    if len <= COUNTER_BLOCKSIZE {
        0
    } else {
        (len - 1) / COUNTER_BLOCKSIZE
    }
}

/// Whether processing `len` bytes from block counter `counter` on would take
/// the counter past `u32::MAX`.
pub fn counter_will_overflow(counter: u32, len: usize) -> (r: bool)
    ensures
        r == !counter_fits(counter, len as nat),
{
    let increase = counter_increase_times(len) as u64;
    increase + counter as u64 > u32::MAX as u64
}

fn bytes_equal(a: &[u8], b: &[u8]) -> (r: bool)
    ensures
        r == (a@ == b@),
{
    if a.len() != b.len() {
        return false;
    }
    let mut i: usize = 0;
    while i < a.len()
        invariant
            a@.len() == b@.len(),
            i <= a@.len(),
            a@.subrange(0, i as int) == b@.subrange(0, i as int),
        decreases a@.len() - i,
    {
        if a[i] != b[i] {
            assert(a@[i as int] != b@[i as int]);
            return false;
        }
        assert(a@.subrange(0, i + 1) =~= a@.subrange(0, i as int).push(a@[i as int]));
        assert(b@.subrange(0, i + 1) =~= b@.subrange(0, i as int).push(b@[i as int]));
        i = i + 1;
    }
    assert(a@ =~= a@.subrange(0, i as int));
    assert(b@ =~= b@.subrange(0, i as int));
    true
}

/// Encrypts, then decrypts into the same buffer, `input` from block counter
/// `counter`; returns whether both failed.
fn check_both_rejected<Key, Nonce, C: CounterModeCipher<Key, Nonce>>(
    cipher: &C,
    key: &Key,
    nonce: &Nonce,
    counter: u32,
    input: &[u8],
    out: &mut Vec<u8>,
) -> (r: bool)
    ensures
        r == both_rejected::<Key, Nonce, C>(*key, *nonce, counter, input@, old(out)@),
{
    let e = cipher.encrypt(key, nonce, counter, input, out.as_mut_slice());
    let d = cipher.decrypt(key, nonce, counter, input, out.as_mut_slice());
    e.is_err() && d.is_err()
}

/// Encrypts, then decrypts into the same buffer, `input` from block counter
/// `counter`; returns whether both succeeded.
fn check_both_accepted<Key, Nonce, C: CounterModeCipher<Key, Nonce>>(
    cipher: &C,
    key: &Key,
    nonce: &Nonce,
    counter: u32,
    input: &[u8],
    out: &mut Vec<u8>,
) -> (r: bool)
    ensures
        r == both_accepted::<Key, Nonce, C>(*key, *nonce, counter, input@, old(out)@),
{
    let e = cipher.encrypt(key, nonce, counter, input, out.as_mut_slice());
    let d = cipher.decrypt(key, nonce, counter, input, out.as_mut_slice());
    e.is_ok() && d.is_ok()
}

/// Calls both operations on `input` from block counter `counter`, with an
/// output buffer of the input's length; returns whether both rejected it.
fn return_if_counter_will_overflow<Key, Nonce, C: CounterModeCipher<Key, Nonce>>(
    cipher: &C,
    key: &Key,
    nonce: &Nonce,
    counter: u32,
    input: &[u8],
) -> (r: bool)
    ensures
        r == both_rejected::<Key, Nonce, C>(*key, *nonce, counter, input@, zero_bytes(input@.len())),
{
    let mut dst_out: Vec<u8> = vec![0u8; input.len()];
    assert(dst_out@ =~= zero_bytes(input@.len()));
    check_both_rejected(cipher, key, nonce, counter, input, &mut dst_out)
}

/// Checks that both operations reject empty input.
fn encrypt_decrypt_input_empty<Key, Nonce, C: CounterModeCipher<Key, Nonce>>(
    cipher: &C,
    key: &Key,
    nonce: &Nonce,
) -> (r: bool)
    ensures
        r == both_rejected::<Key, Nonce, C>(*key, *nonce, 0, Seq::empty(), zero_bytes(64)),
{
    let no_input: Vec<u8> = Vec::new();
    let mut dst_out: Vec<u8> = vec![0u8; 64];
    assert(dst_out@ =~= zero_bytes(64));
    assert(no_input@ =~= Seq::<u8>::empty());
    check_both_rejected(cipher, key, nonce, 0, no_input.as_slice(), &mut dst_out)
}

/// Checks, from block counter 0, that both operations reject an empty or a
/// short output buffer and accept an exact or a longer one.
fn encrypt_decrypt_out_length<Key, Nonce, C: CounterModeCipher<Key, Nonce>>(
    cipher: &C,
    key: &Key,
    nonce: &Nonce,
    input: &[u8],
) -> (r: bool)
    requires
        input@.len() > 0,
        input@.len() < usize::MAX,
    ensures
        r == out_length_verdict::<Key, Nonce, C>(*key, *nonce, input@),
{
    let mut dst_out_empty: Vec<u8> = Vec::new();
    assert(dst_out_empty@ =~= Seq::<u8>::empty());
    let empty_rejected = check_both_rejected(cipher, key, nonce, 0, input, &mut dst_out_empty);

    let mut dst_out_less: Vec<u8> = vec![0u8; input.len() - 1];
    assert(dst_out_less@ =~= zero_bytes((input@.len() - 1) as nat));
    let less_rejected = check_both_rejected(cipher, key, nonce, 0, input, &mut dst_out_less);

    let mut dst_out_exact: Vec<u8> = vec![0u8; input.len()];
    assert(dst_out_exact@ =~= zero_bytes(input@.len()));
    let exact_accepted = check_both_accepted(cipher, key, nonce, 0, input, &mut dst_out_exact);

    let mut dst_out_greater: Vec<u8> = vec![0u8; input.len() + 1];
    assert(dst_out_greater@ =~= zero_bytes(input@.len() + 1));
    let greater_accepted = check_both_accepted(cipher, key, nonce, 0, input, &mut dst_out_greater);

    empty_rejected && less_rejected && exact_accepted && greater_accepted
}

/// Checks that decrypting the encryption of `input` gives `input` back; where
/// the block counter would overflow, checks instead that both operations
/// reject the call.
fn encrypt_decrypt_same_plaintext<Key, Nonce, C: CounterModeCipher<Key, Nonce>>(
    cipher: &C,
    key: &Key,
    nonce: &Nonce,
    counter: u32,
    input: &[u8],
) -> (r: bool)
    ensures
        r == same_plaintext_verdict::<Key, Nonce, C>(*key, *nonce, counter, input@),
{
    if counter_will_overflow(counter, input.len()) {
        return return_if_counter_will_overflow(cipher, key, nonce, counter, input);
    }

    let mut dst_out_ct: Vec<u8> = vec![0u8; input.len()];
    assert(dst_out_ct@ =~= zero_bytes(input@.len()));
    let e = cipher.encrypt(key, nonce, counter, input, dst_out_ct.as_mut_slice());

    let mut dst_out_pt: Vec<u8> = vec![0u8; input.len()];
    assert(dst_out_pt@ =~= zero_bytes(input@.len()));
    let d = cipher.decrypt(key, nonce, counter, dst_out_ct.as_slice(), dst_out_pt.as_mut_slice());

    e.is_ok() && d.is_ok() && bytes_equal(dst_out_pt.as_slice(), input)
}

/// Checks that both operations reject 65 bytes from block counter
/// `u32::MAX`: the second block would need the counter past its maximum.
fn initial_counter_overflow_err<Key, Nonce, C: CounterModeCipher<Key, Nonce>>(
    cipher: &C,
    key: &Key,
    nonce: &Nonce,
) -> (r: bool)
    ensures
        r == both_rejected::<Key, Nonce, C>(*key, *nonce, u32::MAX, zero_bytes(65), zero_bytes(128)),
{
    let input: Vec<u8> = vec![0u8; COUNTER_BLOCKSIZE + 1];
    let mut dst_out: Vec<u8> = vec![0u8; 128];
    assert(input@ =~= zero_bytes(65));
    assert(dst_out@ =~= zero_bytes(128));
    check_both_rejected(cipher, key, nonce, u32::MAX, input.as_slice(), &mut dst_out)
}

/// Checks that both operations accept one block, 64 bytes, from block
/// counter `u32::MAX`.
fn initial_counter_max_ok<Key, Nonce, C: CounterModeCipher<Key, Nonce>>(
    cipher: &C,
    key: &Key,
    nonce: &Nonce,
) -> (r: bool)
    ensures
        r == both_accepted::<Key, Nonce, C>(*key, *nonce, u32::MAX, zero_bytes(64), zero_bytes(64)),
{
    let input: Vec<u8> = vec![0u8; COUNTER_BLOCKSIZE];
    let mut dst_out: Vec<u8> = vec![0u8; 64];
    assert(input@ =~= zero_bytes(64));
    assert(dst_out@ =~= zero_bytes(64));
    check_both_accepted(cipher, key, nonce, u32::MAX, input.as_slice(), &mut dst_out)
}

/// Runs the counter-mode suite on `cipher` with `key`, `nonce`, initial block
/// counter `counter` and sample `input`; the checks that need input are
/// skipped for empty `input`. Returns whether every check passed
/// (`runner_verdict`); every conforming cipher passes
/// (`lemma_conforming_cipher_passes`).
#[allow(non_snake_case)]
pub fn StreamCipherTestRunner<Key, Nonce, C: CounterModeCipher<Key, Nonce>>(
    cipher: &C,
    key: Key,
    nonce: Nonce,
    counter: u32,
    input: &[u8],
) -> (r: bool)
    requires
        input@.len() < usize::MAX,
    ensures
        r == runner_verdict::<Key, Nonce, C>(key, nonce, counter, input@),
{
    if input.len() > 0 {
        if !encrypt_decrypt_same_plaintext(cipher, &key, &nonce, counter, input)
            || !encrypt_decrypt_out_length(cipher, &key, &nonce, input) {
            return false;
        }
    }
    encrypt_decrypt_input_empty(cipher, &key, &nonce) && initial_counter_overflow_err(cipher, &key, &nonce)
        && initial_counter_max_ok(cipher, &key, &nonce)
}

/// Combining with the same keystream twice gives the input back.
pub proof fn lemma_xor_involution(input: Seq<u8>, keystream: Seq<u8>)
    ensures
        xor_bytes(xor_bytes(input, keystream), keystream) == input,
{
    assert forall|i: int| 0 <= i < input.len() implies #[trigger] xor_bytes(xor_bytes(input, keystream), keystream)[i] == input[i] by {
        let (a, k) = (input[i], keystream[i]);
        assert((a ^ k) ^ k == a) by (bit_vector);
    }
    assert(xor_bytes(xor_bytes(input, keystream), keystream) =~= input);
}

/// For a conforming cipher and non-empty input, under any key and nonce: an
/// output buffer shorter than the input makes both operations fail; one of
/// exactly the input's length makes both succeed whenever the block counter
/// fits, and decrypting the ciphertext then gives the input back.
pub proof fn lemma_output_length_and_round_trip<Key, Nonce, C: CounterModeCipher<Key, Nonce>>(
    key: Key,
    nonce: Nonce,
    counter: u32,
    input: Seq<u8>,
    output: Seq<u8>,
)
    requires
        cipher_conforms::<Key, Nonce, C>(),
        input.len() > 0,
    ensures
        output.len() < input.len() ==> C::encrypt_spec(key, nonce, counter, input, output).1 is Err,
        output.len() < input.len() ==> C::decrypt_spec(key, nonce, counter, input, output).1 is Err,
        output.len() == input.len() && counter_fits(counter, input.len()) ==> ({
            let (ct, e) = C::encrypt_spec(key, nonce, counter, input, output);
            let (pt, d) = C::decrypt_spec(key, nonce, counter, ct, output);
            e is Ok && d is Ok && pt == input
        }),
{
    let o1 = C::encrypt_spec(key, nonce, counter, input, output);
    let o2 = C::decrypt_spec(key, nonce, counter, input, output);
    if output.len() == input.len() && counter_fits(counter, input.len()) {
        let ks = keystream::<Key, Nonce, C>(key, nonce, counter, input.len());
        let (ct, e) = o1;
        assert(ct =~= ct.subrange(0, input.len() as int));
        let o3 = C::decrypt_spec(key, nonce, counter, ct, output);
        let (pt, d) = o3;
        assert(pt =~= pt.subrange(0, input.len() as int));
        lemma_xor_involution(input, ks);
    }
}

/// Every check of the suite passes on a conforming cipher, for any key,
/// nonce and initial counter, on input whose length fits from counter 0.
pub proof fn lemma_conforming_cipher_passes<Key, Nonce, C: CounterModeCipher<Key, Nonce>>(
    key: Key,
    nonce: Nonce,
    counter: u32,
    input: Seq<u8>,
)
    requires
        cipher_conforms::<Key, Nonce, C>(),
        counter_fits(0, input.len()),
    ensures
        runner_verdict::<Key, Nonce, C>(key, nonce, counter, input),
{
    let e = Seq::<u8>::empty();
    let _ = C::encrypt_spec(key, nonce, 0, e, zero_bytes(64));
    let _ = C::encrypt_spec(key, nonce, u32::MAX, zero_bytes(65), zero_bytes(128));
    let _ = C::encrypt_spec(key, nonce, u32::MAX, zero_bytes(64), zero_bytes(64));
    if input.len() > 0 {
        let z = zero_bytes(input.len());
        lemma_output_length_and_round_trip::<Key, Nonce, C>(key, nonce, counter, input, z);
        lemma_output_length_and_round_trip::<Key, Nonce, C>(key, nonce, 0, input, e);
        lemma_output_length_and_round_trip::<Key, Nonce, C>(key, nonce, 0, input, zero_bytes((input.len() - 1) as nat));
        lemma_output_length_and_round_trip::<Key, Nonce, C>(key, nonce, 0, input, z);
        let _ = C::encrypt_spec(key, nonce, counter, input, z);
        let _ = C::encrypt_spec(key, nonce, 0, input, e);
        let _ = C::encrypt_spec(key, nonce, 0, input, zero_bytes((input.len() - 1) as nat));
        let _ = C::encrypt_spec(key, nonce, 0, input, z);
        let _ = C::encrypt_spec(key, nonce, 0, input, zero_bytes(input.len() + 1));
    }
}

/// For a conforming cipher, from block counter `u32::MAX`, under any key and
/// nonce: a 64-byte input with an output buffer at least as long is accepted
/// by both operations, and a 65-byte input is rejected by both, whatever the
/// output buffer.
pub proof fn lemma_max_counter_boundary<Key, Nonce, C: CounterModeCipher<Key, Nonce>>(
    key: Key,
    nonce: Nonce,
    input: Seq<u8>,
    output: Seq<u8>,
)
    requires
        cipher_conforms::<Key, Nonce, C>(),
    ensures
        input.len() == 64 && output.len() >= 64 ==> C::encrypt_spec(key, nonce, u32::MAX, input, output).1 is Ok,
        input.len() == 64 && output.len() >= 64 ==> C::decrypt_spec(key, nonce, u32::MAX, input, output).1 is Ok,
        input.len() == 65 ==> C::encrypt_spec(key, nonce, u32::MAX, input, output).1 is Err,
        input.len() == 65 ==> C::decrypt_spec(key, nonce, u32::MAX, input, output).1 is Err,
{
    let _ = C::encrypt_spec(key, nonce, u32::MAX, input, output);
    let _ = C::decrypt_spec(key, nonce, u32::MAX, input, output);
}

} // verus!
