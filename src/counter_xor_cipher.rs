//! A small counter-mode keystream generator that meets the counter-mode
//! contract. It is not a cipher: its keystream is trivially predictable.
use vstd::prelude::*;

use crate::errors::UnknownCryptoError;
use crate::streamcipher_interface::{
    cipher_conforms, counter_fits, outcome_conforms, counter_will_overflow, invocation_valid, keystream, xor_bytes, CounterModeCipher,
    COUNTER_BLOCKSIZE,
};

verus! {

/// Keystream block `b`: key, nonce, the low byte of `b` and the offset in
/// the block, combined by exclusive or.
pub open spec fn xor_block(key: u8, nonce: u8, b: u32) -> Seq<u8> {
    Seq::new(64, |j: int| key ^ nonce ^ ((b as int % 256) as u8) ^ (j as u8))
}

/// The keystream for `len` bytes from initial block counter `counter`, block
/// by block.
pub open spec fn xor_keystream(key: u8, nonce: u8, counter: u32, len: nat) -> Seq<u8> {
    Seq::new(len, |i: int| xor_block(key, nonce, (counter + i / 64) as u32)[i % 64])
}

/// What a call leaves in `output`, and returns.
pub open spec fn xor_outcome(key: u8, nonce: u8, counter: u32, input: Seq<u8>, output: Seq<u8>) -> (Seq<u8>, Result<(), UnknownCryptoError>) {
    if invocation_valid(counter, input.len(), output.len()) {
        (
            xor_bytes(input, xor_keystream(key, nonce, counter, input.len()))
                + output.subrange(input.len() as int, output.len() as int),
            Ok(()),
        )
    } else {
        (output, Err(UnknownCryptoError::ValidationError))
    }
}

/// The counter-mode generator whose keystream is `xor_keystream`.
pub struct CounterXorCipher;

impl CounterXorCipher {
    /// Checks the call, then combines `input` with the keystream into the
    /// front of `output`.
    fn apply(key: u8, nonce: u8, counter: u32, input: &[u8], output: &mut [u8]) -> (r: Result<(), UnknownCryptoError>)
        ensures
            (final(output)@, r) == xor_outcome(key, nonce, counter, input@, old(output)@),
    {
        if input.len() == 0 || output.len() < input.len() || counter_will_overflow(counter, input.len()) {
            return Err(UnknownCryptoError::ValidationError);
        }
        let ghost ks = xor_keystream(key, nonce, counter, input@.len());
        let ghost before = output@;
        let mut i: usize = 0;
        while i < input.len()
            invariant
                i <= input@.len(),
                input@.len() <= output@.len(),
                output@.len() == before.len(),
                counter_fits(counter, input@.len()),
                input@.len() > 0,
                ks == xor_keystream(key, nonce, counter, input@.len()),
                forall|j: int| 0 <= j < i ==> #[trigger] output@[j] == input@[j] ^ ks[j],
                forall|j: int| i <= j < output@.len() ==> #[trigger] output@[j] == before[j],
            decreases input@.len() - i,
        {
            let block: u64 = counter as u64 + (i / COUNTER_BLOCKSIZE) as u64;
            assert(counter as int + i as int / 64 <= u32::MAX) by {
                assert(i as int / 64 <= (input@.len() as int + 63) / 64 - 1);
            }
            let k: u8 = key ^ nonce ^ ((block % 256) as u8) ^ ((i % COUNTER_BLOCKSIZE) as u8);
            assert(k == ks[i as int]);
            output[i] = input[i] ^ k;
            i = i + 1;
        }
        assert(output@ =~= xor_bytes(input@, ks) + before.subrange(input@.len() as int, before.len() as int));
        Ok(())
    }
}

impl CounterModeCipher<u8, u8> for CounterXorCipher {
    open spec fn keystream_block(key: u8, nonce: u8, block_counter: u32) -> Seq<u8> {
        xor_block(key, nonce, block_counter)
    }

    open spec fn encrypt_spec(key: u8, nonce: u8, counter: u32, input: Seq<u8>, output: Seq<u8>) -> (Seq<u8>, Result<(), UnknownCryptoError>) {
        xor_outcome(key, nonce, counter, input, output)
    }

    open spec fn decrypt_spec(key: u8, nonce: u8, counter: u32, input: Seq<u8>, output: Seq<u8>) -> (Seq<u8>, Result<(), UnknownCryptoError>) {
        xor_outcome(key, nonce, counter, input, output)
    }

    fn encrypt(&self, key: &u8, nonce: &u8, counter: u32, input: &[u8], output: &mut [u8]) -> (r: Result<(), UnknownCryptoError>) {
        CounterXorCipher::apply(*key, *nonce, counter, input, output)
    }

    fn decrypt(&self, key: &u8, nonce: &u8, counter: u32, input: &[u8], output: &mut [u8]) -> (r: Result<(), UnknownCryptoError>) {
        CounterXorCipher::apply(*key, *nonce, counter, input, output)
    }
}

/// The counter-mode generator meets the counter-mode contract.
pub proof fn lemma_counter_xor_cipher_conforms()
    ensures
        cipher_conforms::<u8, u8, CounterXorCipher>(),
{
    assert forall|k: u8, n: u8, c: u32, input: Seq<u8>, out: Seq<u8>|
        #[trigger] xor_outcome(k, n, c, input, out) == xor_outcome(k, n, c, input, out) implies
        outcome_conforms(c, input, keystream::<u8, u8, CounterXorCipher>(k, n, c, input.len()), out, xor_outcome(k, n, c, input, out)) by {
        let ks = keystream::<u8, u8, CounterXorCipher>(k, n, c, input.len());
        assert(ks =~= xor_keystream(k, n, c, input.len()));
        if invocation_valid(c, input.len(), out.len()) {
            let o = xor_outcome(k, n, c, input, out).0;
            assert(o.subrange(0, input.len() as int) =~= xor_bytes(input, ks));
        }
    }
}

} // verus!
