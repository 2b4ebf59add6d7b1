use stream_conformance::errors::UnknownCryptoError;
use stream_conformance::counter_xor_cipher::CounterXorCipher;
use stream_conformance::streamcipher_interface::{
    counter_increase_times, counter_will_overflow, CounterModeCipher, StreamCipherTestRunner,
};

const GOOD: CounterXorCipher = CounterXorCipher;

#[test]
fn counter_increase_times_values() {
    assert_eq!(counter_increase_times(0), 0);
    assert_eq!(counter_increase_times(1), 0);
    assert_eq!(counter_increase_times(64), 0);
    assert_eq!(counter_increase_times(65), 1);
    assert_eq!(counter_increase_times(128), 1);
    assert_eq!(counter_increase_times(129), 2);
    assert_eq!(counter_increase_times(640), 9);
}

#[test]
fn counter_overflow_boundaries() {
    assert!(!counter_will_overflow(u32::MAX, 1));
    assert!(!counter_will_overflow(u32::MAX, 64));
    assert!(counter_will_overflow(u32::MAX, 65));
    assert!(!counter_will_overflow(u32::MAX - 1, 128));
    assert!(counter_will_overflow(u32::MAX - 1, 129));
    assert!(!counter_will_overflow(0, 0));
    assert!(!counter_will_overflow(u32::MAX, 0));
    assert!(!counter_will_overflow(0, 1 << 20));
}

#[test]
fn conforming_cipher_passes_runner() {
    let input: Vec<u8> = (0..200u8).collect();
    assert!(StreamCipherTestRunner(&GOOD, 3u8, 9u8, 0, &input));
    assert!(StreamCipherTestRunner(&GOOD, 3u8, 9u8, 7, &input[..1]));
    assert!(StreamCipherTestRunner(&GOOD, 3u8, 9u8, u32::MAX, &input[..64]));
    // The counter would overflow: both operations must reject the call.
    assert!(StreamCipherTestRunner(&GOOD, 3u8, 9u8, u32::MAX, &input));
    assert!(StreamCipherTestRunner(&GOOD, 3u8, 9u8, 0, &[]));
}

#[test]
fn xor_keystream_values() {
    let zeros = [0u8; 130];
    let mut out = [0u8; 130];
    GOOD.encrypt(&0, &0, 0, &zeros, &mut out).unwrap();
    assert_eq!(out[0], 0);
    assert_eq!(out[3], 3);
    assert_eq!(out[63], 63);
    // Second block: counter 1, offset 1.
    assert_eq!(out[65], 0);
    assert_eq!(out[129], 2 ^ 1);
    let mut out2 = [0u8; 70];
    GOOD.encrypt(&0x10, &0x01, 255, &zeros[..70], &mut out2).unwrap();
    assert_eq!(out2[0], 0x10 ^ 0x01 ^ 255);
    // The block counter 256 contributes its low byte, 0.
    assert_eq!(out2[64], 0x11);
    // Encryption changes a non-trivial input.
    let msg = *b"attack at dawn";
    let mut ct = [0u8; 14];
    GOOD.encrypt(&0x5a, &0x33, 9, &msg, &mut ct).unwrap();
    assert_ne!(ct, msg);
}

#[test]
fn rejected_calls_leave_output_untouched() {
    let mut out = [9u8; 70];
    assert_eq!(GOOD.encrypt(&1, &2, u32::MAX, &[0u8; 65], &mut out), Err(UnknownCryptoError::ValidationError));
    assert_eq!(GOOD.decrypt(&1, &2, 0, &[], &mut out), Err(UnknownCryptoError::ValidationError));
    assert_eq!(out, [9u8; 70]);
}

#[test]
fn output_length_rules() {
    let input = [5u8; 10];
    let mut short = [0u8; 9];
    assert_eq!(GOOD.encrypt(&1, &2, 0, &input, &mut short), Err(UnknownCryptoError::ValidationError));
    assert_eq!(short, [0u8; 9]);
    let mut exact = [0u8; 10];
    assert!(GOOD.encrypt(&1, &2, 0, &input, &mut exact).is_ok());
    let mut back = [0u8; 10];
    assert!(GOOD.decrypt(&1, &2, 0, &exact, &mut back).is_ok());
    assert_eq!(back, input);
    let mut longer = [0u8; 11];
    assert!(GOOD.encrypt(&1, &2, 0, &input, &mut longer).is_ok());
    assert_eq!(&longer[..10], &exact[..]);
    assert_eq!(longer[10], 0);
    let mut empty_out: [u8; 0] = [];
    assert!(GOOD.decrypt(&1, &2, 0, &input, &mut empty_out).is_err());
}

#[test]
fn max_counter_one_block_ok_two_blocks_err() {
    let mut out = [0u8; 128];
    assert!(GOOD.encrypt(&0, &0, u32::MAX, &[0u8; 64], &mut out).is_ok());
    assert!(GOOD.decrypt(&0, &0, u32::MAX, &[0u8; 64], &mut out).is_ok());
    assert!(GOOD.encrypt(&0, &0, u32::MAX, &[0u8; 65], &mut out).is_err());
    assert!(GOOD.decrypt(&0, &0, u32::MAX, &[0u8; 65], &mut out).is_err());
}
