use stream_conformance::errors::UnknownCryptoError;
use stream_conformance::checksum_context::{ChecksumContext, CHECKSUM_BLOCKSIZE};
use stream_conformance::stream_interface::{
    DefaultTestableStreamingContext, StreamingContextConsistencyTester,
};

fn tester() -> StreamingContextConsistencyTester<u64, ChecksumContext> {
    StreamingContextConsistencyTester::new(ChecksumContext::init(), 0u64, CHECKSUM_BLOCKSIZE)
}

fn finalized_after(chunks: &[&[u8]]) -> u64 {
    let mut state = ChecksumContext::init();
    for chunk in chunks {
        state.update(chunk).unwrap();
    }
    state.finalize().unwrap()
}

#[test]
fn checksum_context_passes_all_tests() {
    assert!(tester().run_all_tests());
}

#[test]
fn checksum_context_passes_all_tests_with_input() {
    let t = tester();
    assert!(t.run_all_tests_with_input(b"some input that spans more than one block"));
    assert!(t.run_all_tests_with_input(b""));
    let long = vec![7u8; 5 * CHECKSUM_BLOCKSIZE + 3];
    assert!(t.run_all_tests_with_input(&long));
}

#[test]
fn each_check_passes_on_checksum_context() {
    let t = tester();
    let data = b"Testing streaming context consistency and correctness";
    assert_eq!(t.consistency(data), Some(ChecksumContext::one_shot(data).unwrap()));
    assert_eq!(t.consistency(b""), Some(0));
    assert!(t.produces_same_state(data));
    assert!(t.incremental_processing_with_leftover(CHECKSUM_BLOCKSIZE));
    assert!(t.incremental_processing_with_leftover(1));
    assert!(t.incremental_processing_with_leftover(0));
    assert!(t.double_finalize_with_reset_no_update_ok(data));
    assert!(t.double_finalize_with_reset_ok(data));
    assert!(t.double_finalize_err(data));
    assert!(t.update_after_finalize_with_reset_ok(data));
    assert!(t.update_after_finalize_err(data));
    assert!(t.double_reset_ok(data));
}

#[test]
fn checksum_known_values() {
    // ((97 * 31) + 98) * 31 + 99
    assert_eq!(ChecksumContext::one_shot(b"abc"), Ok(96354));
    assert_eq!(ChecksumContext::one_shot(b""), Ok(0));
    assert_eq!(ChecksumContext::one_shot(&[255u8]), Ok(255));
    // Reduction modulo 2^32.
    let mut h: u64 = 0;
    let data = vec![200u8; 40];
    for b in &data {
        h = (h * 31 + *b as u64) % (1u64 << 32);
    }
    assert!(h >= 1 << 20);
    assert_eq!(ChecksumContext::one_shot(&data), Ok(h));
    assert_eq!(finalized_after(&[&data]), h);
}

#[test]
fn empty_input_sequences_agree() {
    let mut s1 = ChecksumContext::init();
    let r1 = s1.finalize().unwrap();

    let mut s2 = ChecksumContext::init();
    s2.reset().unwrap();
    let r2 = s2.finalize().unwrap();

    let mut s3 = ChecksumContext::init();
    s3.update(b"WRONG").unwrap();
    s3.reset().unwrap();
    let r3 = s3.finalize().unwrap();

    assert_eq!(r1, r2);
    assert_eq!(r2, r3);
    assert_eq!(r1, ChecksumContext::one_shot(b"").unwrap());
}

#[test]
fn block_boundary_chunks_match_one_shot() {
    let bs = CHECKSUM_BLOCKSIZE;
    for blocks in 0..4 {
        let data: Vec<u8> = (0..(blocks * bs + 3)).map(|i| (i * 7 + 1) as u8).collect();
        let mut state = ChecksumContext::init();
        let mut fed = 0;
        let mut step = 1;
        while fed < data.len() {
            let end = std::cmp::min(data.len(), fed + step);
            state.update(&data[fed..end]).unwrap();
            fed = end;
            step += bs - 1;
        }
        assert_eq!(state.finalize().unwrap(), ChecksumContext::one_shot(&data).unwrap());
    }
}

#[test]
fn any_partition_gives_one_shot_result() {
    let data: Vec<u8> = (0..50u8).collect();
    let expected = ChecksumContext::one_shot(&data).unwrap();
    assert_eq!(finalized_after(&[&data]), expected);
    assert_eq!(finalized_after(&[&data[..1], &data[1..]]), expected);
    assert_eq!(finalized_after(&[&data[..16], &data[16..32], &data[32..]]), expected);
    assert_eq!(finalized_after(&[&data[..0], &data[..15], &data[15..17], &[], &data[17..]]), expected);
    let singles: Vec<&[u8]> = data.chunks(1).collect();
    assert_eq!(finalized_after(&singles), expected);
    let sevens: Vec<&[u8]> = data.chunks(7).collect();
    assert_eq!(finalized_after(&sevens), expected);
}

#[test]
fn second_finalize_fails_until_reset() {
    let mut state = ChecksumContext::init();
    state.update(b"data").unwrap();
    let first = state.finalize().unwrap();
    assert_eq!(state.finalize(), Err(UnknownCryptoError::StateError));
    assert_eq!(state.finalize(), Err(UnknownCryptoError::StateError));
    state.reset().unwrap();
    state.update(b"data").unwrap();
    assert_eq!(state.finalize(), Ok(first));
}

#[test]
fn update_after_finalize_fails_and_changes_nothing() {
    let mut state = ChecksumContext::init();
    state.update(b"0123456789abcdefXYZ").unwrap();
    state.finalize().unwrap();
    let mut twin = ChecksumContext::init();
    twin.update(b"0123456789abcdefXYZ").unwrap();
    twin.finalize().unwrap();
    assert_eq!(state.update(b"more"), Err(UnknownCryptoError::StateError));
    assert!(ChecksumContext::compare_states(&state, &twin));
}

#[test]
fn reset_restores_initial_state() {
    let fresh = ChecksumContext::init();
    let mut a = ChecksumContext::init();
    a.update(&[1u8; 40]).unwrap();
    a.reset().unwrap();
    assert!(ChecksumContext::compare_states(&fresh, &a));
    let mut b = ChecksumContext::init();
    b.update(&[2u8; 3]).unwrap();
    b.finalize().unwrap();
    b.reset().unwrap();
    assert!(ChecksumContext::compare_states(&fresh, &b));
    assert!(b.reset().is_ok());
    assert!(ChecksumContext::compare_states(&fresh, &b));
}

#[test]
fn compare_states_tells_states_apart() {
    let fresh = ChecksumContext::init();
    let mut fed = ChecksumContext::init();
    fed.update(b"x").unwrap();
    assert!(!ChecksumContext::compare_states(&fresh, &fed));
    let mut done = ChecksumContext::init();
    done.finalize().unwrap();
    assert!(!ChecksumContext::compare_states(&fresh, &done));
}

#[test]
fn empty_update_changes_nothing() {
    let fresh = ChecksumContext::init();
    let mut a = ChecksumContext::init();
    a.update(b"").unwrap();
    assert!(ChecksumContext::compare_states(&fresh, &a));
    let mut b = ChecksumContext::init();
    b.update(&[3u8; 20]).unwrap();
    let mut c = ChecksumContext::init();
    c.update(&[3u8; 20]).unwrap();
    c.update(b"").unwrap();
    assert!(ChecksumContext::compare_states(&b, &c));
    assert_eq!(b.finalize(), c.finalize());
}
