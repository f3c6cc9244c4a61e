use chamap::cha::{decrypter, encrypter, Key, IV};
use chamap::endpoint::{raw_file_size, try_map_to, Endpoint};
use chamap::mapped::{
    map_size_or, try_create_process, try_map_sized, try_process, OpTable, PlanKind,
    ProcessErrorKind,
};

const MIB: usize = 1024 * 1024;

fn test_key() -> Key {
    Key::from_bytes(&[0x42; 32])
}

fn test_iv() -> IV {
    IV::from_bytes(&[0x24; 12])
}

fn pattern(n: usize) -> Vec<u8> {
    (0..n).map(|i| (i % 251) as u8).collect()
}

fn encrypt_via(input: Endpoint, output: Endpoint, expect_kind: PlanKind) -> (usize, Vec<u8>) {
    let plan = try_create_process(input, output, false).expect("plan");
    assert_eq!(plan.kind(), expect_kind);
    let mut cipher = encrypter(&test_key(), &test_iv()).expect("encrypter");
    let outcome = plan.execute(&mut cipher).expect("execute");
    (outcome.processed, outcome.output.data)
}

fn decrypt_stream(data: &[u8]) -> Vec<u8> {
    let input = Endpoint::pipe(data.to_vec());
    let output = Endpoint::pipe(Vec::new());
    let plan = try_create_process(input, output, false).expect("plan");
    assert_eq!(plan.kind(), PlanKind::Neither);
    let mut cipher = decrypter(&test_key(), &test_iv()).expect("decrypter");
    let outcome = plan.execute(&mut cipher).expect("execute");
    outcome.output.data
}

#[test]
fn file_to_empty_file_resolves_to_both() {
    // A regular file of 10 bytes into a regular file of 0 bytes: the output
    // grows to 10 bytes and both sides map.
    let data = pattern(10);
    let input = Endpoint::regular_file(data.clone());
    let output = Endpoint::regular_file(Vec::new());
    let (processed, written) = encrypt_via(input, output, PlanKind::Both);
    assert_eq!(processed, 10);
    assert_eq!(written.len(), 10);
    assert_eq!(decrypt_stream(&written), data);
}

#[test]
fn pipe_to_sized_file_resolves_to_output_mapped() {
    // A pipe feeding 500 000 bytes into a regular file whose probed size
    // covers them: the transfer goes through the temporary region into the
    // mapped output, and exactly 500 000 bytes come out.
    let data = pattern(500_000);
    let input = Endpoint::pipe(data.clone());
    let output = Endpoint::regular_file(vec![0u8; 500_000]);
    let (processed, written) = encrypt_via(input, output, PlanKind::Output);
    assert_eq!(processed, 500_000);
    assert_eq!(written.len(), 500_000);
    assert_eq!(decrypt_stream(&written), data);
}

#[test]
fn pipe_to_pipe_resolves_to_neither() {
    // Both ends are pipes: the chunked loop streams everything and stops
    // cleanly at end of input.
    let data = pattern(2 * MIB + MIB / 2);
    let input = Endpoint::pipe(data.clone());
    let output = Endpoint::pipe(Vec::new());
    let (processed, written) = encrypt_via(input, output, PlanKind::Neither);
    assert_eq!(processed, data.len());
    assert_eq!(written.len(), data.len());
    assert_eq!(decrypt_stream(&written), data);
}

#[test]
fn file_to_pipe_resolves_to_input_mapped() {
    // The input maps; the pipe output cannot. The size crosses the huge-page
    // threshold, so the temporary region walks the huge-page path and falls
    // back quietly where the system offers none.
    let data = pattern(MIB + 1);
    let input = Endpoint::regular_file(data.clone());
    let output = Endpoint::pipe(Vec::new());
    let (processed, written) = encrypt_via(input, output, PlanKind::Input);
    assert_eq!(processed, MIB + 1);
    assert_eq!(written.len(), MIB + 1);
    assert_eq!(decrypt_stream(&written), data);
}

#[test]
fn zero_length_input_is_a_both_no_op() {
    let input = Endpoint::regular_file(Vec::new());
    let output = Endpoint::regular_file(Vec::new());
    let (processed, written) = encrypt_via(input, output, PlanKind::Both);
    assert_eq!(processed, 0);
    assert_eq!(written.len(), 0);
}

#[test]
fn zero_length_input_to_pipe_relays_nothing() {
    // The input maps at length zero; the temporary relay region is the
    // degenerate zero-length one, and nothing flows.
    let input = Endpoint::regular_file(Vec::new());
    let output = Endpoint::pipe(Vec::new());
    let (processed, written) = encrypt_via(input, output, PlanKind::Input);
    assert_eq!(processed, 0);
    assert_eq!(written.len(), 0);
}

#[test]
fn strategies_agree_on_equivalent_endpoints() {
    // The whole-buffer strategy and the chunked strategy produce
    // byte-identical output over the same input and cipher state.
    let data = pattern(100_000);

    let input = Endpoint::regular_file(data.clone());
    let output = Endpoint::regular_file(Vec::new());
    let (_, via_both) = encrypt_via(input, output, PlanKind::Both);

    let input = Endpoint::pipe(data.clone());
    let output = Endpoint::pipe(Vec::new());
    let (_, via_neither) = encrypt_via(input, output, PlanKind::Neither);

    assert_eq!(via_both, via_neither);
}

#[test]
fn round_trip_at_chunk_boundaries() {
    for n in [0usize, MIB - 1, MIB, MIB + 1] {
        let data = pattern(n);
        let input = Endpoint::pipe(data.clone());
        let output = Endpoint::pipe(Vec::new());
        let (processed, written) = encrypt_via(input, output, PlanKind::Neither);
        assert_eq!(processed, n);
        assert_eq!(decrypt_stream(&written), data, "length {}", n);
    }
}

#[test]
fn longer_output_keeps_its_tail() {
    // A pre-existing output longer than the input: the transform lands at
    // the front, the tail stays.
    let data = pattern(10);
    let input = Endpoint::regular_file(data.clone());
    let output = Endpoint::regular_file(vec![0xFF; 20]);
    let (processed, written) = encrypt_via(input, output, PlanKind::Both);
    assert_eq!(processed, 10);
    assert_eq!(written.len(), 20);
    assert_eq!(decrypt_stream(&written[..10]), data);
    assert!(written[10..].iter().all(|&b| b == 0xFF));
}

#[test]
fn try_process_transforms_the_whole_input() {
    let data = pattern(1000);
    let input = Endpoint::regular_file(data.clone());
    let output = Endpoint::regular_file(Vec::new());
    let mut cipher = encrypter(&test_key(), &test_iv()).expect("encrypter");
    let outcome = try_process(&mut cipher, input, output, false).expect("process");
    assert_eq!(outcome.processed, 1000);
    assert_eq!(decrypt_stream(&outcome.output.data), data);
}

#[test]
fn plan_selection_is_idempotent() {
    let make = || {
        (
            Endpoint::regular_file(pattern(100)),
            Endpoint::new(vec![0u8; 10], true, true, true, false),
        )
    };
    let (i1, o1) = make();
    let (i2, o2) = make();
    let k1 = try_create_process(i1, o1, false).expect("plan").kind();
    let k2 = try_create_process(i2, o2, false).expect("plan").kind();
    assert_eq!(k1, k2);
}

#[test]
fn reopen_opt_in_upgrades_write_only_output() {
    // A write-only regular file cannot take a shared read-write mapping
    // unless descriptor re-opening is allowed.
    let make = || {
        (
            Endpoint::regular_file(pattern(100)),
            Endpoint::new(Vec::new(), true, true, true, false),
        )
    };
    let (i1, o1) = make();
    let without = try_create_process(i1, o1, false).expect("plan").kind();
    assert_eq!(without, PlanKind::Input);

    let (i2, o2) = make();
    let with = try_create_process(i2, o2, true).expect("plan").kind();
    assert_eq!(with, PlanKind::Both);
}

#[test]
fn failed_mapping_attempts_hand_the_endpoint_back() {
    // A loop of failed attempts never loses or corrupts the endpoint: every
    // failure returns it whole, so there is exactly one owner throughout.
    let data = pattern(64);
    let mut e = Endpoint::pipe(data.clone());
    for _ in 0..100 {
        e = match try_map_sized(e) {
            Ok(_) => panic!("a pipe must not map"),
            Err(back) => back,
        };
    }
    assert_eq!(e.data, data);

    for _ in 0..100 {
        e = match map_size_or(e, 128, false) {
            Ok(_) => panic!("a pipe must not map"),
            Err(back) => back,
        };
    }
    assert_eq!(e.data, data);
    assert_eq!(e.pos, 0);
}

#[test]
fn ensure_length_on_pipe_fails_without_side_effects() {
    let mut e = Endpoint::pipe(vec![1, 2, 3]);
    assert!(!try_map_to(&mut e, 10));
    assert_eq!(e.data, vec![1, 2, 3]);
    assert_eq!(raw_file_size(&e), None);
}

#[test]
fn ensure_length_grows_a_file_with_zeros() {
    let mut e = Endpoint::regular_file(vec![9, 9]);
    assert!(try_map_to(&mut e, 5));
    assert_eq!(e.data, vec![9, 9, 0, 0, 0]);

    // Already long enough: untouched.
    assert!(try_map_to(&mut e, 3));
    assert_eq!(e.data, vec![9, 9, 0, 0, 0]);
}

#[test]
fn only_mapped_splits_off_the_streaming_pair() {
    let input = Endpoint::pipe(vec![1]);
    let output = Endpoint::pipe(Vec::new());
    let plan = try_create_process(input, output, false).expect("plan");
    match plan.only_mapped() {
        Ok(_) => panic!("a pipe pair is not mapped"),
        Err((a, b)) => {
            assert_eq!(a.data, vec![1]);
            assert_eq!(b.data.len(), 0);
        },
    }

    let input = Endpoint::regular_file(vec![1]);
    let output = Endpoint::regular_file(Vec::new());
    let plan = try_create_process(input, output, false).expect("plan");
    assert!(plan.only_mapped().is_ok());
}

#[test]
fn staging_overflow_is_reported() {
    // A pipe delivering more than the temporary region can take is a fatal
    // error for the run, reported rather than silently truncated.
    let input = Endpoint::pipe(pattern(10));
    let output = Endpoint::regular_file(vec![0u8; 5]);
    let plan = try_create_process(input, output, false).expect("plan");
    assert_eq!(plan.kind(), PlanKind::Output);
    let mut cipher = encrypter(&test_key(), &test_iv()).expect("encrypter");
    let err = plan.execute(&mut cipher).expect_err("must overflow");
    assert!(matches!(err.kind(), ProcessErrorKind::Unknown));
    assert!(err.into_context().is_none());
}

#[test]
fn process_error_context_accessors() {
    let mut err = chamap::mapped::ProcessError::unknown();
    assert!(err.context().is_none());
    assert!(err.context_mut().is_none());
    assert!(matches!(err.kind(), ProcessErrorKind::Unknown));
    assert!(err.into_context().is_none());
}

#[test]
fn plan_never_fails_when_nothing_maps() {
    // The chunked fallback allocates nothing, so selecting it cannot fail.
    let input = Endpoint::new(Vec::new(), false, false, false, false);
    let output = Endpoint::new(Vec::new(), false, false, false, false);
    let plan = try_create_process(input, output, false).expect("the fallback cannot fail");
    assert_eq!(plan.kind(), PlanKind::Neither);
}
