use collatz_dispatch::codec::{decode_results, encode_input};
use collatz_dispatch::collatz::{collatz_step_count, evaluate_sequence, OVERFLOW_SENTINEL};
use collatz_dispatch::engine::{
    plan_dispatch, sync_outcome, CompletionSignal, ComputeError, DispatchPlan, LaunchDecision,
};
use collatz_dispatch::render::{render_steps_line, render_value};

#[test]
fn known_step_counts() {
    assert_eq!(collatz_step_count(1), 0);
    assert_eq!(collatz_step_count(2), 1);
    assert_eq!(collatz_step_count(6), 8);
    assert_eq!(collatz_step_count(27), 111);
}

#[test]
fn known_sequences() {
    assert_eq!(evaluate_sequence(&vec![1]), vec![0]);
    assert_eq!(evaluate_sequence(&vec![2]), vec![1]);
    assert_eq!(evaluate_sequence(&vec![6]), vec![8]);
    assert_eq!(evaluate_sequence(&vec![27]), vec![111]);
    assert_eq!(evaluate_sequence(&vec![1, 2, 6, 27]), vec![0, 1, 8, 111]);
}

#[test]
fn result_length_matches_input_length() {
    let input = vec![76324, 4243, 312, 2956453];
    let result = evaluate_sequence(&input);
    assert_eq!(result.len(), input.len());
}

#[test]
fn dispatch_is_deterministic() {
    let input = vec![76324, 4243, 312, 2956453, 27, 1];
    let first = evaluate_sequence(&input);
    let second = evaluate_sequence(&input);
    assert_eq!(first, second);
}

#[test]
fn permuted_input_permutes_output() {
    let input = vec![6u32, 27, 2, 97];
    let result = evaluate_sequence(&input);
    let perm = [2usize, 0, 3, 1];
    let permuted_input: Vec<u32> = perm.iter().map(|&i| input[i]).collect();
    let permuted_result = evaluate_sequence(&permuted_input);
    for (k, &i) in perm.iter().enumerate() {
        assert_eq!(permuted_result[k], result[i]);
    }
}

#[test]
fn overflowing_value_yields_sentinel() {
    // The largest value is odd and above (u32::MAX - 1) / 3, so the very
    // first step would overflow.
    assert_eq!(collatz_step_count(u32::MAX), OVERFLOW_SENTINEL);
    // 2863311530 halves to 1431655765, which is odd and one above the
    // guard, so the second step would overflow; a wrapped count would
    // differ.
    assert_eq!(collatz_step_count(2863311530), OVERFLOW_SENTINEL);
    assert_eq!(
        evaluate_sequence(&vec![27, 2863311530]),
        vec![111, OVERFLOW_SENTINEL]
    );
}

#[test]
fn empty_input_yields_empty_result() {
    // The documented policy: zero-length input produces an empty result
    // and no device launch is planned.
    assert_eq!(evaluate_sequence(&vec![]), Vec::<u32>::new());
    assert_eq!(plan_dispatch(0), Ok(LaunchDecision::SkipEmpty));
}

#[test]
fn plan_has_one_group_per_element_and_four_bytes_each() {
    assert_eq!(
        plan_dispatch(4),
        Ok(LaunchDecision::Launch(DispatchPlan {
            element_count: 4,
            buffer_size: 16,
            workgroup_count: 4,
        }))
    );
}

#[test]
fn oversized_batch_is_an_allocation_error() {
    let too_many = (u32::MAX as usize) + 1;
    assert_eq!(plan_dispatch(too_many), Err(ComputeError::AllocationError));
}

#[test]
fn encoding_is_little_endian() {
    let bytes = encode_input(&vec![1, 0x01020304]);
    assert_eq!(bytes, vec![1, 0, 0, 0, 4, 3, 2, 1]);
}

#[test]
fn decoding_reads_little_endian_words() {
    let words = decode_results(&vec![1, 0, 0, 0, 4, 3, 2, 1]);
    assert_eq!(words, vec![1, 0x01020304]);
}

#[test]
fn codec_round_trip() {
    let values = vec![0, 1, 27, 0xdeadbeef, u32::MAX];
    assert_eq!(decode_results(&encode_input(&values)), values);
}

#[test]
fn completion_signal_resolves_once_with_its_outcome() {
    let mut signal = CompletionSignal::new();
    assert_eq!(signal.status(), None);
    assert_eq!(sync_outcome(&signal), Err(ComputeError::SyncTimeout));
    signal.resolve(true);
    assert_eq!(signal.status(), Some(true));
    assert_eq!(sync_outcome(&signal), Ok(()));
}

#[test]
fn failed_mapping_is_reported() {
    let mut signal = CompletionSignal::new();
    signal.resolve(false);
    assert_eq!(sync_outcome(&signal), Err(ComputeError::MapFailed));
}

#[test]
fn rendering_distinguishes_sentinel_from_counts() {
    assert_eq!(render_value(OVERFLOW_SENTINEL), "OVERFLOW");
    assert_eq!(render_value(0), "0");
    assert_eq!(render_value(111), "111");
    assert_eq!(render_value(4294967294), "4294967294");
}

#[test]
fn rendering_joins_results_into_one_line() {
    assert_eq!(render_steps_line(&vec![]), "Steps: []");
    assert_eq!(render_steps_line(&vec![8]), "Steps: [8]");
    assert_eq!(
        render_steps_line(&vec![0, 1, 8, OVERFLOW_SENTINEL]),
        "Steps: [0, 1, 8, OVERFLOW]"
    );
}
