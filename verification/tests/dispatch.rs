//! Scenario tests for the batch dispatcher: one host state per test, with
//! scripted sub-call behaviours, checked against exact gas figures, call
//! traces, logs and results.

use batch_precompile::Action;
use batch_precompile::Address;
use batch_precompile::BatchInput;
use batch_precompile::BatchPrecompile;
use batch_precompile::CostSchedule;
use batch_precompile::ExitErrorKind;
use batch_precompile::Host;
use batch_precompile::LOG_SUBCALL_FAILED;
use batch_precompile::LOG_SUBCALL_SUCCEEDED;
use batch_precompile::PrecompileResult;
use batch_precompile::SubcallBehavior;
use batch_precompile::SubcallExit;
use batch_precompile::Word256;

// A realistic cost schedule: 10 for a storage read, 700 for a call plus
// 9000 on a value transfer, and 375 + 375 + 8 * 32 = 1006 for each
// one-topic log with a 32-byte data word.
fn schedule() -> CostSchedule {
    CostSchedule {
        db_read: 10,
        call_base: 700,
        call_value_transfer: 9000,
        log_base: 375,
        log_topic: 375,
        log_data_byte: 8,
    }
}

fn addr(b: u8) -> Address {
    Address::repeat_byte(b)
}

fn fresh_host(gas: u64, script: Vec<SubcallBehavior>) -> Host {
    Host::new(gas, addr(0xAA), Address::from_low_u64_be(1), Vec::new(), schedule(), script)
}

fn behavior(exit: SubcallExit, output: Vec<u8>, gas_used: u64) -> SubcallBehavior {
    SubcallBehavior { exit, output, gas_used }
}

fn input(
    addresses: Vec<Address>,
    values: Vec<Word256>,
    payloads: Vec<Vec<u8>>,
    gas_limits: Vec<u64>,
) -> BatchInput {
    BatchInput::try_new(addresses, values, payloads, gas_limits).unwrap()
}

fn index_word(i: u8) -> Vec<u8> {
    let mut w = vec![0u8; 32];
    w[31] = i;
    w
}

#[test]
fn empty_batch_succeeds_and_charges_only_the_storage_read() {
    for action in [Action::BatchSome, Action::BatchSomeUntilFailure, Action::BatchAll] {
        let mut host = fresh_host(5000, vec![]);
        let inp = input(vec![], vec![], vec![], vec![]);
        let r = BatchPrecompile::batch(&mut host, action, &inp);
        assert_eq!(r, PrecompileResult::Succeed(vec![]));
        assert_eq!(host.remaining_gas(), 4990);
        assert_eq!(host.calls.len(), 0);
        assert_eq!(host.logs.len(), 0);
    }
}

#[test]
fn ineligible_caller_reverts_before_any_subcall() {
    // The caller's stored code is non-empty and not the recognized marker.
    let mut host = Host::new(
        100_000,
        addr(0xAA),
        Address::from_low_u64_be(1),
        vec![0x60, 0x01],
        schedule(),
        vec![behavior(SubcallExit::Succeed, vec![], 0)],
    );
    let inp = input(vec![addr(0x11)], vec![], vec![], vec![]);
    let r = BatchPrecompile::batch(&mut host, Action::BatchAll, &inp);
    assert_eq!(
        r,
        PrecompileResult::Revert(b"Batch not callable by smart contracts".to_vec())
    );
    assert_eq!(host.calls.len(), 0);
    assert_eq!(host.logs.len(), 0);
    assert_eq!(host.remaining_gas(), 99_990);
}

#[test]
fn caller_with_recognized_marker_code_is_allowed() {
    let mut host = Host::new(
        100_000,
        addr(0xAA),
        Address::from_low_u64_be(1),
        vec![0x60, 0x00, 0x60, 0x00, 0xfd],
        schedule(),
        vec![behavior(SubcallExit::Succeed, vec![], 50)],
    );
    let inp = input(vec![addr(0x11)], vec![], vec![], vec![]);
    let r = BatchPrecompile::batch(&mut host, Action::BatchAll, &inp);
    assert_eq!(r, PrecompileResult::Succeed(vec![]));
    assert_eq!(host.calls.len(), 1);
}

#[test]
fn some_continues_after_limited_subcall_fails() {
    // addresses = [X, Y], values = [0, 0], data = [empty, empty],
    // gas_limits = [1, 0]: the sub-call to X gets only 1 gas and errors
    // out; the loop continues and Y runs with all remaining eligible gas.
    let mut host = fresh_host(
        100_000,
        vec![
            behavior(SubcallExit::Error(ExitErrorKind::OutOfGas), vec![], 1),
            behavior(SubcallExit::Succeed, vec![], 500),
        ],
    );
    let inp = input(
        vec![addr(0x11), addr(0x22)],
        vec![Word256::zero(), Word256::zero()],
        vec![vec![], vec![]],
        vec![1, 0],
    );
    let r = BatchPrecompile::batch(&mut host, Action::BatchSome, &inp);
    assert_eq!(r, PrecompileResult::Succeed(vec![]));

    assert_eq!(host.calls.len(), 2);
    assert_eq!(host.calls[0].target, addr(0x11));
    assert_eq!(host.calls[0].gas_limit, 1);
    assert!(!host.calls[0].with_transfer);
    assert_eq!(host.calls[1].target, addr(0x22));
    // After the prelude (10) the first iteration uses 1 (sub-call) plus
    // 1006 (failure log); the second forwards 98_983 - 1006 - 700.
    assert_eq!(host.calls[1].gas_limit, 97_277);

    assert_eq!(host.logs.len(), 2);
    assert_eq!(host.logs[0].topic, LOG_SUBCALL_FAILED);
    assert_eq!(host.logs[0].data, index_word(0));
    assert_eq!(host.logs[1].topic, LOG_SUBCALL_SUCCEEDED);
    assert_eq!(host.logs[1].data, index_word(1));

    // 100_000 - 10 - 1 - 1006 - 500 - 1006
    assert_eq!(host.remaining_gas(), 97_477);
}

#[test]
fn all_stops_at_the_first_revert_and_surfaces_its_payload() {
    let mut host = fresh_host(
        100_000,
        vec![
            behavior(SubcallExit::Succeed, vec![], 100),
            behavior(SubcallExit::Revert, b"boom".to_vec(), 200),
            behavior(SubcallExit::Succeed, vec![], 100),
        ],
    );
    let inp = input(
        vec![addr(0x11), addr(0x22), addr(0x33)],
        vec![],
        vec![],
        vec![],
    );
    let r = BatchPrecompile::batch(&mut host, Action::BatchAll, &inp);
    assert_eq!(r, PrecompileResult::Revert(b"boom".to_vec()));
    // No call and no log for the position after the revert.
    assert_eq!(host.calls.len(), 2);
    assert_eq!(host.logs.len(), 2);
    assert_eq!(host.logs[0].topic, LOG_SUBCALL_SUCCEEDED);
    assert_eq!(host.logs[0].data, index_word(0));
    assert_eq!(host.logs[1].topic, LOG_SUBCALL_FAILED);
    assert_eq!(host.logs[1].data, index_word(1));
    // 100_000 - 10 - 100 - 1006 - 200 - 1006
    assert_eq!(host.remaining_gas(), 97_678);
}

#[test]
fn all_stops_at_the_first_error_and_surfaces_its_kind() {
    let mut host = fresh_host(
        100_000,
        vec![behavior(SubcallExit::Error(ExitErrorKind::OutOfFund), vec![], 0)],
    );
    let inp = input(vec![addr(0x11), addr(0x22)], vec![], vec![], vec![]);
    let r = BatchPrecompile::batch(&mut host, Action::BatchAll, &inp);
    assert_eq!(r, PrecompileResult::Error(ExitErrorKind::OutOfFund));
    assert_eq!(host.calls.len(), 1);
    assert_eq!(host.logs.len(), 1);
    assert_eq!(host.logs[0].topic, LOG_SUBCALL_FAILED);

    // An error kind the dispatcher does not know is forwarded verbatim.
    let mut host = fresh_host(
        100_000,
        vec![behavior(SubcallExit::Error(ExitErrorKind::Other), vec![], 0)],
    );
    let inp = input(vec![addr(0x11)], vec![], vec![], vec![]);
    let r = BatchPrecompile::batch(&mut host, Action::BatchAll, &inp);
    assert_eq!(r, PrecompileResult::Error(ExitErrorKind::Other));
}

#[test]
fn some_until_failure_stops_but_reports_success() {
    let mut host = fresh_host(
        100_000,
        vec![
            behavior(SubcallExit::Succeed, vec![], 100),
            behavior(SubcallExit::Revert, b"boom".to_vec(), 200),
            behavior(SubcallExit::Succeed, vec![], 100),
        ],
    );
    let inp = input(
        vec![addr(0x11), addr(0x22), addr(0x33)],
        vec![],
        vec![],
        vec![],
    );
    let r = BatchPrecompile::batch(&mut host, Action::BatchSomeUntilFailure, &inp);
    assert_eq!(r, PrecompileResult::Succeed(vec![]));
    assert_eq!(host.calls.len(), 2);
    assert_eq!(host.logs.len(), 2);
    assert_eq!(host.remaining_gas(), 97_678);
}

#[test]
fn some_executes_the_position_after_a_revert() {
    let mut host = fresh_host(
        100_000,
        vec![
            behavior(SubcallExit::Revert, vec![], 100),
            behavior(SubcallExit::Succeed, vec![], 100),
        ],
    );
    let inp = input(vec![addr(0x11), addr(0x22)], vec![], vec![], vec![]);
    let r = BatchPrecompile::batch(&mut host, Action::BatchSome, &inp);
    assert_eq!(r, PrecompileResult::Succeed(vec![]));
    assert_eq!(host.calls.len(), 2);
    assert_eq!(host.logs.len(), 2);
    assert_eq!(host.logs[0].topic, LOG_SUBCALL_FAILED);
    assert_eq!(host.logs[0].data, index_word(0));
    assert_eq!(host.logs[1].topic, LOG_SUBCALL_SUCCEEDED);
    assert_eq!(host.logs[1].data, index_word(1));
    // 100_000 - 10 - 100 - 1006 - 100 - 1006
    assert_eq!(host.remaining_gas(), 97_778);
}

#[test]
fn fatal_aborts_under_every_policy_with_no_log() {
    for action in [Action::BatchSome, Action::BatchSomeUntilFailure, Action::BatchAll] {
        let mut host = fresh_host(
            100_000,
            vec![behavior(SubcallExit::Fatal(ExitErrorKind::CallTooDeep), vec![], 50)],
        );
        let inp = input(vec![addr(0x11), addr(0x22)], vec![], vec![], vec![]);
        let r = BatchPrecompile::batch(&mut host, action, &inp);
        assert_eq!(r, PrecompileResult::Fatal(ExitErrorKind::CallTooDeep));
        assert_eq!(host.calls.len(), 1);
        assert_eq!(host.logs.len(), 0);
        assert_eq!(host.remaining_gas(), 99_940);
    }
}

#[test]
fn value_transfer_attaches_only_for_nonzero_values_and_costs_more() {
    let mut host = fresh_host(100_000, vec![behavior(SubcallExit::Succeed, vec![], 0)]);
    let inp = input(vec![addr(0x11)], vec![Word256::from_u64(3)], vec![], vec![]);
    let r = BatchPrecompile::batch(&mut host, Action::BatchAll, &inp);
    assert_eq!(r, PrecompileResult::Succeed(vec![]));
    assert_eq!(host.calls.len(), 1);
    assert!(host.calls[0].with_transfer);
    assert_eq!(host.calls[0].value, Word256::from_u64(3));
    // 100_000 - 10 - 1006 - (700 + 9000) forwarded to the sub-call.
    assert_eq!(host.calls[0].gas_limit, 89_284);
}

#[test]
fn insufficient_gas_for_the_trailing_log_ends_or_errors_by_policy() {
    // After the storage read, 500 gas remains: below the 1006 log cost.
    let inp = input(vec![addr(0x11)], vec![], vec![], vec![]);

    let mut host = fresh_host(510, vec![]);
    let r = BatchPrecompile::batch(&mut host, Action::BatchAll, &inp);
    assert_eq!(r, PrecompileResult::Error(ExitErrorKind::OutOfGas));
    assert_eq!(host.remaining_gas(), 500);
    assert_eq!(host.logs.len(), 0);
    assert_eq!(host.calls.len(), 0);

    for action in [Action::BatchSome, Action::BatchSomeUntilFailure] {
        let mut host = fresh_host(510, vec![]);
        let r = BatchPrecompile::batch(&mut host, action, &inp);
        assert_eq!(r, PrecompileResult::Succeed(vec![]));
        assert_eq!(host.remaining_gas(), 500);
        assert_eq!(host.logs.len(), 0);
        assert_eq!(host.calls.len(), 0);
    }
}

#[test]
fn unaffordable_intrinsic_cost_logs_a_failure_and_follows_policy() {
    // After the storage read, 1506 gas remains: the 1006 log reservation
    // leaves 500, below the 700 intrinsic call cost.
    let inp = input(vec![addr(0x11)], vec![], vec![], vec![]);

    let mut host = fresh_host(1516, vec![]);
    let r = BatchPrecompile::batch(&mut host, Action::BatchSome, &inp);
    assert_eq!(r, PrecompileResult::Succeed(vec![]));
    assert_eq!(host.calls.len(), 0);
    assert_eq!(host.logs.len(), 1);
    assert_eq!(host.logs[0].topic, LOG_SUBCALL_FAILED);
    assert_eq!(host.logs[0].data, index_word(0));
    assert_eq!(host.remaining_gas(), 500);

    let mut host = fresh_host(1516, vec![]);
    let r = BatchPrecompile::batch(&mut host, Action::BatchAll, &inp);
    assert_eq!(r, PrecompileResult::Error(ExitErrorKind::OutOfGas));
    assert_eq!(host.calls.len(), 0);
    assert_eq!(host.logs.len(), 1);
}

#[test]
fn unmeetable_explicit_gas_limit_is_a_failure_not_a_clamp() {
    // 98_284 gas is available for the sub-call; a limit one above it
    // cannot be honored.
    let inp = input(vec![addr(0x11)], vec![], vec![], vec![98_285]);
    let mut host = fresh_host(100_000, vec![behavior(SubcallExit::Succeed, vec![], 0)]);
    let r = BatchPrecompile::batch(&mut host, Action::BatchSomeUntilFailure, &inp);
    assert_eq!(r, PrecompileResult::Succeed(vec![]));
    assert_eq!(host.calls.len(), 0);
    assert_eq!(host.logs.len(), 1);
    assert_eq!(host.logs[0].topic, LOG_SUBCALL_FAILED);
    assert_eq!(host.remaining_gas(), 98_984);

    // One below the bound is honored exactly.
    let inp = input(vec![addr(0x11)], vec![], vec![], vec![98_284]);
    let mut host = fresh_host(100_000, vec![behavior(SubcallExit::Succeed, vec![], 0)]);
    let r = BatchPrecompile::batch(&mut host, Action::BatchSomeUntilFailure, &inp);
    assert_eq!(r, PrecompileResult::Succeed(vec![]));
    assert_eq!(host.calls.len(), 1);
    assert_eq!(host.calls[0].gas_limit, 98_284);
}

#[test]
fn short_sequences_behave_like_explicit_defaults() {
    let script = || {
        vec![
            behavior(SubcallExit::Succeed, vec![], 100),
            behavior(SubcallExit::Succeed, vec![], 100),
        ]
    };
    // Values, payloads and gas limits shorter than the address list.
    let short = input(
        vec![addr(0x11), addr(0x22)],
        vec![Word256::from_u64(5)],
        vec![],
        vec![],
    );
    // The same input with the defaults written out.
    let explicit = input(
        vec![addr(0x11), addr(0x22)],
        vec![Word256::from_u64(5), Word256::zero()],
        vec![vec![], vec![]],
        vec![0, 0],
    );

    let mut h1 = fresh_host(100_000, script());
    let r1 = BatchPrecompile::batch(&mut h1, Action::BatchAll, &short);
    let mut h2 = fresh_host(100_000, script());
    let r2 = BatchPrecompile::batch(&mut h2, Action::BatchAll, &explicit);

    assert_eq!(r1, r2);
    assert_eq!(h1.calls, h2.calls);
    assert_eq!(h1.logs, h2.logs);
    assert_eq!(h1.remaining_gas(), h2.remaining_gas());
    assert_eq!(h1.calls.len(), 2);
    assert!(h1.calls[0].with_transfer);
    assert!(!h1.calls[1].with_transfer);
    assert_eq!(h1.calls[1].payload, Vec::<u8>::new());
}

#[test]
fn zero_gas_limit_forwards_all_remaining_gas() {
    let script = || vec![behavior(SubcallExit::Succeed, vec![], 100)];
    let with_zero = input(vec![addr(0x11)], vec![], vec![], vec![0]);
    let without = input(vec![addr(0x11)], vec![], vec![], vec![]);

    let mut h1 = fresh_host(100_000, script());
    let r1 = BatchPrecompile::batch(&mut h1, Action::BatchAll, &with_zero);
    let mut h2 = fresh_host(100_000, script());
    let r2 = BatchPrecompile::batch(&mut h2, Action::BatchAll, &without);

    assert_eq!(r1, r2);
    assert_eq!(h1.calls, h2.calls);
    // 100_000 - 10 - 1006 - 700 available: all of it is forwarded.
    assert_eq!(h1.calls[0].gas_limit, 98_284);
}

#[test]
fn unpayable_log_cost_reverts_before_the_loop() {
    let mut sched = schedule();
    sched.log_data_byte = u64::MAX;
    let mut host = Host::new(
        100_000,
        addr(0xAA),
        Address::from_low_u64_be(1),
        Vec::new(),
        sched,
        vec![],
    );
    let inp = input(vec![addr(0x11)], vec![], vec![], vec![]);
    let r = BatchPrecompile::batch(&mut host, Action::BatchAll, &inp);
    assert_eq!(r, PrecompileResult::Revert(b"Failed to compute log cost".to_vec()));
    assert_eq!(host.remaining_gas(), 99_990);
    assert_eq!(host.calls.len(), 0);
}
