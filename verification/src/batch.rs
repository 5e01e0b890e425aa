//! The executable batch dispatcher, proved to follow the model in
//! `model` exactly: same gas reservations, same logs, same sub-calls,
//! same result, for every host state and every policy.

use vstd::prelude::*;
use crate::types::Address;
use crate::types::CostSchedule;
use crate::types::ExitErrorKind;
use crate::types::Log;
use crate::types::PrecompileResult;
use crate::types::SubcallExit;
use crate::types::Word256;
use crate::types::call_cost;
use crate::types::clone_bytes;
use crate::host::Host;
use crate::encoding::be_bytes_of;
use crate::model::Action;
use crate::model::InputView;
use crate::model::ItemView;
use crate::model::StepOutcome;
use crate::model::LOG_SUBCALL_FAILED;
use crate::model::LOG_SUBCALL_SUCCEEDED;
use crate::model::NOT_CALLABLE_MESSAGE;
use crate::model::LOG_COST_OVERFLOW_MESSAGE;
use crate::model::RECOGNIZED_MARKER_CODE;
use crate::model::batch_spec;
use crate::model::eligible_caller;
use crate::model::fail_then_continue;
use crate::model::index_log_cost;
use crate::model::item_at;
use crate::model::run_from;
use crate::model::subcall_failed_log;
use crate::model::subcall_step;
use crate::model::subcall_succeeded_log;

verus! {

/// Upper bound on the length of each input sequence.
pub const ARRAY_LIMIT: u32 = 512;

/// Upper bound on the byte length of each call-data payload.
pub const CALL_DATA_LIMIT: u32 = 65536;

/// Builds the log recording that the sub-call at position `index`
/// succeeded: a single fixed topic and the position as one 32-byte
/// big-endian word.
pub fn log_subcall_succeeded(address: Address, index: usize) -> (l: Log)
    ensures
        l@ == subcall_succeeded_log(address, index as int),
{
    Log { address, topic: LOG_SUBCALL_SUCCEEDED, data: be_bytes_of(index, 32) }
}

/// Builds the log recording that the sub-call at position `index` failed.
pub fn log_subcall_failed(address: Address, index: usize) -> (l: Log)
    ensures
        l@ == subcall_failed_log(address, index as int),
{
    Log { address, topic: LOG_SUBCALL_FAILED, data: be_bytes_of(index, 32) }
}

/// Copies a fixed-size byte array into a vector.
fn bytes_of<const N: usize>(a: &[u8; N]) -> (r: Vec<u8>)
    ensures
        r@ == a@,
{
    let mut r: Vec<u8> = Vec::new();
    let mut j: usize = 0;
    while j < N
        invariant
            j <= N,
            r@ == a@.subrange(0, j as int),
        decreases N - j,
    {
        r.push(a[j]);
        proof {
            assert(r@ =~= a@.subrange(0, j + 1));
        }
        j = j + 1;
    }
    proof {
        assert(a@.subrange(0, N as int) =~= a@);
    }
    r
}

/// Whether `code` is exactly the recognized marker of the trusted
/// delegation precompile.
fn is_recognized_marker(code: &Vec<u8>) -> (r: bool)
    ensures
        r == (code@ == RECOGNIZED_MARKER_CODE@),
{
    if code.len() != 5 {
        return false;
    }
    let mut j: usize = 0;
    while j < 5
        invariant
            j <= 5,
            code@.len() == 5,
            forall|k: int| 0 <= k < j ==> code@[k] == RECOGNIZED_MARKER_CODE@[k],
        decreases 5 - j,
    {
        if code[j] != RECOGNIZED_MARKER_CODE[j] {
            return false;
        }
        j = j + 1;
    }
    proof {
        assert(code@ =~= RECOGNIZED_MARKER_CODE@);
    }
    true
}

/// Computes the intrinsic sub-call cost over 128-bit integers, where it
/// cannot overflow.
fn call_cost_u128(s: CostSchedule, value: &Word256) -> (r: u128)
    ensures
        r == call_cost(s, *value),
{
    if value.is_zero() {
        s.call_base as u128
    } else {
        s.call_base as u128 + s.call_value_transfer as u128
    }
}

/// The whole decoded input of one invocation: target addresses, values,
/// call-data payloads and gas limits, aligned by position.
pub struct BatchInput {
    pub addresses: Vec<Address>,
    pub values: Vec<Word256>,
    pub payloads: Vec<Vec<u8>>,
    pub gas_limits: Vec<u64>,
}

impl View for BatchInput {
    type V = InputView;

    open spec fn view(&self) -> InputView {
        InputView {
            addresses: self.addresses@,
            values: self.values@,
            payloads: self.payloads@.map_values(|p: Vec<u8>| p@),
            gas_limits: self.gas_limits@,
        }
    }
}

/// Whether a decoded input respects the boundary limits: at most
/// `ARRAY_LIMIT` entries per sequence and at most `CALL_DATA_LIMIT` bytes
/// per payload.
pub open spec fn within_limits(inp: InputView) -> bool {
    &&& inp.addresses.len() <= ARRAY_LIMIT
    &&& inp.values.len() <= ARRAY_LIMIT
    &&& inp.payloads.len() <= ARRAY_LIMIT
    &&& inp.gas_limits.len() <= ARRAY_LIMIT
    &&& forall|j: int| 0 <= j < inp.payloads.len() ==> #[trigger] inp.payloads[j].len() <= CALL_DATA_LIMIT
}

impl BatchInput {
    /// Accepts a decoded input if and only if it respects the boundary
    /// limits; inputs over the limits are rejected before any dispatch.
    pub fn try_new(
        addresses: Vec<Address>,
        values: Vec<Word256>,
        payloads: Vec<Vec<u8>>,
        gas_limits: Vec<u64>,
    ) -> (r: Option<BatchInput>)
        ensures
            (match r {
                Some(b) => b@ == (InputView {
                    addresses: addresses@,
                    values: values@,
                    payloads: payloads@.map_values(|p: Vec<u8>| p@),
                    gas_limits: gas_limits@,
                }) && within_limits(b@),
                None => !within_limits(InputView {
                    addresses: addresses@,
                    values: values@,
                    payloads: payloads@.map_values(|p: Vec<u8>| p@),
                    gas_limits: gas_limits@,
                }),
            }),
    {
        if addresses.len() > 512 || values.len() > 512 || payloads.len() > 512
            || gas_limits.len() > 512 {
            return None;
        }
        let mut j: usize = 0;
        while j < payloads.len()
            invariant
                j <= payloads.len(),
                forall|k: int| 0 <= k < j ==> #[trigger] payloads@[k]@.len() <= 65536,
            decreases payloads.len() - j,
        {
            if payloads[j].len() > 65536 {
                proof {
                    assert(payloads@.map_values(|p: Vec<u8>| p@)[j as int] == payloads@[
                        j as int
                    ]@);
                }
                return None;
            }
            j = j + 1;
        }
        proof {
            let ps = payloads@.map_values(|p: Vec<u8>| p@);
            assert(forall|k: int| 0 <= k < ps.len() ==> #[trigger] ps[k].len() <= 65536) by {
                assert(forall|k: int|
                    0 <= k < ps.len() ==> #[trigger] ps[k] == payloads@[k]@);
            }
        }
        Some(BatchInput { addresses, values, payloads, gas_limits })
    }
}

/// The batch dispatcher.
#[derive(Clone, Debug)]
pub struct BatchPrecompile;

impl BatchPrecompile {
    /// Runs one whole dispatch against `host`: charges the
    /// eligibility-check storage read, refuses callers whose stored code is
    /// neither empty nor the recognized marker, then attempts one sub-call
    /// per target address under the continuation policy `action`.  The
    /// host's final state and the result are exactly those of the model.
    pub fn batch(host: &mut Host, action: Action, input: &BatchInput) -> (r: PrecompileResult)
        ensures
            final(host)@ == batch_spec(old(host)@, action, input@).0,
            r@ == batch_spec(old(host)@, action, input@).1,
    {
        let db_read = host.schedule.db_read;
        if host.record_cost(db_read).is_err() {
            return PrecompileResult::Error(ExitErrorKind::OutOfGas);
        }
        let caller = host.caller();
        let code = host.account_code(caller);
        let eligible = code.len() == 0 || is_recognized_marker(&code);
        proof {
            assert(eligible == eligible_caller(host@.caller_code));
        }
        if !eligible {
            return PrecompileResult::Revert(bytes_of(&NOT_CALLABLE_MESSAGE));
        }
        // The per-position log cost never varies: both log shapes carry one
        // 32-byte topic and a 32-byte data word.
        let lcost128 = {
            let s = host.schedule;
            proof {
                vstd::arithmetic::mul::lemma_mul_upper_bound(
                    s.log_data_byte as int,
                    u64::MAX as int,
                    32,
                    32,
                );
            }
            s.log_base as u128 + s.log_topic as u128 + s.log_data_byte as u128 * 32
        };
        if lcost128 > u64::MAX as u128 {
            return PrecompileResult::Revert(bytes_of(&LOG_COST_OVERFLOW_MESSAGE));
        }
        let lcost = lcost128 as u64;

        let ghost v0 = host@;
        let n = input.addresses.len();
        let mut i: usize = 0;
        while i < n
            invariant
                i <= n,
                n == input@.addresses.len(),
                lcost as int == index_log_cost(host@.schedule),
                batch_spec(old(host)@, action, input@) == run_from(
                    host@,
                    action,
                    input@,
                    i as int,
                ),
            decreases n - i,
        {
            let ghost pre = host@;
            let outcome = Self::step(host, action, input, i, lcost);
            match outcome {
                Some(res) => {
                    proof {
                        assert(run_from(pre, action, input@, i as int) == (host@, res@));
                    }
                    return res;
                }
                None => {
                    proof {
                        assert(run_from(pre, action, input@, i as int) == run_from(
                            host@,
                            action,
                            input@,
                            i as int + 1,
                        ));
                    }
                    i = i + 1;
                }
            }
        }
        PrecompileResult::Succeed(Vec::new())
    }

    /// One position of the dispatch loop; `None` means "go on at the next
    /// position", `Some` finishes the whole dispatch with that result.
    fn step(
        host: &mut Host,
        action: Action,
        input: &BatchInput,
        i: usize,
        lcost: u64,
    ) -> (r: Option<PrecompileResult>)
        requires
            i < input@.addresses.len(),
            lcost as int == index_log_cost(old(host)@.schedule),
        ensures
            (match r {
                None => subcall_step(old(host)@, action, input@, i as int) == StepOutcome::Next(
                    final(host)@,
                ),
                Some(res) => subcall_step(old(host)@, action, input@, i as int)
                    == StepOutcome::Stop(final(host)@, res@),
            }),
    {
        let ghost pre = host@;
        let ghost item = item_at(input@, i as int);

        let target = input.addresses[i];
        let value = if i < input.values.len() {
            input.values[i]
        } else {
            Word256::zero()
        };
        let call_data = if i < input.payloads.len() {
            clone_bytes(&input.payloads[i])
        } else {
            Vec::new()
        };
        let gas_limit: Option<u64> = if i < input.gas_limits.len() {
            let g = input.gas_limits[i];
            if g != 0 {
                Some(g)
            } else {
                None
            }
        } else {
            None
        };
        proof {
            assert(item.target == target);
            assert(item.value == value);
            assert(item.payload == call_data@);
            assert(item.gas_limit == gas_limit);
        }

        // Reserve the trailing failure-log cost.
        let remaining = host.remaining_gas();
        if remaining < lcost {
            if action == Action::BatchAll {
                return Some(PrecompileResult::Error(ExitErrorKind::OutOfGas));
            } else {
                return Some(PrecompileResult::Succeed(Vec::new()));
            }
        }
        let reserved = remaining - lcost;

        // Reserve the intrinsic cost of the sub-call itself.
        let ccost128 = call_cost_u128(host.schedule, &value);
        if (reserved as u128) < ccost128 {
            return Self::fail_then_continue_exec(host, action, i);
        }
        let avail = reserved - (ccost128 as u64);

        // Honor an explicit gas limit: a ceiling that cannot be met is a
        // failure, not silently clamped.
        let stipend = match gas_limit {
            Some(l) => {
                if l > avail {
                    return Self::fail_then_continue_exec(host, action, i);
                }
                l
            }
            None => avail,
        };

        // Execute, with the caller's own identity and funds.
        let transfer = !value.is_zero();
        let (exit, output) = host.call(target, transfer, value, call_data, stipend);

        // Emit the outcome log and apply the continuation policy.
        match exit {
            SubcallExit::Fatal(k) => Some(PrecompileResult::Fatal(k)),
            SubcallExit::Revert => {
                let log = log_subcall_failed(host.code_address(), i);
                match host.emit_log(log) {
                    Err(_) => Some(PrecompileResult::Error(ExitErrorKind::OutOfGas)),
                    Ok(()) => {
                        if action == Action::BatchAll {
                            Some(PrecompileResult::Revert(output))
                        } else if action == Action::BatchSomeUntilFailure {
                            Some(PrecompileResult::Succeed(Vec::new()))
                        } else {
                            None
                        }
                    }
                }
            }
            SubcallExit::Error(k) => {
                let log = log_subcall_failed(host.code_address(), i);
                match host.emit_log(log) {
                    Err(_) => Some(PrecompileResult::Error(ExitErrorKind::OutOfGas)),
                    Ok(()) => {
                        if action == Action::BatchAll {
                            Some(PrecompileResult::Error(k))
                        } else if action == Action::BatchSomeUntilFailure {
                            Some(PrecompileResult::Succeed(Vec::new()))
                        } else {
                            None
                        }
                    }
                }
            }
            SubcallExit::Succeed => {
                let log = log_subcall_succeeded(host.code_address(), i);
                match host.emit_log(log) {
                    Err(_) => Some(PrecompileResult::Error(ExitErrorKind::OutOfGas)),
                    Ok(()) => None,
                }
            }
        }
    }

    /// Emits the failure log for a sub-call that could not be attempted,
    /// then applies the continuation policy.
    fn fail_then_continue_exec(host: &mut Host, action: Action, i: usize) -> (r: Option<
        PrecompileResult,
    >)
        ensures
            (match r {
                None => fail_then_continue(old(host)@, action, i as int) == StepOutcome::Next(
                    final(host)@,
                ),
                Some(res) => fail_then_continue(old(host)@, action, i as int)
                    == StepOutcome::Stop(final(host)@, res@),
            }),
    {
        let log = log_subcall_failed(host.code_address(), i);
        match host.emit_log(log) {
            Err(_) => Some(PrecompileResult::Error(ExitErrorKind::OutOfGas)),
            Ok(()) => {
                if action == Action::BatchAll {
                    Some(PrecompileResult::Error(ExitErrorKind::OutOfGas))
                } else if action == Action::BatchSomeUntilFailure {
                    Some(PrecompileResult::Succeed(Vec::new()))
                } else {
                    None
                }
            }
        }
    }
}

} // verus!
