//! The mathematical model of one whole dispatch: input normalization,
//! caller eligibility, and the per-position state machine of the batch
//! loop, written as spec functions over the host's view.  The executable
//! dispatcher is proved to follow this model exactly.

use vstd::prelude::*;
use crate::types::Address;
use crate::types::CostSchedule;
use crate::types::ExitErrorKind;
use crate::types::LogView;
use crate::types::ResultView;
use crate::types::SubcallExit;
use crate::types::Word256;
use crate::types::call_cost;
use crate::types::log_cost;
use crate::host::HostView;
use crate::host::CallView;
use crate::host::consumed_gas;
use crate::host::emit_outcome;
use crate::host::script_at;
use crate::encoding::be_bytes;

verus! {

/// Topic of the log emitted after a successful sub-call: the keccak-256
/// digest of the event signature `SubcallSucceeded(uint256)`.
pub const LOG_SUBCALL_SUCCEEDED: [u8; 32] = [
    0xbf, 0x85, 0x54, 0x84, 0x63, 0x39, 0x29, 0xc3, 0xd6, 0x68, 0x8e, 0xb3, 0xca, 0xf8, 0xef,
    0xf9, 0x10, 0xfb, 0x4b, 0xef, 0x03, 0x0a, 0x8d, 0x7d, 0xbc, 0x93, 0x90, 0xd2, 0x67, 0x59,
    0x71, 0x4d,
];

/// Topic of the log emitted after a failed sub-call: the keccak-256 digest
/// of the event signature `SubcallFailed(uint256)`.
pub const LOG_SUBCALL_FAILED: [u8; 32] = [
    0xdb, 0xc5, 0xd0, 0x6f, 0x4f, 0x87, 0x7f, 0x95, 0x9b, 0x1f, 0xf1, 0x2d, 0x21, 0x61, 0xcd,
    0xd6, 0x93, 0xfa, 0x8e, 0x44, 0x2e, 0xe5, 0x3f, 0x17, 0x90, 0xb2, 0x80, 0x4b, 0x24, 0x88,
    0x1f, 0x05,
];

/// The one stored-code sequence, besides empty code, that the dispatcher
/// accepts at the caller's address: the marker code of the trusted
/// delegation precompile.
pub const RECOGNIZED_MARKER_CODE: [u8; 5] = [0x60, 0x00, 0x60, 0x00, 0xfd];

/// Payload of the revert raised when the caller's stored code is neither
/// empty nor the recognized marker: the ASCII bytes of
/// `Batch not callable by smart contracts`.
pub const NOT_CALLABLE_MESSAGE: [u8; 37] = [
    0x42, 0x61, 0x74, 0x63, 0x68, 0x20, 0x6e, 0x6f, 0x74, 0x20, 0x63, 0x61, 0x6c, 0x6c, 0x61,
    0x62, 0x6c, 0x65, 0x20, 0x62, 0x79, 0x20, 0x73, 0x6d, 0x61, 0x72, 0x74, 0x20, 0x63, 0x6f,
    0x6e, 0x74, 0x72, 0x61, 0x63, 0x74, 0x73,
];

/// Payload of the revert raised when the fixed log cost does not fit a
/// 64-bit gas value: the ASCII bytes of `Failed to compute log cost`.
pub const LOG_COST_OVERFLOW_MESSAGE: [u8; 26] = [
    0x46, 0x61, 0x69, 0x6c, 0x65, 0x64, 0x20, 0x74, 0x6f, 0x20, 0x63, 0x6f, 0x6d, 0x70, 0x75,
    0x74, 0x65, 0x20, 0x6c, 0x6f, 0x67, 0x20, 0x63, 0x6f, 0x73, 0x74,
];

/// The whole decoded input of one invocation: four sequences aligned by
/// position, of which only the address sequence bounds the loop.
#[verifier::ext_equal]
pub struct InputView {
    pub addresses: Seq<Address>,
    pub values: Seq<Word256>,
    pub payloads: Seq<Seq<u8>>,
    pub gas_limits: Seq<u64>,
}

/// One position of the batch after normalization: value defaults to zero,
/// payload to empty, and gas limit to `None` (forward all remaining gas)
/// beyond each sequence's own length; a supplied limit of exactly zero also
/// means `None`.
#[verifier::ext_equal]
pub struct ItemView {
    pub target: Address,
    pub value: Word256,
    pub payload: Seq<u8>,
    pub gas_limit: Option<u64>,
}

/// The gas limit in force at position `j`: a supplied limit of exactly
/// zero, like a sequence ending before `j`, means "no limit" — forward all
/// remaining eligible gas.
pub open spec fn effective_gas_limit(g: Seq<u64>, j: int) -> Option<u64> {
    if 0 <= j < g.len() && g[j] != 0 {
        Some(g[j])
    } else {
        None
    }
}

/// The normalized item at position `i` of the input.
pub open spec fn item_at(inp: InputView, i: int) -> ItemView {
    ItemView {
        target: inp.addresses[i],
        value: if 0 <= i < inp.values.len() {
            inp.values[i]
        } else {
            Word256::zero_spec()
        },
        payload: if 0 <= i < inp.payloads.len() {
            inp.payloads[i]
        } else {
            Seq::empty()
        },
        gas_limit: effective_gas_limit(inp.gas_limits, i),
    }
}

/// Whether stored caller code is allowed to invoke the dispatcher: only
/// code-less accounts and the recognized marker are.
pub open spec fn eligible_caller(code: Seq<u8>) -> bool {
    code.len() == 0 || code == RECOGNIZED_MARKER_CODE@
}

/// The log recording that the sub-call at position `i` succeeded.
pub open spec fn subcall_succeeded_log(address: Address, i: int) -> LogView {
    LogView { address, topic: LOG_SUBCALL_SUCCEEDED@, data: be_bytes(i as nat, 32) }
}

/// The log recording that the sub-call at position `i` failed.
pub open spec fn subcall_failed_log(address: Address, i: int) -> LogView {
    LogView { address, topic: LOG_SUBCALL_FAILED@, data: be_bytes(i as nat, 32) }
}

/// Gas cost of one per-position log.  Both log shapes carry one 32-byte
/// topic and a 32-byte data word, so this cost is the same for the success
/// and the failure log and for every position.
pub open spec fn index_log_cost(s: CostSchedule) -> int {
    log_cost(s, 32)
}

/// What one position of the loop decides: go on at the next position from
/// a new host state, or finish the whole dispatch with a result.
#[verifier::ext_equal]
pub enum StepOutcome {
    Next(HostView),
    Stop(HostView, ResultView),
}

/// Emits the failure log for position `i`, then applies the continuation
/// policy to a sub-call that could not be attempted: the whole dispatch
/// fails under `BatchAll`, ends successfully under `BatchSomeUntilFailure`,
/// and skips to the next position under `BatchSome`.  A failure to pay for
/// the log itself aborts with an out-of-gas error.
pub open spec fn fail_then_continue(v: HostView, action: Action, i: int) -> StepOutcome {
    let (v2, ok) = emit_outcome(v, subcall_failed_log(v.self_address, i));
    if !ok {
        StepOutcome::Stop(v2, ResultView::Error(ExitErrorKind::OutOfGas))
    } else if action == Action::BatchAll {
        StepOutcome::Stop(v2, ResultView::Error(ExitErrorKind::OutOfGas))
    } else if action == Action::BatchSomeUntilFailure {
        StepOutcome::Stop(v2, ResultView::Succeed(Seq::empty()))
    } else {
        StepOutcome::Next(v2)
    }
}

/// One position of the dispatch loop, exactly as the dispatcher performs
/// it: reserve the trailing log cost, reserve the intrinsic call cost,
/// honor an explicit gas limit, execute the sub-call, emit the outcome log,
/// and apply the continuation policy.
pub open spec fn subcall_step(v: HostView, action: Action, inp: InputView, i: int) -> StepOutcome {
    let item = item_at(inp, i);
    let lcost = index_log_cost(v.schedule);
    if v.gas < lcost {
        // Not even the trailing log can be paid for: nothing to roll back.
        if action == Action::BatchAll {
            StepOutcome::Stop(v, ResultView::Error(ExitErrorKind::OutOfGas))
        } else {
            StepOutcome::Stop(v, ResultView::Succeed(Seq::empty()))
        }
    } else {
        let reserved = v.gas - lcost;
        let ccost = call_cost(v.schedule, item.value);
        if reserved < ccost {
            fail_then_continue(v, action, i)
        } else {
            let avail = reserved - ccost;
            let limit_excessive = match item.gas_limit {
                Some(l) => l > avail,
                None => false,
            };
            if limit_excessive {
                fail_then_continue(v, action, i)
            } else {
                let stipend: u64 = match item.gas_limit {
                    Some(l) => l,
                    None => avail as u64,
                };
                let b = script_at(v, v.calls.len() as int);
                let used = consumed_gas(b.gas_used, stipend, v.gas);
                let v3 = HostView {
                    gas: (v.gas - used) as u64,
                    calls: v.calls.push(CallView {
                        target: item.target,
                        value: item.value,
                        with_transfer: item.value != Word256::zero_spec(),
                        payload: item.payload,
                        gas_limit: stipend,
                    }),
                    ..v
                };
                match b.exit {
                    SubcallExit::Fatal(k) => StepOutcome::Stop(v3, ResultView::Fatal(k)),
                    SubcallExit::Revert => {
                        let (v4, ok) = emit_outcome(v3, subcall_failed_log(v.self_address, i));
                        if !ok {
                            StepOutcome::Stop(v4, ResultView::Error(ExitErrorKind::OutOfGas))
                        } else if action == Action::BatchAll {
                            StepOutcome::Stop(v4, ResultView::Revert(b.output))
                        } else if action == Action::BatchSomeUntilFailure {
                            StepOutcome::Stop(v4, ResultView::Succeed(Seq::empty()))
                        } else {
                            StepOutcome::Next(v4)
                        }
                    }
                    SubcallExit::Error(k) => {
                        let (v4, ok) = emit_outcome(v3, subcall_failed_log(v.self_address, i));
                        if !ok {
                            StepOutcome::Stop(v4, ResultView::Error(ExitErrorKind::OutOfGas))
                        } else if action == Action::BatchAll {
                            StepOutcome::Stop(v4, ResultView::Error(k))
                        } else if action == Action::BatchSomeUntilFailure {
                            StepOutcome::Stop(v4, ResultView::Succeed(Seq::empty()))
                        } else {
                            StepOutcome::Next(v4)
                        }
                    }
                    SubcallExit::Succeed => {
                        let (v4, ok) = emit_outcome(v3, subcall_succeeded_log(v.self_address, i));
                        if !ok {
                            StepOutcome::Stop(v4, ResultView::Error(ExitErrorKind::OutOfGas))
                        } else {
                            StepOutcome::Next(v4)
                        }
                    }
                }
            }
        }
    }
}

/// The dispatch loop from position `i` on: either it runs off the end of
/// the address sequence and succeeds with empty output, or some position
/// stops it with a result.
pub open spec fn run_from(v: HostView, action: Action, inp: InputView, i: int) -> (
    HostView,
    ResultView,
)
    decreases inp.addresses.len() - i,
{
    if i < 0 || i >= inp.addresses.len() {
        (v, ResultView::Succeed(Seq::empty()))
    } else {
        match subcall_step(v, action, inp, i) {
            StepOutcome::Next(v2) => run_from(v2, action, inp, i + 1),
            StepOutcome::Stop(v2, r) => (v2, r),
        }
    }
}

/// One whole dispatch: charge the eligibility-check storage read, refuse
/// ineligible callers, pin down the fixed per-position log cost, then run
/// the loop over every position.
pub open spec fn batch_spec(v: HostView, action: Action, inp: InputView) -> (HostView, ResultView) {
    if v.gas < v.schedule.db_read {
        (v, ResultView::Error(ExitErrorKind::OutOfGas))
    } else {
        let v1 = HostView { gas: (v.gas - v.schedule.db_read) as u64, ..v };
        if !eligible_caller(v1.caller_code) {
            (v1, ResultView::Revert(NOT_CALLABLE_MESSAGE@))
        } else if index_log_cost(v1.schedule) > u64::MAX {
            (v1, ResultView::Revert(LOG_COST_OVERFLOW_MESSAGE@))
        } else {
            run_from(v1, action, inp, 0)
        }
    }
}

/// The three continuation policies, selected by the entry selector and
/// fixed for the whole invocation.
#[derive(Clone, Copy, PartialEq, Eq, Structural, Debug)]
pub enum Action {
    BatchSome,
    BatchSomeUntilFailure,
    BatchAll,
}

/// The 4-byte entry selector bound to `BatchSome`, as a big-endian 32-bit
/// value: the first four bytes of the keccak-256 digest of
/// `batchSome(address[],uint256[],bytes[],uint64[])`.
pub const BATCH_SOME_SELECTOR: u32 = 0x79df4b9c;

/// The selector of `batchSomeUntilFailure(address[],uint256[],bytes[],uint64[])`.
pub const BATCH_SOME_UNTIL_FAILURE_SELECTOR: u32 = 0xcf0491c7;

/// The selector of `batchAll(address[],uint256[],bytes[],uint64[])`.
pub const BATCH_ALL_SELECTOR: u32 = 0x96e292b8;

impl Action {
    /// The entry selector bound to this policy.
    pub open spec fn selector_spec(self) -> u32 {
        match self {
            Action::BatchSome => BATCH_SOME_SELECTOR,
            Action::BatchSomeUntilFailure => BATCH_SOME_UNTIL_FAILURE_SELECTOR,
            Action::BatchAll => BATCH_ALL_SELECTOR,
        }
    }

    /// The entry selector bound to this policy.
    pub fn selector(self) -> (r: u32)
        ensures
            r == self.selector_spec(),
    {
        match self {
            Action::BatchSome => 0x79df4b9c,
            Action::BatchSomeUntilFailure => 0xcf0491c7,
            Action::BatchAll => 0x96e292b8,
        }
    }

    /// The policy an entry selector binds to, if any: exactly the three
    /// known selectors are accepted.
    pub fn from_selector(selector: u32) -> (r: Option<Action>)
        ensures
            (match r {
                Some(a) => a.selector_spec() == selector,
                None => forall|a: Action| #[trigger] a.selector_spec() != selector,
            }),
    {
        if selector == 0x79df4b9c {
            Some(Action::BatchSome)
        } else if selector == 0xcf0491c7 {
            Some(Action::BatchSomeUntilFailure)
        } else if selector == 0x96e292b8 {
            Some(Action::BatchAll)
        } else {
            proof {
                assert forall|a: Action| #[trigger] a.selector_spec() != selector by {
                    match a {
                        Action::BatchSome => {}
                        Action::BatchSomeUntilFailure => {}
                        Action::BatchAll => {}
                    }
                }
            }
            None
        }
    }
}

} // verus!
