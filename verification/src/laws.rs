//! General properties of the dispatch model, each proved for every host
//! state, every policy and every input the property speaks of.

use vstd::prelude::*;
use crate::encoding::be_bytes;
use crate::types::Address;
use crate::types::LogView;
use crate::types::ResultView;
use crate::types::SubcallExit;
use crate::types::Word256;
use crate::types::call_cost;
use crate::host::CallView;
use crate::host::HostView;
use crate::host::consumed_gas;
use crate::host::emit_outcome;
use crate::host::script_at;
use crate::model::Action;
use crate::model::InputView;
use crate::model::LOG_SUBCALL_FAILED;
use crate::model::LOG_SUBCALL_SUCCEEDED;
use crate::model::StepOutcome;
use crate::model::batch_spec;
use crate::model::effective_gas_limit;
use crate::model::eligible_caller;
use crate::model::index_log_cost;
use crate::model::item_at;
use crate::model::run_from;
use crate::model::subcall_failed_log;
use crate::model::subcall_step;
use crate::model::subcall_succeeded_log;

verus! {

/// A batch with no target addresses performs zero sub-calls, emits no log,
/// charges only the eligibility-check storage read, and succeeds with
/// empty output, under every policy.
pub proof fn lemma_empty_batch(v: HostView, action: Action, inp: InputView)
    requires
        inp.addresses.len() == 0,
        eligible_caller(v.caller_code),
        v.schedule.db_read <= v.gas,
        index_log_cost(v.schedule) <= u64::MAX,
    ensures
        batch_spec(v, action, inp).0 == (HostView {
            gas: (v.gas - v.schedule.db_read) as u64,
            ..v
        }),
        batch_spec(v, action, inp).0.calls == v.calls,
        batch_spec(v, action, inp).0.logs == v.logs,
        batch_spec(v, action, inp).1 == ResultView::Succeed(Seq::<u8>::empty()),
{
}

/// The loop reads the input only through the address sequence and the
/// normalized per-position items: two inputs that agree on both run
/// identically from any position.
pub proof fn lemma_run_congruence(
    v: HostView,
    action: Action,
    inp1: InputView,
    inp2: InputView,
    i: int,
)
    requires
        inp1.addresses == inp2.addresses,
        forall|j: int|
            0 <= j < inp1.addresses.len() ==> #[trigger] item_at(inp1, j) == item_at(inp2, j),
    ensures
        run_from(v, action, inp1, i) == run_from(v, action, inp2, i),
    decreases inp1.addresses.len() - i,
{
    if 0 <= i < inp1.addresses.len() {
        assert(subcall_step(v, action, inp1, i) == subcall_step(v, action, inp2, i));
        match subcall_step(v, action, inp1, i) {
            StepOutcome::Next(v2) => {
                lemma_run_congruence(v2, action, inp1, inp2, i + 1);
            }
            StepOutcome::Stop(_, _) => {}
        }
    }
}

/// Two inputs that agree on addresses and items produce the same whole
/// dispatch.
pub proof fn lemma_batch_congruence(v: HostView, action: Action, inp1: InputView, inp2: InputView)
    requires
        inp1.addresses == inp2.addresses,
        forall|j: int|
            0 <= j < inp1.addresses.len() ==> #[trigger] item_at(inp1, j) == item_at(inp2, j),
    ensures
        batch_spec(v, action, inp1) == batch_spec(v, action, inp2),
{
    let v1 = HostView { gas: (v.gas - v.schedule.db_read) as u64, ..v };
    lemma_run_congruence(v1, action, inp1, inp2, 0);
}

/// Value, payload and gas-limit sequences shorter than the address
/// sequence behave identically to those positions being explicitly zero,
/// empty and zero (unbounded gas): an input whose three sequences are
/// written out to full length with exactly those defaults dispatches
/// identically.
pub proof fn lemma_short_sequences_default(
    v: HostView,
    action: Action,
    inp1: InputView,
    inp2: InputView,
)
    requires
        inp2.addresses == inp1.addresses,
        inp2.values.len() == inp1.addresses.len(),
        inp2.payloads.len() == inp1.addresses.len(),
        inp2.gas_limits.len() == inp1.addresses.len(),
        forall|j: int|
            0 <= j < inp1.addresses.len() ==> #[trigger] inp2.values[j] == (if j
                < inp1.values.len() {
                inp1.values[j]
            } else {
                Word256::zero_spec()
            }),
        forall|j: int|
            0 <= j < inp1.addresses.len() ==> #[trigger] inp2.payloads[j] == (if j
                < inp1.payloads.len() {
                inp1.payloads[j]
            } else {
                Seq::<u8>::empty()
            }),
        forall|j: int|
            0 <= j < inp1.addresses.len() ==> #[trigger] inp2.gas_limits[j] == (if j
                < inp1.gas_limits.len() {
                inp1.gas_limits[j]
            } else {
                0
            }),
    ensures
        batch_spec(v, action, inp1) == batch_spec(v, action, inp2),
{
    assert forall|j: int| 0 <= j < inp1.addresses.len() implies #[trigger] item_at(inp1, j)
        == item_at(inp2, j) by {
        assert(item_at(inp1, j) =~= item_at(inp2, j));
    }
    lemma_batch_congruence(v, action, inp1, inp2);
}

/// A supplied gas limit of exactly zero is no limit at all: the item at
/// such a position forwards all remaining eligible gas.
pub proof fn lemma_zero_gas_limit_is_unbounded(inp: InputView, i: int)
    requires
        0 <= i < inp.gas_limits.len(),
        inp.gas_limits[i] == 0,
    ensures
        item_at(inp, i).gas_limit is None,
{
}

/// Two inputs that differ only in their gas-limit sequences dispatch
/// identically whenever the limit in force agrees at every position; in
/// particular, writing zero at a position is equivalent to a sequence that
/// ends before it.
pub proof fn lemma_equal_effective_limits(
    v: HostView,
    action: Action,
    inp1: InputView,
    inp2: InputView,
)
    requires
        inp2.addresses == inp1.addresses,
        inp2.values == inp1.values,
        inp2.payloads == inp1.payloads,
        forall|j: int|
            0 <= j < inp1.addresses.len() ==> #[trigger] effective_gas_limit(inp2.gas_limits, j)
                == effective_gas_limit(inp1.gas_limits, j),
    ensures
        batch_spec(v, action, inp1) == batch_spec(v, action, inp2),
{
    assert forall|j: int| 0 <= j < inp1.addresses.len() implies #[trigger] item_at(inp1, j)
        == item_at(inp2, j) by {
        assert(item_at(inp1, j) =~= item_at(inp2, j));
    }
    lemma_batch_congruence(v, action, inp1, inp2);
}

/// Whether, from host state `v`, the gas checks at position `i` all pass,
/// so that the loop actually executes the sub-call there: the trailing log
/// cost and the intrinsic call cost fit in the remaining gas, and an
/// explicit gas limit, if any, fits in what is left after both.
pub open spec fn executes_subcall(v: HostView, inp: InputView, i: int) -> bool {
    let item = item_at(inp, i);
    let lcost = index_log_cost(v.schedule);
    let ccost = call_cost(v.schedule, item.value);
    &&& lcost <= v.gas
    &&& ccost <= v.gas - lcost
    &&& (match item.gas_limit {
        Some(l) => l <= v.gas - lcost - ccost,
        None => true,
    })
}

/// The gas stipend the sub-call at position `i` is given: the explicit
/// limit if one is in force, all remaining gas after both reservations
/// otherwise.
pub open spec fn stipend_at(v: HostView, inp: InputView, i: int) -> u64 {
    match item_at(inp, i).gas_limit {
        Some(l) => l,
        None => (v.gas - index_log_cost(v.schedule) - call_cost(
            v.schedule,
            item_at(inp, i).value,
        )) as u64,
    }
}

/// The host state a step leaves behind, whether it goes on or stops.
pub open spec fn step_state(so: StepOutcome) -> HostView {
    match so {
        StepOutcome::Next(w) => w,
        StepOutcome::Stop(w, _) => w,
    }
}

/// The host state right after the sub-call at position `i` executes, with
/// its call record appended, before any outcome log.
pub open spec fn post_call_state(v: HostView, inp: InputView, i: int) -> HostView {
    let item = item_at(inp, i);
    let b = script_at(v, v.calls.len() as int);
    let used = consumed_gas(b.gas_used, stipend_at(v, inp, i), v.gas);
    HostView {
        gas: (v.gas - used) as u64,
        calls: v.calls.push(CallView {
            target: item.target,
            value: item.value,
            with_transfer: item.value != Word256::zero_spec(),
            payload: item.payload,
            gas_limit: stipend_at(v, inp, i),
        }),
        ..v
    }
}

/// When the gas checks at position `i` pass, the step executes the
/// sub-call there, its outcome log can always be paid for out of the
/// reserved gas, and the step's outcome follows the continuation table
/// exactly.
pub proof fn lemma_step_executes(v: HostView, action: Action, inp: InputView, i: int)
    requires
        0 <= i < inp.addresses.len(),
        executes_subcall(v, inp, i),
    ensures
        ({
            let b = script_at(v, v.calls.len() as int);
            let v3 = post_call_state(v, inp, i);
            let fail = emit_outcome(v3, subcall_failed_log(v.self_address, i));
            let succ = emit_outcome(v3, subcall_succeeded_log(v.self_address, i));
            &&& fail.1
            &&& succ.1
            &&& subcall_step(v, action, inp, i) == (match b.exit {
                SubcallExit::Fatal(k) => StepOutcome::Stop(v3, ResultView::Fatal(k)),
                SubcallExit::Revert => if action == Action::BatchAll {
                    StepOutcome::Stop(fail.0, ResultView::Revert(b.output))
                } else if action == Action::BatchSomeUntilFailure {
                    StepOutcome::Stop(fail.0, ResultView::Succeed(Seq::<u8>::empty()))
                } else {
                    StepOutcome::Next(fail.0)
                },
                SubcallExit::Error(k) => if action == Action::BatchAll {
                    StepOutcome::Stop(fail.0, ResultView::Error(k))
                } else if action == Action::BatchSomeUntilFailure {
                    StepOutcome::Stop(fail.0, ResultView::Succeed(Seq::<u8>::empty()))
                } else {
                    StepOutcome::Next(fail.0)
                },
                SubcallExit::Succeed => StepOutcome::Next(succ.0),
            })
        }),
{
    crate::encoding::lemma_be_bytes_len(i as nat, 32);
    let b = script_at(v, v.calls.len() as int);
    let stip = stipend_at(v, inp, i);
    let used = consumed_gas(b.gas_used, stip, v.gas);
    let v3 = post_call_state(v, inp, i);
    assert(stip <= v.gas - index_log_cost(v.schedule));
    assert(used <= stip);
    assert(v3.gas >= index_log_cost(v.schedule));
}

/// No step touches the fixed parts of the host state, creates gas, or
/// appends more than one call and one log.
pub proof fn lemma_step_frame(v: HostView, action: Action, inp: InputView, i: int)
    requires
        0 <= i < inp.addresses.len(),
    ensures
        ({
            let w = step_state(subcall_step(v, action, inp, i));
            &&& w.caller == v.caller
            &&& w.self_address == v.self_address
            &&& w.caller_code == v.caller_code
            &&& w.schedule == v.schedule
            &&& w.script == v.script
            &&& w.gas <= v.gas
            &&& v.calls.len() <= w.calls.len() <= v.calls.len() + 1
            &&& forall|k: int| 0 <= k < v.calls.len() ==> w.calls[k] == v.calls[k]
            &&& v.logs.len() <= w.logs.len() <= v.logs.len() + 1
            &&& forall|k: int| 0 <= k < v.logs.len() ==> w.logs[k] == v.logs[k]
        }),
{
}

/// From any position on, the loop never touches the fixed parts of the
/// host state, never creates gas, and appends at most one call and one log
/// per remaining position, keeping everything already traced.
pub proof fn lemma_run_frame(v: HostView, action: Action, inp: InputView, i: int)
    ensures
        ({
            let (w, r) = run_from(v, action, inp, i);
            &&& w.caller == v.caller
            &&& w.self_address == v.self_address
            &&& w.caller_code == v.caller_code
            &&& w.schedule == v.schedule
            &&& w.script == v.script
            &&& w.gas <= v.gas
            &&& w.calls.len() >= v.calls.len()
            &&& forall|k: int| 0 <= k < v.calls.len() ==> w.calls[k] == v.calls[k]
            &&& w.logs.len() >= v.logs.len()
            &&& forall|k: int| 0 <= k < v.logs.len() ==> w.logs[k] == v.logs[k]
            &&& w.calls.len() <= v.calls.len() + (if i < inp.addresses.len() {
                inp.addresses.len() - i
            } else {
                0
            })
            &&& w.logs.len() <= v.logs.len() + (if i < inp.addresses.len() {
                inp.addresses.len() - i
            } else {
                0
            })
        }),
    decreases inp.addresses.len() - i,
{
    if 0 <= i < inp.addresses.len() {
        lemma_step_frame(v, action, inp, i);
        match subcall_step(v, action, inp, i) {
            StepOutcome::Next(v2) => {
                lemma_run_frame(v2, action, inp, i + 1);
            }
            StepOutcome::Stop(_, _) => {}
        }
    }
}

/// Under policy `BatchAll`, the first sub-call that does not succeed stops
/// the loop at that exact position: exactly one more call is traced, no
/// log is emitted for any later position, and the result surfaces that
/// sub-call's revert payload, error kind or fatal kind.
pub proof fn lemma_all_stops_at_first_failure(v: HostView, inp: InputView, i: int)
    requires
        0 <= i < inp.addresses.len(),
        executes_subcall(v, inp, i),
        script_at(v, v.calls.len() as int).exit != SubcallExit::Succeed,
    ensures
        ({
            let b = script_at(v, v.calls.len() as int);
            let (w, r) = run_from(v, Action::BatchAll, inp, i);
            &&& w.calls.len() == v.calls.len() + 1
            &&& w.calls[v.calls.len() as int] == (CallView {
                target: item_at(inp, i).target,
                value: item_at(inp, i).value,
                with_transfer: item_at(inp, i).value != Word256::zero_spec(),
                payload: item_at(inp, i).payload,
                gas_limit: stipend_at(v, inp, i),
            })
            &&& w.gas <= v.gas
            &&& (match b.exit {
                SubcallExit::Revert => r == ResultView::Revert(b.output) && w.logs == v.logs.push(
                    subcall_failed_log(v.self_address, i),
                ),
                SubcallExit::Error(k) => r == ResultView::Error(k) && w.logs == v.logs.push(
                    subcall_failed_log(v.self_address, i),
                ),
                SubcallExit::Fatal(k) => r == ResultView::Fatal(k) && w.logs == v.logs,
                SubcallExit::Succeed => true,
            })
        }),
{
    lemma_step_executes(v, Action::BatchAll, inp, i);
}

/// Under policy `BatchSomeUntilFailure`, the first revert or error stops
/// the loop at that position, but the overall result is still success with
/// empty output; a fatal outcome aborts with a fatal result even here.
pub proof fn lemma_some_until_failure_stops(v: HostView, inp: InputView, i: int)
    requires
        0 <= i < inp.addresses.len(),
        executes_subcall(v, inp, i),
        script_at(v, v.calls.len() as int).exit != SubcallExit::Succeed,
    ensures
        ({
            let b = script_at(v, v.calls.len() as int);
            let (w, r) = run_from(v, Action::BatchSomeUntilFailure, inp, i);
            &&& w.calls.len() == v.calls.len() + 1
            &&& (match b.exit {
                SubcallExit::Revert => r == ResultView::Succeed(Seq::<u8>::empty()),
                SubcallExit::Error(_) => r == ResultView::Succeed(Seq::<u8>::empty()),
                SubcallExit::Fatal(k) => r == ResultView::Fatal(k),
                SubcallExit::Succeed => true,
            })
        }),
{
    lemma_step_executes(v, Action::BatchSomeUntilFailure, inp, i);
}

/// A fatal sub-call outcome aborts the whole dispatch immediately under
/// every policy, with no outcome log for it and nothing attempted after
/// it.
pub proof fn lemma_fatal_always_aborts(v: HostView, action: Action, inp: InputView, i: int)
    requires
        0 <= i < inp.addresses.len(),
        executes_subcall(v, inp, i),
        script_at(v, v.calls.len() as int).exit matches SubcallExit::Fatal(_),
    ensures
        ({
            let b = script_at(v, v.calls.len() as int);
            let w = post_call_state(v, inp, i);
            &&& (match b.exit {
                SubcallExit::Fatal(k) => run_from(v, action, inp, i) == (w, ResultView::Fatal(k)),
                _ => true,
            })
            &&& w.logs == v.logs
            &&& w.calls.len() == v.calls.len() + 1
        }),
{
    lemma_step_executes(v, action, inp, i);
}

/// Whether `l` is one of the dispatcher's two per-position logs, emitted
/// by `addr` for position `p`.
pub open spec fn is_subcall_log(l: LogView, addr: Address, p: int) -> bool {
    &&& l.address == addr
    &&& (l.topic == LOG_SUBCALL_SUCCEEDED@ || l.topic == LOG_SUBCALL_FAILED@)
    &&& l.data == be_bytes(p as nat, 32)
}

/// A step either leaves the log trace alone or appends exactly one of the
/// two per-position logs for its own position.
pub proof fn lemma_step_logs(v: HostView, action: Action, inp: InputView, i: int)
    requires
        0 <= i < inp.addresses.len(),
    ensures
        ({
            let w = step_state(subcall_step(v, action, inp, i));
            &&& w.self_address == v.self_address
            &&& (w.logs == v.logs || w.logs == v.logs.push(subcall_failed_log(v.self_address, i))
                || w.logs == v.logs.push(subcall_succeeded_log(v.self_address, i)))
        }),
{
}

/// The cost of a per-position log does not depend on the position or on
/// whether it reports success or failure: both shapes carry one 32-byte
/// topic and a 32-byte data word, so one reservation fits every iteration.
pub proof fn lemma_log_cost_uniform(s: crate::types::CostSchedule, a: Address, i: int)
    ensures
        crate::types::log_cost(s, subcall_failed_log(a, i).data.len()) == index_log_cost(s),
        crate::types::log_cost(s, subcall_succeeded_log(a, i).data.len()) == index_log_cost(s),
{
    crate::encoding::lemma_be_bytes_len(i as nat, 32);
}

/// A successful sub-call never stops the loop: under every policy, its
/// success log is emitted and the loop goes on at the next position.
pub proof fn lemma_success_continues(v: HostView, action: Action, inp: InputView, i: int)
    requires
        0 <= i < inp.addresses.len(),
        executes_subcall(v, inp, i),
        script_at(v, v.calls.len() as int).exit == SubcallExit::Succeed,
    ensures
        ({
            let w1 = emit_outcome(
                post_call_state(v, inp, i),
                subcall_succeeded_log(v.self_address, i),
            ).0;
            &&& subcall_step(v, action, inp, i) == StepOutcome::Next(w1)
            &&& run_from(v, action, inp, i) == run_from(w1, action, inp, i + 1)
            &&& w1.calls.len() == v.calls.len() + 1
            &&& w1.logs == v.logs.push(subcall_succeeded_log(v.self_address, i))
        }),
{
    lemma_step_executes(v, action, inp, i);
}

/// The 32-byte data word of a per-position log determines its position:
/// one log cannot be read as reporting on two different positions.
pub proof fn lemma_log_position_unambiguous(l: LogView, a: Address, p1: int, p2: int)
    requires
        is_subcall_log(l, a, p1),
        is_subcall_log(l, a, p2),
        0 <= p1 < crate::types::pow256(32),
        0 <= p2 < crate::types::pow256(32),
    ensures
        p1 == p2,
{
    crate::encoding::lemma_be_bytes_injective(p1 as nat, p2 as nat, 32);
}

/// From position `i` on, the loop appends at most one log per remaining
/// position, each log is a per-position log of the dispatcher's own
/// address, and the positions of the appended logs are strictly
/// increasing — so every log can be attributed to the one position it
/// reports on.  Returns those positions, in emission order.
pub proof fn lemma_run_logs_indexed(v: HostView, action: Action, inp: InputView, i: int) -> (ps:
    Seq<int>)
    requires
        0 <= i,
    ensures
        ({
            let (w, r) = run_from(v, action, inp, i);
            &&& w.logs.len() == v.logs.len() + ps.len()
            &&& ps.len() <= (if i < inp.addresses.len() {
                inp.addresses.len() - i
            } else {
                0
            })
            &&& forall|k: int| 0 <= k < v.logs.len() ==> w.logs[k] == v.logs[k]
            &&& forall|k: int| 0 <= k < ps.len() ==> i <= #[trigger] ps[k] < inp.addresses.len()
            &&& forall|k: int|
                0 <= k < ps.len() ==> is_subcall_log(
                    #[trigger] w.logs[v.logs.len() + k],
                    v.self_address,
                    ps[k],
                )
            &&& forall|k1: int, k2: int| 0 <= k1 < k2 < ps.len() ==> ps[k1] < ps[k2]
        }),
    decreases inp.addresses.len() - i,
{
    if i >= inp.addresses.len() {
        Seq::empty()
    } else {
        lemma_step_logs(v, action, inp, i);
        match subcall_step(v, action, inp, i) {
            StepOutcome::Stop(w1, _) => {
                if w1.logs.len() > v.logs.len() {
                    seq![i]
                } else {
                    Seq::empty()
                }
            }
            StepOutcome::Next(w1) => {
                let ps_rest = lemma_run_logs_indexed(w1, action, inp, i + 1);
                let here: Seq<int> = if w1.logs.len() > v.logs.len() {
                    seq![i]
                } else {
                    Seq::empty()
                };
                let ps = here + ps_rest;
                let (w, r) = run_from(w1, action, inp, i + 1);
                assert(run_from(v, action, inp, i) == (w, r));
                assert forall|k: int| 0 <= k < ps.len() implies is_subcall_log(
                    #[trigger] w.logs[v.logs.len() + k],
                    v.self_address,
                    ps[k],
                ) by {
                    if k < here.len() {
                        assert(w.logs[v.logs.len() + k] == w1.logs[v.logs.len() + k]);
                    } else {
                        assert(w.logs[v.logs.len() + k] == w.logs[w1.logs.len() + (k
                            - here.len())]);
                        assert(is_subcall_log(
                            w.logs[w1.logs.len() + (k - here.len())],
                            w1.self_address,
                            ps_rest[k - here.len()],
                        ));
                    }
                }
                ps
            }
        }
    }
}

/// For every input and every policy, the whole dispatch emits at most one
/// log per target address, each emitted log is one of the two per-position
/// logs of the dispatcher's own address, and each log's 32-byte data word
/// is the big-endian encoding of the one position it reports on, in
/// strictly increasing position order.  Returns those positions.
pub proof fn lemma_logs_bounded_and_indexed(v: HostView, action: Action, inp: InputView) -> (ps:
    Seq<int>)
    ensures
        ({
            let (w, r) = batch_spec(v, action, inp);
            &&& w.logs.len() == v.logs.len() + ps.len()
            &&& ps.len() <= inp.addresses.len()
            &&& forall|k: int| 0 <= k < v.logs.len() ==> w.logs[k] == v.logs[k]
            &&& forall|k: int| 0 <= k < ps.len() ==> 0 <= #[trigger] ps[k] < inp.addresses.len()
            &&& forall|k: int|
                0 <= k < ps.len() ==> is_subcall_log(
                    #[trigger] w.logs[v.logs.len() + k],
                    v.self_address,
                    ps[k],
                )
            &&& forall|k1: int, k2: int| 0 <= k1 < k2 < ps.len() ==> ps[k1] < ps[k2]
        }),
{
    if v.gas < v.schedule.db_read {
        Seq::empty()
    } else {
        let v1 = HostView { gas: (v.gas - v.schedule.db_read) as u64, ..v };
        if !eligible_caller(v1.caller_code) {
            Seq::empty()
        } else if index_log_cost(v1.schedule) > u64::MAX {
            Seq::empty()
        } else {
            lemma_run_logs_indexed(v1, action, inp, 0)
        }
    }
}

/// Under policy `BatchSome`, a revert or error at position `i` does not
/// prevent execution at position `i + 1`: the loop goes straight on, and
/// when the gas checks pass there, the sub-call at `i + 1` is traced right
/// after the one at `i`.
#[verifier::rlimit(50)]
pub proof fn lemma_some_skips_failures(v: HostView, inp: InputView, i: int)
    requires
        0 <= i < inp.addresses.len(),
        executes_subcall(v, inp, i),
        (script_at(v, v.calls.len() as int).exit == SubcallExit::Revert || script_at(
            v,
            v.calls.len() as int,
        ).exit matches SubcallExit::Error(_)),
    ensures
        ({
            let w1 = emit_outcome(
                post_call_state(v, inp, i),
                subcall_failed_log(v.self_address, i),
            ).0;
            &&& subcall_step(v, Action::BatchSome, inp, i) == StepOutcome::Next(w1)
            &&& run_from(v, Action::BatchSome, inp, i) == run_from(
                w1,
                Action::BatchSome,
                inp,
                i + 1,
            )
            &&& w1.calls.len() == v.calls.len() + 1
            &&& w1.logs == v.logs.push(subcall_failed_log(v.self_address, i))
            &&& (i + 1 < inp.addresses.len() && executes_subcall(w1, inp, i + 1) ==> ({
                let wf = run_from(v, Action::BatchSome, inp, i).0;
                &&& wf.calls.len() >= v.calls.len() + 2
                &&& wf.calls[v.calls.len() as int + 1] == (CallView {
                    target: item_at(inp, i + 1).target,
                    value: item_at(inp, i + 1).value,
                    with_transfer: item_at(inp, i + 1).value != Word256::zero_spec(),
                    payload: item_at(inp, i + 1).payload,
                    gas_limit: stipend_at(w1, inp, i + 1),
                })
            }))
        }),
{
    lemma_step_executes(v, Action::BatchSome, inp, i);
    let w1 = emit_outcome(post_call_state(v, inp, i), subcall_failed_log(v.self_address, i)).0;
    assert(subcall_step(v, Action::BatchSome, inp, i) == StepOutcome::Next(w1));
    assert(run_from(v, Action::BatchSome, inp, i) == run_from(w1, Action::BatchSome, inp, i + 1));
    assert(w1.calls.len() == v.calls.len() + 1);
    assert(w1.logs == v.logs.push(subcall_failed_log(v.self_address, i)));
    if i + 1 < inp.addresses.len() && executes_subcall(w1, inp, i + 1) {
        lemma_step_executes(w1, Action::BatchSome, inp, i + 1);
        let w2 = step_state(subcall_step(w1, Action::BatchSome, inp, i + 1));
        assert(w2.calls[v.calls.len() as int + 1] == (CallView {
            target: item_at(inp, i + 1).target,
            value: item_at(inp, i + 1).value,
            with_transfer: item_at(inp, i + 1).value != Word256::zero_spec(),
            payload: item_at(inp, i + 1).payload,
            gas_limit: stipend_at(w1, inp, i + 1),
        }));
        match subcall_step(w1, Action::BatchSome, inp, i + 1) {
            StepOutcome::Next(w2n) => {
                lemma_run_frame(w2n, Action::BatchSome, inp, i + 2);
            }
            StepOutcome::Stop(_, _) => {}
        }
    }
}

} // verus!
