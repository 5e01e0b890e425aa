//! The execution capabilities the dispatcher consumes from its host: a gas
//! accountant, a call executor, an event emitter and an account-code
//! inspector, bundled in one deterministic host state.
//!
//! The behaviour of each sub-call is part of the host state, as a script
//! giving the exit, the output bytes and the gas consumption of the n-th
//! sub-call.  Every possible sequence of sub-call behaviours is one script,
//! so a property proved for every host state holds for every behaviour of
//! the virtual machine.

use vstd::prelude::*;
use crate::types::Address;
use crate::types::CostSchedule;
use crate::types::ExitErrorKind;
use crate::types::Log;
use crate::types::LogView;
use crate::types::SubcallExit;
use crate::types::Word256;
use crate::types::clone_bytes;
use crate::types::log_cost;

verus! {

/// What the virtual machine does for one sub-call: how it exits, what
/// output bytes it returns, and how much of the forwarded gas it uses.
#[derive(Clone, PartialEq, Eq, Debug)]
pub struct SubcallBehavior {
    pub exit: SubcallExit,
    pub output: Vec<u8>,
    pub gas_used: u64,
}

/// Mathematical view of a `SubcallBehavior`.
#[verifier::ext_equal]
pub struct BehaviorView {
    pub exit: SubcallExit,
    pub output: Seq<u8>,
    pub gas_used: u64,
}

impl View for SubcallBehavior {
    type V = BehaviorView;

    open spec fn view(&self) -> BehaviorView {
        BehaviorView { exit: self.exit, output: self.output@, gas_used: self.gas_used }
    }
}

/// One sub-call as the host performed it: target, value, whether a value
/// transfer was attached, the payload, and the gas stipend it was given.
#[derive(Clone, PartialEq, Eq, Debug)]
pub struct CallRecord {
    pub target: Address,
    pub value: Word256,
    pub with_transfer: bool,
    pub payload: Vec<u8>,
    pub gas_limit: u64,
}

/// Mathematical view of a `CallRecord`.
#[verifier::ext_equal]
pub struct CallView {
    pub target: Address,
    pub value: Word256,
    pub with_transfer: bool,
    pub payload: Seq<u8>,
    pub gas_limit: u64,
}

impl View for CallRecord {
    type V = CallView;

    open spec fn view(&self) -> CallView {
        CallView {
            target: self.target,
            value: self.value,
            with_transfer: self.with_transfer,
            payload: self.payload@,
            gas_limit: self.gas_limit,
        }
    }
}

/// The host state the dispatcher runs against: the remaining gas, the two
/// fixed addresses of the invocation, the code stored at the caller's
/// address, the cost schedule, the scripted sub-call behaviours, and the
/// trace of calls performed and logs emitted so far.
pub struct Host {
    pub gas: u64,
    pub caller: Address,
    pub self_address: Address,
    pub caller_code: Vec<u8>,
    pub schedule: CostSchedule,
    pub script: Vec<SubcallBehavior>,
    pub calls: Vec<CallRecord>,
    pub logs: Vec<Log>,
}

/// Mathematical view of a `Host`.
#[verifier::ext_equal]
pub struct HostView {
    pub gas: u64,
    pub caller: Address,
    pub self_address: Address,
    pub caller_code: Seq<u8>,
    pub schedule: CostSchedule,
    pub script: Seq<BehaviorView>,
    pub calls: Seq<CallView>,
    pub logs: Seq<LogView>,
}

impl View for Host {
    type V = HostView;

    open spec fn view(&self) -> HostView {
        HostView {
            gas: self.gas,
            caller: self.caller,
            self_address: self.self_address,
            caller_code: self.caller_code@,
            schedule: self.schedule,
            script: self.script@.map_values(|b: SubcallBehavior| b@),
            calls: self.calls@.map_values(|c: CallRecord| c@),
            logs: self.logs@.map_values(|l: Log| l@),
        }
    }
}

/// The scripted behaviour of the `n`-th sub-call; a script that ends before
/// `n` behaves as a silent success that uses no gas.
pub open spec fn script_at(v: HostView, n: int) -> BehaviorView {
    if 0 <= n < v.script.len() {
        v.script[n]
    } else {
        BehaviorView { exit: SubcallExit::Succeed, output: Seq::empty(), gas_used: 0 }
    }
}

/// Gas a sub-call consumes: its scripted usage, capped by the stipend it
/// was given and by the gas actually remaining.
pub open spec fn consumed_gas(used: u64, limit: u64, gas: u64) -> u64 {
    let cap = if limit < gas { limit } else { gas };
    if used < cap { used } else { cap }
}

/// State and success flag after charging for and appending one log record:
/// charging fails, and the state is unchanged, when the log's cost exceeds
/// the remaining gas.
pub open spec fn emit_outcome(v: HostView, l: LogView) -> (HostView, bool) {
    let c = log_cost(v.schedule, l.data.len());
    if c <= v.gas {
        (HostView { gas: (v.gas - c) as u64, logs: v.logs.push(l), ..v }, true)
    } else {
        (v, false)
    }
}

impl Host {
    /// A fresh host state with empty call and log traces.
    pub fn new(
        gas: u64,
        caller: Address,
        self_address: Address,
        caller_code: Vec<u8>,
        schedule: CostSchedule,
        script: Vec<SubcallBehavior>,
    ) -> (r: Host)
        ensures
            r@ == (HostView {
                gas,
                caller,
                self_address,
                caller_code: caller_code@,
                schedule,
                script: script@.map_values(|b: SubcallBehavior| b@),
                calls: Seq::empty(),
                logs: Seq::empty(),
            }),
    {
        let r = Host {
            gas,
            caller,
            self_address,
            caller_code,
            schedule,
            script,
            calls: Vec::new(),
            logs: Vec::new(),
        };
        proof {
            assert(r@.calls =~= Seq::<CallView>::empty());
            assert(r@.logs =~= Seq::<LogView>::empty());
        }
        r
    }

    /// Gas accountant: how much gas remains.
    pub fn remaining_gas(&self) -> (r: u64)
        ensures
            r == self@.gas,
    {
        self.gas
    }

    /// The immediate caller of the invocation.
    pub fn caller(&self) -> (r: Address)
        ensures
            r == self@.caller,
    {
        self.caller
    }

    /// The address the dispatcher itself runs at.
    pub fn code_address(&self) -> (r: Address)
        ensures
            r == self@.self_address,
    {
        self.self_address
    }

    /// Account-code inspector: the code stored at `a`.  The host keeps only
    /// the caller's code; every other account reads as empty.
    pub fn account_code(&self, a: Address) -> (r: Vec<u8>)
        ensures
            r@ == account_code_at(self@, a),
    {
        if a == self.caller {
            clone_bytes(&self.caller_code)
        } else {
            Vec::new()
        }
    }

    /// Gas accountant: charge `cost`, failing without a state change when
    /// less than `cost` remains.
    pub fn record_cost(&mut self, cost: u64) -> (r: Result<(), ExitErrorKind>)
        ensures
            cost <= old(self)@.gas ==> r == Ok::<(), ExitErrorKind>(())
                && final(self)@ == (HostView { gas: (old(self)@.gas - cost) as u64, ..old(self)@ }),
            cost > old(self)@.gas ==> r == Err::<(), ExitErrorKind>(ExitErrorKind::OutOfGas)
                && final(self)@ == old(self)@,
    {
        if cost <= self.gas {
            self.gas = self.gas - cost;
            Ok(())
        } else {
            Err(ExitErrorKind::OutOfGas)
        }
    }

    /// Event emitter: charge the log's cost, then append it to the trace;
    /// fails without a state change when the cost exceeds what remains.
    pub fn emit_log(&mut self, log: Log) -> (r: Result<(), ExitErrorKind>)
        ensures
            final(self)@ == emit_outcome(old(self)@, log@).0,
            r == if emit_outcome(old(self)@, log@).1 {
                Ok::<(), ExitErrorKind>(())
            } else {
                Err::<(), ExitErrorKind>(ExitErrorKind::OutOfGas)
            },
    {
        let c128: u128 = log_cost_u128(&self.schedule, log.data.len());
        if c128 <= self.gas as u128 {
            self.gas = self.gas - (c128 as u64);
            self.logs.push(log);
            proof {
                assert(self@.logs =~= old(self)@.logs.push(log@));
                assert(self@ =~= emit_outcome(old(self)@, log@).0);
            }
            Ok(())
        } else {
            Err(ExitErrorKind::OutOfGas)
        }
    }

    /// Call executor: perform one sub-call with the given stipend.  The
    /// exit, output and gas usage come from the script; the gas usage is
    /// capped by the stipend and by the gas remaining.  The call is
    /// appended to the trace.
    pub fn call(
        &mut self,
        target: Address,
        transfer: bool,
        value: Word256,
        payload: Vec<u8>,
        gas_limit: u64,
    ) -> (r: (SubcallExit, Vec<u8>))
        ensures
            ({
                let b = script_at(old(self)@, old(self)@.calls.len() as int);
                let used = consumed_gas(b.gas_used, gas_limit, old(self)@.gas);
                &&& final(self)@ == (HostView {
                    gas: (old(self)@.gas - used) as u64,
                    calls: old(self)@.calls.push(CallView {
                        target,
                        value,
                        with_transfer: transfer,
                        payload: payload@,
                        gas_limit,
                    }),
                    ..old(self)@
                })
                &&& r.0 == b.exit
                &&& r.1@ == b.output
            }),
    {
        let n = self.calls.len();
        let (exit, output, gas_used) = if n < self.script.len() {
            let b = &self.script[n];
            (b.exit, clone_bytes(&b.output), b.gas_used)
        } else {
            (SubcallExit::Succeed, Vec::new(), 0u64)
        };
        let cap = if gas_limit < self.gas { gas_limit } else { self.gas };
        let used = if gas_used < cap { gas_used } else { cap };
        self.gas = self.gas - used;
        self.calls.push(CallRecord { target, value, with_transfer: transfer, payload, gas_limit });
        proof {
            assert(self@.calls =~= old(self)@.calls.push(CallView {
                target,
                value,
                with_transfer: transfer,
                payload: payload@,
                gas_limit,
            }));
            assert(self@ =~= (HostView {
                gas: self@.gas,
                calls: self@.calls,
                ..old(self)@
            }));
        }
        (exit, output)
    }
}

/// The code stored at `a`, as `Host::account_code` reads it.
pub open spec fn account_code_at(v: HostView, a: Address) -> Seq<u8> {
    if a.bytes@ == v.caller.bytes@ {
        v.caller_code
    } else {
        Seq::empty()
    }
}

/// Computes the cost of a single-topic log over 128-bit integers, where it
/// cannot overflow.
fn log_cost_u128(s: &CostSchedule, data_len: usize) -> (r: u128)
    ensures
        r == log_cost(*s, data_len as nat),
{
    proof {
        vstd::arithmetic::mul::lemma_mul_upper_bound(
            s.log_data_byte as int,
            u64::MAX as int,
            data_len as int,
            u64::MAX as int,
        );
    }
    s.log_base as u128 + s.log_topic as u128 + s.log_data_byte as u128 * (data_len as u128)
}

} // verus!
