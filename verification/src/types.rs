//! Core data shapes of the dispatcher: addresses, 256-bit values, sub-call
//! exit classifications, logs, and the host's gas cost schedule.

use vstd::prelude::*;

verus! {

/// A 160-bit account address, held as 20 raw bytes.
#[derive(Clone, Copy, Eq, Debug)]
pub struct Address {
    pub bytes: [u8; 20],
}

impl PartialEq for Address {
    fn eq(&self, o: &Address) -> (r: bool) {
        let mut j: usize = 0;
        while j < 20
            invariant
                j <= 20,
                forall|k: int| 0 <= k < j ==> self.bytes[k] == o.bytes[k],
            decreases 20 - j,
        {
            if self.bytes[j] != o.bytes[j] {
                return false;
            }
            j = j + 1;
        }
        proof {
            assert(self.bytes@ =~= o.bytes@);
        }
        true
    }
}

impl vstd::std_specs::cmp::PartialEqSpecImpl for Address {
    open spec fn obeys_eq_spec() -> bool {
        true
    }

    open spec fn eq_spec(&self, o: &Address) -> bool {
        self.bytes@ == o.bytes@
    }
}

/// The byte sequence of an address whose 20 bytes all equal `b`.
pub open spec fn repeat_bytes(b: u8) -> Seq<u8> {
    Seq::new(20, |j: int| b)
}

/// The byte sequence of an address whose low 8 bytes hold `v` big-endian
/// and whose high 12 bytes are zero.
pub open spec fn low_u64_be_bytes(v: u64) -> Seq<u8> {
    Seq::new(
        20,
        |j: int|
            if j < 12 {
                0u8
            } else {
                ((v as nat / pow256((19 - j) as nat)) % 256) as u8
            },
    )
}

impl Address {
    /// The address whose 20 bytes all equal `b`.
    pub fn repeat_byte(b: u8) -> (r: Address)
        ensures
            r.bytes@ == repeat_bytes(b),
    {
        let r = Address { bytes: [b; 20] };
        proof {
            assert(r.bytes@ =~= repeat_bytes(b));
        }
        r
    }

    /// The address whose low 8 bytes hold `v` big-endian and whose high
    /// 12 bytes are zero.
    pub fn from_low_u64_be(v: u64) -> (r: Address)
        ensures
            r.bytes@ == low_u64_be_bytes(v),
    {
        let mut bytes: [u8; 20] = [0; 20];
        let mut rest: u64 = v;
        let mut k: usize = 0;
        proof {
            assert(pow256(0) == 1);
            vstd::arithmetic::div_mod::lemma_div_basics(v as int);
        }
        while k < 8
            invariant
                k <= 8,
                rest == v as nat / pow256(k as nat),
                forall|j: int| 0 <= j < 12 ==> bytes[j] == 0,
                forall|j: int| 20 - k <= j < 20 ==> bytes[j] == (v as nat / pow256((19 - j) as nat)) % 256,
            decreases 8 - k,
        {
            proof {
                lemma_pow256_step(v as nat, k as nat);
            }
            bytes[19 - k] = (rest % 256) as u8;
            rest = rest / 256;
            k = k + 1;
        }
        proof {
            assert(bytes@ =~= low_u64_be_bytes(v));
        }
        Address { bytes }
    }

    /// The all-zero address.
    pub fn zero() -> (r: Address)
        ensures
            r.bytes@ == repeat_bytes(0),
    {
        let r = Address { bytes: [0; 20] };
        proof {
            assert(r.bytes@ =~= repeat_bytes(0));
        }
        r
    }
}

/// 256 raised to the power `k`.
pub open spec fn pow256(k: nat) -> nat
    decreases k,
{
    if k == 0 {
        1
    } else {
        256 * pow256((k - 1) as nat)
    }
}

proof fn lemma_pow256_step(v: nat, k: nat)
    ensures
        (v / pow256(k)) / 256 == v / pow256(k + 1),
        pow256(k) > 0,
    decreases k,
{
    if k == 0 {
    } else {
        lemma_pow256_step(v, (k - 1) as nat);
    }
    assert(pow256(k + 1) == 256 * pow256(k));
    vstd::arithmetic::div_mod::lemma_div_denominator(v as int, pow256(k) as int, 256);
}

/// An unsigned 256-bit integer, held as two 128-bit halves.
#[derive(Clone, Copy, PartialEq, Eq, Structural, Debug)]
pub struct Word256 {
    pub hi: u128,
    pub lo: u128,
}

impl Word256 {
    /// The zero value.
    pub fn zero() -> (r: Word256)
        ensures
            r == Word256::zero_spec(),
    {
        Word256 { hi: 0, lo: 0 }
    }

    pub open spec fn zero_spec() -> Word256 {
        Word256 { hi: 0, lo: 0 }
    }

    pub fn from_u64(v: u64) -> (r: Word256)
        ensures
            r == (Word256 { hi: 0, lo: v as u128 }),
    {
        Word256 { hi: 0, lo: v as u128 }
    }

    pub fn is_zero(&self) -> (r: bool)
        ensures
            r == (*self == Word256::zero_spec()),
    {
        self.hi == 0 && self.lo == 0
    }
}

/// The reason a sub-call or the whole batch failed in a recoverable or
/// unrecoverable way.  Kinds the dispatcher itself never produces are
/// carried through unchanged from the host.
#[derive(Clone, Copy, PartialEq, Eq, Structural, Debug)]
pub enum ExitErrorKind {
    OutOfGas,
    OutOfFund,
    CallTooDeep,
    Other,
}

/// The four-way classification of how a sub-call finished.
#[derive(Clone, Copy, PartialEq, Eq, Structural, Debug)]
pub enum SubcallExit {
    Succeed,
    Revert,
    Error(ExitErrorKind),
    Fatal(ExitErrorKind),
}

/// The dispatcher's own result: success with an output buffer, a revert
/// carrying its payload, a recoverable error, or a fatal condition.
#[derive(Clone, PartialEq, Eq, Debug)]
pub enum PrecompileResult {
    Succeed(Vec<u8>),
    Revert(Vec<u8>),
    Error(ExitErrorKind),
    Fatal(ExitErrorKind),
}

/// Mathematical view of a `PrecompileResult`.
#[verifier::ext_equal]
pub enum ResultView {
    Succeed(Seq<u8>),
    Revert(Seq<u8>),
    Error(ExitErrorKind),
    Fatal(ExitErrorKind),
}

impl View for PrecompileResult {
    type V = ResultView;

    open spec fn view(&self) -> ResultView {
        match self {
            PrecompileResult::Succeed(out) => ResultView::Succeed(out@),
            PrecompileResult::Revert(out) => ResultView::Revert(out@),
            PrecompileResult::Error(k) => ResultView::Error(*k),
            PrecompileResult::Fatal(k) => ResultView::Fatal(*k),
        }
    }
}

/// One log record: the emitting address, a single 32-byte topic, and a
/// data payload.  The dispatcher only ever emits single-topic logs.
#[derive(Clone, PartialEq, Eq, Debug)]
pub struct Log {
    pub address: Address,
    pub topic: [u8; 32],
    pub data: Vec<u8>,
}

/// Mathematical view of a `Log`.
#[verifier::ext_equal]
pub struct LogView {
    pub address: Address,
    pub topic: Seq<u8>,
    pub data: Seq<u8>,
}

impl View for Log {
    type V = LogView;

    open spec fn view(&self) -> LogView {
        LogView { address: self.address, topic: self.topic@, data: self.data@ }
    }
}

/// The host's fixed gas cost parameters: the protocol constants the
/// dispatcher needs to reserve gas for storage reads, sub-calls and logs.
#[derive(Clone, Copy, PartialEq, Eq, Structural, Debug)]
pub struct CostSchedule {
    /// Cost of one account-code storage read.
    pub db_read: u64,
    /// Base cost of performing one sub-call.
    pub call_base: u64,
    /// Surcharge on a sub-call that transfers a non-zero value.
    pub call_value_transfer: u64,
    /// Base cost of one log record.
    pub log_base: u64,
    /// Cost of each 32-byte topic of a log record.
    pub log_topic: u64,
    /// Cost of each byte of a log record's data payload.
    pub log_data_byte: u64,
}

/// Copies a byte vector.
pub fn clone_bytes(v: &Vec<u8>) -> (r: Vec<u8>)
    ensures
        r@ == v@,
{
    let mut r: Vec<u8> = Vec::new();
    let mut i: usize = 0;
    while i < v.len()
        invariant
            i <= v.len(),
            r@ == v@.subrange(0, i as int),
        decreases v.len() - i,
    {
        r.push(v[i]);
        proof {
            assert(r@ =~= v@.subrange(0, i + 1));
        }
        i = i + 1;
    }
    proof {
        assert(v@.subrange(0, v@.len() as int) =~= v@);
    }
    r
}

/// Gas cost of emitting a single-topic log with the given data length.
pub open spec fn log_cost(s: CostSchedule, data_len: nat) -> int {
    s.log_base + s.log_topic + s.log_data_byte * data_len
}

/// Gas cost of performing one sub-call, which depends only on whether the
/// sub-call carries a non-zero value transfer.
pub open spec fn call_cost(s: CostSchedule, value: Word256) -> int {
    if value == Word256::zero_spec() {
        s.call_base as int
    } else {
        s.call_base + s.call_value_transfer
    }
}

} // verus!
