//! A deterministic test harness around the dispatcher: a handful of named
//! accounts mapped to and from addresses, a precompile set that routes the
//! dispatcher's own address to it, and a minimal chain state that tests
//! build, roll forward and read events from.

use vstd::prelude::*;
use crate::types::Address;
use crate::types::Log;
use crate::types::LogView;
use crate::types::PrecompileResult;
use crate::types::clone_bytes;
use crate::types::low_u64_be_bytes;
use crate::types::repeat_bytes;
use crate::host::Host;
use crate::batch::BatchInput;
use crate::batch::BatchPrecompile;
use crate::model::Action;
use crate::model::batch_spec;

verus! {

/// The address the test precompile set routes to the batch dispatcher.
pub const PRECOMPILE_ADDRESS: u64 = 1;

/// The accounts the test harness knows.
#[derive(Clone, Copy, PartialEq, Eq, Structural, Debug)]
pub enum Account {
    Alice,
    Bob,
    Charlie,
    Bogus,
    Precompile,
}

impl Default for Account {
    fn default() -> (r: Self)
        ensures
            r == Account::Bogus,
    {
        Account::Bogus
    }
}

/// The account a 160-bit address maps to: the three named accounts and the
/// precompile have fixed addresses; every other address is `Bogus`.
pub open spec fn account_of(a: Address) -> Account {
    if a.bytes@ == repeat_bytes(0xAA) {
        Account::Alice
    } else if a.bytes@ == repeat_bytes(0xBB) {
        Account::Bob
    } else if a.bytes@ == repeat_bytes(0xCC) {
        Account::Charlie
    } else if a.bytes@ == low_u64_be_bytes(PRECOMPILE_ADDRESS) {
        Account::Precompile
    } else {
        Account::Bogus
    }
}

/// The bytes of the address an account maps back to; `Bogus` maps to the
/// zero address.
pub open spec fn address_bytes_of(acc: Account) -> Seq<u8> {
    match acc {
        Account::Alice => repeat_bytes(0xAA),
        Account::Bob => repeat_bytes(0xBB),
        Account::Charlie => repeat_bytes(0xCC),
        Account::Precompile => low_u64_be_bytes(PRECOMPILE_ADDRESS),
        Account::Bogus => repeat_bytes(0),
    }
}

impl Account {
    /// Maps an address to the account it stands for.
    pub fn into_account_id(h160_account: Address) -> (r: Account)
        ensures
            r == account_of(h160_account),
    {
        if h160_account == Address::repeat_byte(0xAA) {
            Account::Alice
        } else if h160_account == Address::repeat_byte(0xBB) {
            Account::Bob
        } else if h160_account == Address::repeat_byte(0xCC) {
            Account::Charlie
        } else if h160_account == Address::from_low_u64_be(PRECOMPILE_ADDRESS) {
            Account::Precompile
        } else {
            Account::Bogus
        }
    }

    /// Maps an account back to its address.
    pub fn to_address(self) -> (r: Address)
        ensures
            r.bytes@ == address_bytes_of(self),
    {
        match self {
            Account::Alice => Address::repeat_byte(0xAA),
            Account::Bob => Address::repeat_byte(0xBB),
            Account::Charlie => Address::repeat_byte(0xCC),
            Account::Precompile => Address::from_low_u64_be(PRECOMPILE_ADDRESS),
            Account::Bogus => Address::zero(),
        }
    }
}

impl From<Address> for Account {
    fn from(x: Address) -> Account {
        Account::into_account_id(x)
    }
}

impl vstd::std_specs::convert::FromSpecImpl<Address> for Account {
    open spec fn obeys_from_spec() -> bool {
        true
    }

    open spec fn from_spec(x: Address) -> Account {
        account_of(x)
    }
}

impl From<Account> for Address {
    fn from(value: Account) -> Address {
        value.to_address()
    }
}

impl vstd::std_specs::convert::FromSpecImpl<Account> for Address {
    open spec fn obeys_from_spec() -> bool {
        false
    }

    open spec fn from_spec(v: Account) -> Address {
        vstd::pervasive::arbitrary()
    }
}

fn hash(a: u64) -> (r: Address)
    ensures
        r.bytes@ == low_u64_be_bytes(a),
{
    Address::from_low_u64_be(a)
}

/// The test precompile set: exactly one precompile, the batch dispatcher,
/// at `PRECOMPILE_ADDRESS`.
#[derive(Clone, Copy, Debug)]
pub struct Precompiles;

impl Default for Precompiles {
    fn default() -> (r: Self)
        ensures
            r == Precompiles,
    {
        Precompiles
    }
}

impl Precompiles {
    /// Runs the precompile at the host's code address, if there is one:
    /// the batch dispatcher at `PRECOMPILE_ADDRESS`, nothing anywhere
    /// else.
    pub fn execute(&self, host: &mut Host, action: Action, input: &BatchInput) -> (r: Option<
        PrecompileResult,
    >)
        ensures
            (match r {
                Some(res) => old(host)@.self_address.bytes@ == low_u64_be_bytes(PRECOMPILE_ADDRESS)
                    && final(host)@ == batch_spec(old(host)@, action, input@).0 && res@
                    == batch_spec(old(host)@, action, input@).1,
                None => old(host)@.self_address.bytes@ != low_u64_be_bytes(PRECOMPILE_ADDRESS)
                    && final(host)@ == old(host)@,
            }),
    {
        let a = host.code_address();
        if a == hash(PRECOMPILE_ADDRESS) {
            Some(BatchPrecompile::batch(host, action, input))
        } else {
            None
        }
    }

    /// Whether an address belongs to the precompile set.
    pub fn is_precompile(&self, address: Address) -> (r: bool)
        ensures
            r == (address.bytes@ == low_u64_be_bytes(PRECOMPILE_ADDRESS)),
    {
        address == hash(PRECOMPILE_ADDRESS)
    }
}

/// One event the test chain records.
#[derive(Clone, PartialEq, Eq, Debug)]
pub enum Event {
    EvmLog(Log),
}

/// Mathematical view of an `Event`.
#[verifier::ext_equal]
pub enum EventView {
    EvmLog(LogView),
}

impl View for Event {
    type V = EventView;

    open spec fn view(&self) -> EventView {
        match self {
            Event::EvmLog(l) => EventView::EvmLog(l@),
        }
    }
}

/// The views of a sequence of events.
pub open spec fn event_views(s: Seq<Event>) -> Seq<EventView> {
    s.map_values(|e: Event| e@)
}

/// A minimal chain state for tests: a block number, the endowed balances,
/// the collective members, and the events recorded so far.
pub struct TestChain {
    pub block_number: u64,
    pub balances: Vec<(Account, u128)>,
    pub collective: Vec<Account>,
    pub events: Vec<Event>,
}

/// Mathematical view of a `TestChain`.
#[verifier::ext_equal]
pub struct TestChainView {
    pub block_number: u64,
    pub balances: Seq<(Account, u128)>,
    pub collective: Seq<Account>,
    pub events: Seq<EventView>,
}

impl View for TestChain {
    type V = TestChainView;

    open spec fn view(&self) -> TestChainView {
        TestChainView {
            block_number: self.block_number,
            balances: self.balances@,
            collective: self.collective@,
            events: event_views(self.events@),
        }
    }
}

impl TestChain {
    /// Appends one event to the record.
    pub fn note_event(&mut self, e: Event)
        ensures
            final(self)@ == (TestChainView {
                events: old(self)@.events.push(e@),
                ..old(self)@
            }),
    {
        self.events.push(e);
        proof {
            assert(self@.events =~= old(self)@.events.push(e@));
            assert(self@ =~= (TestChainView { events: self@.events, ..old(self)@ }));
        }
    }
}

/// Builds a test chain prepopulated with balances and collective members.
pub struct ExtBuilder {
    /// Endowed accounts with balances.
    pub balances: Vec<(Account, u128)>,
    /// Collective members.
    pub collective: Vec<Account>,
}

impl Default for ExtBuilder {
    fn default() -> (r: ExtBuilder)
        ensures
            r.balances@ == Seq::<(Account, u128)>::empty(),
            r.collective@ == seq![Account::Bob, Account::Charlie],
    {
        let mut collective: Vec<Account> = Vec::new();
        collective.push(Account::Bob);
        collective.push(Account::Charlie);
        proof {
            assert(collective@ =~= seq![Account::Bob, Account::Charlie]);
        }
        ExtBuilder { balances: Vec::new(), collective }
    }
}

impl ExtBuilder {
    /// Fund some accounts before starting the test.
    pub fn with_balances(self, balances: Vec<(Account, u128)>) -> (r: Self)
        ensures
            r.balances@ == balances@,
            r.collective@ == self.collective@,
    {
        ExtBuilder { balances, ..self }
    }

    /// Set members of the collective.
    pub fn with_collective(self, collective: Vec<Account>) -> (r: Self)
        ensures
            r.balances@ == self.balances@,
            r.collective@ == collective@,
    {
        ExtBuilder { collective, ..self }
    }

    /// Build the test chain for use in tests, at block one with no event
    /// recorded yet.
    pub fn build(self) -> (c: TestChain)
        ensures
            c@.block_number == 1,
            c@.balances == self.balances@,
            c@.collective == self.collective@,
            c@.events == Seq::<EventView>::empty(),
    {
        let c = TestChain {
            block_number: 1,
            balances: self.balances,
            collective: self.collective,
            events: Vec::new(),
        };
        proof {
            assert(c@.events =~= Seq::<EventView>::empty());
        }
        c
    }
}

/// Rolls the chain forward to block `n`, one block at a time; a chain
/// already at or past `n` is left as it is.
pub fn roll_to(chain: &mut TestChain, n: u64)
    ensures
        final(chain)@ == (TestChainView {
            block_number: if old(chain)@.block_number < n {
                n
            } else {
                old(chain)@.block_number
            },
            ..old(chain)@
        }),
{
    while chain.block_number < n
        invariant
            chain@ == (TestChainView {
                block_number: chain@.block_number,
                ..old(chain)@
            }),
            old(chain)@.block_number <= chain@.block_number,
            old(chain)@.block_number < n ==> chain@.block_number <= n,
            old(chain)@.block_number >= n ==> chain@.block_number == old(chain)@.block_number,
        decreases n - chain.block_number,
    {
        chain.block_number = chain.block_number + 1;
    }
    proof {
        assert(chain@ =~= (TestChainView {
            block_number: if old(chain)@.block_number < n {
                n
            } else {
                old(chain)@.block_number
            },
            ..old(chain)@
        }));
    }
}

/// The events the chain has recorded, oldest first.
pub fn events(chain: &TestChain) -> (r: Vec<Event>)
    ensures
        event_views(r@) == chain@.events,
{
    let mut r: Vec<Event> = Vec::new();
    let mut i: usize = 0;
    while i < chain.events.len()
        invariant
            i <= chain.events.len(),
            event_views(r@) == chain@.events.subrange(0, i as int),
        decreases chain.events.len() - i,
    {
        let copied = match &chain.events[i] {
            Event::EvmLog(l) => Event::EvmLog(
                Log { address: l.address, topic: l.topic, data: clone_bytes(&l.data) },
            ),
        };
        proof {
            assert(copied@ == chain.events@[i as int]@);
        }
        let ghost r0 = r@;
        let ghost cv = copied@;
        r.push(copied);
        proof {
            assert(r@ == r0.push(copied));
            assert(event_views(r0).len() == r0.len());
            assert(r0.len() == i);
            assert(r@.len() == i + 1);
            assert(event_views(r@) =~= chain@.events.subrange(0, i + 1)) by {
                assert forall|k: int| 0 <= k < i + 1 implies event_views(r@)[k] == chain@.events[
                    k
                ] by {
                    if k < i {
                        assert(event_views(r@)[k] == r@[k]@);
                        assert(r@[k] == r0[k]);
                        assert(event_views(r0)[k] == chain@.events.subrange(0, i as int)[k]);
                    } else {
                        assert(event_views(r@)[k] == r@[k]@);
                        assert(r@[k]@ == cv);
                        assert(chain@.events[k] == chain.events@[k]@);
                    }
                }
            }
        }
        i = i + 1;
    }
    proof {
        assert(chain@.events.subrange(0, chain.events@.len() as int) =~= chain@.events);
    }
    r
}

} // verus!
