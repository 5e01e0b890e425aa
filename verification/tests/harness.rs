//! Tests of the deterministic test harness: the account/address mapping,
//! the precompile set, the chain builder, and the host capabilities.

use batch_precompile::Action;
use batch_precompile::Address;
use batch_precompile::BatchInput;
use batch_precompile::CostSchedule;
use batch_precompile::ExitErrorKind;
use batch_precompile::Host;
use batch_precompile::PrecompileResult;
use batch_precompile::Word256;
use batch_precompile::log_subcall_succeeded;
use batch_precompile::mock::Account;
use batch_precompile::mock::Event;
use batch_precompile::mock::ExtBuilder;
use batch_precompile::mock::PRECOMPILE_ADDRESS;
use batch_precompile::mock::Precompiles;
use batch_precompile::mock::events;
use batch_precompile::mock::roll_to;

fn schedule() -> CostSchedule {
    CostSchedule {
        db_read: 10,
        call_base: 700,
        call_value_transfer: 9000,
        log_base: 375,
        log_topic: 375,
        log_data_byte: 8,
    }
}

#[test]
fn test_account_id_mapping_works() {
    // Bidirectional conversions for normal accounts
    assert_eq!(
        Account::Alice,
        Account::into_account_id(Account::Alice.into())
    );
    assert_eq!(Account::Bob, Account::into_account_id(Account::Bob.into()));
    assert_eq!(
        Account::Charlie,
        Account::into_account_id(Account::Charlie.into())
    );

    // Bidirectional conversion between bogus and default H160
    assert_eq!(Account::Bogus, Account::into_account_id(Address::zero()));
    assert_eq!(Address::zero(), Account::Bogus.into());

    // All other H160s map to bogus
    assert_eq!(Account::Bogus, Account::into_account_id(Address::zero()));
    assert_eq!(
        Account::Bogus,
        Account::into_account_id(Address::repeat_byte(0x12))
    );
    assert_eq!(
        Account::Bogus,
        Account::into_account_id(Address::repeat_byte(0xFF))
    );
}

#[test]
fn precompile_account_maps_to_its_address() {
    assert_eq!(
        Account::Precompile,
        Account::into_account_id(Address::from_low_u64_be(PRECOMPILE_ADDRESS))
    );
    assert_eq!(
        Address::from_low_u64_be(PRECOMPILE_ADDRESS),
        Account::Precompile.into()
    );
}

#[test]
fn precompile_set_routes_only_its_own_address() {
    let set = Precompiles::default();
    assert!(set.is_precompile(Address::from_low_u64_be(PRECOMPILE_ADDRESS)));
    assert!(!set.is_precompile(Address::repeat_byte(0xAA)));

    // At the precompile address, the batch dispatcher runs.
    let mut host = Host::new(
        5000,
        Address::repeat_byte(0xAA),
        Address::from_low_u64_be(PRECOMPILE_ADDRESS),
        Vec::new(),
        schedule(),
        vec![],
    );
    let inp = BatchInput::try_new(vec![], vec![], vec![], vec![]).unwrap();
    let r = set.execute(&mut host, Action::BatchAll, &inp);
    assert_eq!(r, Some(PrecompileResult::Succeed(vec![])));
    assert_eq!(host.remaining_gas(), 4990);

    // Anywhere else, nothing runs and nothing is charged.
    let mut host = Host::new(
        5000,
        Address::repeat_byte(0xAA),
        Address::repeat_byte(0x77),
        Vec::new(),
        schedule(),
        vec![],
    );
    let r = set.execute(&mut host, Action::BatchAll, &inp);
    assert_eq!(r, None);
    assert_eq!(host.remaining_gas(), 5000);
}

#[test]
fn ext_builder_builds_the_requested_chain() {
    let chain = ExtBuilder::default().build();
    assert_eq!(chain.block_number, 1);
    assert_eq!(chain.balances, vec![]);
    assert_eq!(chain.collective, vec![Account::Bob, Account::Charlie]);
    assert_eq!(events(&chain), vec![]);

    let chain = ExtBuilder::default()
        .with_balances(vec![(Account::Alice, 1000), (Account::Bob, 50)])
        .with_collective(vec![Account::Alice])
        .build();
    assert_eq!(chain.balances, vec![(Account::Alice, 1000), (Account::Bob, 50)]);
    assert_eq!(chain.collective, vec![Account::Alice]);
}

#[test]
fn roll_to_advances_but_never_rewinds() {
    let mut chain = ExtBuilder::default().build();
    roll_to(&mut chain, 5);
    assert_eq!(chain.block_number, 5);
    roll_to(&mut chain, 3);
    assert_eq!(chain.block_number, 5);
}

#[test]
fn noted_events_are_read_back_in_order() {
    let mut chain = ExtBuilder::default().build();
    let l0 = log_subcall_succeeded(Address::from_low_u64_be(PRECOMPILE_ADDRESS), 0);
    let l1 = log_subcall_succeeded(Address::from_low_u64_be(PRECOMPILE_ADDRESS), 1);
    chain.note_event(Event::EvmLog(l0.clone()));
    chain.note_event(Event::EvmLog(l1.clone()));
    assert_eq!(events(&chain), vec![Event::EvmLog(l0), Event::EvmLog(l1)]);
}

#[test]
fn host_capabilities_account_exactly() {
    let mut host = Host::new(
        2000,
        Address::repeat_byte(0xAA),
        Address::from_low_u64_be(1),
        vec![0xde, 0xad],
        schedule(),
        vec![],
    );
    assert_eq!(host.remaining_gas(), 2000);
    assert_eq!(host.caller(), Address::repeat_byte(0xAA));
    assert_eq!(host.code_address(), Address::from_low_u64_be(1));

    // Only the caller's account holds code.
    assert_eq!(host.account_code(Address::repeat_byte(0xAA)), vec![0xde, 0xad]);
    assert_eq!(host.account_code(Address::repeat_byte(0xBB)), Vec::<u8>::new());

    // Charging succeeds while gas lasts, then fails without a change.
    assert_eq!(host.record_cost(1500), Ok(()));
    assert_eq!(host.remaining_gas(), 500);
    assert_eq!(host.record_cost(501), Err(ExitErrorKind::OutOfGas));
    assert_eq!(host.remaining_gas(), 500);

    // A one-topic log with a 32-byte word costs 375 + 375 + 8 * 32.
    let log = log_subcall_succeeded(Address::from_low_u64_be(1), 7);
    assert_eq!(log.data.len(), 32);
    let mut host = Host::new(
        2000,
        Address::repeat_byte(0xAA),
        Address::from_low_u64_be(1),
        Vec::new(),
        schedule(),
        vec![],
    );
    assert_eq!(host.emit_log(log), Ok(()));
    assert_eq!(host.remaining_gas(), 994);
    assert_eq!(host.logs.len(), 1);
}

#[test]
fn index_words_encode_big_endian() {
    let small = log_subcall_succeeded(Address::zero(), 5).data;
    let mut expected = vec![0u8; 32];
    expected[31] = 5;
    assert_eq!(small, expected);

    let wide = log_subcall_succeeded(Address::zero(), 0x0102).data;
    let mut expected = vec![0u8; 32];
    expected[30] = 1;
    expected[31] = 2;
    assert_eq!(wide, expected);
}

#[test]
fn inputs_over_the_boundary_limits_are_rejected() {
    assert!(BatchInput::try_new(vec![Address::zero(); 513], vec![], vec![], vec![]).is_none());
    assert!(BatchInput::try_new(vec![], vec![Word256::zero(); 513], vec![], vec![]).is_none());
    assert!(BatchInput::try_new(vec![], vec![], vec![vec![0u8; 65_537]], vec![]).is_none());
    assert!(BatchInput::try_new(vec![], vec![], vec![], vec![0u64; 513]).is_none());

    let accepted = BatchInput::try_new(
        vec![Address::zero(); 512],
        vec![Word256::zero(); 512],
        vec![vec![0u8; 65_536]],
        vec![0u64; 512],
    );
    assert!(accepted.is_some());
}

#[test]
fn entry_selectors_round_trip() {
    assert_eq!(Action::BatchSome.selector(), 0x79df4b9c);
    assert_eq!(Action::BatchSomeUntilFailure.selector(), 0xcf0491c7);
    assert_eq!(Action::BatchAll.selector(), 0x96e292b8);
    for action in [Action::BatchSome, Action::BatchSomeUntilFailure, Action::BatchAll] {
        assert_eq!(Action::from_selector(action.selector()), Some(action));
    }
    assert_eq!(Action::from_selector(0), None);
    assert_eq!(Action::from_selector(0xdeadbeef), None);
}

#[test]
fn word256_zero_test() {
    assert!(Word256::zero().is_zero());
    assert!(!Word256::from_u64(5).is_zero());
    assert_eq!(Word256::from_u64(5).lo, 5);
    assert_eq!(Word256::from_u64(5).hi, 0);
}
