use ink_dispatch::accounts::{Account, AccountStore, EnvError};
use ink_dispatch::codec::{encode, ArgType, Value};
use ink_dispatch::env::{Block, ChainSpec, EmittedEvent, EnvInstance, ExecContext, ReturnFlags};

const CONTRACT: u64 = 7;
const ALICE: u64 = 1;
const BOB: u64 = 2;

fn make_env(contract_balance: u128, gas_price: u128, call_data: Vec<u8>) -> EnvInstance {
    let mut accounts = AccountStore::new();
    accounts.insert(CONTRACT, Account::new_contract(contract_balance, 50));
    accounts.insert(ALICE, Account::new_user(300));
    let ctx = ExecContext {
        caller: ALICE,
        callee: CONTRACT,
        transferred_value: 12,
        gas: 5000,
        call_data,
        output: None,
    };
    let block = Block { number: 42, timestamp: 1_600_000_000, entropy: [3u8; 32] };
    let spec = ChainSpec { gas_price, minimum_balance: 10, tombstone_deposit: 20 };
    EnvInstance::new(accounts, ctx, block, spec).unwrap()
}

fn hex(bytes: &[u8]) -> String {
    bytes.iter().map(|b| format!("{:02x}", b)).collect()
}

#[test]
fn transfer_moves_balance_and_conserves_the_sum() {
    let mut env = make_env(1000, 1, vec![]);
    let before = env.accounts.balance_of(CONTRACT) + env.accounts.balance_of(ALICE);
    assert_eq!(env.transfer(ALICE, 400), Ok(()));
    assert_eq!(env.accounts.balance_of(CONTRACT), 600);
    assert_eq!(env.accounts.balance_of(ALICE), 700);
    assert_eq!(env.accounts.balance_of(CONTRACT) + env.accounts.balance_of(ALICE), before);
    assert_eq!(env.balance(), 600);
}

#[test]
fn transfer_of_whole_balance_succeeds() {
    let mut env = make_env(1000, 1, vec![]);
    assert_eq!(env.transfer_impl(ALICE, 1000), Ok(()));
    assert_eq!(env.balance(), 0);
    assert_eq!(env.accounts.balance_of(ALICE), 1300);
}

#[test]
fn transfer_creates_the_destination() {
    let mut env = make_env(1000, 1, vec![]);
    assert!(!env.accounts.contains(BOB));
    assert_eq!(env.transfer(BOB, 1), Ok(()));
    assert!(env.accounts.contains(BOB));
    assert_eq!(env.accounts.balance_of(BOB), 1);
    assert!(!env.accounts.get_account(BOB).unwrap().is_contract);
}

#[test]
fn transfer_beyond_balance_fails_and_changes_nothing() {
    let mut env = make_env(1000, 1, vec![]);
    assert_eq!(env.transfer(ALICE, 1001), Err(EnvError::TransferFailed));
    assert_eq!(env.accounts.balance_of(CONTRACT), 1000);
    assert_eq!(env.accounts.balance_of(ALICE), 300);
    assert_eq!(env.transfer(BOB, 5000), Err(EnvError::TransferFailed));
    assert!(!env.accounts.contains(BOB));
}

#[test]
fn transfer_that_would_overflow_the_destination_fails() {
    let mut env = make_env(1000, 1, vec![]);
    env.accounts.insert(BOB, Account::new_user(u128::MAX - 5));
    assert_eq!(env.transfer(BOB, 6), Err(EnvError::TransferFailed));
    assert_eq!(env.accounts.balance_of(BOB), u128::MAX - 5);
    assert_eq!(env.balance(), 1000);
    assert_eq!(env.transfer(BOB, 5), Ok(()));
    assert_eq!(env.accounts.balance_of(BOB), u128::MAX);
}

#[test]
fn transfer_to_oneself_keeps_the_balance() {
    let mut env = make_env(1000, 1, vec![]);
    assert_eq!(env.transfer(CONTRACT, 300), Ok(()));
    assert_eq!(env.balance(), 1000);
    assert_eq!(env.transfer(CONTRACT, 1001), Err(EnvError::TransferFailed));
}

#[test]
fn store_transfer_between_two_users() {
    let mut store = AccountStore::new();
    store.insert(ALICE, Account::new_user(10));
    assert_eq!(store.transfer(ALICE, BOB, 4), Ok(()));
    assert_eq!(store.balance_of(ALICE), 6);
    assert_eq!(store.balance_of(BOB), 4);
    assert_eq!(store.transfer(ALICE, BOB, 7), Err(EnvError::TransferFailed));
}

#[test]
fn environment_needs_a_contract_callee() {
    let mut accounts = AccountStore::new();
    accounts.insert(ALICE, Account::new_user(1));
    let ctx = ExecContext { caller: ALICE, callee: ALICE, transferred_value: 0, gas: 0, call_data: vec![], output: None };
    let block = Block { number: 0, timestamp: 0, entropy: [0u8; 32] };
    let spec = ChainSpec { gas_price: 0, minimum_balance: 0, tombstone_deposit: 0 };
    assert!(EnvInstance::new(accounts, ctx, block, spec).is_none());
}

#[test]
fn storage_set_get_and_clear() {
    let mut env = make_env(1000, 1, vec![]);
    assert_eq!(env.get_contract_storage(5, ArgType::U32), Ok(None));
    env.set_contract_storage(5, Value::U32(77));
    assert_eq!(env.get_contract_storage(5, ArgType::U32), Ok(Some(Value::U32(77))));
    assert_eq!(env.get_contract_storage(5, ArgType::U8), Ok(Some(Value::U8(77))));
    assert_eq!(env.get_contract_storage(5, ArgType::U64), Err(EnvError::DecodeFailed));
    env.set_contract_storage(5, Value::U16(3));
    assert_eq!(env.get_contract_storage(5, ArgType::U16), Ok(Some(Value::U16(3))));
    assert_eq!(env.callee_account().storage.get(&5), Some(&vec![3, 0]));
    env.clear_contract_storage(5);
    assert_eq!(env.get_contract_storage(5, ArgType::U16), Ok(None));
    env.clear_contract_storage(5);
    assert_eq!(env.get_contract_storage(5, ArgType::U16), Ok(None));
}

#[test]
fn stored_byte_that_is_not_a_bool_fails_to_decode() {
    let mut env = make_env(1000, 1, vec![]);
    env.set_contract_storage(1, Value::U8(2));
    assert_eq!(env.get_contract_storage(1, ArgType::Bool), Err(EnvError::DecodeFailed));
}

#[test]
fn decode_input_reads_arguments_after_selector() {
    let mut data = vec![0xAB, 0xCD, 0xEF, 0x01];
    data.extend(encode(Value::U32(41)));
    data.push(1);
    let env = make_env(1000, 1, data);
    assert_eq!(env.decode_input(&[ArgType::U32, ArgType::Bool]), Ok(vec![Value::U32(41), Value::Bool(true)]));
    assert_eq!(env.decode_input(&[ArgType::U64, ArgType::U64]), Err(EnvError::DecodeFailed));
    let short = make_env(1000, 1, vec![1, 2]);
    assert_eq!(short.decode_input(&[]), Err(EnvError::DecodeFailed));
}

#[test]
fn return_value_records_output_and_flags() {
    let mut env = make_env(1000, 1, vec![]);
    let halt = env.return_value(ReturnFlags { reverted: true }, Some(Value::U32(42)));
    assert_eq!(halt.flags.into_u32(), 1);
    assert_eq!(halt.output, vec![42, 0, 0, 0]);
    assert_eq!(env.exec_context.output, Some(vec![42, 0, 0, 0]));
    let halt = env.return_value(ReturnFlags { reverted: false }, None);
    assert_eq!(halt.flags.into_u32(), 0);
    assert_eq!(env.exec_context.output, Some(vec![]));
}

#[test]
fn weight_to_fee_multiplies_and_saturates() {
    let env = make_env(1000, 3, vec![]);
    assert_eq!(env.weight_to_fee(7), 21);
    assert_eq!(env.weight_to_fee(0), 0);
    let big = make_env(1000, u128::MAX / 2, vec![]);
    assert_eq!(big.weight_to_fee(2), u128::MAX - 1);
    assert_eq!(big.weight_to_fee(3), u128::MAX);
}

#[test]
fn queries_read_context_block_and_chain() {
    let env = make_env(1000, 1, vec![]);
    assert_eq!(env.caller(), ALICE);
    assert_eq!(env.account_id(), CONTRACT);
    assert_eq!(env.transferred_balance(), 12);
    assert_eq!(env.gas_left(), 5000);
    assert_eq!(env.block_number(), 42);
    assert_eq!(env.block_timestamp(), 1_600_000_000);
    assert_eq!(env.minimum_balance(), 10);
    assert_eq!(env.tombstone_deposit(), 20);
    assert_eq!(env.balance(), 1000);
    assert_eq!(env.rent_allowance(), 50);
}

#[test]
fn rent_allowance_can_be_set() {
    let mut env = make_env(1000, 1, vec![]);
    env.set_rent_allowance(999);
    assert_eq!(env.rent_allowance(), 999);
    assert_eq!(env.balance(), 1000);
}

#[test]
fn callee_account_mut_changes_the_callee() {
    let mut env = make_env(1000, 1, vec![]);
    env.callee_account_mut().balance = 5;
    assert_eq!(env.balance(), 5);
    assert_eq!(env.accounts.balance_of(ALICE), 300);
}

#[test]
fn events_are_recorded_in_order() {
    let mut env = make_env(1000, 1, vec![]);
    env.emit_event(vec![[1u8; 32]], vec![1, 2]);
    env.emit_event(vec![], vec![3]);
    assert_eq!(env.emitted_events.len(), 2);
    let EmittedEvent { topics, data } = &env.emitted_events[0];
    assert_eq!(topics, &vec![[1u8; 32]]);
    assert_eq!(data, &vec![1, 2]);
    assert_eq!(env.emitted_events[1].data, vec![3]);
}

#[test]
fn contract_to_contract_operations_are_unsupported() {
    let mut env = make_env(1000, 1, vec![]);
    assert_eq!(env.invoke_contract(ALICE, &[]), Err(EnvError::Unsupported));
    assert_eq!(env.eval_contract(ALICE, &[1]), Err(EnvError::Unsupported));
    assert_eq!(env.instantiate_contract([0u8; 32], &[]), Err(EnvError::Unsupported));
    assert_eq!(env.terminate_contract(ALICE), Err(EnvError::Unsupported));
    assert_eq!(env.restore_contract(ALICE, [0u8; 32], 0, &[1, 2]), Err(EnvError::Unsupported));
    assert_eq!(env.balance(), 1000);
}

#[test]
fn hashes_of_empty_input_have_known_values() {
    let mut out32 = [0u8; 32];
    EnvInstance::hash_keccak_256(&[], &mut out32);
    assert_eq!(hex(&out32), "c5d2460186f7233c927e7db2dcc703c0e500b653ca82273b7bfad8045d85a470");
    EnvInstance::hash_sha2_256(&[], &mut out32);
    assert_eq!(hex(&out32), "e3b0c44298fc1c149afbf4c8996fb92427ae41e4649b934ca495991b7852b855");
    EnvInstance::hash_blake2_256(&[], &mut out32);
    assert_eq!(hex(&out32), "0e5751c026e543b2e8ab2eb06099daa1d1e5df47778f7787faab45cdf12fe3a8");
    let mut out16 = [0u8; 16];
    EnvInstance::hash_blake2_128(&[], &mut out16);
    assert_eq!(hex(&out16), "cae66941d9efbd404e4d88758ea67670");
}

#[test]
fn hashes_are_deterministic_for_any_length() {
    for len in [0usize, 1, 31, 32, 33, 1000] {
        let input = vec![0x5Au8; len];
        let (mut a, mut b) = ([0u8; 32], [1u8; 32]);
        EnvInstance::hash_keccak_256(&input, &mut a);
        EnvInstance::hash_keccak_256(&input, &mut b);
        assert_eq!(a, b);
        EnvInstance::hash_blake2_256(&input, &mut a);
        EnvInstance::hash_blake2_256(&input, &mut b);
        assert_eq!(a, b);
        EnvInstance::hash_sha2_256(&input, &mut a);
        EnvInstance::hash_sha2_256(&input, &mut b);
        assert_eq!(a, b);
        let (mut c, mut d) = ([0u8; 16], [1u8; 16]);
        EnvInstance::hash_blake2_128(&input, &mut c);
        EnvInstance::hash_blake2_128(&input, &mut d);
        assert_eq!(c, d);
    }
}

#[test]
fn random_hashes_entropy_and_subject() {
    let env = make_env(1000, 1, vec![]);
    let a = env.random(b"subject");
    assert_eq!(a, env.random(b"subject"));
    assert_ne!(a, env.random(b"other"));
    let mut input = vec![3u8; 32];
    input.extend_from_slice(b"subject");
    let mut expected = [0u8; 32];
    EnvInstance::hash_blake2_256(&input, &mut expected);
    assert_eq!(a, expected);
}
