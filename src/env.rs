//! The simulated off-chain environment: the account store, the current
//! execution context, the current block and the chain's configuration,
//! bundled into one explicitly constructed value.
use crate::accounts::{transfer_outcome, Account, AccountStore, AccountView, EnvError};
use crate::codec::{decode_args, decode_args_at, encode, encode_result, encode_output, decode_value, decode_value_at, encode_value, ArgType, Value};
use crate::hashing::{
    blake2_128, blake2_128_of, blake2_256, blake2_256_of, keccak_256, keccak_256_of, sha2_256,
    sha2_256_of,
};
use vstd::prelude::*;

verus! {

broadcast use vstd::std_specs::hash::group_hash_axioms;

/// The call being processed: who called whom, with what value, gas and
/// call data, and the output once the call has returned.
pub struct ExecContext {
    pub caller: u64,
    pub callee: u64,
    pub transferred_value: u128,
    pub gas: u128,
    pub call_data: Vec<u8>,
    pub output: Option<Vec<u8>>,
}

/// The block the call runs in.
pub struct Block {
    pub number: u64,
    pub timestamp: u64,
    pub entropy: [u8; 32],
}

/// Chain-wide configuration, fixed for a run.
pub struct ChainSpec {
    pub gas_price: u128,
    pub minimum_balance: u128,
    pub tombstone_deposit: u128,
}

/// An event recorded by `emit_event`.
pub struct EmittedEvent {
    pub topics: Vec<[u8; 32]>,
    pub data: Vec<u8>,
}

/// How a call ends: normally, or reverting its effects.
#[derive(Clone, Copy, Debug, PartialEq, Eq, Structural)]
pub struct ReturnFlags {
    pub reverted: bool,
}

impl ReturnFlags {
    /// The termination code of these flags: 1 for a revert, 0 otherwise.
    pub fn into_u32(self) -> (r: u32)
        ensures
            r == (if self.reverted { 1u32 } else { 0u32 }),
    {
        if self.reverted {
            1
        } else {
            0
        }
    }
}

/// The end of a call: the flags it ended with and its encoded output.
pub struct Halt {
    pub flags: ReturnFlags,
    pub output: Vec<u8>,
}

/// The output recorded in a context, as plain bytes.
pub open spec fn output_of(ctx: ExecContext) -> Option<Seq<u8>> {
    match ctx.output {
        None => None,
        Some(v) => Some(v@),
    }
}

/// The arguments that the call data carries after its 4-byte selector,
/// decoded as values of the types `ts`.
pub open spec fn decode_input_outcome(call_data: Seq<u8>, ts: Seq<ArgType>) -> Result<Seq<Value>, EnvError> {
    if call_data.len() < 4 {
        Err(EnvError::DecodeFailed)
    } else {
        match decode_args(ts, call_data.skip(4)) {
            None => Err(EnvError::DecodeFailed),
            Some(vs) => Ok(vs),
        }
    }
}

/// `gas_price * gas`, or the largest balance where the product does not fit.
pub open spec fn fee(gas_price: u128, gas: u64) -> u128 {
    if gas_price * gas > u128::MAX {
        u128::MAX
    } else {
        (gas_price * gas) as u128
    }
}

/// The off-chain environment.
pub struct EnvInstance {
    pub accounts: AccountStore,
    pub exec_context: ExecContext,
    pub block: Block,
    pub chain_spec: ChainSpec,
    pub emitted_events: Vec<EmittedEvent>,
}

impl EnvInstance {
    /// The account store is well formed and the callee is a contract
    /// account in it.
    pub open spec fn wf(&self) -> bool {
        &&& self.accounts.wf()
        &&& self.accounts@.contains_key(self.exec_context.callee)
        &&& self.accounts@[self.exec_context.callee].is_contract
    }

    /// The callee's account, as plain values.
    pub open spec fn callee_view(&self) -> AccountView {
        self.accounts@[self.exec_context.callee]
    }

    /// Everything but the accounts is as in `other`.
    pub open spec fn same_but_accounts(&self, other: &EnvInstance) -> bool {
        &&& self.exec_context == other.exec_context
        &&& self.block == other.block
        &&& self.chain_spec == other.chain_spec
        &&& self.emitted_events == other.emitted_events
    }

    /// An environment for one call; `None` unless the callee is a contract
    /// account of `accounts`.
    pub fn new(accounts: AccountStore, exec_context: ExecContext, block: Block, chain_spec: ChainSpec) -> (r: Option<EnvInstance>)
        requires
            accounts.wf(),
        ensures
            match r {
                Some(env) => {
                    &&& env.wf()
                    &&& env.accounts@ == accounts@
                    &&& env.exec_context == exec_context
                    &&& env.block == block
                    &&& env.chain_spec == chain_spec
                    &&& env.emitted_events@.len() == 0
                },
                None => !(accounts@.contains_key(exec_context.callee) && accounts@[exec_context.callee].is_contract),
            },
    {
        let is_contract = match accounts.get_account(exec_context.callee) {
            Some(a) => a.is_contract,
            None => false,
        };
        if is_contract {
            Some(EnvInstance { accounts, exec_context, block, chain_spec, emitted_events: Vec::new() })
        } else {
            None
        }
    }

    /// The callee's account.
    pub fn callee_account(&self) -> (r: &Account)
        requires
            self.wf(),
        ensures
            r@ == self.callee_view(),
    {
        self.accounts.account(self.exec_context.callee)
    }

    /// The callee's account, for changing it in place.
    pub fn callee_account_mut(&mut self) -> (r: &mut Account)
        requires
            old(self).wf(),
        ensures
            r@ == old(self).callee_view(),
            final(self).accounts.wf(),
            final(self).accounts@ == old(self).accounts@.insert(old(self).exec_context.callee, final(r)@),
            final(self).same_but_accounts(old(self)),
    {
        let callee = self.exec_context.callee;
        self.accounts.get_account_mut(callee)
    }

    /// Stores the encoding of `value` under `key` in the callee's storage.
    pub fn set_contract_storage(&mut self, key: u64, value: Value)
        requires
            old(self).wf(),
        ensures
            final(self).wf(),
            final(self).accounts@ == old(self).accounts@.insert(
                old(self).exec_context.callee,
                AccountView {
                    storage: old(self).callee_view().storage.insert(key, encode_value(value)),
                    ..old(self).callee_view()
                },
            ),
            final(self).same_but_accounts(old(self)),
    {
        let bytes = encode(value);
        let ghost b = bytes;
        let acc = self.callee_account_mut();
        let ghost before = acc.storage@;
        acc.storage.insert(key, bytes);
        proof {
            assert(acc.storage@.map_values(|v: Vec<u8>| v@) =~= before.map_values(|v: Vec<u8>| v@).insert(key, b@));
        }
    }

    /// The value stored under `key` in the callee's storage, decoded as a
    /// value of type `ty`: `None` when nothing is stored there, and
    /// `DecodeFailed` when the stored bytes do not decode.
    pub fn get_contract_storage(&self, key: u64, ty: ArgType) -> (r: Result<Option<Value>, EnvError>)
        requires
            self.wf(),
        ensures
            r == (if !self.callee_view().storage.contains_key(key) {
                Ok(None)
            } else {
                match decode_value(ty, self.callee_view().storage[key]) {
                    None => Err(EnvError::DecodeFailed),
                    Some(v) => Ok(Some(v)),
                }
            }),
    {
        let acc = self.callee_account();
        match acc.storage.get(&key) {
            None => Ok(None),
            Some(bytes) => {
                proof {
                    assert(acc@.storage[key] == bytes@);
                    assert(bytes@.skip(0) =~= bytes@);
                }
                match decode_value_at(ty, bytes.as_slice(), 0) {
                    None => Err(EnvError::DecodeFailed),
                    Some(v) => Ok(Some(v)),
                }
            },
        }
    }

    /// Removes whatever is stored under `key` in the callee's storage.
    pub fn clear_contract_storage(&mut self, key: u64)
        requires
            old(self).wf(),
        ensures
            final(self).wf(),
            final(self).accounts@ == old(self).accounts@.insert(
                old(self).exec_context.callee,
                AccountView { storage: old(self).callee_view().storage.remove(key), ..old(self).callee_view() },
            ),
            final(self).same_but_accounts(old(self)),
    {
        let acc = self.callee_account_mut();
        let ghost before = acc.storage@;
        acc.storage.remove(&key);
        proof {
            assert(acc.storage@.map_values(|v: Vec<u8>| v@) =~= before.map_values(|v: Vec<u8>| v@).remove(key));
        }
    }

    /// Decodes the arguments that follow the selector in the call data as
    /// values of the types `ts`.
    pub fn decode_input(&self, ts: &[ArgType]) -> (r: Result<Vec<Value>, EnvError>)
        ensures
            match r {
                Ok(vs) => decode_input_outcome(self.exec_context.call_data@, ts@) == Ok::<Seq<Value>, EnvError>(vs@),
                Err(e) => decode_input_outcome(self.exec_context.call_data@, ts@) == Err::<Seq<Value>, EnvError>(e),
            },
    {
        let data = self.exec_context.call_data.as_slice();
        if data.len() < 4 {
            return Err(EnvError::DecodeFailed);
        }
        match decode_args_at(ts, data, 4) {
            None => Err(EnvError::DecodeFailed),
            Some(vs) => Ok(vs),
        }
    }

    /// Ends the call: records the encoding of `value` (no bytes for none)
    /// as the output and hands back how the call ended.
    pub fn return_value(&mut self, flags: ReturnFlags, value: Option<Value>) -> (r: Halt)
        ensures
            r.flags == flags,
            r.output@ == encode_output(value),
            output_of(final(self).exec_context) == Some(encode_output(value)),
            final(self).exec_context.caller == old(self).exec_context.caller,
            final(self).exec_context.callee == old(self).exec_context.callee,
            final(self).exec_context.transferred_value == old(self).exec_context.transferred_value,
            final(self).exec_context.gas == old(self).exec_context.gas,
            final(self).exec_context.call_data == old(self).exec_context.call_data,
            final(self).accounts == old(self).accounts,
            final(self).block == old(self).block,
            final(self).chain_spec == old(self).chain_spec,
            final(self).emitted_events == old(self).emitted_events,
    {
        self.exec_context.output = Some(encode_result(value));
        Halt { flags, output: encode_result(value) }
    }

    /// Keccak-256 digest of `input`.
    pub fn hash_keccak_256(input: &[u8], output: &mut [u8; 32])
        ensures
            final(output)@ == keccak_256_of(input@),
            final(output)@.len() == 32,
    {
        *output = keccak_256(input);
    }

    /// BLAKE2b digest of `input`, 32 bytes long.
    pub fn hash_blake2_256(input: &[u8], output: &mut [u8; 32])
        ensures
            final(output)@ == blake2_256_of(input@),
            final(output)@.len() == 32,
    {
        *output = blake2_256(input);
    }

    /// BLAKE2b digest of `input`, 16 bytes long.
    pub fn hash_blake2_128(input: &[u8], output: &mut [u8; 16])
        ensures
            final(output)@ == blake2_128_of(input@),
            final(output)@.len() == 16,
    {
        *output = blake2_128(input);
    }

    /// SHA2-256 digest of `input`.
    pub fn hash_sha2_256(input: &[u8], output: &mut [u8; 32])
        ensures
            final(output)@ == sha2_256_of(input@),
            final(output)@.len() == 32,
    {
        *output = sha2_256(input);
    }

    /// Moves `value` from the callee's account to `destination`, creating
    /// the destination account if it does not exist yet. Fails with
    /// `TransferFailed`, changing nothing, when the callee holds less than
    /// `value` or the destination's balance would overflow.
    pub fn transfer_impl(&mut self, destination: u64, value: u128) -> (r: Result<(), EnvError>)
        requires
            old(self).wf(),
        ensures
            final(self).wf(),
            final(self).same_but_accounts(old(self)),
            match transfer_outcome(old(self).accounts@, old(self).exec_context.callee, destination, value) {
                Ok(m) => r is Ok && final(self).accounts@ == m,
                Err(e) => r == Err::<(), EnvError>(e) && final(self).accounts@ == old(self).accounts@,
            },
    {
        let src = self.exec_context.callee;
        self.accounts.transfer(src, destination, value)
    }

    /// Same as [`EnvInstance::transfer_impl`].
    pub fn transfer(&mut self, destination: u64, value: u128) -> (r: Result<(), EnvError>)
        requires
            old(self).wf(),
        ensures
            final(self).wf(),
            final(self).same_but_accounts(old(self)),
            match transfer_outcome(old(self).accounts@, old(self).exec_context.callee, destination, value) {
                Ok(m) => r is Ok && final(self).accounts@ == m,
                Err(e) => r == Err::<(), EnvError>(e) && final(self).accounts@ == old(self).accounts@,
            },
    {
        self.transfer_impl(destination, value)
    }

    /// The account that made the call.
    pub fn caller(&self) -> (r: u64)
        ensures
            r == self.exec_context.caller,
    {
        self.exec_context.caller
    }

    /// The value transferred with the call.
    pub fn transferred_balance(&self) -> (r: u128)
        ensures
            r == self.exec_context.transferred_value,
    {
        self.exec_context.transferred_value
    }

    /// The fee for `gas` units of gas at the chain's gas price, saturating
    /// at the largest balance.
    pub fn weight_to_fee(&self, gas: u64) -> (r: u128)
        ensures
            r == fee(self.chain_spec.gas_price, gas),
    {
        match self.chain_spec.gas_price.checked_mul(gas as u128) {
            Some(f) => f,
            None => u128::MAX,
        }
    }

    /// The gas left for the call.
    pub fn gas_left(&self) -> (r: u128)
        ensures
            r == self.exec_context.gas,
    {
        self.exec_context.gas
    }

    /// The current block's timestamp.
    pub fn block_timestamp(&self) -> (r: u64)
        ensures
            r == self.block.timestamp,
    {
        self.block.timestamp
    }

    /// The executing contract's account identifier.
    pub fn account_id(&self) -> (r: u64)
        ensures
            r == self.exec_context.callee,
    {
        self.exec_context.callee
    }

    /// The executing contract's balance.
    pub fn balance(&self) -> (r: u128)
        requires
            self.wf(),
        ensures
            r == self.callee_view().balance,
    {
        self.callee_account().balance
    }

    /// The executing contract's rent allowance.
    pub fn rent_allowance(&self) -> (r: u128)
        requires
            self.wf(),
        ensures
            r == self.callee_view().rent_allowance,
    {
        self.callee_account().rent_allowance
    }

    /// The current block's number.
    pub fn block_number(&self) -> (r: u64)
        ensures
            r == self.block.number,
    {
        self.block.number
    }

    /// The chain's minimum balance.
    pub fn minimum_balance(&self) -> (r: u128)
        ensures
            r == self.chain_spec.minimum_balance,
    {
        self.chain_spec.minimum_balance
    }

    /// The chain's tombstone deposit.
    pub fn tombstone_deposit(&self) -> (r: u128)
        ensures
            r == self.chain_spec.tombstone_deposit,
    {
        self.chain_spec.tombstone_deposit
    }

    /// Records an event with the given topics and encoded data.
    pub fn emit_event(&mut self, topics: Vec<[u8; 32]>, data: Vec<u8>)
        ensures
            final(self).emitted_events@ == old(self).emitted_events@.push(
                (EmittedEvent { topics: topics, data: data }),
            ),
            final(self).accounts == old(self).accounts,
            final(self).exec_context == old(self).exec_context,
            final(self).block == old(self).block,
            final(self).chain_spec == old(self).chain_spec,
    {
        self.emitted_events.push(EmittedEvent { topics, data });
    }

    /// Sets the executing contract's rent allowance.
    pub fn set_rent_allowance(&mut self, new_rent_allowance: u128)
        requires
            old(self).wf(),
        ensures
            final(self).wf(),
            final(self).accounts@ == old(self).accounts@.insert(
                old(self).exec_context.callee,
                AccountView { rent_allowance: new_rent_allowance, ..old(self).callee_view() },
            ),
            final(self).same_but_accounts(old(self)),
    {
        let acc = self.callee_account_mut();
        acc.rent_allowance = new_rent_allowance;
    }

    /// A random value for `subject`: the 32-byte BLAKE2b digest of the
    /// block's entropy followed by `subject`.
    pub fn random(&self, subject: &[u8]) -> (r: [u8; 32])
        ensures
            r@ == blake2_256_of(self.block.entropy@ + subject@),
    {
        let mut buf: Vec<u8> = Vec::new();
        let mut i: usize = 0;
        while i < 32
            invariant
                i <= 32,
                buf@ == self.block.entropy@.take(i as int),
            decreases 32 - i,
        {
            buf.push(self.block.entropy[i]);
            proof {
                assert(self.block.entropy@.take(i + 1) =~= self.block.entropy@.take(i as int).push(
                    self.block.entropy@[i as int],
                ));
            }
            i = i + 1;
        }
        let mut j: usize = 0;
        while j < subject.len()
            invariant
                j <= subject@.len(),
                buf@ == self.block.entropy@ + subject@.take(j as int),
            decreases subject@.len() - j,
        {
            proof {
                assert(self.block.entropy@ + subject@.take(j + 1) =~= (self.block.entropy@
                    + subject@.take(j as int)).push(subject@[j as int]));
            }
            buf.push(subject[j]);
            j = j + 1;
        }
        proof {
            assert(subject@.take(j as int) =~= subject@);
            assert(self.block.entropy@.take(32) =~= self.block.entropy@);
        }
        blake2_256(buf.as_slice())
    }

    /// Calling another contract is not available off-chain: always fails
    /// with `Unsupported`, changing nothing.
    pub fn invoke_contract(&mut self, callee: u64, input: &[u8]) -> (r: Result<(), EnvError>)
        ensures
            r == Err::<(), EnvError>(EnvError::Unsupported),
            *final(self) == *old(self),
    {
        Err(EnvError::Unsupported)
    }

    /// Evaluating another contract is not available off-chain: always fails
    /// with `Unsupported`, changing nothing.
    pub fn eval_contract(&mut self, callee: u64, input: &[u8]) -> (r: Result<Vec<u8>, EnvError>)
        ensures
            r == Err::<Vec<u8>, EnvError>(EnvError::Unsupported),
            *final(self) == *old(self),
    {
        Err(EnvError::Unsupported)
    }

    /// Instantiating a contract is not available off-chain: always fails
    /// with `Unsupported`, changing nothing.
    pub fn instantiate_contract(&mut self, code_hash: [u8; 32], input: &[u8]) -> (r: Result<u64, EnvError>)
        ensures
            r == Err::<u64, EnvError>(EnvError::Unsupported),
            *final(self) == *old(self),
    {
        Err(EnvError::Unsupported)
    }

    /// Terminating a contract is not available off-chain: always fails with
    /// `Unsupported`, changing nothing.
    pub fn terminate_contract(&mut self, beneficiary: u64) -> (r: Result<(), EnvError>)
        ensures
            r == Err::<(), EnvError>(EnvError::Unsupported),
            *final(self) == *old(self),
    {
        Err(EnvError::Unsupported)
    }

    /// Restoring a contract is not available off-chain: always fails with
    /// `Unsupported`, changing nothing.
    pub fn restore_contract(
        &mut self,
        account_id: u64,
        code_hash: [u8; 32],
        rent_allowance: u128,
        filtered_keys: &[u64],
    ) -> (r: Result<(), EnvError>)
        ensures
            r == Err::<(), EnvError>(EnvError::Unsupported),
            *final(self) == *old(self),
    {
        Err(EnvError::Unsupported)
    }
}

} // verus!
