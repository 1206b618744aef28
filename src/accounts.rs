//! Accounts of the simulated chain: balances, rent allowances and the
//! key-value storage of contract accounts, keyed by account identifier.
use std::collections::HashMap;
use vstd::prelude::*;

verus! {

broadcast use vstd::std_specs::hash::group_hash_axioms;

/// Errors of the environment that a handler may recover from.
#[derive(Clone, Copy, Debug, PartialEq, Eq, Structural)]
pub enum EnvError {
    /// The source balance is too small, or the destination balance would
    /// overflow.
    TransferFailed,
    /// Stored or supplied bytes do not decode as the requested type.
    DecodeFailed,
    /// The operation is not available in the off-chain environment.
    Unsupported,
}

/// One account: its balance, rent allowance, whether it is a contract, and
/// its storage (storage key to encoded value).
pub struct Account {
    pub balance: u128,
    pub rent_allowance: u128,
    pub is_contract: bool,
    pub storage: HashMap<u64, Vec<u8>>,
}

/// What an account holds, as plain values.
pub struct AccountView {
    pub balance: u128,
    pub rent_allowance: u128,
    pub is_contract: bool,
    pub storage: Map<u64, Seq<u8>>,
}

impl View for Account {
    type V = AccountView;

    open spec fn view(&self) -> AccountView {
        AccountView {
            balance: self.balance,
            rent_allowance: self.rent_allowance,
            is_contract: self.is_contract,
            storage: self.storage@.map_values(|v: Vec<u8>| v@),
        }
    }
}

/// The account that a transfer creates for a destination seen for the
/// first time: an ordinary account with nothing in it.
pub open spec fn fresh_account() -> AccountView {
    AccountView { balance: 0, rent_allowance: 0, is_contract: false, storage: Map::empty() }
}

impl Account {
    /// An ordinary (non-contract) account with the given balance.
    pub fn new_user(balance: u128) -> (r: Account)
        ensures
            r@ == (AccountView { balance: balance, ..fresh_account() }),
    {
        let r = Account { balance, rent_allowance: 0, is_contract: false, storage: HashMap::new() };
        proof {
            assert(r@.storage =~= Map::<u64, Seq<u8>>::empty());
        }
        r
    }

    /// A contract account with the given balance and rent allowance and an
    /// empty storage.
    pub fn new_contract(balance: u128, rent_allowance: u128) -> (r: Account)
        ensures
            r@ == (AccountView {
                balance: balance,
                rent_allowance: rent_allowance,
                is_contract: true,
                storage: Map::empty(),
            }),
    {
        let r = Account { balance, rent_allowance, is_contract: true, storage: HashMap::new() };
        proof {
            assert(r@.storage =~= Map::<u64, Seq<u8>>::empty());
        }
        r
    }
}

/// Balance of `id` in `m`, zero for an account that does not exist yet.
pub open spec fn balance_in(m: Map<u64, AccountView>, id: u64) -> u128 {
    if m.contains_key(id) {
        m[id].balance
    } else {
        0
    }
}

/// The accounts after moving `value` from `src` to `dst`, or the failure.
///
/// The source must hold at least `value`, and the destination's new
/// balance must fit; a destination seen for the first time is created
/// empty. A transfer to oneself moves nothing.
pub open spec fn transfer_outcome(m: Map<u64, AccountView>, src: u64, dst: u64, value: u128) -> Result<Map<u64, AccountView>, EnvError> {
    let src_balance = m[src].balance;
    let dst_account = if m.contains_key(dst) { m[dst] } else { fresh_account() };
    if src_balance < value {
        Err(EnvError::TransferFailed)
    } else if src == dst {
        Ok(m)
    } else if dst_account.balance + value > u128::MAX {
        Err(EnvError::TransferFailed)
    } else {
        Ok(m.insert(src, AccountView { balance: (src_balance - value) as u128, ..m[src] }).insert(
            dst,
            AccountView { balance: (dst_account.balance + value) as u128, ..dst_account },
        ))
    }
}

/// A successful transfer between two distinct accounts keeps the sum of
/// their balances and lowers the source's balance by exactly the amount.
pub proof fn lemma_transfer_conserves(m: Map<u64, AccountView>, a: u64, b: u64, value: u128)
    requires
        m.contains_key(a),
        a != b,
        value <= m[a].balance,
        transfer_outcome(m, a, b, value) is Ok,
    ensures
        ({
            let n = transfer_outcome(m, a, b, value)->Ok_0;
            &&& balance_in(n, a) + balance_in(n, b) == balance_in(m, a) + balance_in(m, b)
            &&& balance_in(n, a) == balance_in(m, a) - value
            &&& forall|c: u64| c != a && c != b ==> n.contains_key(c) == m.contains_key(c) && (
            m.contains_key(c) ==> n[c] == m[c])
        }),
{
}

/// A transfer of more than the source holds fails with `TransferFailed`
/// and changes no balance.
pub proof fn lemma_transfer_insufficient(m: Map<u64, AccountView>, a: u64, b: u64, value: u128)
    requires
        m.contains_key(a),
        value > m[a].balance,
    ensures
        transfer_outcome(m, a, b, value) == Err::<Map<u64, AccountView>, EnvError>(
            EnvError::TransferFailed,
        ),
{
}

/// All accounts of the simulated chain.
pub struct AccountStore {
    ids: Vec<u64>,
    accounts: Vec<Account>,
}

impl View for AccountStore {
    type V = Map<u64, AccountView>;

    closed spec fn view(&self) -> Map<u64, AccountView> {
        Map::new(
            |id: u64| exists|i: int| 0 <= i < self.ids@.len() && self.ids@[i] == id,
            |id: u64| self.accounts@[self.index_of(id)]@,
        )
    }
}

impl AccountStore {
    spec fn index_of(&self, id: u64) -> int {
        choose|i: int| 0 <= i < self.ids@.len() && self.ids@[i] == id
    }

    /// Identifiers are distinct and each has its account.
    pub closed spec fn wf(&self) -> bool {
        &&& self.ids@.len() == self.accounts@.len()
        &&& forall|i: int, j: int|
            0 <= i < self.ids@.len() && 0 <= j < self.ids@.len() && i != j ==> self.ids@[i]
                != self.ids@[j]
    }

    proof fn lemma_at(&self, i: int)
        requires
            self.wf(),
            0 <= i < self.ids@.len(),
        ensures
            self@.contains_key(self.ids@[i]),
            self.index_of(self.ids@[i]) == i,
            self@[self.ids@[i]] == self.accounts@[i]@,
    {
        let id = self.ids@[i];
        assert(exists|k: int| 0 <= k < self.ids@.len() && self.ids@[k] == id);
    }

    /// An empty store.
    pub fn new() -> (r: AccountStore)
        ensures
            r.wf(),
            r@ == Map::<u64, AccountView>::empty(),
    {
        let r = AccountStore { ids: Vec::new(), accounts: Vec::new() };
        assert(r@ =~= Map::<u64, AccountView>::empty());
        r
    }

    fn find(&self, id: u64) -> (r: Option<usize>)
        requires
            self.wf(),
        ensures
            match r {
                Some(i) => i < self.ids@.len() && self.ids@[i as int] == id && self.index_of(id)
                    == i,
                None => !self@.contains_key(id),
            },
    {
        let mut i: usize = 0;
        while i < self.ids.len()
            invariant
                self.wf(),
                i <= self.ids@.len(),
                forall|k: int| 0 <= k < i ==> self.ids@[k] != id,
            decreases self.ids@.len() - i,
        {
            if self.ids[i] == id {
                proof {
                    self.lemma_at(i as int);
                }
                return Some(i);
            }
            i = i + 1;
        }
        None
    }

    /// Whether an account with identifier `id` exists.
    pub fn contains(&self, id: u64) -> (r: bool)
        requires
            self.wf(),
        ensures
            r == self@.contains_key(id),
    {
        match self.find(id) {
            Some(i) => {
                proof {
                    self.lemma_at(i as int);
                }
                true
            },
            None => false,
        }
    }

    /// The account with identifier `id`, if it exists.
    pub fn get_account(&self, id: u64) -> (r: Option<&Account>)
        requires
            self.wf(),
        ensures
            match r {
                Some(a) => self@.contains_key(id) && a@ == self@[id],
                None => !self@.contains_key(id),
            },
    {
        match self.find(id) {
            Some(i) => {
                proof {
                    self.lemma_at(i as int);
                }
                Some(&self.accounts[i])
            },
            None => None,
        }
    }

    /// The account with identifier `id`, which must exist.
    pub fn account(&self, id: u64) -> (r: &Account)
        requires
            self.wf(),
            self@.contains_key(id),
        ensures
            r@ == self@[id],
    {
        let i = match self.find(id) {
            Some(i) => i,
            None => {
                proof {
                    assert(false);
                }
                0
            },
        };
        proof {
            self.lemma_at(i as int);
        }
        &self.accounts[i]
    }

    proof fn lemma_update(old_s: &AccountStore, new_s: &AccountStore, i: int)
        requires
            old_s.wf(),
            0 <= i < old_s.ids@.len(),
            new_s.ids@ == old_s.ids@,
            new_s.accounts@ == old_s.accounts@.update(i, new_s.accounts@[i]),
        ensures
            new_s.wf(),
            new_s@ == old_s@.insert(old_s.ids@[i], new_s.accounts@[i]@),
    {
        let id = old_s.ids@[i];
        assert forall|k: u64| #[trigger] new_s@.contains_key(k) implies old_s@.insert(id, new_s.accounts@[i]@)[k] == new_s@[k] by {
            let j = new_s.index_of(k);
            assert(old_s.index_of(k) == j);
            if k != id {
                assert(j != i);
            }
        }
        assert(new_s@ =~= old_s@.insert(id, new_s.accounts@[i]@));
    }

    /// The account with identifier `id`, for changing it in place.
    pub fn get_account_mut(&mut self, id: u64) -> (r: &mut Account)
        requires
            old(self).wf(),
            old(self)@.contains_key(id),
        ensures
            r@ == old(self)@[id],
            final(self).wf(),
            final(self)@ == old(self)@.insert(id, final(r)@),
    {
        let i = match self.find(id) {
            Some(i) => i,
            None => {
                proof {
                    assert(false);
                }
                0
            },
        };
        proof {
            self.lemma_at(i as int);
            assert forall|s2: AccountStore|
                #![trigger s2.wf()]
                #![trigger s2@]
                s2.ids@ == self.ids@ && s2.accounts@ == self.accounts@.update(
                    i as int,
                    s2.accounts@[i as int],
                ) implies s2.wf() && s2@ == self@.insert(id, s2.accounts@[i as int]@) by {
                Self::lemma_update(self, &s2, i as int);
            }
        }
        &mut self.accounts[i]
    }

    /// Adds `account` under `id`, replacing the account held there before.
    pub fn insert(&mut self, id: u64, account: Account)
        requires
            old(self).wf(),
        ensures
            final(self).wf(),
            final(self)@ == old(self)@.insert(id, account@),
    {
        match self.find(id) {
            Some(i) => {
                proof {
                    self.lemma_at(i as int);
                }
                self.accounts.set(i, account);
                proof {
                    Self::lemma_update(old(self), self, i as int);
                }
            },
            None => {
                let ghost old_s = *self;
                self.ids.push(id);
                self.accounts.push(account);
                proof {
                    let n = self.ids@.len() - 1;
                    assert forall|i: int, j: int|
                        0 <= i < self.ids@.len() && 0 <= j < self.ids@.len() && i != j implies self.ids@[i]
                            != self.ids@[j] by {
                        if i == n {
                            if self.ids@[j] == id {
                                old_s.lemma_at(j);
                            }
                        } else if j == n {
                            if self.ids@[i] == id {
                                old_s.lemma_at(i);
                            }
                        }
                    }
                    self.lemma_at(n);
                    assert forall|k: u64| #[trigger] self@.contains_key(k) && k != id implies old_s@.contains_key(k) && self@[k] == old_s@[k] by {
                        let j = self.index_of(k);
                        assert(j != n);
                        old_s.lemma_at(j);
                    }
                    assert forall|k: u64| #[trigger] old_s@.contains_key(k) implies self@.contains_key(k) by {
                        let j = old_s.index_of(k);
                        assert(self.ids@[j] == k);
                    }
                    assert(self@ =~= old_s@.insert(id, account@));
                }
            },
        }
    }

    /// Balance of account `id`, zero for an account that does not exist.
    pub fn balance_of(&self, id: u64) -> (r: u128)
        requires
            self.wf(),
        ensures
            r == balance_in(self@, id),
    {
        match self.get_account(id) {
            Some(a) => a.balance,
            None => 0,
        }
    }

    /// Moves `value` from account `src` to account `dst`, creating `dst`
    /// if it does not exist yet. Nothing changes on failure.
    pub fn transfer(&mut self, src: u64, dst: u64, value: u128) -> (r: Result<(), EnvError>)
        requires
            old(self).wf(),
            old(self)@.contains_key(src),
        ensures
            final(self).wf(),
            match transfer_outcome(old(self)@, src, dst, value) {
                Ok(m) => r is Ok && final(self)@ == m,
                Err(e) => r == Err::<(), EnvError>(e) && final(self)@ == old(self)@,
            },
    {
        let src_value = self.balance_of(src);
        if src_value < value {
            return Err(EnvError::TransferFailed);
        }
        if src == dst {
            return Ok(());
        }
        let dst_value = self.balance_of(dst);
        if dst_value > u128::MAX - value {
            return Err(EnvError::TransferFailed);
        }
        if !self.contains(dst) {
            self.insert(dst, Account::new_user(0));
        }
        let s = self.get_account_mut(src);
        s.balance = src_value - value;
        let d = self.get_account_mut(dst);
        d.balance = dst_value + value;
        proof {
            let m = transfer_outcome(old(self)@, src, dst, value)->Ok_0;
            assert(self@ =~= m);
        }
        Ok(())
    }
}

} // verus!
