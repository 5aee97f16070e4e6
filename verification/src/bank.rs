//! The frozen snapshot a generator run works on, as plain values: accounts,
//! the epoch's vote accounts, stake delegations and the rent rule.

use vstd::prelude::*;
use crate::keys::Pubkey;

verus! {

/// Bytes of untyped account overhead that the rent rule charges for.
pub const ACCOUNT_STORAGE_OVERHEAD: u64 = 128;

/// One account of the snapshot.
pub struct Account {
    pub lamports: u64,
    pub owner: Pubkey,
    pub data: Vec<u8>,
}

/// One vote account of the epoch, with the fields the generator reads.
pub struct VoteAccountInfo {
    pub vote_pubkey: Pubkey,
    pub commission: u8,
}

/// One stake delegation of the snapshot.
pub struct StakeDelegation {
    pub stake_pubkey: Pubkey,
    pub voter_pubkey: Pubkey,
    pub staker_pubkey: Pubkey,
    pub withdrawer_pubkey: Pubkey,
    /// The delegated amount as the stake account records it.
    pub stake_lamports: u64,
    /// The amount effective this epoch, after warmup and cooldown.
    pub activated_stake: u64,
}

/// A frozen bank, reduced to what the generator reads of it.
pub struct BankSnapshot {
    pub frozen: bool,
    pub epoch: u64,
    pub slot: u64,
    pub bank_hash: String,
    /// The most recent blockhash, as transaction builders reference it.
    pub last_blockhash: Vec<u8>,
    /// Lamports of rent-exempt minimum per byte of account footprint
    /// (data length plus the fixed overhead).
    pub rent_lamports_per_byte: u64,
    pub accounts: Vec<(Pubkey, Account)>,
    /// The epoch's vote accounts, when the bank carries them.
    pub epoch_vote_accounts: Option<Vec<VoteAccountInfo>>,
    pub stake_delegations: Vec<StakeDelegation>,
}

/// The first account stored under `key`, if any.
pub open spec fn spec_lookup(accounts: Seq<(Pubkey, Account)>, key: Seq<u8>) -> Option<Account>
    decreases accounts.len(),
{
    if accounts.len() == 0 {
        None
    } else if accounts[0].0@ == key {
        Some(accounts[0].1)
    } else {
        spec_lookup(accounts.drop_first(), key)
    }
}

/// The lamport balance under `key`: the account's, or zero when absent.
pub open spec fn spec_balance(accounts: Seq<(Pubkey, Account)>, key: Seq<u8>) -> int {
    match spec_lookup(accounts, key) {
        Some(a) => a.lamports as int,
        None => 0,
    }
}

/// The rent-exempt minimum for an account of the given data length.
pub open spec fn spec_rent_exempt_min(rent_lamports_per_byte: u64, data_len: nat) -> int {
    (ACCOUNT_STORAGE_OVERHEAD + data_len) * rent_lamports_per_byte
}

impl BankSnapshot {
    /// Looks an account up by address; the first stored match wins.
    pub fn get_account(&self, key: &Pubkey) -> (r: Option<&Account>)
        ensures
            match r {
                Some(a) => spec_lookup(self.accounts@, key@) == Some(*a),
                None => spec_lookup(self.accounts@, key@) is None,
            },
    {
        let n = self.accounts.len();
        let mut i: usize = 0;
        proof {
            assert(self.accounts@.skip(0) =~= self.accounts@);
        }
        while i < n
            invariant
                i <= n,
                n == self.accounts@.len(),
                spec_lookup(self.accounts@.skip(i as int), key@) == spec_lookup(
                    self.accounts@,
                    key@,
                ),
            decreases n - i,
        {
            let ghost pre = self.accounts@.skip(i as int);
            let pair = &self.accounts[i];
            if pair.0 == *key {
                assert(pre[0].0@ == key@);
                assert(spec_lookup(pre, key@) == Some(pre[0].1));
                return Some(&pair.1);
            }
            proof {
                assert(pre[0].0@ != key@);
                assert(pre.drop_first() =~= self.accounts@.skip(i + 1));
            }
            i += 1;
        }
        proof {
            assert(self.accounts@.skip(n as int) =~= Seq::<(Pubkey, Account)>::empty());
        }
        None
    }

    /// The balance under an address, zero when the account is absent.
    pub fn get_balance(&self, key: &Pubkey) -> (r: u64)
        ensures
            r == spec_balance(self.accounts@, key@),
    {
        match self.get_account(key) {
            Some(a) => a.lamports,
            None => 0,
        }
    }

    /// The rent-exempt minimum for the given data length, when it fits.
    pub fn get_minimum_balance_for_rent_exemption(&self, data_len: usize) -> (r: Option<u64>)
        ensures
            match r {
                Some(v) => v == spec_rent_exempt_min(self.rent_lamports_per_byte, data_len as nat),
                None => spec_rent_exempt_min(self.rent_lamports_per_byte, data_len as nat)
                    > u64::MAX,
            },
    {
        let f: u128 = ACCOUNT_STORAGE_OVERHEAD as u128 + data_len as u128;
        let p: u128 = self.rent_lamports_per_byte as u128;
        match f.checked_mul(p) {
            None => None,
            Some(prod) => {
                if prod > u64::MAX as u128 {
                    None
                } else {
                    Some(prod as u64)
                }
            },
        }
    }
}

} // verus!
