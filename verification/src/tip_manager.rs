//! The validator's view of the two tip programs: the addresses they are
//! reached under, the checks made on their accounts, and the transactions
//! built against them, as plain values.

use vstd::prelude::*;
use crate::bank::{spec_balance, spec_lookup, spec_rent_exempt_min, BankSnapshot};
use crate::keys::Pubkey;
use crate::layout::{parse_tip_payment_config, spec_config_receiver, TipPaymentConfig};
use crate::pda::{
    config_seeds, find_program_address, program_address_of, seed_config, seed_tip_account,
    spec_tip_distribution_pda, tip_account_seeds, derive_tip_distribution_account_address,
};

verus! {

/// Epochs a tip-distribution config stays valid for, as initialized.
pub const NUM_EPOCHS_VALID: u64 = 3;

/// The cap on validator commission written into the config, in basis points.
pub const MAX_VALIDATOR_COMMISSION_BPS: u16 = 1000;

/// The compute-unit budget a tip-receiver change asks for.
pub const CHANGE_TIP_RECEIVER_CU_LIMIT: u32 = 1_000_000;

/// The tip-payment program and its nine derived accounts.
pub struct TipPaymentProgramInfo {
    pub program_id: Pubkey,
    pub config_pda_bump: (Pubkey, u8),
    pub tip_pda_0: (Pubkey, u8),
    pub tip_pda_1: (Pubkey, u8),
    pub tip_pda_2: (Pubkey, u8),
    pub tip_pda_3: (Pubkey, u8),
    pub tip_pda_4: (Pubkey, u8),
    pub tip_pda_5: (Pubkey, u8),
    pub tip_pda_6: (Pubkey, u8),
    pub tip_pda_7: (Pubkey, u8),
}

/// The tip-distribution program and its singleton config account.
pub struct TipDistributionProgramInfo {
    pub program_id: Pubkey,
    pub config_pda_and_bump: (Pubkey, u8),
}

/// What each init of a tip-distribution account is configured with.
pub struct TipDistributionAccountConfig {
    /// The account that pays and signs each init transaction.
    pub payer: Pubkey,
    /// The authority allowed to upload merkle roots to the account.
    pub merkle_root_upload_authority: Pubkey,
    /// This validator's vote account.
    pub vote_account: Pubkey,
    /// This validator's tip commission, in basis points.
    pub commission_bps: u16,
}

impl Default for TipDistributionAccountConfig {
    /// All-zero addresses and no commission.
    fn default() -> (r: Self)
        ensures
            r.payer.wf() && r.merkle_root_upload_authority.wf() && r.vote_account.wf(),
            r.commission_bps == 0,
    {
        TipDistributionAccountConfig {
            payer: Pubkey::zeroed(),
            merkle_root_upload_authority: Pubkey::zeroed(),
            vote_account: Pubkey::zeroed(),
            commission_bps: 0,
        }
    }
}

/// What a `TipManager` is built from.
pub struct TipManagerConfig {
    pub tip_payment_program_id: Pubkey,
    pub tip_distribution_program_id: Pubkey,
    pub tip_distribution_account_config: TipDistributionAccountConfig,
}

impl Default for TipManagerConfig {
    /// All-zero program ids and a default account config.
    fn default() -> (r: Self)
        ensures
            r.tip_payment_program_id.wf(),
            r.tip_distribution_program_id.wf(),
    {
        TipManagerConfig {
            tip_payment_program_id: Pubkey::zeroed(),
            tip_distribution_program_id: Pubkey::zeroed(),
            tip_distribution_account_config: TipDistributionAccountConfig::default(),
        }
    }
}

/// Why a read of a tip program account failed.
#[derive(Debug)]
pub enum TipPaymentError {
    /// The account is not in the snapshot.
    AccountMissing(Pubkey),
    /// The account's data does not parse as the expected layout.
    AccountParse,
}

/// One account reference of a built instruction.
pub struct AccountMetaSpec {
    pub pubkey: Pubkey,
    pub is_signer: bool,
    pub is_writable: bool,
}

/// The triple a built account reference reduces to.
pub open spec fn meta_view(m: AccountMetaSpec) -> (Seq<u8>, bool, bool) {
    (m.pubkey@, m.is_signer, m.is_writable)
}

/// The argument payload of a built instruction.
pub enum InstructionData {
    /// Initialize the tip-payment program: the config bump and the eight tip
    /// account bumps, in account order.
    InitializeTipPayment { config_bump: u8, tip_bumps: Vec<u8> },
    /// Initialize the tip-distribution program's config.
    InitializeTipDistributionConfig {
        authority: Pubkey,
        expired_funds_account: Pubkey,
        num_epochs_valid: u64,
        max_validator_commission_bps: u16,
        bump: u8,
    },
    /// Open this validator's tip-distribution account for an epoch.
    InitTipDistributionAccount {
        validator_vote_account: Pubkey,
        merkle_root_upload_authority: Pubkey,
        validator_commission_bps: u16,
        bump: u8,
    },
    /// Drain the tip accounts to the current receiver, then hand the receiver
    /// role over.
    ChangeTipReceiver,
}

/// One instruction of a built transaction.
pub struct InstructionTemplate {
    pub program_id: Pubkey,
    pub accounts: Vec<AccountMetaSpec>,
    pub data: InstructionData,
}

/// A transaction as this module describes it: its instructions, fee payer,
/// blockhash, and the compute-unit budget it asks for, if any.
pub struct TransactionTemplate {
    pub instructions: Vec<InstructionTemplate>,
    pub payer: Pubkey,
    pub recent_blockhash: Vec<u8>,
    pub compute_unit_limit: Option<u32>,
}

/// Derives both programs' accounts and holds them for the validator's use.
pub struct TipManager {
    pub tip_payment_program_info: TipPaymentProgramInfo,
    pub tip_distribution_program_info: TipDistributionProgramInfo,
    pub tip_distribution_account_config: TipDistributionAccountConfig,
}

impl TipManager {
    /// All held addresses are well-formed.
    pub open spec fn wf(&self) -> bool {
        &&& self.tip_payment_program_info.program_id.wf()
        &&& self.tip_payment_program_info.config_pda_bump.0.wf()
        &&& self.tip_payment_program_info.tip_pda_0.0.wf()
        &&& self.tip_payment_program_info.tip_pda_1.0.wf()
        &&& self.tip_payment_program_info.tip_pda_2.0.wf()
        &&& self.tip_payment_program_info.tip_pda_3.0.wf()
        &&& self.tip_payment_program_info.tip_pda_4.0.wf()
        &&& self.tip_payment_program_info.tip_pda_5.0.wf()
        &&& self.tip_payment_program_info.tip_pda_6.0.wf()
        &&& self.tip_payment_program_info.tip_pda_7.0.wf()
        &&& self.tip_distribution_program_info.program_id.wf()
        &&& self.tip_distribution_program_info.config_pda_and_bump.0.wf()
    }

    /// The derivation of tip account `k` under the tip-payment program.
    pub open spec fn spec_tip_pda(&self, k: u8) -> Option<(Seq<u8>, u8)> {
        program_address_of(
            seq![seed_tip_account(k)],
            self.tip_payment_program_info.program_id@,
        )
    }

    /// The held pair for tip account `k`.
    pub open spec fn spec_held_tip_pda(&self, k: u8) -> (Pubkey, u8) {
        if k == 0 {
            self.tip_payment_program_info.tip_pda_0
        } else if k == 1 {
            self.tip_payment_program_info.tip_pda_1
        } else if k == 2 {
            self.tip_payment_program_info.tip_pda_2
        } else if k == 3 {
            self.tip_payment_program_info.tip_pda_3
        } else if k == 4 {
            self.tip_payment_program_info.tip_pda_4
        } else if k == 5 {
            self.tip_payment_program_info.tip_pda_5
        } else if k == 6 {
            self.tip_payment_program_info.tip_pda_6
        } else {
            self.tip_payment_program_info.tip_pda_7
        }
    }

    /// The manager holds exactly what the derivations give.
    pub open spec fn spec_derived_from(&self, config: &TipManagerConfig) -> bool {
        &&& self.tip_payment_program_info.program_id@ == config.tip_payment_program_id@
        &&& self.tip_distribution_program_info.program_id@ == config.tip_distribution_program_id@
        &&& program_address_of(seq![seed_config()], config.tip_payment_program_id@) == Some(
            (
                self.tip_payment_program_info.config_pda_bump.0@,
                self.tip_payment_program_info.config_pda_bump.1,
            ),
        )
        &&& forall|k: u8|
            k < 8 ==> #[trigger] self.spec_tip_pda(k) == Some(
                (self.spec_held_tip_pda(k).0@, self.spec_held_tip_pda(k).1),
            )
        &&& program_address_of(seq![seed_config()], config.tip_distribution_program_id@) == Some(
            (
                self.tip_distribution_program_info.config_pda_and_bump.0@,
                self.tip_distribution_program_info.config_pda_and_bump.1,
            ),
        )
        &&& self.tip_distribution_account_config == config.tip_distribution_account_config
    }

    /// Derives every account both programs are reached under.  `None` exactly
    /// when one of the derivations finds no valid bump.
    pub fn new(config: TipManagerConfig) -> (r: Option<TipManager>)
        requires
            config.tip_payment_program_id.wf(),
            config.tip_distribution_program_id.wf(),
        ensures
            r matches Some(tm) ==> tm.spec_derived_from(&config) && tm.wf(),
            r is None ==> (program_address_of(
                seq![seed_config()],
                config.tip_payment_program_id@,
            ) is None || (exists|k: u8|
                k < 8 && #[trigger] program_address_of(
                    seq![seed_tip_account(k)],
                    config.tip_payment_program_id@,
                ) is None) || program_address_of(
                seq![seed_config()],
                config.tip_distribution_program_id@,
            ) is None),
    {
        let config_pda_bump = match find_program_address(
            &config_seeds(),
            &config.tip_payment_program_id,
        ) {
            Some(p) => p,
            None => {
                return None;
            },
        };
        let mut tip_pdas: Vec<(Pubkey, u8)> = Vec::new();
        let mut k: u8 = 0;
        while k < 8
            invariant
                k <= 8,
                tip_pdas@.len() == k as int,
                config.tip_payment_program_id.wf(),
                forall|j: u8|
                    j < k ==> #[trigger] program_address_of(
                        seq![seed_tip_account(j)],
                        config.tip_payment_program_id@,
                    ) == Some((tip_pdas@[j as int].0@, tip_pdas@[j as int].1)),
                forall|j: int| 0 <= j < k as int ==> tip_pdas@[j].0.wf(),
            decreases 8 - k,
        {
            match find_program_address(&tip_account_seeds(k), &config.tip_payment_program_id) {
                Some(p) => {
                    tip_pdas.push(p);
                },
                None => {
                    return None;
                },
            }
            k += 1;
        }
        let config_pda_and_bump = match find_program_address(
            &config_seeds(),
            &config.tip_distribution_program_id,
        ) {
            Some(p) => p,
            None => {
                return None;
            },
        };
        let ghost orig = tip_pdas@;
        let tip_pda_7 = tip_pdas.pop().unwrap();
        let tip_pda_6 = tip_pdas.pop().unwrap();
        let tip_pda_5 = tip_pdas.pop().unwrap();
        let tip_pda_4 = tip_pdas.pop().unwrap();
        let tip_pda_3 = tip_pdas.pop().unwrap();
        let tip_pda_2 = tip_pdas.pop().unwrap();
        let tip_pda_1 = tip_pdas.pop().unwrap();
        let tip_pda_0 = tip_pdas.pop().unwrap();
        let tm = TipManager {
            tip_payment_program_info: TipPaymentProgramInfo {
                program_id: config.tip_payment_program_id.clone(),
                config_pda_bump,
                tip_pda_0,
                tip_pda_1,
                tip_pda_2,
                tip_pda_3,
                tip_pda_4,
                tip_pda_5,
                tip_pda_6,
                tip_pda_7,
            },
            tip_distribution_program_info: TipDistributionProgramInfo {
                program_id: config.tip_distribution_program_id.clone(),
                config_pda_and_bump,
            },
            tip_distribution_account_config: config.tip_distribution_account_config,
        };
        proof {
            assert(tip_pda_7 == orig[7]);
            assert(tip_pda_6 == orig[6]);
            assert(tip_pda_5 == orig[5]);
            assert(tip_pda_4 == orig[4]);
            assert(tip_pda_3 == orig[3]);
            assert(tip_pda_2 == orig[2]);
            assert(tip_pda_1 == orig[1]);
            assert(tip_pda_0 == orig[0]);
            assert forall|k2: u8| k2 < 8 implies #[trigger] tm.spec_tip_pda(k2) == Some(
                (tm.spec_held_tip_pda(k2).0@, tm.spec_held_tip_pda(k2).1),
            ) by {
                assert(program_address_of(
                    seq![seed_tip_account(k2)],
                    config.tip_payment_program_id@,
                ) == Some((orig[k2 as int].0@, orig[k2 as int].1)));
                assert(tm.spec_held_tip_pda(k2) == orig[k2 as int]);
            }
        }
        Some(tm)
    }

    /// The tip-payment program's id.
    pub fn tip_payment_program_id(&self) -> (r: Pubkey)
        ensures
            r@ == self.tip_payment_program_info.program_id@,
    {
        self.tip_payment_program_info.program_id.clone()
    }

    /// The config account owned by the tip-payment program.
    pub fn tip_payment_config_pubkey(&self) -> (r: Pubkey)
        ensures
            r@ == self.tip_payment_program_info.config_pda_bump.0@,
    {
        self.tip_payment_program_info.config_pda_bump.0.clone()
    }

    /// The config account owned by the tip-distribution program.
    pub fn tip_distribution_config_pubkey(&self) -> (r: Pubkey)
        ensures
            r@ == self.tip_distribution_program_info.config_pda_and_bump.0@,
    {
        self.tip_distribution_program_info.config_pda_and_bump.0.clone()
    }

    /// The eight tip accounts, in index order.
    pub fn get_tip_accounts(&self) -> (r: Vec<Pubkey>)
        ensures
            r@.len() == 8,
            forall|k: int| 0 <= k < 8 ==> r@[k]@ == self.spec_held_tip_pda(k as u8).0@,
    {
        let mut r: Vec<Pubkey> = Vec::new();
        r.push(self.tip_payment_program_info.tip_pda_0.0.clone());
        r.push(self.tip_payment_program_info.tip_pda_1.0.clone());
        r.push(self.tip_payment_program_info.tip_pda_2.0.clone());
        r.push(self.tip_payment_program_info.tip_pda_3.0.clone());
        r.push(self.tip_payment_program_info.tip_pda_4.0.clone());
        r.push(self.tip_payment_program_info.tip_pda_5.0.clone());
        r.push(self.tip_payment_program_info.tip_pda_6.0.clone());
        r.push(self.tip_payment_program_info.tip_pda_7.0.clone());
        r
    }

    /// Reads and parses the tip-payment config account from the snapshot.
    /// Missing and unparseable accounts are the two failures.
    pub fn get_tip_payment_config_account(&self, bank: &BankSnapshot) -> (r: Result<
        TipPaymentConfig,
        TipPaymentError,
    >)
        ensures
            ({
                let looked = spec_lookup(
                    bank.accounts@,
                    self.tip_payment_program_info.config_pda_bump.0@,
                );
                match r {
                    Ok(c) => looked matches Some(acct) && spec_config_receiver(acct.data@)
                        == Some(c.tip_receiver@) && c.tip_receiver.wf(),
                    Err(TipPaymentError::AccountMissing(p)) => p@
                        == self.tip_payment_program_info.config_pda_bump.0@ && looked is None,
                    Err(TipPaymentError::AccountParse) => looked matches Some(acct)
                        && spec_config_receiver(acct.data@) is None,
                }
            }),
    {
        let account = match bank.get_account(&self.tip_payment_program_info.config_pda_bump.0) {
            Some(a) => a,
            None => {
                return Err(
                    TipPaymentError::AccountMissing(
                        self.tip_payment_program_info.config_pda_bump.0.clone(),
                    ),
                );
            },
        };
        match parse_tip_payment_config(&account.data) {
            Some(c) => Ok(c),
            None => Err(TipPaymentError::AccountParse),
        }
    }

    /// The `tip_receiver` currently configured with the tip-payment program.
    pub fn get_configured_tip_receiver(&self, bank: &BankSnapshot) -> (r: Result<
        Pubkey,
        TipPaymentError,
    >)
        ensures
            ({
                let looked = spec_lookup(
                    bank.accounts@,
                    self.tip_payment_program_info.config_pda_bump.0@,
                );
                match r {
                    Ok(p) => looked matches Some(acct) && spec_config_receiver(acct.data@)
                        == Some(p@) && p.wf(),
                    Err(TipPaymentError::AccountMissing(p)) => p@
                        == self.tip_payment_program_info.config_pda_bump.0@ && looked is None,
                    Err(TipPaymentError::AccountParse) => looked matches Some(acct)
                        && spec_config_receiver(acct.data@) is None,
                }
            }),
    {
        match self.get_tip_payment_config_account(bank) {
            Ok(c) => Ok(c.tip_receiver),
            Err(e) => Err(e),
        }
    }

    /// This validator's tip-distribution account for the given epoch, when
    /// the derivation finds a bump.
    pub fn get_my_tip_distribution_pda(&self, epoch: u64) -> (r: Option<Pubkey>)
        requires
            self.tip_distribution_program_info.program_id.wf(),
        ensures
            ({
                let derived = spec_tip_distribution_pda(
                    self.tip_distribution_program_info.program_id@,
                    self.tip_distribution_account_config.vote_account@,
                    epoch,
                );
                match r {
                    Some(p) => derived matches Some(d) && d.0 == p@ && p.wf(),
                    None => derived is None,
                }
            }),
    {
        match derive_tip_distribution_account_address(
            &self.tip_distribution_program_info.program_id,
            &self.tip_distribution_account_config.vote_account,
            epoch,
        ) {
            Some(p) => Some(p.0),
            None => None,
        }
    }

    /// Whether the tip-payment program still has to be initialized: its
    /// config account is absent, or held by another owner.
    pub fn should_initialize_tip_payment_program(&self, bank: &BankSnapshot) -> (r: bool)
        ensures
            r == match spec_lookup(
                bank.accounts@,
                self.tip_payment_program_info.config_pda_bump.0@,
            ) {
                None => true,
                Some(acct) => acct.owner@ != self.tip_payment_program_info.program_id@,
            },
    {
        match bank.get_account(&self.tip_payment_program_info.config_pda_bump.0) {
            None => true,
            Some(account) => !(account.owner == self.tip_payment_program_info.program_id),
        }
    }

    /// Whether the tip-distribution program's config still has to be
    /// initialized: absent, or held by another owner.
    pub fn should_initialize_tip_distribution_config(&self, bank: &BankSnapshot) -> (r: bool)
        ensures
            r == match spec_lookup(
                bank.accounts@,
                self.tip_distribution_program_info.config_pda_and_bump.0@,
            ) {
                None => true,
                Some(acct) => acct.owner@ != self.tip_distribution_program_info.program_id@,
            },
    {
        match bank.get_account(&self.tip_distribution_program_info.config_pda_and_bump.0) {
            None => true,
            Some(account) => !(account.owner == self.tip_distribution_program_info.program_id),
        }
    }

    /// Whether this epoch's tip-distribution account still has to be opened:
    /// absent, or held by another owner (anyone can send lamports to the
    /// derived address, so the owner is checked too).  `None` when the
    /// derivation finds no bump.
    pub fn should_init_tip_distribution_account(&self, bank: &BankSnapshot) -> (r: Option<bool>)
        requires
            self.tip_distribution_program_info.program_id.wf(),
        ensures
            ({
                let derived = spec_tip_distribution_pda(
                    self.tip_distribution_program_info.program_id@,
                    self.tip_distribution_account_config.vote_account@,
                    bank.epoch,
                );
                match r {
                    None => derived is None,
                    Some(b) => derived matches Some(d) && b == match spec_lookup(
                        bank.accounts@,
                        d.0,
                    ) {
                        None => true,
                        Some(acct) => acct.owner@
                            != self.tip_distribution_program_info.program_id@,
                    },
                }
            }),
    {
        let pda = match derive_tip_distribution_account_address(
            &self.tip_distribution_program_info.program_id,
            &self.tip_distribution_account_config.vote_account,
            bank.epoch,
        ) {
            Some(p) => p.0,
            None => {
                return None;
            },
        };
        match bank.get_account(&pda) {
            None => Some(true),
            Some(account) => Some(
                !(account.owner == self.tip_distribution_program_info.program_id),
            ),
        }
    }

    /// The lamport balance of each tip account, in index order.
    pub fn get_tip_account_balances(&self, bank: &BankSnapshot) -> (r: Vec<(Pubkey, u64)>)
        ensures
            r@.len() == 8,
            forall|k: int|
                0 <= k < 8 ==> r@[k].0@ == self.spec_held_tip_pda(k as u8).0@ && r@[k].1
                    == spec_balance(bank.accounts@, self.spec_held_tip_pda(k as u8).0@),
    {
        let accounts = self.get_tip_accounts();
        let mut r: Vec<(Pubkey, u64)> = Vec::new();
        let mut i: usize = 0;
        while i < accounts.len()
            invariant
                i <= accounts@.len(),
                accounts@.len() == 8,
                r@.len() == i,
                forall|k: int|
                    0 <= k < 8 ==> accounts@[k]@ == self.spec_held_tip_pda(k as u8).0@,
                forall|k: int|
                    0 <= k < i ==> r@[k].0@ == self.spec_held_tip_pda(k as u8).0@ && r@[k].1
                        == spec_balance(bank.accounts@, self.spec_held_tip_pda(k as u8).0@),
            decreases accounts@.len() - i,
        {
            let account = &accounts[i];
            let balance = bank.get_balance(account);
            r.push((account.clone(), balance));
            i += 1;
        }
        r
    }

    /// The balance of each tip account above its rent-exempt minimum, in
    /// index order; zero when the balance sits at or below the minimum.
    pub fn get_tip_account_balances_above_rent_exempt(&self, bank: &BankSnapshot) -> (r: Vec<
        (Pubkey, u64),
    >)
        ensures
            r@.len() == 8,
            forall|k: int|
                0 <= k < 8 ==> r@[k].0@ == self.spec_held_tip_pda(k as u8).0@ && r@[k].1 as int
                    == spec_excess_of(bank, self.spec_held_tip_pda(k as u8).0@),
    {
        let accounts = self.get_tip_accounts();
        let mut r: Vec<(Pubkey, u64)> = Vec::new();
        let mut i: usize = 0;
        while i < accounts.len()
            invariant
                i <= accounts@.len(),
                accounts@.len() == 8,
                r@.len() == i,
                forall|k: int|
                    0 <= k < 8 ==> accounts@[k]@ == self.spec_held_tip_pda(k as u8).0@,
                forall|k: int|
                    0 <= k < i ==> r@[k].0@ == self.spec_held_tip_pda(k as u8).0@ && r@[k].1 as int
                        == spec_excess_of(bank, self.spec_held_tip_pda(k as u8).0@),
            decreases accounts@.len() - i,
        {
            let account = &accounts[i];
            let data_len = match bank.get_account(account) {
                Some(a) => a.data.len(),
                None => 0,
            };
            let balance = bank.get_balance(account);
            let above = match bank.get_minimum_balance_for_rent_exemption(data_len) {
                Some(rent_exempt) => {
                    if balance >= rent_exempt {
                        balance - rent_exempt
                    } else {
                        0
                    }
                },
                None => 0,
            };
            r.push((account.clone(), above));
            i += 1;
        }
        r
    }
}

/// The system program's address: thirty-two zero bytes.
pub fn system_program_id() -> (r: Pubkey)
    ensures
        r.wf(),
        forall|i: int| 0 <= i < r@.len() ==> r@[i] == 0u8,
{
    Pubkey::zeroed()
}

impl TipManager {
    /// Builds the one-time transaction that initializes the tip-payment
    /// program: one instruction handing the program its nine bumps, against
    /// the config account, the eight tip accounts, the system program and
    /// the paying signer.
    pub fn initialize_tip_payment_program_tx(
        &self,
        recent_blockhash: &Vec<u8>,
        payer: &Pubkey,
    ) -> (r: TransactionTemplate)
        ensures
            r.instructions@.len() == 1,
            r.instructions@[0].program_id@ == self.tip_payment_program_info.program_id@,
            r.instructions@[0].accounts@.map_values(|m: AccountMetaSpec| meta_view(m)) =~~= seq![
                (self.tip_payment_program_info.config_pda_bump.0@, false, true),
                (self.tip_payment_program_info.tip_pda_0.0@, false, true),
                (self.tip_payment_program_info.tip_pda_1.0@, false, true),
                (self.tip_payment_program_info.tip_pda_2.0@, false, true),
                (self.tip_payment_program_info.tip_pda_3.0@, false, true),
                (self.tip_payment_program_info.tip_pda_4.0@, false, true),
                (self.tip_payment_program_info.tip_pda_5.0@, false, true),
                (self.tip_payment_program_info.tip_pda_6.0@, false, true),
                (self.tip_payment_program_info.tip_pda_7.0@, false, true),
                (Seq::new(32, |i: int| 0u8), false, false),
                (payer@, true, true),
            ],
            r.instructions@[0].data matches InstructionData::InitializeTipPayment {
                config_bump,
                tip_bumps,
            } && config_bump == self.tip_payment_program_info.config_pda_bump.1 && tip_bumps@
                =~= seq![
                self.tip_payment_program_info.tip_pda_0.1,
                self.tip_payment_program_info.tip_pda_1.1,
                self.tip_payment_program_info.tip_pda_2.1,
                self.tip_payment_program_info.tip_pda_3.1,
                self.tip_payment_program_info.tip_pda_4.1,
                self.tip_payment_program_info.tip_pda_5.1,
                self.tip_payment_program_info.tip_pda_6.1,
                self.tip_payment_program_info.tip_pda_7.1,
            ],
            r.payer@ == payer@,
            r.recent_blockhash@ == recent_blockhash@,
            r.compute_unit_limit is None,
    {
        let mut tip_bumps: Vec<u8> = Vec::new();
        tip_bumps.push(self.tip_payment_program_info.tip_pda_0.1);
        tip_bumps.push(self.tip_payment_program_info.tip_pda_1.1);
        tip_bumps.push(self.tip_payment_program_info.tip_pda_2.1);
        tip_bumps.push(self.tip_payment_program_info.tip_pda_3.1);
        tip_bumps.push(self.tip_payment_program_info.tip_pda_4.1);
        tip_bumps.push(self.tip_payment_program_info.tip_pda_5.1);
        tip_bumps.push(self.tip_payment_program_info.tip_pda_6.1);
        tip_bumps.push(self.tip_payment_program_info.tip_pda_7.1);
        let mut accounts: Vec<AccountMetaSpec> = Vec::new();
        accounts.push(self.writable(&self.tip_payment_program_info.config_pda_bump.0));
        accounts.push(self.writable(&self.tip_payment_program_info.tip_pda_0.0));
        accounts.push(self.writable(&self.tip_payment_program_info.tip_pda_1.0));
        accounts.push(self.writable(&self.tip_payment_program_info.tip_pda_2.0));
        accounts.push(self.writable(&self.tip_payment_program_info.tip_pda_3.0));
        accounts.push(self.writable(&self.tip_payment_program_info.tip_pda_4.0));
        accounts.push(self.writable(&self.tip_payment_program_info.tip_pda_5.0));
        accounts.push(self.writable(&self.tip_payment_program_info.tip_pda_6.0));
        accounts.push(self.writable(&self.tip_payment_program_info.tip_pda_7.0));
        accounts.push(
            AccountMetaSpec { pubkey: system_program_id(), is_signer: false, is_writable: false },
        );
        accounts.push(AccountMetaSpec { pubkey: payer.clone(), is_signer: true, is_writable: true });
        let init_ix = InstructionTemplate {
            program_id: self.tip_payment_program_info.program_id.clone(),
            accounts,
            data: InstructionData::InitializeTipPayment {
                config_bump: self.tip_payment_program_info.config_pda_bump.1,
                tip_bumps,
            },
        };
        let mut instructions: Vec<InstructionTemplate> = Vec::new();
        instructions.push(init_ix);
        TransactionTemplate {
            instructions,
            payer: payer.clone(),
            recent_blockhash: crate::layout::copy_range(
                recent_blockhash,
                0,
                recent_blockhash.len(),
            ),
            compute_unit_limit: None,
        }
    }

    /// A writable, non-signing reference to an account.
    fn writable(&self, key: &Pubkey) -> (r: AccountMetaSpec)
        ensures
            r.pubkey@ == key@,
            !r.is_signer,
            r.is_writable,
    {
        AccountMetaSpec { pubkey: key.clone(), is_signer: false, is_writable: true }
    }

    /// Builds the transaction that initializes the tip-distribution
    /// program's config: the caller becomes authority and expired-funds
    /// account, with the fixed validity window and commission cap.
    pub fn initialize_tip_distribution_config_tx(
        &self,
        recent_blockhash: &Vec<u8>,
        my_pubkey: &Pubkey,
    ) -> (r: TransactionTemplate)
        ensures
            r.instructions@.len() == 1,
            r.instructions@[0].program_id@ == self.tip_distribution_program_info.program_id@,
            r.instructions@[0].accounts@.map_values(|m: AccountMetaSpec| meta_view(m)) =~~= seq![
                (self.tip_distribution_program_info.config_pda_and_bump.0@, false, true),
                (Seq::new(32, |i: int| 0u8), false, false),
                (my_pubkey@, true, true),
            ],
            r.instructions@[0].data matches InstructionData::InitializeTipDistributionConfig {
                authority,
                expired_funds_account,
                num_epochs_valid,
                max_validator_commission_bps,
                bump,
            } && authority@ == my_pubkey@ && expired_funds_account@ == my_pubkey@
                && num_epochs_valid == NUM_EPOCHS_VALID && max_validator_commission_bps
                == MAX_VALIDATOR_COMMISSION_BPS && bump
                == self.tip_distribution_program_info.config_pda_and_bump.1,
            r.payer@ == my_pubkey@,
            r.recent_blockhash@ == recent_blockhash@,
            r.compute_unit_limit is None,
    {
        let mut accounts: Vec<AccountMetaSpec> = Vec::new();
        accounts.push(self.writable(&self.tip_distribution_program_info.config_pda_and_bump.0));
        accounts.push(
            AccountMetaSpec { pubkey: system_program_id(), is_signer: false, is_writable: false },
        );
        accounts.push(
            AccountMetaSpec { pubkey: my_pubkey.clone(), is_signer: true, is_writable: true },
        );
        let ix = InstructionTemplate {
            program_id: self.tip_distribution_program_info.program_id.clone(),
            accounts,
            data: InstructionData::InitializeTipDistributionConfig {
                authority: my_pubkey.clone(),
                expired_funds_account: my_pubkey.clone(),
                num_epochs_valid: NUM_EPOCHS_VALID,
                max_validator_commission_bps: MAX_VALIDATOR_COMMISSION_BPS,
                bump: self.tip_distribution_program_info.config_pda_and_bump.1,
            },
        };
        let mut instructions: Vec<InstructionTemplate> = Vec::new();
        instructions.push(ix);
        TransactionTemplate {
            instructions,
            payer: my_pubkey.clone(),
            recent_blockhash: crate::layout::copy_range(
                recent_blockhash,
                0,
                recent_blockhash.len(),
            ),
            compute_unit_limit: None,
        }
    }

    /// Builds the transaction that opens this validator's tip-distribution
    /// account for the given epoch.  `None` when the derivation finds no
    /// bump.
    pub fn init_tip_distribution_account_tx(
        &self,
        recent_blockhash: &Vec<u8>,
        epoch: u64,
    ) -> (r: Option<TransactionTemplate>)
        requires
            self.tip_distribution_program_info.program_id.wf(),
        ensures
            ({
                let derived = spec_tip_distribution_pda(
                    self.tip_distribution_program_info.program_id@,
                    self.tip_distribution_account_config.vote_account@,
                    epoch,
                );
                match r {
                    None => derived is None,
                    Some(tx) => derived matches Some(d) && {
                        &&& tx.instructions@.len() == 1
                        &&& tx.instructions@[0].program_id@
                            == self.tip_distribution_program_info.program_id@
                        &&& tx.instructions@[0].accounts@.map_values(
                            |m: AccountMetaSpec| meta_view(m),
                        ) =~~= seq![
                            (
                                self.tip_distribution_program_info.config_pda_and_bump.0@,
                                false,
                                false,
                            ),
                            (d.0, false, true),
                            (self.tip_distribution_account_config.payer@, true, true),
                            (Seq::new(32, |i: int| 0u8), false, false),
                        ]
                        &&& tx.instructions@[0].data
                            matches InstructionData::InitTipDistributionAccount {
                            validator_vote_account,
                            merkle_root_upload_authority,
                            validator_commission_bps,
                            bump,
                        } && validator_vote_account@
                            == self.tip_distribution_account_config.vote_account@
                            && merkle_root_upload_authority@
                            == self.tip_distribution_account_config.merkle_root_upload_authority@
                            && validator_commission_bps
                            == self.tip_distribution_account_config.commission_bps && bump == d.1
                        &&& tx.payer@ == self.tip_distribution_account_config.payer@
                        &&& tx.recent_blockhash@ == recent_blockhash@
                        &&& tx.compute_unit_limit is None
                    },
                }
            }),
    {
        let (tip_distribution_account, bump) = match derive_tip_distribution_account_address(
            &self.tip_distribution_program_info.program_id,
            &self.tip_distribution_account_config.vote_account,
            epoch,
        ) {
            Some(p) => p,
            None => {
                return None;
            },
        };
        let mut accounts: Vec<AccountMetaSpec> = Vec::new();
        accounts.push(
            AccountMetaSpec {
                pubkey: self.tip_distribution_program_info.config_pda_and_bump.0.clone(),
                is_signer: false,
                is_writable: false,
            },
        );
        accounts.push(self.writable(&tip_distribution_account));
        accounts.push(
            AccountMetaSpec {
                pubkey: self.tip_distribution_account_config.payer.clone(),
                is_signer: true,
                is_writable: true,
            },
        );
        accounts.push(
            AccountMetaSpec { pubkey: system_program_id(), is_signer: false, is_writable: false },
        );
        let ix = InstructionTemplate {
            program_id: self.tip_distribution_program_info.program_id.clone(),
            accounts,
            data: InstructionData::InitTipDistributionAccount {
                validator_vote_account: self.tip_distribution_account_config.vote_account.clone(),
                merkle_root_upload_authority: self
                    .tip_distribution_account_config
                    .merkle_root_upload_authority
                    .clone(),
                validator_commission_bps: self.tip_distribution_account_config.commission_bps,
                bump,
            },
        };
        let mut instructions: Vec<InstructionTemplate> = Vec::new();
        instructions.push(ix);
        Some(
            TransactionTemplate {
                instructions,
                payer: self.tip_distribution_account_config.payer.clone(),
                recent_blockhash: crate::layout::copy_range(
                    recent_blockhash,
                    0,
                    recent_blockhash.len(),
                ),
                compute_unit_limit: None,
            },
        )
    }

    /// Builds the transaction that drains the tip accounts to the current
    /// receiver and hands the receiver role to `new_tip_receiver`.  It reads
    /// the current receiver from the snapshot, uses the snapshot's latest
    /// blockhash, and asks for a raised compute-unit budget.
    pub fn change_tip_receiver_tx(
        &self,
        new_tip_receiver: &Pubkey,
        bank: &BankSnapshot,
        my_pubkey: &Pubkey,
    ) -> (r: Result<TransactionTemplate, TipPaymentError>)
        ensures
            ({
                let looked = spec_lookup(
                    bank.accounts@,
                    self.tip_payment_program_info.config_pda_bump.0@,
                );
                match r {
                    Err(TipPaymentError::AccountMissing(p)) => p@
                        == self.tip_payment_program_info.config_pda_bump.0@ && looked is None,
                    Err(TipPaymentError::AccountParse) => looked matches Some(acct)
                        && spec_config_receiver(acct.data@) is None,
                    Ok(tx) => looked matches Some(acct) && spec_config_receiver(acct.data@)
                        matches Some(old_receiver) && {
                        &&& tx.instructions@.len() == 1
                        &&& tx.instructions@[0].program_id@
                            == self.tip_payment_program_info.program_id@
                        &&& tx.instructions@[0].accounts@.map_values(
                            |m: AccountMetaSpec| meta_view(m),
                        ) =~~= seq![
                            (self.tip_payment_program_info.config_pda_bump.0@, false, true),
                            (old_receiver, false, true),
                            (new_tip_receiver@, false, true),
                            (self.tip_payment_program_info.tip_pda_0.0@, false, true),
                            (self.tip_payment_program_info.tip_pda_1.0@, false, true),
                            (self.tip_payment_program_info.tip_pda_2.0@, false, true),
                            (self.tip_payment_program_info.tip_pda_3.0@, false, true),
                            (self.tip_payment_program_info.tip_pda_4.0@, false, true),
                            (self.tip_payment_program_info.tip_pda_5.0@, false, true),
                            (self.tip_payment_program_info.tip_pda_6.0@, false, true),
                            (self.tip_payment_program_info.tip_pda_7.0@, false, true),
                            (my_pubkey@, true, false),
                        ]
                        &&& tx.instructions@[0].data is ChangeTipReceiver
                        &&& tx.payer@ == my_pubkey@
                        &&& tx.recent_blockhash@ == bank.last_blockhash@
                        &&& tx.compute_unit_limit == Some(CHANGE_TIP_RECEIVER_CU_LIMIT)
                    },
                }
            }),
    {
        let old_tip_receiver = match self.get_configured_tip_receiver(bank) {
            Ok(p) => p,
            Err(e) => {
                return Err(e);
            },
        };
        let mut accounts: Vec<AccountMetaSpec> = Vec::new();
        accounts.push(self.writable(&self.tip_payment_program_info.config_pda_bump.0));
        accounts.push(self.writable(&old_tip_receiver));
        accounts.push(self.writable(new_tip_receiver));
        accounts.push(self.writable(&self.tip_payment_program_info.tip_pda_0.0));
        accounts.push(self.writable(&self.tip_payment_program_info.tip_pda_1.0));
        accounts.push(self.writable(&self.tip_payment_program_info.tip_pda_2.0));
        accounts.push(self.writable(&self.tip_payment_program_info.tip_pda_3.0));
        accounts.push(self.writable(&self.tip_payment_program_info.tip_pda_4.0));
        accounts.push(self.writable(&self.tip_payment_program_info.tip_pda_5.0));
        accounts.push(self.writable(&self.tip_payment_program_info.tip_pda_6.0));
        accounts.push(self.writable(&self.tip_payment_program_info.tip_pda_7.0));
        accounts.push(
            AccountMetaSpec { pubkey: my_pubkey.clone(), is_signer: true, is_writable: false },
        );
        let change_tip_ix = InstructionTemplate {
            program_id: self.tip_payment_program_info.program_id.clone(),
            accounts,
            data: InstructionData::ChangeTipReceiver,
        };
        let mut instructions: Vec<InstructionTemplate> = Vec::new();
        instructions.push(change_tip_ix);
        Ok(
            TransactionTemplate {
                instructions,
                payer: my_pubkey.clone(),
                recent_blockhash: crate::layout::copy_range(
                    &bank.last_blockhash,
                    0,
                    bank.last_blockhash.len(),
                ),
                compute_unit_limit: Some(CHANGE_TIP_RECEIVER_CU_LIMIT),
            },
        )
    }
}

/// The balance of the account at `key` above its rent-exempt minimum, zero
/// when it sits at or below it (or when the minimum exceeds any balance).
/// An absent account counts as empty with no data.
pub open spec fn spec_excess_of(bank: &BankSnapshot, key: Seq<u8>) -> int {
    let data_len: nat = match spec_lookup(bank.accounts@, key) {
        Some(a) => a.data@.len(),
        None => 0,
    };
    let balance = spec_balance(bank.accounts@, key);
    let rent = spec_rent_exempt_min(bank.rent_lamports_per_byte, data_len);
    if balance >= rent {
        balance - rent
    } else {
        0
    }
}

} // verus!
