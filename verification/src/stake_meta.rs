//! The stake-meta snapshot generator: from a frozen bank, the per-validator
//! record of delegations and tip-distribution state, with un-cranked tip
//! balances credited to the configured receiver.

use vstd::prelude::*;
use crate::bank::{BankSnapshot, StakeDelegation, VoteAccountInfo, spec_lookup, spec_rent_exempt_min};
use crate::keys::Pubkey;
use crate::layout::{
    parse_tip_payment_config, parse_tip_distribution_account, spec_config_receiver,
    spec_tda_well_formed, le_val, spec_tda_tail, ACCOUNT_TAG_BYTES,
};
use crate::keys::PUBKEY_BYTES;
use crate::pda::{
    config_seeds, find_program_address, program_address_of, seed_config, seed_tip_account,
    spec_tip_distribution_pda, tip_account_seeds, derive_tip_distribution_account_address,
};

verus! {

/// Why a generator run failed.
#[derive(Debug)]
pub enum Error {
    /// A program account does not deserialize.
    AnchorError(String),
    /// The ledger store failed.
    BlockstoreError(String),
    /// Replaying the ledger failed.
    BlockstoreProcessorError(String),
    /// A file operation failed.
    IoError(String),
    /// A checked subtraction underflowed: a tip-distribution account holds
    /// less than its rent-exempt minimum.
    CheckedMathError,
    /// A remote call failed.
    RpcError(String),
    /// Writing the collection as text failed.
    SerdeJsonError(String),
    /// The requested snapshot slot is not in the ledger.
    SnapshotSlotNotFound,
}

/// One delegation, as recorded per validator.
pub struct Delegation {
    pub stake_account_pubkey: Pubkey,
    pub staker_pubkey: Pubkey,
    pub withdrawer_pubkey: Pubkey,
    pub lamports_delegated: u64,
}

/// The mathematical value of a delegation record.
pub struct DelegationV {
    pub stake_account_pubkey: Seq<u8>,
    pub staker_pubkey: Seq<u8>,
    pub withdrawer_pubkey: Seq<u8>,
    pub lamports_delegated: u64,
}

impl View for Delegation {
    type V = DelegationV;

    open spec fn view(&self) -> DelegationV {
        DelegationV {
            stake_account_pubkey: self.stake_account_pubkey@,
            staker_pubkey: self.staker_pubkey@,
            withdrawer_pubkey: self.withdrawer_pubkey@,
            lamports_delegated: self.lamports_delegated,
        }
    }
}

impl Clone for Delegation {
    fn clone(&self) -> (r: Self)
        ensures
            r@ == self@,
    {
        Delegation {
            stake_account_pubkey: self.stake_account_pubkey.clone(),
            staker_pubkey: self.staker_pubkey.clone(),
            withdrawer_pubkey: self.withdrawer_pubkey.clone(),
            lamports_delegated: self.lamports_delegated,
        }
    }
}

/// A validator's tip-distribution record for the epoch.
pub struct TipDistributionMeta {
    pub tip_distribution_pubkey: Pubkey,
    pub merkle_root_upload_authority: Pubkey,
    pub total_tips: u64,
    pub validator_fee_bps: u16,
}

/// The mathematical value of a tip-distribution record.
pub struct TipDistributionMetaV {
    pub tip_distribution_pubkey: Seq<u8>,
    pub merkle_root_upload_authority: Seq<u8>,
    pub total_tips: u64,
    pub validator_fee_bps: u16,
}

impl View for TipDistributionMeta {
    type V = TipDistributionMetaV;

    open spec fn view(&self) -> TipDistributionMetaV {
        TipDistributionMetaV {
            tip_distribution_pubkey: self.tip_distribution_pubkey@,
            merkle_root_upload_authority: self.merkle_root_upload_authority@,
            total_tips: self.total_tips,
            validator_fee_bps: self.validator_fee_bps,
        }
    }
}

/// One validator's record in the collection.
pub struct StakeMeta {
    pub validator_vote_account: Pubkey,
    pub delegations: Vec<Delegation>,
    pub total_delegated: u64,
    pub commission: u8,
    pub maybe_tip_distribution_meta: Option<TipDistributionMeta>,
}

/// The mathematical value of a validator's record.
pub struct StakeMetaV {
    pub validator_vote_account: Seq<u8>,
    pub delegations: Seq<DelegationV>,
    pub total_delegated: u64,
    pub commission: u8,
    pub maybe_tip_distribution_meta: Option<TipDistributionMetaV>,
}

impl View for StakeMeta {
    type V = StakeMetaV;

    open spec fn view(&self) -> StakeMetaV {
        StakeMetaV {
            validator_vote_account: self.validator_vote_account@,
            delegations: self.delegations@.map_values(|d: Delegation| d@),
            total_delegated: self.total_delegated,
            commission: self.commission,
            maybe_tip_distribution_meta: match self.maybe_tip_distribution_meta {
                Some(m) => Some(m@),
                None => None,
            },
        }
    }
}

/// The generator's output: one record per validator with delegations, and
/// where the run was made.
pub struct StakeMetaCollection {
    pub stake_metas: Vec<StakeMeta>,
    pub tip_distribution_program_id: Pubkey,
    pub bank_hash: String,
    pub epoch: u64,
    pub slot: u64,
}

/// The value of a raw stake delegation as it enters a record.
pub open spec fn spec_delegation_view(d: StakeDelegation) -> DelegationV {
    DelegationV {
        stake_account_pubkey: d.stake_pubkey@,
        staker_pubkey: d.staker_pubkey@,
        withdrawer_pubkey: d.withdrawer_pubkey@,
        lamports_delegated: d.stake_lamports,
    }
}

/// The voters delegated to, in order of first appearance, counting only
/// delegations with stake effective this epoch.
pub open spec fn spec_voters(delegs: Seq<StakeDelegation>) -> Seq<Seq<u8>>
    decreases delegs.len(),
{
    if delegs.len() == 0 {
        Seq::empty()
    } else {
        let vs = spec_voters(delegs.drop_last());
        let d = delegs.last();
        if d.activated_stake > 0 && !vs.contains(d.voter_pubkey@) {
            vs.push(d.voter_pubkey@)
        } else {
            vs
        }
    }
}

/// The delegations to one voter, in input order, counting only delegations
/// with stake effective this epoch.
pub open spec fn spec_delegs_of(delegs: Seq<StakeDelegation>, voter: Seq<u8>) -> Seq<DelegationV>
    decreases delegs.len(),
{
    if delegs.len() == 0 {
        Seq::empty()
    } else {
        spec_delegs_of(delegs.drop_last(), voter) + (if delegs.last().activated_stake > 0
            && delegs.last().voter_pubkey@ == voter {
            seq![spec_delegation_view(delegs.last())]
        } else {
            Seq::empty()
        })
    }
}

/// A voter appears in the voter list exactly when it has an effective
/// delegation.
pub proof fn lemma_voter_iff_delegations(delegs: Seq<StakeDelegation>, voter: Seq<u8>)
    ensures
        spec_voters(delegs).contains(voter) <==> spec_delegs_of(delegs, voter).len() > 0,
    decreases delegs.len(),
{
    if delegs.len() == 0 {
    } else {
        lemma_voter_iff_delegations(delegs.drop_last(), voter);
        let vs = spec_voters(delegs.drop_last());
        let d = delegs.last();
        if d.activated_stake > 0 && !vs.contains(d.voter_pubkey@) {
            assert(spec_voters(delegs) == vs.push(d.voter_pubkey@));
            if spec_voters(delegs).contains(voter) {
                assert(vs.contains(voter) || voter == d.voter_pubkey@) by {
                    let i = choose|i: int|
                        0 <= i < spec_voters(delegs).len() && spec_voters(delegs)[i] == voter;
                    if i < vs.len() {
                        assert(vs[i] == voter);
                    }
                }
            }
            if vs.contains(voter) {
                let i = choose|i: int| 0 <= i < vs.len() && vs[i] == voter;
                assert(spec_voters(delegs)[i] == voter);
            }
            if voter == d.voter_pubkey@ {
                assert(spec_voters(delegs)[vs.len() as int] == voter);
            }
        }
    }
}

/// The voter list never repeats a voter.
pub proof fn lemma_voters_distinct(delegs: Seq<StakeDelegation>)
    ensures
        forall|i: int, j: int|
            0 <= i < j < spec_voters(delegs).len() ==> spec_voters(delegs)[i] != spec_voters(
                delegs,
            )[j],
    decreases delegs.len(),
{
    if delegs.len() == 0 {
    } else {
        lemma_voters_distinct(delegs.drop_last());
        let vs = spec_voters(delegs.drop_last());
        let d = delegs.last();
        if d.activated_stake > 0 && !vs.contains(d.voter_pubkey@) {
            assert forall|i: int, j: int|
                0 <= i < j < spec_voters(delegs).len() implies spec_voters(delegs)[i]
                != spec_voters(delegs)[j] by {
                if j < vs.len() {
                } else {
                    assert(spec_voters(delegs)[j] == d.voter_pubkey@);
                    assert(spec_voters(delegs)[i] == vs[i]);
                    assert(!vs.contains(d.voter_pubkey@));
                }
            }
        }
    }
}

/// Whether an address occurs in the list.
fn contains_pubkey(voters: &Vec<Pubkey>, key: &Pubkey) -> (r: bool)
    ensures
        r <==> exists|j: int| 0 <= j < voters@.len() && voters@[j]@ == key@,
{
    let n = voters.len();
    let mut k: usize = 0;
    while k < n
        invariant
            k <= n,
            n == voters@.len(),
            forall|j: int| 0 <= j < k ==> voters@[j]@ != key@,
        decreases n - k,
    {
        if voters[k] == *key {
            assert(voters@[k as int]@ == key@);
            return true;
        }
        k += 1;
    }
    false
}

/// Finds a voter among the collected groups.
fn find_group(groups: &Vec<(Pubkey, Vec<Delegation>)>, key: &Pubkey) -> (r: Option<usize>)
    ensures
        match r {
            Some(k) => k < groups@.len() && groups@[k as int].0@ == key@,
            None => forall|k: int| 0 <= k < groups@.len() ==> groups@[k].0@ != key@,
        },
{
    let n = groups.len();
    let mut i: usize = 0;
    while i < n
        invariant
            i <= n,
            n == groups@.len(),
            forall|k: int| 0 <= k < i ==> groups@[k].0@ != key@,
        decreases n - i,
    {
        if groups[i].0 == *key {
            return Some(i);
        }
        i += 1;
    }
    None
}

/// Groups the effective delegations by the voter they delegate to.  The
/// groups appear in order of each voter's first effective delegation, and
/// each group keeps its delegations in input order.
pub fn group_delegations_by_voter_pubkey(delegations: &Vec<StakeDelegation>) -> (r: Vec<
    (Pubkey, Vec<Delegation>),
>)
    ensures
        r@.len() == spec_voters(delegations@).len(),
        forall|k: int| 0 <= k < r@.len() ==> r@[k].0@ == spec_voters(delegations@)[k],
        forall|k: int|
            0 <= k < r@.len() ==> r@[k].1@.map_values(|d: Delegation| d@) == spec_delegs_of(
                delegations@,
                #[trigger] r@[k].0@,
            ),
{
    let n = delegations.len();
    // first pass: the voters in order of first effective appearance
    let mut voters: Vec<Pubkey> = Vec::new();
    let mut i: usize = 0;
    proof {
        assert(delegations@.take(0) =~= Seq::<StakeDelegation>::empty());
    }
    while i < n
        invariant
            i <= n,
            n == delegations@.len(),
            voters@.map_values(|p: Pubkey| p@) =~= spec_voters(delegations@.take(i as int)),
        decreases n - i,
    {
        let ghost pref = delegations@.take(i as int);
        let d = &delegations[i];
        proof {
            assert(delegations@.take(i + 1).drop_last() =~= pref);
            assert(delegations@.take(i + 1).last() == delegations@[i as int]);
        }
        if d.activated_stake > 0 {
            let seen = contains_pubkey(&voters, &d.voter_pubkey);
            proof {
                if seen {
                    let j = choose|j: int| 0 <= j < voters@.len() && voters@[j]@ == d.voter_pubkey@;
                    assert(voters@.map_values(|p: Pubkey| p@)[j] == voters@[j]@);
                    assert(spec_voters(pref)[j] == voters@[j]@);
                    assert(spec_voters(pref).contains(d.voter_pubkey@));
                } else {
                    if spec_voters(pref).contains(d.voter_pubkey@) {
                        let j = choose|j: int|
                            0 <= j < spec_voters(pref).len() && spec_voters(pref)[j]
                                == d.voter_pubkey@;
                        assert(voters@.map_values(|p: Pubkey| p@)[j] == voters@[j]@);
                        assert(voters@[j]@ == d.voter_pubkey@);
                        assert(false);
                    }
                }
            }
            if !seen {
                voters.push(d.voter_pubkey.clone());
                proof {
                    assert(voters@.map_values(|p: Pubkey| p@) =~= spec_voters(
                        delegations@.take(i + 1),
                    ));
                }
            } else {
                proof {
                    assert(voters@.map_values(|p: Pubkey| p@) =~= spec_voters(
                        delegations@.take(i + 1),
                    ));
                }
            }
        } else {
            proof {
                assert(voters@.map_values(|p: Pubkey| p@) =~= spec_voters(
                    delegations@.take(i + 1),
                ));
            }
        }
        i += 1;
    }
    proof {
        assert(delegations@.take(n as int) =~= delegations@);
    }
    // second pass: each voter's delegations, in input order
    let mut r: Vec<(Pubkey, Vec<Delegation>)> = Vec::new();
    let mut v: usize = 0;
    while v < voters.len()
        invariant
            v <= voters@.len(),
            n == delegations@.len(),
            voters@.map_values(|p: Pubkey| p@) =~= spec_voters(delegations@),
            r@.len() == v,
            forall|k: int| 0 <= k < v ==> r@[k].0@ == spec_voters(delegations@)[k],
            forall|k: int|
                0 <= k < v ==> r@[k].1@.map_values(|d: Delegation| d@) == spec_delegs_of(
                    delegations@,
                    #[trigger] r@[k].0@,
                ),
        decreases voters@.len() - v,
    {
        let voter = voters[v].clone();
        let mut group: Vec<Delegation> = Vec::new();
        let mut i2: usize = 0;
        proof {
            assert(delegations@.take(0) =~= Seq::<StakeDelegation>::empty());
        }
        while i2 < n
            invariant
                i2 <= n,
                n == delegations@.len(),
                group@.map_values(|d: Delegation| d@) =~= spec_delegs_of(
                    delegations@.take(i2 as int),
                    voter@,
                ),
            decreases n - i2,
        {
            let ghost pref = delegations@.take(i2 as int);
            let d = &delegations[i2];
            proof {
                assert(delegations@.take(i2 + 1).drop_last() =~= pref);
                assert(delegations@.take(i2 + 1).last() == delegations@[i2 as int]);
            }
            if d.activated_stake > 0 && d.voter_pubkey == voter {
                group.push(
                    Delegation {
                        stake_account_pubkey: d.stake_pubkey.clone(),
                        staker_pubkey: d.staker_pubkey.clone(),
                        withdrawer_pubkey: d.withdrawer_pubkey.clone(),
                        lamports_delegated: d.stake_lamports,
                    },
                );
            }
            proof {
                assert(group@.map_values(|d2: Delegation| d2@) =~= spec_delegs_of(
                    delegations@.take(i2 + 1),
                    voter@,
                ));
            }
            i2 += 1;
        }
        proof {
            assert(delegations@.take(n as int) =~= delegations@);
        }
        r.push((voter, group));
        v += 1;
    }
    r
}

/// The derivation of the tip-payment program's config account.
pub open spec fn spec_tp_config_pda(tppid: Seq<u8>) -> Option<(Seq<u8>, u8)> {
    program_address_of(seq![seed_config()], tppid)
}

/// The derivation of tip account `k` under the tip-payment program.
pub open spec fn spec_tip_pda_of(tppid: Seq<u8>, k: u8) -> Option<(Seq<u8>, u8)> {
    program_address_of(seq![seed_tip_account(k)], tppid)
}

/// The tip receiver configured in the snapshot (assuming the config account
/// is derivable, present and parseable).
pub open spec fn spec_receiver(bank: &BankSnapshot, tppid: Seq<u8>) -> Seq<u8> {
    let pda = (spec_tp_config_pda(tppid)->Some_0).0;
    let acct = spec_lookup(bank.accounts@, pda)->Some_0;
    spec_config_receiver(acct.data@)->Some_0
}

/// The balance of tip account `k` above its rent-exempt minimum (assuming
/// presence; negative on underflow, which the context below excludes).
pub open spec fn spec_tip_excess_at(bank: &BankSnapshot, tppid: Seq<u8>, k: u8) -> int {
    let pda = (spec_tip_pda_of(tppid, k)->Some_0).0;
    let acct = spec_lookup(bank.accounts@, pda)->Some_0;
    acct.lamports - spec_rent_exempt_min(bank.rent_lamports_per_byte, acct.data@.len())
}

/// The excess of the first `k` tip accounts.
pub open spec fn spec_excess_upto(bank: &BankSnapshot, tppid: Seq<u8>, k: nat) -> int
    decreases k,
{
    if k == 0 {
        0
    } else {
        spec_excess_upto(bank, tppid, (k - 1) as nat) + spec_tip_excess_at(
            bank,
            tppid,
            (k - 1) as u8,
        )
    }
}

/// The excess sitting un-cranked across all eight tip accounts.
pub open spec fn spec_excess_tip_balances(bank: &BankSnapshot, tppid: Seq<u8>) -> int {
    spec_excess_upto(bank, tppid, 8)
}

/// What a run needs of the tip-payment side: the config account derivable,
/// present and parseable; every tip account derivable and present, with a
/// representable rent minimum, a balance at or above it, and a representable
/// total excess.
pub open spec fn spec_tip_context_ok(bank: &BankSnapshot, tppid: Seq<u8>) -> bool {
    &&& spec_tp_config_pda(tppid) is Some
    &&& spec_lookup(bank.accounts@, (spec_tp_config_pda(tppid)->Some_0).0) is Some
    &&& spec_config_receiver(
        spec_lookup(bank.accounts@, (spec_tp_config_pda(tppid)->Some_0).0)->Some_0.data@,
    ) is Some
    &&& forall|k: u8| k < 8 ==> (#[trigger] spec_tip_pda_of(tppid, k)) is Some
    &&& forall|k: u8|
        k < 8 ==> spec_lookup(bank.accounts@, ((#[trigger] spec_tip_pda_of(tppid, k))->Some_0).0)
            is Some
    &&& forall|k: u8|
        k < 8 ==> {
            let acct = spec_lookup(
                bank.accounts@,
                ((#[trigger] spec_tip_pda_of(tppid, k))->Some_0).0,
            )->Some_0;
            let rent = spec_rent_exempt_min(bank.rent_lamports_per_byte, acct.data@.len());
            rent <= u64::MAX && acct.lamports >= rent
        }
    &&& spec_excess_tip_balances(bank, tppid) <= u64::MAX
}

/// What a run needs of one vote account: its tip-distribution address
/// derivable, and, when the account exists, its data well-formed, its rent
/// minimum representable, and its credited balance representable.
pub open spec fn spec_va_ok(
    bank: &BankSnapshot,
    tdpid: Seq<u8>,
    receiver: Seq<u8>,
    excess: int,
    va: VoteAccountInfo,
) -> bool {
    &&& spec_tip_distribution_pda(tdpid, va.vote_pubkey@, bank.epoch) is Some
    &&& match spec_lookup(
        bank.accounts@,
        (spec_tip_distribution_pda(tdpid, va.vote_pubkey@, bank.epoch)->Some_0).0,
    ) {
        None => true,
        Some(acct) => {
            let pda = (spec_tip_distribution_pda(tdpid, va.vote_pubkey@, bank.epoch)->Some_0).0;
            &&& spec_tda_well_formed(acct.data@)
            &&& spec_rent_exempt_min(bank.rent_lamports_per_byte, acct.data@.len()) <= u64::MAX
            &&& acct.lamports + (if pda == receiver {
                excess
            } else {
                0
            }) <= u64::MAX
        },
    }
}

/// What one vote account's tip-distribution lookup comes to.
pub enum TdaOutcome {
    /// No account exists at the derived address.
    Absent,
    /// The record that enters the output.
    Meta(TipDistributionMetaV),
    /// The credited balance sits below the rent-exempt minimum.
    Underflow,
}

/// The outcome for one vote account: absent, an underflow, or the record
/// with `total_tips` equal to the (receiver-credited) balance above rent.
pub open spec fn spec_tda_outcome(
    bank: &BankSnapshot,
    tdpid: Seq<u8>,
    receiver: Seq<u8>,
    excess: int,
    va: VoteAccountInfo,
) -> TdaOutcome {
    let pda = (spec_tip_distribution_pda(tdpid, va.vote_pubkey@, bank.epoch)->Some_0).0;
    match spec_lookup(bank.accounts@, pda) {
        None => TdaOutcome::Absent,
        Some(acct) => {
            let credited = acct.lamports + (if pda == receiver {
                excess
            } else {
                0
            });
            let rent = spec_rent_exempt_min(bank.rent_lamports_per_byte, acct.data@.len());
            if credited < rent {
                TdaOutcome::Underflow
            } else {
                TdaOutcome::Meta(
                    TipDistributionMetaV {
                        tip_distribution_pubkey: pda,
                        merkle_root_upload_authority: acct.data@.subrange(
                            ACCOUNT_TAG_BYTES + PUBKEY_BYTES as int,
                            ACCOUNT_TAG_BYTES + 2 * PUBKEY_BYTES,
                        ),
                        total_tips: (credited - rent) as u64,
                        validator_fee_bps: le_val(
                            acct.data@.subrange(
                                spec_tda_tail(acct.data@) + 8,
                                spec_tda_tail(acct.data@) + 10,
                            ),
                        ) as u16,
                    },
                )
            }
        },
    }
}

/// The lamports delegated across a delegation list.
pub open spec fn spec_sum_delegated(ds: Seq<DelegationV>) -> int
    decreases ds.len(),
{
    if ds.len() == 0 {
        0
    } else {
        spec_sum_delegated(ds.drop_last()) + ds.last().lamports_delegated
    }
}

/// The record one vote account contributes, assuming it has delegations.
pub open spec fn spec_meta_of(
    bank: &BankSnapshot,
    tdpid: Seq<u8>,
    receiver: Seq<u8>,
    excess: int,
    va: VoteAccountInfo,
) -> StakeMetaV {
    let ds = spec_delegs_of(bank.stake_delegations@, va.vote_pubkey@);
    StakeMetaV {
        validator_vote_account: va.vote_pubkey@,
        delegations: ds,
        total_delegated: spec_sum_delegated(ds) as u64,
        commission: va.commission,
        maybe_tip_distribution_meta: match spec_tda_outcome(bank, tdpid, receiver, excess, va) {
            TdaOutcome::Meta(m) => Some(m),
            _ => None,
        },
    }
}

/// The records of the collection, in vote-account order: one per voter that
/// has effective delegations.
pub open spec fn spec_metas(
    bank: &BankSnapshot,
    tdpid: Seq<u8>,
    receiver: Seq<u8>,
    excess: int,
    vas: Seq<VoteAccountInfo>,
) -> Seq<StakeMetaV>
    decreases vas.len(),
{
    if vas.len() == 0 {
        Seq::empty()
    } else {
        spec_metas(bank, tdpid, receiver, excess, vas.drop_last()) + (if spec_delegs_of(
            bank.stake_delegations@,
            vas.last().vote_pubkey@,
        ).len() > 0 {
            seq![spec_meta_of(bank, tdpid, receiver, excess, vas.last())]
        } else {
            Seq::empty()
        })
    }
}

/// Whether some voter with delegations hits the underflow failure.
pub open spec fn spec_any_underflow(
    bank: &BankSnapshot,
    tdpid: Seq<u8>,
    receiver: Seq<u8>,
    excess: int,
    vas: Seq<VoteAccountInfo>,
) -> bool {
    exists|i: int|
        0 <= i < vas.len() && spec_delegs_of(
            bank.stake_delegations@,
            (#[trigger] vas[i]).vote_pubkey@,
        ).len() > 0 && spec_tda_outcome(bank, tdpid, receiver, excess, vas[i]) is Underflow
}

/// Everything a generator run requires of its input: a frozen bank with its
/// epoch's vote accounts, both program ids well-formed, the tip-payment side
/// readable, each vote account's tip-distribution address derivable and its
/// account readable, and every per-voter stake total representable.
pub open spec fn spec_generator_ready(
    bank: &BankSnapshot,
    tdpid: &Pubkey,
    tppid: &Pubkey,
) -> bool {
    &&& bank.frozen
    &&& bank.epoch_vote_accounts is Some
    &&& tdpid.wf()
    &&& tppid.wf()
    &&& spec_tip_context_ok(bank, tppid@)
    &&& forall|i: int|
        0 <= i < (bank.epoch_vote_accounts->Some_0)@.len() ==> spec_va_ok(
            bank,
            tdpid@,
            spec_receiver(bank, tppid@),
            spec_excess_tip_balances(bank, tppid@),
            #[trigger] (bank.epoch_vote_accounts->Some_0)@[i],
        )
    &&& forall|i: int|
        0 <= i < (bank.epoch_vote_accounts->Some_0)@.len() ==> spec_sum_delegated(
            spec_delegs_of(
                bank.stake_delegations@,
                (#[trigger] (bank.epoch_vote_accounts->Some_0)@[i]).vote_pubkey@,
            ),
        ) <= u64::MAX
}

/// Partial excess sums stay within the total when every term is nonnegative.
proof fn lemma_excess_upto_le(bank: &BankSnapshot, tppid: Seq<u8>, k: nat)
    requires
        spec_tip_context_ok(bank, tppid),
        k <= 8,
    ensures
        0 <= spec_excess_upto(bank, tppid, k) <= spec_excess_tip_balances(bank, tppid),
    decreases 8 - k,
{
    assert forall|j: u8| j < 8 implies spec_tip_excess_at(bank, tppid, j) >= 0 by {
        assert(spec_tip_pda_of(tppid, j) is Some);
    }
    if k < 8 {
        lemma_excess_upto_le(bank, tppid, k + 1);
        assert(spec_excess_upto(bank, tppid, k + 1) == spec_excess_upto(bank, tppid, k)
            + spec_tip_excess_at(bank, tppid, k as u8));
    }
    if k > 0 {
        lemma_excess_nonneg(bank, tppid, k);
    }
}

/// Excess prefixes are nonnegative.
proof fn lemma_excess_nonneg(bank: &BankSnapshot, tppid: Seq<u8>, k: nat)
    requires
        spec_tip_context_ok(bank, tppid),
        k <= 8,
    ensures
        spec_excess_upto(bank, tppid, k) >= 0,
    decreases k,
{
    if k > 0 {
        lemma_excess_nonneg(bank, tppid, (k - 1) as nat);
        assert(spec_tip_pda_of(tppid, (k - 1) as u8) is Some);
    }
}

/// Partial stake sums stay within the total: every term is nonnegative.
proof fn lemma_sum_take_le(ds: Seq<DelegationV>, j: int)
    requires
        0 <= j <= ds.len(),
    ensures
        0 <= spec_sum_delegated(ds.take(j)) <= spec_sum_delegated(ds),
    decreases ds.len() - j, ds.len(),
{
    if j == ds.len() {
        assert(ds.take(j) =~= ds);
        lemma_sum_nonneg(ds);
    } else {
        lemma_sum_take_le(ds, j + 1);
        lemma_sum_nonneg(ds.take(j));
        assert(ds.take(j + 1).drop_last() =~= ds.take(j));
        assert(spec_sum_delegated(ds.take(j + 1)) == spec_sum_delegated(ds.take(j)) + ds.take(
            j + 1,
        ).last().lamports_delegated);
    }
}

/// Stake sums are nonnegative.
proof fn lemma_sum_nonneg(ds: Seq<DelegationV>)
    ensures
        spec_sum_delegated(ds) >= 0,
    decreases ds.len(),
{
    if ds.len() > 0 {
        lemma_sum_nonneg(ds.drop_last());
    }
}

/// Sums the delegated lamports of one group.
fn sum_delegations(ds: &Vec<Delegation>) -> (r: u64)
    requires
        spec_sum_delegated(ds@.map_values(|d: Delegation| d@)) <= u64::MAX,
    ensures
        r == spec_sum_delegated(ds@.map_values(|d: Delegation| d@)),
{
    let ghost dv = ds@.map_values(|d: Delegation| d@);
    let n = ds.len();
    let mut sum: u64 = 0;
    let mut i: usize = 0;
    proof {
        assert(dv.take(0) =~= Seq::<DelegationV>::empty());
    }
    while i < n
        invariant
            i <= n,
            n == ds@.len(),
            dv == ds@.map_values(|d: Delegation| d@),
            spec_sum_delegated(dv) <= u64::MAX,
            sum == spec_sum_delegated(dv.take(i as int)),
        decreases n - i,
    {
        proof {
            lemma_sum_take_le(dv, i + 1);
            assert(dv.take(i + 1).drop_last() =~= dv.take(i as int));
            assert(spec_sum_delegated(dv.take(i + 1)) == spec_sum_delegated(dv.take(i as int))
                + dv.take(i + 1).last().lamports_delegated);
            assert(dv.take(i + 1).last() == dv[i as int]);
        }
        sum = sum + ds[i].lamports_delegated;
        i += 1;
    }
    proof {
        assert(dv.take(n as int) =~= dv);
    }
    sum
}

/// Builds the collection from a frozen snapshot: reads the configured tip
/// receiver, totals the un-cranked excess across the eight tip accounts, and
/// emits one record per voter with effective delegations, crediting the
/// excess to the receiver's tip-distribution account.  Fails exactly when
/// some such voter's credited tip-distribution balance sits below its
/// rent-exempt minimum.
#[verifier::rlimit(100)]
pub fn generate_stake_meta_collection(
    bank: &BankSnapshot,
    tip_distribution_program_id: &Pubkey,
    tip_payment_program_id: &Pubkey,
) -> (r: Result<StakeMetaCollection, Error>)
    requires
        spec_generator_ready(bank, tip_distribution_program_id, tip_payment_program_id),
    ensures
        ({
            let vas = (bank.epoch_vote_accounts->Some_0)@;
            let receiver = spec_receiver(bank, tip_payment_program_id@);
            let excess = spec_excess_tip_balances(bank, tip_payment_program_id@);
            &&& (r is Err <==> spec_any_underflow(
                bank,
                tip_distribution_program_id@,
                receiver,
                excess,
                vas,
            ))
            &&& (r matches Err(e) ==> e is CheckedMathError)
            &&& (r matches Ok(c) ==> {
                &&& c.stake_metas@.map_values(|m: StakeMeta| m@) == spec_metas(
                    bank,
                    tip_distribution_program_id@,
                    receiver,
                    excess,
                    vas,
                )
                &&& c.tip_distribution_program_id@ == tip_distribution_program_id@
                &&& c.bank_hash@ == bank.bank_hash@
                &&& c.epoch == bank.epoch
                &&& c.slot == bank.slot
            })
        }),
{
    let ghost tdp = tip_distribution_program_id@;
    let ghost tpp = tip_payment_program_id@;
    let ghost g_receiver = spec_receiver(bank, tpp);
    let ghost g_excess = spec_excess_tip_balances(bank, tpp);

    // the configured tip receiver, from the tip-payment config account
    let config_pda = match find_program_address(&config_seeds(), tip_payment_program_id) {
        Some(p) => p.0,
        None => {
            proof {
                assert(false);
            }
            return Err(Error::CheckedMathError);
        },
    };
    let receiver = match bank.get_account(&config_pda) {
        Some(acct) => match parse_tip_payment_config(&acct.data) {
            Some(c) => c.tip_receiver,
            None => {
                proof {
                    assert(false);
                }
                return Err(Error::CheckedMathError);
            },
        },
        None => {
            proof {
                assert(false);
            }
            return Err(Error::CheckedMathError);
        },
    };
    proof {
        assert(receiver@ == g_receiver);
    }

    // the excess sitting un-cranked across the tip accounts
    let mut excess: u64 = 0;
    let mut k: u8 = 0;
    while k < 8
        invariant
            k <= 8,
            tpp == tip_payment_program_id@,
            tip_payment_program_id.wf(),
            spec_tip_context_ok(bank, tpp),
            excess == spec_excess_upto(bank, tpp, k as nat),
        decreases 8 - k,
    {
        proof {
            assert(spec_tip_pda_of(tpp, k) is Some);
        }
        let pda = match find_program_address(&tip_account_seeds(k), tip_payment_program_id) {
            Some(p) => p.0,
            None => {
                proof {
                    assert(false);
                }
                return Err(Error::CheckedMathError);
            },
        };
        let acct = match bank.get_account(&pda) {
            Some(a) => a,
            None => {
                proof {
                    assert(false);
                }
                return Err(Error::CheckedMathError);
            },
        };
        let rent = match bank.get_minimum_balance_for_rent_exemption(acct.data.len()) {
            Some(re) => re,
            None => {
                proof {
                    assert(false);
                }
                return Err(Error::CheckedMathError);
            },
        };
        proof {
            lemma_excess_upto_le(bank, tpp, (k + 1) as nat);
            assert(spec_excess_upto(bank, tpp, (k + 1) as nat) == spec_excess_upto(
                bank,
                tpp,
                k as nat,
            ) + spec_tip_excess_at(bank, tpp, k));
        }
        excess = excess + (acct.lamports - rent);
        k += 1;
    }
    proof {
        assert(excess == g_excess);
    }

    // the delegations, grouped by voter
    let grouped = group_delegations_by_voter_pubkey(&bank.stake_delegations);

    let vas = match &bank.epoch_vote_accounts {
        Some(v) => v,
        None => {
            proof {
                assert(false);
            }
            return Err(Error::CheckedMathError);
        },
    };
    let n = vas.len();
    let mut stake_metas: Vec<StakeMeta> = Vec::new();
    let mut i: usize = 0;
    proof {
        assert(vas@.take(0) =~= Seq::<VoteAccountInfo>::empty());
    }
    while i < n
        invariant
            i <= n,
            n == vas@.len(),
            vas@ == (bank.epoch_vote_accounts->Some_0)@,
            tdp == tip_distribution_program_id@,
            tpp == tip_payment_program_id@,
            g_receiver == spec_receiver(bank, tpp),
            g_excess == spec_excess_tip_balances(bank, tpp),
            receiver@ == g_receiver,
            excess == g_excess,
            spec_generator_ready(bank, tip_distribution_program_id, tip_payment_program_id),
            grouped@.len() == spec_voters(bank.stake_delegations@).len(),
            forall|k2: int|
                0 <= k2 < grouped@.len() ==> grouped@[k2].0@ == spec_voters(
                    bank.stake_delegations@,
                )[k2],
            forall|k2: int|
                0 <= k2 < grouped@.len() ==> grouped@[k2].1@.map_values(|d: Delegation| d@)
                    == spec_delegs_of(bank.stake_delegations@, #[trigger] grouped@[k2].0@),
            stake_metas@.map_values(|m: StakeMeta| m@) == spec_metas(
                bank,
                tdp,
                g_receiver,
                g_excess,
                vas@.take(i as int),
            ),
            !spec_any_underflow(bank, tdp, g_receiver, g_excess, vas@.take(i as int)),
        decreases n - i,
    {
        let va = &vas[i];
        proof {
            assert(spec_va_ok(bank, tdp, g_receiver, g_excess, vas@[i as int]));
            assert(vas@.take(i + 1).drop_last() =~= vas@.take(i as int));
            assert(vas@.take(i + 1).last() == vas@[i as int]);
        }
        let tda_pubkey = match derive_tip_distribution_account_address(
            tip_distribution_program_id,
            &va.vote_pubkey,
            bank.epoch,
        ) {
            Some(p) => p.0,
            None => {
                proof {
                    assert(false);
                }
                return Err(Error::CheckedMathError);
            },
        };
        let ghost delegs_spec = spec_delegs_of(bank.stake_delegations@, va.vote_pubkey@);
        match find_group(&grouped, &va.vote_pubkey) {
            None => {
                proof {
                    lemma_voter_iff_delegations(bank.stake_delegations@, va.vote_pubkey@);
                    if spec_voters(bank.stake_delegations@).contains(va.vote_pubkey@) {
                        let j = choose|j: int|
                            0 <= j < spec_voters(bank.stake_delegations@).len() && spec_voters(
                                bank.stake_delegations@,
                            )[j] == va.vote_pubkey@;
                        assert(grouped@[j].0@ == va.vote_pubkey@);
                        assert(false);
                    }
                    assert(delegs_spec.len() == 0);
                    assert(stake_metas@.map_values(|m: StakeMeta| m@) =~= spec_metas(
                        bank,
                        tdp,
                        g_receiver,
                        g_excess,
                        vas@.take(i + 1),
                    ));
                    if spec_any_underflow(bank, tdp, g_receiver, g_excess, vas@.take(i + 1)) {
                        let j = choose|j: int|
                            0 <= j < vas@.take(i + 1).len() && spec_delegs_of(
                                bank.stake_delegations@,
                                (#[trigger] vas@.take(i + 1)[j]).vote_pubkey@,
                            ).len() > 0 && spec_tda_outcome(
                                bank,
                                tdp,
                                g_receiver,
                                g_excess,
                                vas@.take(i + 1)[j],
                            ) is Underflow;
                        if j < i {
                            assert(vas@.take(i as int)[j] == vas@.take(i + 1)[j]);
                            assert(spec_any_underflow(
                                bank,
                                tdp,
                                g_receiver,
                                g_excess,
                                vas@.take(i as int),
                            ));
                        } else {
                            assert(vas@.take(i + 1)[j] == vas@[i as int]);
                        }
                        assert(false);
                    }
                }
            },
            Some(gk) => {
                let delegations = clone_delegations(&grouped[gk].1);
                proof {
                    assert(grouped@[gk as int].1@.map_values(|d: Delegation| d@) == delegs_spec);
                    assert(delegations@.map_values(|d: Delegation| d@) == delegs_spec);
                    assert(spec_voters(bank.stake_delegations@)[gk as int] == va.vote_pubkey@);
                    assert(spec_voters(bank.stake_delegations@).contains(va.vote_pubkey@));
                    lemma_voter_iff_delegations(bank.stake_delegations@, va.vote_pubkey@);
                    assert(delegs_spec.len() > 0);
                    lemma_sum_nonneg(delegs_spec);
                }
                let total_delegated = sum_delegations(&delegations);
                let maybe_meta: Option<TipDistributionMeta> = match bank.get_account(&tda_pubkey) {
                    None => None,
                    Some(acct) => {
                        let parsed = match parse_tip_distribution_account(&acct.data) {
                            Some(t) => t,
                            None => {
                                proof {
                                    assert(false);
                                }
                                return Err(Error::CheckedMathError);
                            },
                        };
                        let credit: u64 = if tda_pubkey == receiver {
                            excess
                        } else {
                            0
                        };
                        let credited = match acct.lamports.checked_add(credit) {
                            Some(c) => c,
                            None => {
                                proof {
                                    assert(false);
                                }
                                return Err(Error::CheckedMathError);
                            },
                        };
                        let rent = match bank.get_minimum_balance_for_rent_exemption(
                            acct.data.len(),
                        ) {
                            Some(re) => re,
                            None => {
                                proof {
                                    assert(false);
                                }
                                return Err(Error::CheckedMathError);
                            },
                        };
                        if credited < rent {
                            proof {
                                assert(spec_tda_outcome(
                                    bank,
                                    tdp,
                                    g_receiver,
                                    g_excess,
                                    vas@[i as int],
                                ) is Underflow);
                                assert(spec_any_underflow(
                                    bank,
                                    tdp,
                                    g_receiver,
                                    g_excess,
                                    (bank.epoch_vote_accounts->Some_0)@,
                                ));
                            }
                            return Err(Error::CheckedMathError);
                        }
                        proof {
                            crate::layout::lemma_le_val_bound(
                                acct.data@.subrange(
                                    spec_tda_tail(acct.data@) + 8,
                                    spec_tda_tail(acct.data@) + 10,
                                ),
                            );
                        }
                        Some(
                            TipDistributionMeta {
                                tip_distribution_pubkey: tda_pubkey.clone(),
                                merkle_root_upload_authority: parsed.merkle_root_upload_authority,
                                total_tips: credited - rent,
                                validator_fee_bps: parsed.validator_commission_bps,
                            },
                        )
                    },
                };
                let meta = StakeMeta {
                    validator_vote_account: va.vote_pubkey.clone(),
                    delegations,
                    total_delegated,
                    commission: va.commission,
                    maybe_tip_distribution_meta: maybe_meta,
                };
                proof {
                    assert(meta@ == spec_meta_of(bank, tdp, g_receiver, g_excess, vas@[i as int]));
                }
                stake_metas.push(meta);
                proof {
                    assert(stake_metas@.map_values(|m: StakeMeta| m@) =~= spec_metas(
                        bank,
                        tdp,
                        g_receiver,
                        g_excess,
                        vas@.take(i + 1),
                    ));
                    assert(!(spec_tda_outcome(bank, tdp, g_receiver, g_excess, vas@[i as int])
                        is Underflow));
                    if spec_any_underflow(bank, tdp, g_receiver, g_excess, vas@.take(i + 1)) {
                        let j = choose|j: int|
                            0 <= j < vas@.take(i + 1).len() && spec_delegs_of(
                                bank.stake_delegations@,
                                (#[trigger] vas@.take(i + 1)[j]).vote_pubkey@,
                            ).len() > 0 && spec_tda_outcome(
                                bank,
                                tdp,
                                g_receiver,
                                g_excess,
                                vas@.take(i + 1)[j],
                            ) is Underflow;
                        if j < i {
                            assert(vas@.take(i as int)[j] == vas@.take(i + 1)[j]);
                            assert(spec_any_underflow(
                                bank,
                                tdp,
                                g_receiver,
                                g_excess,
                                vas@.take(i as int),
                            ));
                        } else {
                            assert(vas@.take(i + 1)[j] == vas@[i as int]);
                        }
                        assert(false);
                    }
                }
            },
        }
        i += 1;
    }
    proof {
        assert(vas@.take(n as int) =~= vas@);
    }
    Ok(
        StakeMetaCollection {
            stake_metas,
            tip_distribution_program_id: tip_distribution_program_id.clone(),
            bank_hash: bank.bank_hash.clone(),
            epoch: bank.epoch,
            slot: bank.slot,
        },
    )
}

/// Law: every record in the collection totals exactly the lamports of its
/// own delegations, and belongs to a voter with at least one effective
/// delegation.
pub proof fn lemma_total_delegated_sums(
    bank: &BankSnapshot,
    tdpid: Seq<u8>,
    receiver: Seq<u8>,
    excess: int,
    vas: Seq<VoteAccountInfo>,
)
    requires
        forall|i: int|
            0 <= i < vas.len() ==> spec_sum_delegated(
                spec_delegs_of(bank.stake_delegations@, (#[trigger] vas[i]).vote_pubkey@),
            ) <= u64::MAX,
    ensures
        forall|j: int|
            0 <= j < spec_metas(bank, tdpid, receiver, excess, vas).len() ==> {
                let m = #[trigger] spec_metas(bank, tdpid, receiver, excess, vas)[j];
                m.total_delegated == spec_sum_delegated(m.delegations) && m.delegations.len() > 0
            },
    decreases vas.len(),
{
    if vas.len() > 0 {
        lemma_total_delegated_sums(bank, tdpid, receiver, excess, vas.drop_last());
        let prior = spec_metas(bank, tdpid, receiver, excess, vas.drop_last());
        let whole = spec_metas(bank, tdpid, receiver, excess, vas);
        let ds = spec_delegs_of(bank.stake_delegations@, vas.last().vote_pubkey@);
        lemma_sum_nonneg(ds);
        assert(vas.last() == vas[vas.len() - 1]);
        assert forall|j: int| 0 <= j < whole.len() implies {
            let m = #[trigger] whole[j];
            m.total_delegated == spec_sum_delegated(m.delegations) && m.delegations.len() > 0
        } by {
            if j < prior.len() {
                assert(whole[j] == prior[j]);
            } else {
                assert(whole[j] == spec_meta_of(bank, tdpid, receiver, excess, vas.last()));
            }
        }
    }
}

/// The lamports held by the tip-distribution accounts of these vote
/// accounts (absent accounts hold nothing).
pub open spec fn spec_sum_tda_lamports(
    bank: &BankSnapshot,
    tdpid: Seq<u8>,
    vas: Seq<VoteAccountInfo>,
) -> int
    decreases vas.len(),
{
    if vas.len() == 0 {
        0
    } else {
        spec_sum_tda_lamports(bank, tdpid, vas.drop_last()) + (match spec_lookup(
            bank.accounts@,
            (spec_tip_distribution_pda(tdpid, vas.last().vote_pubkey@, bank.epoch)->Some_0).0,
        ) {
            Some(acct) => acct.lamports as int,
            None => 0,
        })
    }
}

/// The rent-exempt minimums of those same accounts.
pub open spec fn spec_sum_tda_rents(
    bank: &BankSnapshot,
    tdpid: Seq<u8>,
    vas: Seq<VoteAccountInfo>,
) -> int
    decreases vas.len(),
{
    if vas.len() == 0 {
        0
    } else {
        spec_sum_tda_rents(bank, tdpid, vas.drop_last()) + (match spec_lookup(
            bank.accounts@,
            (spec_tip_distribution_pda(tdpid, vas.last().vote_pubkey@, bank.epoch)->Some_0).0,
        ) {
            Some(acct) => spec_rent_exempt_min(bank.rent_lamports_per_byte, acct.data@.len()),
            None => 0,
        })
    }
}

/// How many of these vote accounts hold a present tip-distribution account
/// at the receiver's address.
pub open spec fn spec_count_receiver(
    bank: &BankSnapshot,
    tdpid: Seq<u8>,
    receiver: Seq<u8>,
    vas: Seq<VoteAccountInfo>,
) -> int
    decreases vas.len(),
{
    if vas.len() == 0 {
        0
    } else {
        spec_count_receiver(bank, tdpid, receiver, vas.drop_last()) + (if spec_lookup(
            bank.accounts@,
            (spec_tip_distribution_pda(tdpid, vas.last().vote_pubkey@, bank.epoch)->Some_0).0,
        ) is Some && (spec_tip_distribution_pda(
            tdpid,
            vas.last().vote_pubkey@,
            bank.epoch,
        )->Some_0).0 == receiver {
            1int
        } else {
            0int
        })
    }
}

/// The tips recorded across a record list.
pub open spec fn spec_sum_tips(metas: Seq<StakeMetaV>) -> int
    decreases metas.len(),
{
    if metas.len() == 0 {
        0
    } else {
        spec_sum_tips(metas.drop_last()) + (match metas.last().maybe_tip_distribution_meta {
            Some(m) => m.total_tips as int,
            None => 0,
        })
    }
}

/// The lamports held by the first `k` tip accounts.
pub open spec fn spec_tip_lamports_upto(bank: &BankSnapshot, tppid: Seq<u8>, k: nat) -> int
    decreases k,
{
    if k == 0 {
        0
    } else {
        spec_tip_lamports_upto(bank, tppid, (k - 1) as nat) + spec_lookup(
            bank.accounts@,
            (spec_tip_pda_of(tppid, (k - 1) as u8)->Some_0).0,
        )->Some_0.lamports
    }
}

/// The rent-exempt minimums of the first `k` tip accounts.
pub open spec fn spec_tip_rents_upto(bank: &BankSnapshot, tppid: Seq<u8>, k: nat) -> int
    decreases k,
{
    if k == 0 {
        0
    } else {
        spec_tip_rents_upto(bank, tppid, (k - 1) as nat) + spec_rent_exempt_min(
            bank.rent_lamports_per_byte,
            spec_lookup(
                bank.accounts@,
                (spec_tip_pda_of(tppid, (k - 1) as u8)->Some_0).0,
            )->Some_0.data@.len(),
        )
    }
}

/// The excess is the tip accounts' lamports less their rent minimums.
proof fn lemma_excess_decomposition(bank: &BankSnapshot, tppid: Seq<u8>, k: nat)
    requires
        k <= 8,
    ensures
        spec_excess_upto(bank, tppid, k) == spec_tip_lamports_upto(bank, tppid, k)
            - spec_tip_rents_upto(bank, tppid, k),
    decreases k,
{
    if k > 0 {
        lemma_excess_decomposition(bank, tppid, (k - 1) as nat);
    }
}

/// The running balance: tips recorded so far equal the lamports of the
/// accounts seen, less their rent floors, plus the excess for each time the
/// receiver's account was seen.
proof fn lemma_tips_partial(
    bank: &BankSnapshot,
    tdpid: Seq<u8>,
    tppid: Seq<u8>,
    vas: Seq<VoteAccountInfo>,
)
    requires
        spec_tip_context_ok(bank, tppid),
        forall|i: int|
            0 <= i < vas.len() ==> spec_va_ok(
                bank,
                tdpid,
                spec_receiver(bank, tppid),
                spec_excess_tip_balances(bank, tppid),
                #[trigger] vas[i],
            ),
        !spec_any_underflow(
            bank,
            tdpid,
            spec_receiver(bank, tppid),
            spec_excess_tip_balances(bank, tppid),
            vas,
        ),
        forall|i: int|
            0 <= i < vas.len() && spec_lookup(
                bank.accounts@,
                (spec_tip_distribution_pda(
                    tdpid,
                    (#[trigger] vas[i]).vote_pubkey@,
                    bank.epoch,
                )->Some_0).0,
            ) is Some ==> spec_delegs_of(bank.stake_delegations@, vas[i].vote_pubkey@).len() > 0,
    ensures
        spec_sum_tips(
            spec_metas(
                bank,
                tdpid,
                spec_receiver(bank, tppid),
                spec_excess_tip_balances(bank, tppid),
                vas,
            ),
        ) == spec_sum_tda_lamports(bank, tdpid, vas) - spec_sum_tda_rents(bank, tdpid, vas)
            + spec_excess_tip_balances(bank, tppid) * spec_count_receiver(
            bank,
            tdpid,
            spec_receiver(bank, tppid),
            vas,
        ),
    decreases vas.len(),
{
    let receiver = spec_receiver(bank, tppid);
    let excess = spec_excess_tip_balances(bank, tppid);
    if vas.len() == 0 {
        assert(excess * 0 == 0) by (nonlinear_arith);
    } else {
        let prior = vas.drop_last();
        assert forall|i: int| 0 <= i < prior.len() implies spec_va_ok(
            bank,
            tdpid,
            receiver,
            excess,
            #[trigger] prior[i],
        ) by {
            assert(prior[i] == vas[i]);
        }
        assert(!spec_any_underflow(bank, tdpid, receiver, excess, prior)) by {
            if spec_any_underflow(bank, tdpid, receiver, excess, prior) {
                let j = choose|j: int|
                    0 <= j < prior.len() && spec_delegs_of(
                        bank.stake_delegations@,
                        (#[trigger] prior[j]).vote_pubkey@,
                    ).len() > 0 && spec_tda_outcome(bank, tdpid, receiver, excess, prior[j])
                        is Underflow;
                assert(vas[j] == prior[j]);
                assert(spec_any_underflow(bank, tdpid, receiver, excess, vas));
            }
        }
        assert forall|i: int|
            0 <= i < prior.len() && spec_lookup(
                bank.accounts@,
                (spec_tip_distribution_pda(
                    tdpid,
                    (#[trigger] prior[i]).vote_pubkey@,
                    bank.epoch,
                )->Some_0).0,
            ) is Some implies spec_delegs_of(
            bank.stake_delegations@,
            prior[i].vote_pubkey@,
        ).len() > 0 by {
            assert(prior[i] == vas[i]);
        }
        lemma_tips_partial(bank, tdpid, tppid, prior);
        let va = vas.last();
        assert(va == vas[vas.len() - 1]);
        assert(spec_va_ok(bank, tdpid, receiver, excess, va));
        let priorm = spec_metas(bank, tdpid, receiver, excess, prior);
        let whole = spec_metas(bank, tdpid, receiver, excess, vas);
        let c0 = spec_count_receiver(bank, tdpid, receiver, prior);
        let c1 = spec_count_receiver(bank, tdpid, receiver, vas);
        let pda = (spec_tip_distribution_pda(tdpid, va.vote_pubkey@, bank.epoch)->Some_0).0;
        match spec_lookup(bank.accounts@, pda) {
            None => {
                assert(whole.len() > 0 ==> whole.drop_last() =~= priorm || whole =~= priorm);
                if spec_delegs_of(bank.stake_delegations@, va.vote_pubkey@).len() > 0 {
                    assert(whole.drop_last() =~= priorm);
                    assert(whole.last() == spec_meta_of(bank, tdpid, receiver, excess, va));
                    assert(whole.last().maybe_tip_distribution_meta is None);
                    assert(spec_sum_tips(whole) == spec_sum_tips(priorm));
                } else {
                    assert(whole =~= priorm);
                }
                assert(c1 == c0);
            },
            Some(acct) => {
                assert(spec_delegs_of(bank.stake_delegations@, va.vote_pubkey@).len() > 0);
                assert(whole.drop_last() =~= priorm);
                assert(whole.last() == spec_meta_of(bank, tdpid, receiver, excess, va));
                assert(!(spec_tda_outcome(bank, tdpid, receiver, excess, va) is Underflow)) by {
                    if spec_tda_outcome(bank, tdpid, receiver, excess, va) is Underflow {
                        assert(spec_any_underflow(bank, tdpid, receiver, excess, vas));
                    }
                }
                let credited = acct.lamports + (if pda == receiver {
                    excess
                } else {
                    0
                });
                let rent = spec_rent_exempt_min(bank.rent_lamports_per_byte, acct.data@.len());
                assert(credited >= rent);
                assert(spec_tda_outcome(bank, tdpid, receiver, excess, va) matches
                    TdaOutcome::Meta(m) && m.total_tips == credited - rent);
                assert(spec_sum_tips(whole) == spec_sum_tips(priorm) + (credited - rent));
                if pda == receiver {
                    assert(c1 == c0 + 1);
                    assert(excess * c1 == excess * c0 + excess) by (nonlinear_arith)
                        requires
                            c1 == c0 + 1,
                    ;
                } else {
                    assert(c1 == c0);
                }
            },
        }
    }
}

/// Law (lamport conservation): when every tip-distribution account in the
/// snapshot belongs to a voter with effective delegations, and the
/// configured receiver is among them exactly once, the tips recorded in the
/// collection plus the rent floors of the tip-distribution accounts and of
/// the eight tip accounts add up exactly to the balances those accounts hold
/// in the snapshot.
pub proof fn lemma_lamport_conservation(
    bank: &BankSnapshot,
    tdpid: Seq<u8>,
    tppid: Seq<u8>,
    vas: Seq<VoteAccountInfo>,
)
    requires
        spec_tip_context_ok(bank, tppid),
        forall|i: int|
            0 <= i < vas.len() ==> spec_va_ok(
                bank,
                tdpid,
                spec_receiver(bank, tppid),
                spec_excess_tip_balances(bank, tppid),
                #[trigger] vas[i],
            ),
        !spec_any_underflow(
            bank,
            tdpid,
            spec_receiver(bank, tppid),
            spec_excess_tip_balances(bank, tppid),
            vas,
        ),
        forall|i: int|
            0 <= i < vas.len() && spec_lookup(
                bank.accounts@,
                (spec_tip_distribution_pda(
                    tdpid,
                    (#[trigger] vas[i]).vote_pubkey@,
                    bank.epoch,
                )->Some_0).0,
            ) is Some ==> spec_delegs_of(bank.stake_delegations@, vas[i].vote_pubkey@).len() > 0,
        spec_count_receiver(bank, tdpid, spec_receiver(bank, tppid), vas) == 1,
    ensures
        spec_sum_tips(
            spec_metas(
                bank,
                tdpid,
                spec_receiver(bank, tppid),
                spec_excess_tip_balances(bank, tppid),
                vas,
            ),
        ) + spec_sum_tda_rents(bank, tdpid, vas) + spec_tip_rents_upto(bank, tppid, 8)
            == spec_sum_tda_lamports(bank, tdpid, vas) + spec_tip_lamports_upto(bank, tppid, 8),
{
    lemma_tips_partial(bank, tdpid, tppid, vas);
    lemma_excess_decomposition(bank, tppid, 8);
    let excess = spec_excess_tip_balances(bank, tppid);
    assert(excess * 1 == excess) by (nonlinear_arith);
}

/// Clones one group of delegations.
fn clone_delegations(ds: &Vec<Delegation>) -> (r: Vec<Delegation>)
    ensures
        r@.map_values(|d: Delegation| d@) =~= ds@.map_values(|d: Delegation| d@),
{
    let n = ds.len();
    let mut r: Vec<Delegation> = Vec::new();
    let mut i: usize = 0;
    while i < n
        invariant
            i <= n,
            n == ds@.len(),
            r@.len() == i,
            forall|j: int| 0 <= j < i ==> r@[j]@ == ds@[j]@,
        decreases n - i,
    {
        r.push(ds[i].clone());
        i += 1;
    }
    r
}

} // verus!
