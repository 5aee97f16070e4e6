use relayer_proxy::bank::{Account, BankSnapshot, StakeDelegation, VoteAccountInfo};
use relayer_proxy::keys::Pubkey;
use relayer_proxy::layout::{
    parse_tip_distribution_account, parse_tip_payment_config, read_u16_le, read_u64_le,
};
use relayer_proxy::pda::{
    config_seeds, derive_tip_distribution_account_address, find_program_address,
    tip_account_seeds,
};
use relayer_proxy::stake_meta::{
    generate_stake_meta_collection, group_delegations_by_voter_pubkey, Error, StakeMeta,
};

fn pk(n: u8) -> Pubkey {
    Pubkey::from_bytes(vec![n; 32]).unwrap()
}

fn tda_data(vote: &Pubkey, authority: &Pubkey, epoch: u64, commission_bps: u16) -> Vec<u8> {
    let mut data = vec![0u8; 8];
    data.extend_from_slice(&vote.bytes);
    data.extend_from_slice(&authority.bytes);
    data.push(0); // no merkle root yet
    data.extend_from_slice(&epoch.to_le_bytes());
    data.extend_from_slice(&commission_bps.to_le_bytes());
    data
}

fn tip_config_data(receiver: &Pubkey) -> Vec<u8> {
    let mut data = vec![0u8; 8];
    data.extend_from_slice(&receiver.bytes);
    data
}

fn delegation(stake: u8, voter: &Pubkey, lamports: u64) -> StakeDelegation {
    StakeDelegation {
        stake_pubkey: pk(stake),
        voter_pubkey: voter.clone(),
        staker_pubkey: pk(stake),
        withdrawer_pubkey: pk(stake),
        stake_lamports: lamports,
        activated_stake: lamports,
    }
}

/// A snapshot whose tip-payment side is fully set up: the config account
/// names `receiver`, and each tip account holds its rent-exempt minimum
/// plus `tip_excess[k]` lamports (data length zero, so rent is 128 with a
/// rent rate of one lamport per byte).
fn base_bank(
    tip_payment_program_id: &Pubkey,
    receiver: &Pubkey,
    tip_excess: [u64; 8],
) -> BankSnapshot {
    let mut accounts: Vec<(Pubkey, Account)> = Vec::new();
    let config_pda = find_program_address(&config_seeds(), tip_payment_program_id)
        .unwrap()
        .0;
    accounts.push((
        config_pda,
        Account {
            lamports: 1,
            owner: tip_payment_program_id.clone(),
            data: tip_config_data(receiver),
        },
    ));
    for k in 0..8u8 {
        let tip_pda = find_program_address(&tip_account_seeds(k), tip_payment_program_id)
            .unwrap()
            .0;
        accounts.push((
            tip_pda,
            Account {
                lamports: 128 + tip_excess[k as usize],
                owner: tip_payment_program_id.clone(),
                data: vec![],
            },
        ));
    }
    BankSnapshot {
        frozen: true,
        epoch: 7,
        slot: 4200,
        bank_hash: "bankhash".to_string(),
        last_blockhash: vec![9; 32],
        rent_lamports_per_byte: 1,
        accounts,
        epoch_vote_accounts: Some(vec![]),
        stake_delegations: vec![],
    }
}

fn meta_for<'a>(metas: &'a [StakeMeta], vote: &Pubkey) -> &'a StakeMeta {
    metas
        .iter()
        .find(|m| m.validator_vote_account == *vote)
        .unwrap()
}

#[test]
fn test_generate_stake_meta_collection_happy_path() {
    let tip_payment_program_id = pk(201);
    let tip_distribution_program_id = pk(202);
    let merkle_root_upload_authority = pk(203);

    const INITIAL_VALIDATOR_STAKES: u64 = 10_000;
    let vote_0 = pk(10);
    let vote_1 = pk(11);
    let vote_2 = pk(12);

    let mut bank = base_bank(&tip_payment_program_id, &pk(99), [0; 8]);

    // the three validators' own stakes, then the delegators' stakes
    bank.stake_delegations = vec![
        delegation(20, &vote_0, INITIAL_VALIDATOR_STAKES),
        delegation(21, &vote_1, INITIAL_VALIDATOR_STAKES),
        delegation(22, &vote_2, INITIAL_VALIDATOR_STAKES),
        delegation(30, &vote_0, 30_000_000_000),
        delegation(31, &vote_0, 3_000_000_000),
        delegation(32, &vote_0, 33_000_000_000),
        delegation(33, &vote_1, 4_222_364_000),
        delegation(34, &vote_1, 6_000_000_527),
        delegation(35, &vote_2, 1_300_123_156),
        delegation(36, &vote_2, 1_610_565_420),
    ];
    bank.epoch_vote_accounts = Some(vec![
        VoteAccountInfo { vote_pubkey: vote_0.clone(), commission: 0 },
        VoteAccountInfo { vote_pubkey: vote_1.clone(), commission: 0 },
        VoteAccountInfo { vote_pubkey: vote_2.clone(), commission: 0 },
    ]);

    let tip_distro_0_tips = 1_000_000 * 10;
    let tip_distro_1_tips = 69_000_420 * 10;
    let tip_distro_2_tips = 789_000_111 * 10;

    let tda_0 = derive_tip_distribution_account_address(
        &tip_distribution_program_id,
        &vote_0,
        bank.epoch,
    )
    .unwrap()
    .0;
    let tda_1 = derive_tip_distribution_account_address(
        &tip_distribution_program_id,
        &vote_1,
        bank.epoch,
    )
    .unwrap()
    .0;
    let tda_2 = derive_tip_distribution_account_address(
        &tip_distribution_program_id,
        &vote_2,
        bank.epoch,
    )
    .unwrap()
    .0;

    bank.accounts.push((
        tda_0.clone(),
        Account {
            lamports: tip_distro_0_tips,
            owner: tip_distribution_program_id.clone(),
            data: tda_data(&vote_0, &merkle_root_upload_authority, bank.epoch, 50),
        },
    ));
    bank.accounts.push((
        tda_1.clone(),
        Account {
            lamports: tip_distro_1_tips,
            owner: tip_distribution_program_id.clone(),
            data: tda_data(&vote_1, &merkle_root_upload_authority, bank.epoch, 500),
        },
    ));
    bank.accounts.push((
        tda_2.clone(),
        Account {
            lamports: tip_distro_2_tips,
            owner: tip_distribution_program_id.clone(),
            data: tda_data(&vote_2, &merkle_root_upload_authority, bank.epoch, 75),
        },
    ));

    let collection = generate_stake_meta_collection(
        &bank,
        &tip_distribution_program_id,
        &tip_payment_program_id,
    )
    .unwrap();

    assert_eq!(collection.tip_distribution_program_id, tip_distribution_program_id);
    assert_eq!(collection.slot, bank.slot);
    assert_eq!(collection.epoch, bank.epoch);
    assert_eq!(collection.bank_hash, "bankhash");
    assert_eq!(collection.stake_metas.len(), 3);

    // rent-exempt minimum of a tip-distribution account: (128 + 83) * 1
    let tda_rent = 128 + 83;

    let m0 = meta_for(&collection.stake_metas, &vote_0);
    assert_eq!(
        m0.total_delegated,
        INITIAL_VALIDATOR_STAKES + 30_000_000_000 + 3_000_000_000 + 33_000_000_000
    );
    assert_eq!(m0.commission, 0);
    assert_eq!(m0.delegations.len(), 4);
    let t0 = m0.maybe_tip_distribution_meta.as_ref().unwrap();
    assert_eq!(t0.total_tips, tip_distro_0_tips - tda_rent);
    assert_eq!(t0.validator_fee_bps, 50);
    assert_eq!(t0.tip_distribution_pubkey, tda_0);
    assert_eq!(t0.merkle_root_upload_authority, merkle_root_upload_authority);

    let m1 = meta_for(&collection.stake_metas, &vote_1);
    assert_eq!(
        m1.total_delegated,
        INITIAL_VALIDATOR_STAKES + 4_222_364_000 + 6_000_000_527
    );
    assert_eq!(m1.delegations.len(), 3);
    let t1 = m1.maybe_tip_distribution_meta.as_ref().unwrap();
    assert_eq!(t1.total_tips, tip_distro_1_tips - tda_rent);
    assert_eq!(t1.validator_fee_bps, 500);

    let m2 = meta_for(&collection.stake_metas, &vote_2);
    assert_eq!(
        m2.total_delegated,
        INITIAL_VALIDATOR_STAKES + 1_300_123_156 + 1_610_565_420
    );
    assert_eq!(m2.delegations.len(), 3);
    let t2 = m2.maybe_tip_distribution_meta.as_ref().unwrap();
    assert_eq!(t2.total_tips, tip_distro_2_tips - tda_rent);
    assert_eq!(t2.validator_fee_bps, 75);

    // every delegation was carried over exactly
    for d in &m0.delegations {
        assert!(bank
            .stake_delegations
            .iter()
            .any(|s| s.stake_pubkey == d.stake_account_pubkey
                && s.stake_lamports == d.lamports_delegated));
    }
}

#[test]
fn excess_tip_balances_are_credited_to_the_receiver() {
    let tip_payment_program_id = pk(201);
    let tip_distribution_program_id = pk(202);
    let vote_2 = pk(12);

    // tip accounts hold 1000, 2000, ..., 8000 above rent: 36000 in excess
    let excesses = [1000, 2000, 3000, 4000, 5000, 6000, 7000, 8000];
    let tda_2 = derive_tip_distribution_account_address(&tip_distribution_program_id, &vote_2, 7)
        .unwrap()
        .0;
    let mut bank = base_bank(&tip_payment_program_id, &tda_2, excesses);
    bank.stake_delegations = vec![delegation(22, &vote_2, 10_000)];
    bank.epoch_vote_accounts = Some(vec![VoteAccountInfo {
        vote_pubkey: vote_2.clone(),
        commission: 0,
    }]);
    bank.accounts.push((
        tda_2.clone(),
        Account {
            lamports: 500_000,
            owner: tip_distribution_program_id.clone(),
            data: tda_data(&vote_2, &pk(203), bank.epoch, 75),
        },
    ));

    let collection = generate_stake_meta_collection(
        &bank,
        &tip_distribution_program_id,
        &tip_payment_program_id,
    )
    .unwrap();
    let meta = &collection.stake_metas[0];
    let tips = meta.maybe_tip_distribution_meta.as_ref().unwrap();
    // credited balance above rent: 500000 - (128 + 83) + 36000
    assert_eq!(tips.total_tips, 500_000 - 211 + 36_000);
}

#[test]
fn lamport_conservation_on_a_concrete_snapshot() {
    // with the receiver among the emitted accounts, tips + rent floors
    // account for every lamport in the tip-related accounts
    let tip_payment_program_id = pk(201);
    let tip_distribution_program_id = pk(202);
    let vote_0 = pk(10);
    let vote_1 = pk(11);

    let excesses = [10, 20, 30, 40, 50, 60, 70, 80];
    let excess_total: u64 = excesses.iter().sum();
    let tda_0 = derive_tip_distribution_account_address(&tip_distribution_program_id, &vote_0, 7)
        .unwrap()
        .0;
    let tda_1 = derive_tip_distribution_account_address(&tip_distribution_program_id, &vote_1, 7)
        .unwrap()
        .0;
    let mut bank = base_bank(&tip_payment_program_id, &tda_1, excesses);
    bank.stake_delegations = vec![
        delegation(20, &vote_0, 10_000),
        delegation(21, &vote_1, 20_000),
    ];
    bank.epoch_vote_accounts = Some(vec![
        VoteAccountInfo { vote_pubkey: vote_0.clone(), commission: 1 },
        VoteAccountInfo { vote_pubkey: vote_1.clone(), commission: 2 },
    ]);
    let lam_0 = 400_000u64;
    let lam_1 = 700_000u64;
    bank.accounts.push((
        tda_0.clone(),
        Account {
            lamports: lam_0,
            owner: tip_distribution_program_id.clone(),
            data: tda_data(&vote_0, &pk(203), bank.epoch, 10),
        },
    ));
    bank.accounts.push((
        tda_1.clone(),
        Account {
            lamports: lam_1,
            owner: tip_distribution_program_id.clone(),
            data: tda_data(&vote_1, &pk(203), bank.epoch, 20),
        },
    ));

    let collection = generate_stake_meta_collection(
        &bank,
        &tip_distribution_program_id,
        &tip_payment_program_id,
    )
    .unwrap();

    let tips_sum: u64 = collection
        .stake_metas
        .iter()
        .map(|m| m.maybe_tip_distribution_meta.as_ref().unwrap().total_tips)
        .sum();
    let tda_rent = 211u64;
    let tip_rent_total = 8 * 128u64;
    let tip_lamports_total: u64 = 8 * 128 + excess_total;
    assert_eq!(
        tips_sum + 2 * tda_rent + tip_rent_total,
        lam_0 + lam_1 + tip_lamports_total
    );
}

#[test]
fn underflowing_tip_distribution_account_fails_the_run() {
    let tip_payment_program_id = pk(201);
    let tip_distribution_program_id = pk(202);
    let vote_0 = pk(10);
    let tda_0 = derive_tip_distribution_account_address(&tip_distribution_program_id, &vote_0, 7)
        .unwrap()
        .0;
    let mut bank = base_bank(&tip_payment_program_id, &pk(99), [0; 8]);
    bank.stake_delegations = vec![delegation(20, &vote_0, 10_000)];
    bank.epoch_vote_accounts = Some(vec![VoteAccountInfo {
        vote_pubkey: vote_0.clone(),
        commission: 0,
    }]);
    bank.accounts.push((
        tda_0,
        Account {
            lamports: 100, // below the 211-lamport rent floor
            owner: tip_distribution_program_id.clone(),
            data: tda_data(&vote_0, &pk(203), bank.epoch, 10),
        },
    ));

    let r = generate_stake_meta_collection(
        &bank,
        &tip_distribution_program_id,
        &tip_payment_program_id,
    );
    assert!(matches!(r, Err(Error::CheckedMathError)));
}

#[test]
fn voters_without_delegations_are_skipped() {
    let tip_payment_program_id = pk(201);
    let tip_distribution_program_id = pk(202);
    let vote_0 = pk(10);
    let vote_1 = pk(11);
    let mut bank = base_bank(&tip_payment_program_id, &pk(99), [0; 8]);
    bank.stake_delegations = vec![delegation(20, &vote_0, 10_000)];
    bank.epoch_vote_accounts = Some(vec![
        VoteAccountInfo { vote_pubkey: vote_0.clone(), commission: 0 },
        VoteAccountInfo { vote_pubkey: vote_1.clone(), commission: 0 },
    ]);

    let collection = generate_stake_meta_collection(
        &bank,
        &tip_distribution_program_id,
        &tip_payment_program_id,
    )
    .unwrap();
    assert_eq!(collection.stake_metas.len(), 1);
    assert_eq!(collection.stake_metas[0].validator_vote_account, vote_0);
    assert!(collection.stake_metas[0].maybe_tip_distribution_meta.is_none());
}

#[test]
fn grouping_filters_and_keeps_order() {
    let v1 = pk(10);
    let v2 = pk(11);
    let delegations = vec![
        delegation(20, &v1, 100),
        delegation(21, &v2, 200),
        StakeDelegation {
            stake_pubkey: pk(22),
            voter_pubkey: v1.clone(),
            staker_pubkey: pk(22),
            withdrawer_pubkey: pk(22),
            stake_lamports: 300,
            activated_stake: 0, // not effective this epoch
        },
        delegation(23, &v1, 400),
    ];
    let groups = group_delegations_by_voter_pubkey(&delegations);
    assert_eq!(groups.len(), 2);
    assert_eq!(groups[0].0, v1);
    assert_eq!(groups[1].0, v2);
    assert_eq!(groups[0].1.len(), 2);
    assert_eq!(groups[0].1[0].lamports_delegated, 100);
    assert_eq!(groups[0].1[1].lamports_delegated, 400);
    assert_eq!(groups[1].1.len(), 1);
    assert_eq!(groups[1].1[0].lamports_delegated, 200);
}

#[test]
fn account_layouts_read_back() {
    let receiver = pk(42);
    let cfg = parse_tip_payment_config(&tip_config_data(&receiver)).unwrap();
    assert_eq!(cfg.tip_receiver, receiver);
    assert!(parse_tip_payment_config(&vec![0u8; 39]).is_none());

    let vote = pk(10);
    let authority = pk(11);
    let data = tda_data(&vote, &authority, 77, 1234);
    let tda = parse_tip_distribution_account(&data).unwrap();
    assert_eq!(tda.validator_vote_account, vote);
    assert_eq!(tda.merkle_root_upload_authority, authority);
    assert!(!tda.merkle_root_present);
    assert_eq!(tda.epoch_created_at, 77);
    assert_eq!(tda.validator_commission_bps, 1234);
    assert!(parse_tip_distribution_account(&vec![0u8; 10]).is_none());

    // with a merkle root record the tail fields sit 64 bytes later
    let mut with_root = vec![0u8; 8];
    with_root.extend_from_slice(&vote.bytes);
    with_root.extend_from_slice(&authority.bytes);
    with_root.push(1);
    with_root.extend_from_slice(&[7u8; 64]);
    with_root.extend_from_slice(&77u64.to_le_bytes());
    with_root.extend_from_slice(&1234u16.to_le_bytes());
    let tda = parse_tip_distribution_account(&with_root).unwrap();
    assert!(tda.merkle_root_present);
    assert_eq!(tda.epoch_created_at, 77);
    assert_eq!(tda.validator_commission_bps, 1234);

    let bytes = vec![0x78, 0x56, 0x34, 0x12, 0, 0, 0, 0, 0xff, 0x01];
    assert_eq!(read_u64_le(&bytes, 0), 0x12345678);
    assert_eq!(read_u16_le(&bytes, 8), 0x01ff);
}

#[test]
fn derived_addresses_differ_from_their_inputs() {
    let program = pk(201);
    let (config_pda, _) = find_program_address(&config_seeds(), &program).unwrap();
    assert_ne!(config_pda, program);

    let mut tip_pdas: Vec<Pubkey> = Vec::new();
    for k in 0..8u8 {
        let (pda, _) = find_program_address(&tip_account_seeds(k), &program).unwrap();
        assert_ne!(pda, program);
        assert_ne!(pda, config_pda);
        for earlier in &tip_pdas {
            assert_ne!(&pda, earlier);
        }
        tip_pdas.push(pda);
    }

    let vote = pk(10);
    let (tda_7, _) = derive_tip_distribution_account_address(&program, &vote, 7).unwrap();
    let (tda_8, _) = derive_tip_distribution_account_address(&program, &vote, 8).unwrap();
    assert_ne!(tda_7, tda_8);
    assert_ne!(tda_7, vote);
}
