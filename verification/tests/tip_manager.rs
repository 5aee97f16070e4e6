use relayer_proxy::bank::{Account, BankSnapshot};
use relayer_proxy::keys::Pubkey;
use relayer_proxy::pda::{config_seeds, find_program_address, tip_account_seeds};
use relayer_proxy::tip_manager::{
    InstructionData, TipDistributionAccountConfig, TipManager, TipManagerConfig, TipPaymentError,
};

fn pk(n: u8) -> Pubkey {
    Pubkey::from_bytes(vec![n; 32]).unwrap()
}

fn manager() -> TipManager {
    TipManager::new(TipManagerConfig {
        tip_payment_program_id: pk(201),
        tip_distribution_program_id: pk(202),
        tip_distribution_account_config: TipDistributionAccountConfig {
            payer: pk(1),
            merkle_root_upload_authority: pk(2),
            vote_account: pk(3),
            commission_bps: 250,
        },
    })
    .unwrap()
}

fn empty_bank() -> BankSnapshot {
    BankSnapshot {
        frozen: true,
        epoch: 7,
        slot: 4200,
        bank_hash: "h".to_string(),
        last_blockhash: vec![5; 32],
        rent_lamports_per_byte: 1,
        accounts: vec![],
        epoch_vote_accounts: Some(vec![]),
        stake_delegations: vec![],
    }
}

#[test]
fn manager_holds_the_derived_accounts() {
    let tm = manager();
    assert_eq!(tm.tip_payment_program_id(), pk(201));
    assert_eq!(
        tm.tip_payment_config_pubkey(),
        find_program_address(&config_seeds(), &pk(201)).unwrap().0
    );
    assert_eq!(
        tm.tip_distribution_config_pubkey(),
        find_program_address(&config_seeds(), &pk(202)).unwrap().0
    );
    let accounts = tm.get_tip_accounts();
    assert_eq!(accounts.len(), 8);
    for k in 0..8u8 {
        assert_eq!(
            accounts[k as usize],
            find_program_address(&tip_account_seeds(k), &pk(201)).unwrap().0
        );
    }
    for a in 0..8 {
        for b in (a + 1)..8 {
            assert_ne!(accounts[a], accounts[b]);
        }
    }
}

#[test]
fn initialization_checks_look_at_owners() {
    let tm = manager();
    let mut bank = empty_bank();
    assert!(tm.should_initialize_tip_payment_program(&bank));
    assert!(tm.should_initialize_tip_distribution_config(&bank));
    assert_eq!(tm.should_init_tip_distribution_account(&bank), Some(true));

    bank.accounts.push((
        tm.tip_payment_config_pubkey(),
        Account { lamports: 1, owner: pk(201), data: vec![] },
    ));
    assert!(!tm.should_initialize_tip_payment_program(&bank));

    // an account under a foreign owner still needs initialization
    bank.accounts.clear();
    bank.accounts.push((
        tm.tip_payment_config_pubkey(),
        Account { lamports: 1, owner: pk(77), data: vec![] },
    ));
    assert!(tm.should_initialize_tip_payment_program(&bank));
}

#[test]
fn tip_receiver_comes_from_the_config_account() {
    let tm = manager();
    let mut bank = empty_bank();
    let r = tm.get_configured_tip_receiver(&bank);
    assert!(matches!(r, Err(TipPaymentError::AccountMissing(p)) if p == tm.tip_payment_config_pubkey()));

    let mut data = vec![0u8; 8];
    data.extend_from_slice(&pk(42).bytes);
    bank.accounts.push((
        tm.tip_payment_config_pubkey(),
        Account { lamports: 1, owner: pk(201), data },
    ));
    assert_eq!(tm.get_configured_tip_receiver(&bank).unwrap(), pk(42));

    bank.accounts.clear();
    bank.accounts.push((
        tm.tip_payment_config_pubkey(),
        Account { lamports: 1, owner: pk(201), data: vec![0u8; 12] },
    ));
    assert!(matches!(
        tm.get_configured_tip_receiver(&bank),
        Err(TipPaymentError::AccountParse)
    ));
}

#[test]
fn balances_above_rent_floor_at_zero() {
    let tm = manager();
    let mut bank = empty_bank();
    let accounts = tm.get_tip_accounts();
    // first account: 128 rent + 1000 excess; second: below its rent floor
    bank.accounts.push((
        accounts[0].clone(),
        Account { lamports: 1128, owner: pk(201), data: vec![] },
    ));
    bank.accounts.push((
        accounts[1].clone(),
        Account { lamports: 5, owner: pk(201), data: vec![] },
    ));

    let balances = tm.get_tip_account_balances(&bank);
    assert_eq!(balances[0].1, 1128);
    assert_eq!(balances[1].1, 5);
    assert_eq!(balances[2].1, 0);

    let above = tm.get_tip_account_balances_above_rent_exempt(&bank);
    assert_eq!(above[0].1, 1000);
    assert_eq!(above[1].1, 0);
    assert_eq!(above[2].1, 0);
}

#[test]
fn built_transactions_carry_the_derived_accounts() {
    let tm = manager();
    let blockhash = vec![3u8; 32];

    let tx = tm.initialize_tip_payment_program_tx(&blockhash, &pk(50));
    assert_eq!(tx.instructions.len(), 1);
    let ix = &tx.instructions[0];
    assert_eq!(ix.program_id, pk(201));
    assert_eq!(ix.accounts.len(), 11);
    assert_eq!(ix.accounts[0].pubkey, tm.tip_payment_config_pubkey());
    assert!(ix.accounts[10].is_signer);
    assert_eq!(ix.accounts[10].pubkey, pk(50));
    match &ix.data {
        InstructionData::InitializeTipPayment { tip_bumps, .. } => {
            assert_eq!(tip_bumps.len(), 8)
        }
        _ => panic!("wrong instruction payload"),
    }
    assert_eq!(tx.payer, pk(50));
    assert_eq!(tx.recent_blockhash, blockhash);
    assert!(tx.compute_unit_limit.is_none());

    let tx = tm.initialize_tip_distribution_config_tx(&blockhash, &pk(51));
    match &tx.instructions[0].data {
        InstructionData::InitializeTipDistributionConfig {
            authority,
            expired_funds_account,
            num_epochs_valid,
            max_validator_commission_bps,
            ..
        } => {
            assert_eq!(authority, &pk(51));
            assert_eq!(expired_funds_account, &pk(51));
            assert_eq!(*num_epochs_valid, 3);
            assert_eq!(*max_validator_commission_bps, 1000);
        }
        _ => panic!("wrong instruction payload"),
    }

    let tx = tm.init_tip_distribution_account_tx(&blockhash, 7).unwrap();
    match &tx.instructions[0].data {
        InstructionData::InitTipDistributionAccount {
            validator_vote_account,
            merkle_root_upload_authority,
            validator_commission_bps,
            ..
        } => {
            assert_eq!(validator_vote_account, &pk(3));
            assert_eq!(merkle_root_upload_authority, &pk(2));
            assert_eq!(*validator_commission_bps, 250);
        }
        _ => panic!("wrong instruction payload"),
    }
    assert_eq!(tx.payer, pk(1));

    let mut bank = empty_bank();
    let mut data = vec![0u8; 8];
    data.extend_from_slice(&pk(42).bytes);
    bank.accounts.push((
        tm.tip_payment_config_pubkey(),
        Account { lamports: 1, owner: pk(201), data },
    ));
    let tx = tm.change_tip_receiver_tx(&pk(60), &bank, &pk(61)).unwrap();
    let ix = &tx.instructions[0];
    assert_eq!(ix.accounts.len(), 12);
    assert_eq!(ix.accounts[1].pubkey, pk(42)); // the outgoing receiver
    assert_eq!(ix.accounts[2].pubkey, pk(60)); // the incoming receiver
    assert!(ix.accounts[11].is_signer);
    assert!(matches!(ix.data, InstructionData::ChangeTipReceiver));
    assert_eq!(tx.compute_unit_limit, Some(1_000_000));
    assert_eq!(tx.recent_blockhash, vec![5; 32]);
}
