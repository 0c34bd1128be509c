use btc_staking_pool::address::{convert_eth_address_to_subaccount, keccak256};
use btc_staking_pool::errors::{
    GetBtcDepositAddressError, StakeError, UnlockTokensInQueueError, UnstakeError,
    UpdateBalanceError, VerifySignatureError, WithdrawBtcError,
};
use btc_staking_pool::signature::{signer_matches, signing_message, verify_signature};
use btc_staking_pool::state::{BtcStakingPoolState, InitArgs, Staker, UnstakeRequest, DEFAULT_UNBONDING_PERIOD};
use btc_staking_pool::types::{StakeArgs, UnstakeArgs, UtxoStatus, WithdrawBtcArgs};
use btc_staking_pool::workflows::{
    deposit_address_args, total_minted, update_balance_args, UnlockPlan, TRANSFER_FEE,
};
use std::collections::HashSet;

fn principal(b: u8) -> candid::Principal {
    candid::Principal::from_slice(&[b])
}

fn new_pool() -> BtcStakingPoolState {
    BtcStakingPoolState::new(InitArgs {
        ckbtc_minting_account: principal(1),
        ckbtc_ledger_account: principal(2),
        otbtc_ledger_account: principal(3),
    })
}

fn secret(seed: u8) -> libsecp256k1::SecretKey {
    libsecp256k1::SecretKey::parse(&[seed; 32]).unwrap()
}

fn address_of(sk: &libsecp256k1::SecretKey) -> String {
    let pk = libsecp256k1::PublicKey::from_secret_key(sk).serialize();
    let digest = keccak256(&pk[1..]);
    hex::encode(&digest[12..])
}

fn sign(sk: &libsecp256k1::SecretKey, nonce: u64, action: &str, amount: u64) -> Vec<u8> {
    let digest = keccak256(&signing_message(nonce, action, amount));
    let (sig, id) = libsecp256k1::sign(&libsecp256k1::Message::parse(&digest), sk);
    let mut out = sig.serialize().to_vec();
    out.push(id.serialize());
    out
}

fn staker(eth_address: &str, nonce: u64) -> Staker {
    Staker {
        eth_address: eth_address.to_string(),
        subaccount: convert_eth_address_to_subaccount(eth_address).unwrap(),
        tx_nonce: nonce,
        ckbtc_balance: 0,
        otbtc_balance: 0,
    }
}

/// A pool holding one staker with 100 ckBTC credited, and that staker's key.
fn funded_pool() -> (BtcStakingPoolState, libsecp256k1::SecretKey, String) {
    let sk = secret(7);
    let addr = address_of(&sk);
    let mut pool = new_pool();
    pool.credit_deposit(&addr, 100).unwrap();
    (pool, sk, addr)
}

fn record<'a>(pool: &'a BtcStakingPoolState, addr: &str) -> &'a Staker {
    pool.get_staker(&addr.to_string()).unwrap()
}

fn stake(pool: &mut BtcStakingPoolState, sk: &libsecp256k1::SecretKey, addr: &str, amount: u64) {
    let nonce = record(pool, addr).tx_nonce;
    let args = StakeArgs {
        eth_address: addr.to_string(),
        amount,
        signature: sign(sk, nonce, "stake", amount),
    };
    let auth = pool.check_stake(&args).unwrap();
    pool.commit_stake(&args.eth_address, auth, amount).unwrap();
}

fn unstake(
    pool: &mut BtcStakingPoolState,
    sk: &libsecp256k1::SecretKey,
    addr: &str,
    amount: u64,
    now: u64,
) {
    let nonce = record(pool, addr).tx_nonce;
    let args = UnstakeArgs {
        eth_address: addr.to_string(),
        amount,
        signature: sign(sk, nonce, "unstake", amount),
    };
    let auth = pool.check_unstake(&args).unwrap();
    pool.commit_unstake(&args.eth_address, auth, amount, now).unwrap();
}

fn utxo(value: u64) -> ic_btc_interface::Utxo {
    ic_btc_interface::Utxo {
        outpoint: ic_btc_interface::OutPoint { txid: ic_btc_interface::Txid::from([9u8; 32]), vout: 0 },
        value,
        height: 1,
    }
}

#[test]
fn sub_identity_is_deterministic_and_distinct_over_many_addresses() {
    let mut seen = HashSet::new();
    for i in 0..2000u64 {
        let addr = format!("{:040x}", i * 7919 + 13);
        let a = convert_eth_address_to_subaccount(&addr).unwrap();
        let b = convert_eth_address_to_subaccount(&addr).unwrap();
        assert_eq!(a, b);
        assert!(seen.insert(a));
    }
}

#[test]
fn sub_identity_is_keccak_of_the_raw_address() {
    let addr = "7e5f4552091a69125d5dfcfb7b8c2659029395bd";
    let raw = hex::decode(addr).unwrap();
    assert_eq!(convert_eth_address_to_subaccount(addr).unwrap(), keccak256(&raw));
}

#[test]
fn sub_identity_refuses_what_is_no_address() {
    assert!(convert_eth_address_to_subaccount("7e5f4552091a69125d5dfcfb7b8c2659029395b").is_err());
    assert!(convert_eth_address_to_subaccount("7e5f4552091a69125d5dfcfb7b8c2659029395bd00").is_err());
    assert!(convert_eth_address_to_subaccount("0x7e5f4552091a69125d5dfcfb7b8c2659029395").is_err());
    assert!(convert_eth_address_to_subaccount("7e5f4552091a69125d5dfcfb7b8c2659029395bg").is_err());
    assert!(convert_eth_address_to_subaccount("").is_err());
}

#[test]
fn keccak256_of_empty_input() {
    assert_eq!(
        hex::encode(keccak256(b"")),
        "c5d2460186f7233c927e7db2dcc703c0e500b653ca82273b7bfad8045d85a470"
    );
}

#[test]
fn signing_message_is_nonce_action_amount() {
    assert_eq!(signing_message(0, "stake", 40), b"0:stake:40".to_vec());
    assert_eq!(signing_message(12, "withdraw", 1234567890), b"12:withdraw:1234567890".to_vec());
    assert_eq!(signing_message(u64::MAX, "unstake", 0), b"18446744073709551615:unstake:0".to_vec());
}

#[test]
fn signer_address_of_secret_key_one() {
    let mut one = [0u8; 32];
    one[31] = 1;
    let sk = libsecp256k1::SecretKey::parse(&one).unwrap();
    let key = libsecp256k1::PublicKey::from_secret_key(&sk).serialize();
    assert!(signer_matches(&key, "7e5f4552091a69125d5dfcb7b8c2659029395bdf"));
    assert!(signer_matches(&key, "7E5F4552091A69125D5DFCB7B8C2659029395BDF"));
    assert!(!signer_matches(&key, "7e5f4552091a69125d5dfcb7b8c2659029395bde"));
    assert_eq!(address_of(&sk), "7e5f4552091a69125d5dfcb7b8c2659029395bdf");
}

#[test]
fn verify_signature_accepts_the_signer_and_no_one_else() {
    let sk = secret(7);
    let addr = address_of(&sk);
    let s = staker(&addr, 3);
    let sig = sign(&sk, 3, "stake", 40);
    assert_eq!(verify_signature(&s, "stake", 40, &sig), Ok(()));
    assert_eq!(
        verify_signature(&s, "stake", 41, &sig),
        Err(VerifySignatureError::SignerAddressMismatch)
    );
    assert_eq!(
        verify_signature(&s, "unstake", 40, &sig),
        Err(VerifySignatureError::SignerAddressMismatch)
    );
    let other = staker(&address_of(&secret(8)), 3);
    assert_eq!(
        verify_signature(&other, "stake", 40, &sig),
        Err(VerifySignatureError::SignerAddressMismatch)
    );
}

#[test]
fn verify_signature_errors_by_stage() {
    let sk = secret(7);
    let s = staker(&address_of(&sk), 0);
    let sig = sign(&sk, 0, "stake", 40);
    assert_eq!(
        verify_signature(&s, "stake", 40, &sig[..64].to_vec()),
        Err(VerifySignatureError::InvalidSignatureLength)
    );
    let mut bad_id = sig.clone();
    bad_id[64] = 4;
    assert!(matches!(
        verify_signature(&s, "stake", 40, &bad_id),
        Err(VerifySignatureError::InvalidRecoveryIdInSignature(_))
    ));
    let mut overflow = sig.clone();
    for b in overflow[..32].iter_mut() {
        *b = 0xff;
    }
    assert!(matches!(
        verify_signature(&s, "stake", 40, &overflow),
        Err(VerifySignatureError::FailedParsingSignature(_))
    ));
}

#[test]
fn credit_deposit_creates_then_adds() {
    let mut pool = new_pool();
    let addr = "7e5f4552091a69125d5dfcfb7b8c2659029395bd".to_string();
    pool.credit_deposit(&addr, 30).unwrap();
    let s = record(&pool, &addr);
    assert_eq!((s.tx_nonce, s.ckbtc_balance, s.otbtc_balance), (0, 30, 0));
    assert_eq!(s.subaccount, convert_eth_address_to_subaccount(&addr).unwrap());
    pool.credit_deposit(&addr, 12).unwrap();
    assert_eq!(record(&pool, &addr).ckbtc_balance, 42);
    assert_eq!(pool.stakers_map.len(), 1);
    assert_eq!(
        pool.credit_deposit(&"xyz".to_string(), 5),
        Err(UpdateBalanceError::InvalidEthereumAddress)
    );
    assert_eq!(pool.stakers_map.len(), 1);
}

#[test]
fn total_minted_counts_only_minted_outputs() {
    let statuses = vec![
        UtxoStatus::ValueTooSmall(utxo(5)),
        UtxoStatus::Minted { block_index: 1, minted_amount: 70, utxo: utxo(71) },
        UtxoStatus::Tainted(utxo(9)),
        UtxoStatus::Checked(utxo(11)),
        UtxoStatus::Minted { block_index: 2, minted_amount: 30, utxo: utxo(31) },
    ];
    assert_eq!(total_minted(&statuses), Some(100));
    assert_eq!(total_minted(&vec![]), Some(0));
    let huge = vec![
        UtxoStatus::Minted { block_index: 1, minted_amount: u64::MAX, utxo: utxo(1) },
        UtxoStatus::Minted { block_index: 2, minted_amount: 1, utxo: utxo(1) },
    ];
    assert_eq!(total_minted(&huge), None);
}

#[test]
fn minter_arguments_carry_the_sub_account() {
    let addr = "7e5f4552091a69125d5dfcfb7b8c2659029395bd".to_string();
    let sub = convert_eth_address_to_subaccount(&addr).unwrap();
    let args = deposit_address_args(&addr, principal(9)).unwrap();
    assert_eq!(args.owner, Some(principal(9)));
    assert_eq!(args.subaccount, Some(sub));
    let args = update_balance_args(&addr, principal(9)).unwrap();
    assert_eq!(args.subaccount, Some(sub));
    assert_eq!(
        deposit_address_args(&"nope".to_string(), principal(9)),
        Err(GetBtcDepositAddressError::InvalidEthereumAddress)
    );
    assert_eq!(
        update_balance_args(&"nope".to_string(), principal(9)),
        Err(UpdateBalanceError::InvalidEthereumAddress)
    );
}

#[test]
fn stake_forty_of_a_hundred_then_replay_fails() {
    let (mut pool, sk, addr) = funded_pool();
    let args = StakeArgs { eth_address: addr.clone(), amount: 40, signature: sign(&sk, 0, "stake", 40) };
    let auth = pool.check_stake(&args).unwrap();
    assert_eq!(auth.tx_nonce, 0);
    assert_eq!(auth.subaccount, convert_eth_address_to_subaccount(&addr).unwrap());
    pool.commit_stake(&addr, auth, 40).unwrap();
    let s = record(&pool, &addr);
    assert_eq!((s.ckbtc_balance, s.otbtc_balance, s.tx_nonce), (60, 40, 1));
    assert_eq!(pool.total_ckbtc_in_pool, 40);
    assert_eq!(pool.check_stake(&args), Err(StakeError::InvalidSignature));
    assert_eq!(pool.commit_stake(&addr, auth, 40), Err(StakeError::StateChangedDuringTransfer));
    assert_eq!(record(&pool, &addr).ckbtc_balance, 60);
}

#[test]
fn replayed_unstake_and_withdraw_signatures_fail() {
    let (mut pool, sk, addr) = funded_pool();
    stake(&mut pool, &sk, &addr, 40);
    let args = UnstakeArgs { eth_address: addr.clone(), amount: 10, signature: sign(&sk, 1, "unstake", 10) };
    let auth = pool.check_unstake(&args).unwrap();
    pool.commit_unstake(&addr, auth, 10, 0).unwrap();
    assert_eq!(pool.check_unstake(&args), Err(UnstakeError::InvalidSignature));
    let args = WithdrawBtcArgs { eth_address: addr.clone(), amount: 5, signature: sign(&sk, 2, "withdraw", 5) };
    let auth = pool.check_withdraw(&args).unwrap();
    pool.commit_withdraw(&addr, auth, 5).unwrap();
    let s = record(&pool, &addr);
    assert_eq!((s.ckbtc_balance, s.otbtc_balance, s.tx_nonce), (55, 30, 3));
    assert_eq!(pool.check_withdraw(&args), Err(WithdrawBtcError::InvalidSignature));
}

#[test]
fn stake_unstake_release_round_trip() {
    let (mut pool, sk, addr) = funded_pool();
    stake(&mut pool, &sk, &addr, 40);
    unstake(&mut pool, &sk, &addr, 40, 1000);
    assert_eq!(record(&pool, &addr).otbtc_balance, 0);
    let due = 1000 + DEFAULT_UNBONDING_PERIOD;
    let plan = pool.plan_unlock(due).unwrap().unwrap();
    assert_eq!(
        plan,
        UnlockPlan { amount: 40, subaccount: record(&pool, &addr).subaccount, unlock_time: due }
    );
    pool.commit_unlock(plan).unwrap();
    assert_eq!(pool.commit_unlock(plan), Err(UnlockTokensInQueueError::QueueHeadChanged));
    let s = record(&pool, &addr);
    assert_eq!((s.ckbtc_balance, s.otbtc_balance, s.tx_nonce), (100, 0, 2));
    assert_eq!(pool.total_ckbtc_in_pool, 0);
    assert!(pool.unstaking_queue.is_empty());
}

#[test]
fn unstake_queues_one_request_due_after_the_period() {
    let (mut pool, sk, addr) = funded_pool();
    stake(&mut pool, &sk, &addr, 40);
    unstake(&mut pool, &sk, &addr, 25, 5000);
    assert_eq!(pool.unstaking_queue.len(), 1);
    let req = &pool.unstaking_queue[0];
    assert_eq!(req.eth_address, addr);
    assert_eq!(req.amount, 25);
    assert_eq!(req.unlock_time, 5000 + DEFAULT_UNBONDING_PERIOD);
    let due = req.unlock_time;
    assert_eq!(pool.plan_unlock(due - 1), Err(UnlockTokensInQueueError::UnlockTimeNotReached));
    assert_eq!(pool.unstaking_queue.len(), 1);
    let plan = pool.plan_unlock(due).unwrap().unwrap();
    pool.commit_unlock(plan).unwrap();
    assert_eq!(pool.unstaking_queue.len(), 0);
    assert_eq!(record(&pool, &addr).ckbtc_balance, 60 + 25);
    assert_eq!(pool.total_ckbtc_in_pool, 15);
}

#[test]
fn release_follows_queue_order_not_due_time() {
    let (mut pool, sk, addr) = funded_pool();
    stake(&mut pool, &sk, &addr, 40);
    pool.unbonding_period = 100;
    unstake(&mut pool, &sk, &addr, 10, 0);
    pool.unbonding_period = 10;
    unstake(&mut pool, &sk, &addr, 20, 1);
    assert_eq!(pool.unstaking_queue[0].unlock_time, 100);
    assert_eq!(pool.unstaking_queue[1].unlock_time, 11);
    assert_eq!(pool.plan_unlock(50), Err(UnlockTokensInQueueError::UnlockTimeNotReached));
    assert_eq!(pool.unstaking_queue.len(), 2);
    let first = pool.plan_unlock(100).unwrap().unwrap();
    assert_eq!(first.amount, 10);
    pool.commit_unlock(first).unwrap();
    assert_eq!(pool.unstaking_queue.len(), 1);
    assert_eq!(pool.unstaking_queue[0].amount, 20);
    let second = pool.plan_unlock(100).unwrap().unwrap();
    assert_eq!(second.amount, 20);
    assert_eq!(pool.commit_unlock(first), Err(UnlockTokensInQueueError::QueueHeadChanged));
    assert_eq!(pool.unstaking_queue.len(), 1);
    pool.commit_unlock(second).unwrap();
    assert_eq!(record(&pool, &addr).ckbtc_balance, 60 + 10 + 20);
}

#[test]
fn amounts_over_the_balance_are_refused_without_change() {
    let (mut pool, sk, addr) = funded_pool();
    stake(&mut pool, &sk, &addr, 40);
    let before = record(&pool, &addr).clone();
    let args = StakeArgs { eth_address: addr.clone(), amount: 61, signature: sign(&sk, 1, "stake", 61) };
    assert_eq!(pool.check_stake(&args), Err(StakeError::NotEnoughCkbtcBalance));
    let args = UnstakeArgs { eth_address: addr.clone(), amount: 41, signature: sign(&sk, 1, "unstake", 41) };
    assert_eq!(pool.check_unstake(&args), Err(UnstakeError::NotEnoughOtbtcBalance));
    let args = WithdrawBtcArgs { eth_address: addr.clone(), amount: 61, signature: sign(&sk, 1, "withdraw", 61) };
    assert_eq!(pool.check_withdraw(&args), Err(WithdrawBtcError::NotEnoughCkbtcBalance));
    let auth = btc_staking_pool::workflows::Authorized { subaccount: before.subaccount, tx_nonce: 1 };
    assert_eq!(pool.commit_stake(&addr, auth, 61), Err(StakeError::StateChangedDuringTransfer));
    assert_eq!(pool.commit_unstake(&addr, auth, 41, 0), Err(UnstakeError::StateChangedDuringTransfer));
    assert_eq!(pool.commit_withdraw(&addr, auth, 61), Err(WithdrawBtcError::StateChangedDuringTransfer));
    let after = record(&pool, &addr);
    assert_eq!(
        (after.tx_nonce, after.ckbtc_balance, after.otbtc_balance),
        (before.tx_nonce, before.ckbtc_balance, before.otbtc_balance)
    );
    assert_eq!(pool.total_ckbtc_in_pool, 40);
    assert!(pool.unstaking_queue.is_empty());
}

#[test]
fn gates_report_address_record_and_signature_errors() {
    let (pool, sk, addr) = funded_pool();
    let bad = StakeArgs { eth_address: "0xabc".to_string(), amount: 1, signature: vec![0; 65] };
    assert_eq!(pool.check_stake(&bad), Err(StakeError::InvalidEthereumAddress));
    let stranger = address_of(&secret(9));
    let args = StakeArgs { eth_address: stranger.clone(), amount: 1, signature: sign(&secret(9), 0, "stake", 1) };
    assert_eq!(pool.check_stake(&args), Err(StakeError::LackOfStakerRecord));
    let args = StakeArgs { eth_address: addr.clone(), amount: 1, signature: vec![1; 64] };
    assert_eq!(pool.check_stake(&args), Err(StakeError::InvalidSignature));
    let args = StakeArgs { eth_address: addr.clone(), amount: 1, signature: sign(&sk, 0, "unstake", 1) };
    assert_eq!(pool.check_stake(&args), Err(StakeError::InvalidSignature));
    let args = UnstakeArgs { eth_address: stranger.clone(), amount: 0, signature: vec![] };
    assert_eq!(pool.check_unstake(&args), Err(UnstakeError::LackOfStakerRecord));
    let args = WithdrawBtcArgs { eth_address: "zz".to_string(), amount: 0, signature: vec![] };
    assert_eq!(pool.check_withdraw(&args), Err(WithdrawBtcError::InvalidEthereumAddress));
}

#[test]
fn unlock_of_an_empty_queue_or_a_missing_staker() {
    let mut pool = new_pool();
    assert_eq!(pool.plan_unlock(0), Ok(None));
    let plan = UnlockPlan { amount: 1, subaccount: [0u8; 32], unlock_time: 0 };
    assert_eq!(pool.commit_unlock(plan), Err(UnlockTokensInQueueError::QueueHeadChanged));
    pool.unstaking_queue.push_back(UnstakeRequest {
        eth_address: "7e5f4552091a69125d5dfcfb7b8c2659029395bd".to_string(),
        amount: 1,
        unlock_time: 0,
    });
    pool.total_ckbtc_in_pool = 1;
    assert_eq!(pool.plan_unlock(0), Err(UnlockTokensInQueueError::LackOfStakerRecord));
    assert_eq!(pool.commit_unlock(plan), Err(UnlockTokensInQueueError::LackOfStakerRecord));
    assert_eq!(pool.unstaking_queue.len(), 1);
}

#[test]
fn addresses_are_filed_in_lower_case() {
    let sk = secret(7);
    let addr = address_of(&sk);
    let upper = addr.to_ascii_uppercase();
    let mut pool = new_pool();
    pool.credit_deposit(&upper, 50).unwrap();
    pool.credit_deposit(&addr, 50).unwrap();
    assert_eq!(pool.stakers_map.len(), 1);
    assert_eq!(record(&pool, &addr).eth_address, addr);
    assert_eq!(record(&pool, &addr).ckbtc_balance, 100);
    let args = StakeArgs { eth_address: upper.clone(), amount: 40, signature: sign(&sk, 0, "stake", 40) };
    let auth = pool.check_stake(&args).unwrap();
    pool.commit_stake(&upper, auth, 40).unwrap();
    let s = record(&pool, &addr);
    assert_eq!((s.ckbtc_balance, s.otbtc_balance, s.tx_nonce), (60, 40, 1));
}

#[test]
fn a_signature_binds_action_and_amount() {
    let (pool, sk, addr) = funded_pool();
    let sig = sign(&sk, 0, "withdraw", 10);
    let args = WithdrawBtcArgs { eth_address: addr.clone(), amount: 10, signature: sig.clone() };
    assert!(pool.check_withdraw(&args).is_ok());
    let args = WithdrawBtcArgs { eth_address: addr.clone(), amount: 11, signature: sig.clone() };
    assert_eq!(pool.check_withdraw(&args), Err(WithdrawBtcError::InvalidSignature));
    let args = StakeArgs { eth_address: addr.clone(), amount: 10, signature: sig.clone() };
    assert_eq!(pool.check_stake(&args), Err(StakeError::InvalidSignature));
    let old_tag = sign(&sk, 0, "withdraw_btc", 10);
    let args = WithdrawBtcArgs { eth_address: addr.clone(), amount: 10, signature: old_tag };
    assert_eq!(pool.check_withdraw(&args), Err(WithdrawBtcError::InvalidSignature));
}

#[test]
fn a_new_pool_starts_empty_with_the_default_period() {
    let pool = new_pool();
    assert_eq!(pool.unbonding_period, 1_209_600_000_000);
    assert_eq!(pool.total_ckbtc_in_pool, 0);
    assert!(pool.stakers_map.is_empty());
    assert!(pool.unstaking_queue.is_empty());
    assert_eq!(pool.ckbtc_ledger_account, principal(2));
}

#[test]
fn transfers_go_between_the_right_accounts() {
    let (pool, sk, addr) = funded_pool();
    let me = principal(42);
    let args = StakeArgs { eth_address: addr.clone(), amount: 40, signature: sign(&sk, 0, "stake", 40) };
    let auth = pool.check_stake(&args).unwrap();
    let (debit, credit) = pool.stake_transfers(auth, 40, me);
    assert_eq!(debit.ledger, principal(2));
    assert_eq!(debit.from_subaccount, Some(auth.subaccount));
    assert_eq!((debit.to_owner, debit.to_subaccount, debit.amount, debit.fee), (me, [0u8; 32], 40, TRANSFER_FEE));
    assert_eq!(credit.ledger, principal(3));
    assert_eq!(credit.from_subaccount, None);
    assert_eq!((credit.to_owner, credit.to_subaccount, credit.amount), (me, auth.subaccount, 40));
    let burn = pool.unstake_transfer(auth, 7, me);
    assert_eq!((burn.ledger, burn.from_subaccount, burn.to_subaccount), (principal(3), Some(auth.subaccount), [0u8; 32]));
    let handoff = pool.withdraw_transfer(auth, 9);
    assert_eq!((handoff.ledger, handoff.to_owner, handoff.amount), (principal(2), principal(1), 9));
    let plan = UnlockPlan { amount: 5, subaccount: auth.subaccount, unlock_time: 0 };
    let release = pool.release_transfer(plan, me);
    assert_eq!((release.ledger, release.from_subaccount, release.to_subaccount, release.amount), (principal(2), None, auth.subaccount, 5));
}

#[test]
fn recovery_errors_carry_the_library_error_name() {
    let sk = secret(7);
    let s = staker(&address_of(&sk), 0);
    let mut sig = sign(&sk, 0, "stake", 40);
    sig[64] = 9;
    assert_eq!(
        verify_signature(&s, "stake", 40, &sig),
        Err(VerifySignatureError::InvalidRecoveryIdInSignature("InvalidRecoveryId".to_string()))
    );
    let mut overflow = sign(&sk, 0, "stake", 40);
    for b in overflow[..32].iter_mut() {
        *b = 0xff;
    }
    assert_eq!(
        verify_signature(&s, "stake", 40, &overflow),
        Err(VerifySignatureError::FailedParsingSignature("InvalidSignature".to_string()))
    );
}
