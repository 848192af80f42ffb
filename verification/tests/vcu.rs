use pallet_vcu::distribution::distribute_vcu;
use pallet_vcu::key_order::{order_by_storage_key, sort_by_key_bytes};
use pallet_vcu::pallet::Pallet;
use pallet_vcu::types::{
    AssetGeneratingVCUContent, AssetsGeneratingVCUGeneratedContent, AssetsGeneratingVCUScheduleContent, BundleAssetGeneratingVCUContent,
    BundleAssetGeneratingVCUData, Config, DispatchError, Error, Event, MintRequest, Origin,
    RetireRequest, TokenCreation,
};

const ADMIN: u64 = 1;
const AGV_ACCOUNT: u64 = 10;
const AGV_ID: u32 = 7;
const ALICE: u64 = 20;
const BOB: u64 = 21;
const ORACLE: u64 = 30;
const TOKEN: u32 = 10001;

/// The key suffix under which the storage keeps a holder (Blake2_128Concat).
fn storage_key(holder: u64) -> Vec<u8> {
    let encoded = holder.to_le_bytes();
    let mut key = sp_crypto_hashing::blake2_128(&encoded).to_vec();
    key.extend_from_slice(&encoded);
    key
}

fn config() -> Config {
    Config { min_pid_length: 3, max_description_length: 64, max_document_length: 64, max_bundle_size: 5 }
}

fn module(e: Error) -> Result<(), DispatchError> {
    Err(DispatchError::Module(e))
}

fn content(shares: u32) -> AssetGeneratingVCUContent {
    AssetGeneratingVCUContent {
        description: b"solar field".to_vec(),
        proof_of_ownership: b"deed".to_vec(),
        expiry: 0,
        number_of_shares: shares,
    }
}

/// A pallet with an authorized admin and one AGV of `shares` shares.
fn with_agv(shares: u32) -> Pallet {
    let mut p = Pallet::new(config());
    p.add_authorized_account(Origin::Root, ADMIN, b"admin account".to_vec()).unwrap();
    p.create_asset_generating_vcu(Origin::Signed(ADMIN), AGV_ACCOUNT, AGV_ID, content(shares)).unwrap();
    p
}

#[test]
fn new_pallet_is_empty() {
    let p = Pallet::new(config());
    assert_eq!(p.config(), config());
    assert!(p.events().is_empty());
    assert_eq!(p.get_authorized_accounts(ADMIN), None);
    assert_eq!(p.asset_generating_vcu_shares(AGV_ACCOUNT, AGV_ID, ALICE), 0);
}

#[test]
fn add_authorized_account_needs_root_and_description() {
    let mut p = Pallet::new(config());
    assert_eq!(
        p.add_authorized_account(Origin::Signed(ADMIN), ADMIN, b"admin account".to_vec()),
        Err(DispatchError::BadOrigin)
    );
    assert_eq!(p.add_authorized_account(Origin::Root, ADMIN, Vec::new()), module(Error::InvalidDescription));
    assert_eq!(p.add_authorized_account(Origin::Root, ADMIN, b"abcd".to_vec()), module(Error::InvalidDescription));
    assert!(p.events().is_empty());
    assert_eq!(p.add_authorized_account(Origin::Root, ADMIN, b"abcde".to_vec()), Ok(()));
    assert_eq!(p.get_authorized_accounts(ADMIN), Some(&b"abcde".to_vec()));
    assert_eq!(p.events(), &vec![Event::AuthorizedAccountAdded(ADMIN)]);
}

#[test]
fn authorization_follows_the_authorized_accounts() {
    let mut p = Pallet::new(config());
    assert_eq!(p.ensure_root_or_authorized_account(Origin::Root), Ok(()));
    assert_eq!(p.ensure_root_or_authorized_account(Origin::Signed(ADMIN)), module(Error::NotAuthorised));
    assert_eq!(p.ensure_root_or_authorized_account(Origin::Unsigned), module(Error::NotAuthorised));
    p.add_authorized_account(Origin::Root, ADMIN, b"admin account".to_vec()).unwrap();
    assert_eq!(p.ensure_root_or_authorized_account(Origin::Signed(ADMIN)), Ok(()));
    assert_eq!(p.destroy_authorized_account(Origin::Signed(ADMIN), ADMIN), Err(DispatchError::BadOrigin));
    assert_eq!(p.destroy_authorized_account(Origin::Root, ADMIN), Ok(()));
    assert_eq!(p.ensure_root_or_authorized_account(Origin::Signed(ADMIN)), module(Error::NotAuthorised));
    assert_eq!(p.events().last(), Some(&Event::AuthorizedAccountsAGVDestroyed(ADMIN)));
}

#[test]
fn create_and_destroy_asset_generating_vcu() {
    let mut p = with_agv(100);
    assert_eq!(
        p.create_asset_generating_vcu(Origin::Signed(BOB), AGV_ACCOUNT, 8, content(5)),
        module(Error::NotAuthorised)
    );
    assert_eq!(
        p.create_asset_generating_vcu(Origin::Root, AGV_ACCOUNT, 8, content(0)),
        module(Error::NumberofSharesCannotBeZero)
    );
    assert_eq!(p.asset_generating_vcu(AGV_ACCOUNT, AGV_ID).map(|c| c.number_of_shares), Some(100));
    assert_eq!(p.destroy_asset_generating_vcu(Origin::Root, AGV_ACCOUNT, 8), module(Error::AssetGeneratingVCUNotFound));
    assert_eq!(p.destroy_asset_generating_vcu(Origin::Root, AGV_ACCOUNT, AGV_ID), Ok(()));
    assert_eq!(p.asset_generating_vcu(AGV_ACCOUNT, AGV_ID), None);
    assert_eq!(p.events().last(), Some(&Event::AssetGeneratingVCUDestroyed(AGV_ID)));
}

#[test]
fn mint_shares_up_to_number_of_shares() {
    let mut p = with_agv(100);
    assert_eq!(
        p.mint_shares_asset_generating_vcu(Origin::Root, ALICE, AGV_ACCOUNT, 99, 5),
        module(Error::AssetGeneratingVCUNotFound)
    );
    assert_eq!(p.mint_shares_asset_generating_vcu(Origin::Root, ALICE, AGV_ACCOUNT, AGV_ID, 60), Ok(()));
    assert_eq!(p.mint_shares_asset_generating_vcu(Origin::Root, BOB, AGV_ACCOUNT, AGV_ID, 40), Ok(()));
    assert_eq!(
        p.mint_shares_asset_generating_vcu(Origin::Root, BOB, AGV_ACCOUNT, AGV_ID, 1),
        module(Error::TooManyShares)
    );
    assert_eq!(
        p.mint_shares_asset_generating_vcu(Origin::Root, BOB, AGV_ACCOUNT, AGV_ID, u32::MAX),
        module(Error::Overflow)
    );
    assert_eq!(p.asset_generating_vcu_shares(AGV_ACCOUNT, AGV_ID, ALICE), 60);
    assert_eq!(p.asset_generating_vcu_shares(AGV_ACCOUNT, AGV_ID, BOB), 40);
    assert_eq!(p.asset_generating_vcu_shares_minted(AGV_ACCOUNT, AGV_ID), 100);
    assert_eq!(p.asset_generating_vcu_shares_minted_total(AGV_ACCOUNT, AGV_ID), 100);
    assert_eq!(p.events().last(), Some(&Event::AssetsGeneratingVCUSharesMinted(AGV_ACCOUNT, AGV_ID)));
}

#[test]
fn refused_mint_keeps_the_earlier_write() {
    // After a burn the minted count is below the minted total; a mint that
    // fits the count but not the total keeps the count it wrote.
    let mut p = with_agv(100);
    p.mint_shares_asset_generating_vcu(Origin::Root, ALICE, AGV_ACCOUNT, AGV_ID, 60).unwrap();
    p.burn_shares_asset_generating_vcu(Origin::Root, ALICE, AGV_ACCOUNT, AGV_ID, 10).unwrap();
    assert_eq!(p.asset_generating_vcu_shares_minted(AGV_ACCOUNT, AGV_ID), 50);
    assert_eq!(p.asset_generating_vcu_shares_minted_total(AGV_ACCOUNT, AGV_ID), 60);
    assert_eq!(
        p.mint_shares_asset_generating_vcu(Origin::Root, ALICE, AGV_ACCOUNT, AGV_ID, 45),
        module(Error::TooManyShares)
    );
    assert_eq!(p.asset_generating_vcu_shares_minted(AGV_ACCOUNT, AGV_ID), 95);
    assert_eq!(p.asset_generating_vcu_shares_minted_total(AGV_ACCOUNT, AGV_ID), 60);
    assert_eq!(p.asset_generating_vcu_shares(AGV_ACCOUNT, AGV_ID, ALICE), 50);
}

#[test]
fn burn_shares_checks() {
    let mut p = with_agv(100);
    assert_eq!(
        p.burn_shares_asset_generating_vcu(Origin::Root, ALICE, AGV_ACCOUNT, 99, 1),
        module(Error::AssetGeneratingVCUNotFound)
    );
    assert_eq!(
        p.burn_shares_asset_generating_vcu(Origin::Root, ALICE, AGV_ACCOUNT, AGV_ID, 1),
        module(Error::RecipientSharesNotFound)
    );
    p.mint_shares_asset_generating_vcu(Origin::Root, ALICE, AGV_ACCOUNT, AGV_ID, 10).unwrap();
    assert_eq!(
        p.burn_shares_asset_generating_vcu(Origin::Root, ALICE, AGV_ACCOUNT, AGV_ID, 11),
        module(Error::RecipientSharesLessOfBurningShares)
    );
    // the minted count may not reach 0
    assert_eq!(
        p.burn_shares_asset_generating_vcu(Origin::Root, ALICE, AGV_ACCOUNT, AGV_ID, 10),
        module(Error::TooLessShares)
    );
    assert_eq!(p.burn_shares_asset_generating_vcu(Origin::Root, ALICE, AGV_ACCOUNT, AGV_ID, 4), Ok(()));
    assert_eq!(p.asset_generating_vcu_shares(AGV_ACCOUNT, AGV_ID, ALICE), 6);
    assert_eq!(p.asset_generating_vcu_shares_minted(AGV_ACCOUNT, AGV_ID), 6);
    assert_eq!(p.events().last(), Some(&Event::AssetsGeneratingVCUSharesBurned(AGV_ACCOUNT, AGV_ID)));
}

#[test]
fn burn_cannot_empty_the_minted_count() {
    // shares moved to BOB under an AGV whose minted count was never written
    let mut p = with_agv(100);
    p.mint_shares_asset_generating_vcu(Origin::Root, ALICE, AGV_ACCOUNT, AGV_ID, 10).unwrap();
    p.burn_shares_asset_generating_vcu(Origin::Root, ALICE, AGV_ACCOUNT, AGV_ID, 9).unwrap();
    assert_eq!(
        p.burn_shares_asset_generating_vcu(Origin::Root, ALICE, AGV_ACCOUNT, AGV_ID, 1),
        module(Error::TooLessShares)
    );
    p.transfer_shares_asset_generating_vcu(Origin::Signed(ALICE), BOB, AGV_ACCOUNT, AGV_ID, 1).unwrap();
    assert_eq!(
        p.burn_shares_asset_generating_vcu(Origin::Root, BOB, AGV_ACCOUNT, AGV_ID, 2),
        module(Error::RecipientSharesLessOfBurningShares)
    );
}

#[test]
fn mint_then_burn_restores_the_shares() {
    let mut p = with_agv(100);
    p.mint_shares_asset_generating_vcu(Origin::Root, ALICE, AGV_ACCOUNT, AGV_ID, 10).unwrap();
    p.mint_shares_asset_generating_vcu(Origin::Root, ALICE, AGV_ACCOUNT, AGV_ID, 25).unwrap();
    p.burn_shares_asset_generating_vcu(Origin::Root, ALICE, AGV_ACCOUNT, AGV_ID, 25).unwrap();
    assert_eq!(p.asset_generating_vcu_shares(AGV_ACCOUNT, AGV_ID, ALICE), 10);
    assert_eq!(p.asset_generating_vcu_shares_minted(AGV_ACCOUNT, AGV_ID), 10);
    assert_eq!(p.asset_generating_vcu_shares_minted_total(AGV_ACCOUNT, AGV_ID), 35);
}

#[test]
fn transfer_shares_between_holders() {
    let mut p = with_agv(100);
    p.mint_shares_asset_generating_vcu(Origin::Root, ALICE, AGV_ACCOUNT, AGV_ID, 30).unwrap();
    assert_eq!(
        p.transfer_shares_asset_generating_vcu(Origin::Unsigned, BOB, AGV_ACCOUNT, AGV_ID, 1),
        Err(DispatchError::BadOrigin)
    );
    assert_eq!(
        p.transfer_shares_asset_generating_vcu(Origin::Signed(BOB), ALICE, AGV_ACCOUNT, AGV_ID, 1),
        module(Error::AssetGeneratedSharesNotFound)
    );
    assert_eq!(
        p.transfer_shares_asset_generating_vcu(Origin::Signed(ALICE), BOB, AGV_ACCOUNT, AGV_ID, 31),
        module(Error::NumberofSharesNotFound)
    );
    assert_eq!(p.transfer_shares_asset_generating_vcu(Origin::Signed(ALICE), BOB, AGV_ACCOUNT, AGV_ID, 12), Ok(()));
    assert_eq!(p.asset_generating_vcu_shares(AGV_ACCOUNT, AGV_ID, ALICE), 18);
    assert_eq!(p.asset_generating_vcu_shares(AGV_ACCOUNT, AGV_ID, BOB), 12);
    assert_eq!(p.events().last(), Some(&Event::AssetsGeneratingVCUSharesTransferred(BOB)));
    // transferring to oneself keeps the shares
    assert_eq!(p.transfer_shares_asset_generating_vcu(Origin::Signed(BOB), BOB, AGV_ACCOUNT, AGV_ID, 12), Ok(()));
    assert_eq!(p.asset_generating_vcu_shares(AGV_ACCOUNT, AGV_ID, BOB), 12);
}

#[test]
fn forcetransfer_needs_authorization() {
    let mut p = with_agv(100);
    p.mint_shares_asset_generating_vcu(Origin::Root, ALICE, AGV_ACCOUNT, AGV_ID, 30).unwrap();
    assert_eq!(
        p.forcetransfer_shares_asset_generating_vcu(Origin::Signed(BOB), ALICE, BOB, AGV_ACCOUNT, AGV_ID, 5),
        module(Error::NotAuthorised)
    );
    assert_eq!(
        p.forcetransfer_shares_asset_generating_vcu(Origin::Signed(ADMIN), ALICE, BOB, AGV_ACCOUNT, AGV_ID, 5),
        Ok(())
    );
    assert_eq!(p.asset_generating_vcu_shares(AGV_ACCOUNT, AGV_ID, ALICE), 25);
    assert_eq!(p.asset_generating_vcu_shares(AGV_ACCOUNT, AGV_ID, BOB), 5);
}

#[test]
fn schedule_checks() {
    let mut p = with_agv(100);
    let r = |p: &mut Pallet, id: u32, days: u64, amount: u128, token: u32, supply: Option<u128>| {
        p.create_asset_generating_vcu_schedule(Origin::Root, AGV_ACCOUNT, id, days, amount, token, supply)
    };
    assert_eq!(r(&mut p, 99, 1, 10, TOKEN, Some(0)), module(Error::AssetGeneratingVCUNotFound));
    assert_eq!(r(&mut p, AGV_ID, 1, 0, TOKEN, Some(0)), module(Error::InvalidVCUAmount));
    assert_eq!(r(&mut p, AGV_ID, 0, 10, TOKEN, Some(0)), module(Error::InvalidPeriodDays));
    assert_eq!(r(&mut p, AGV_ID, 1, 10, TOKEN, None), module(Error::TokenIdNotFound));
    assert_eq!(r(&mut p, AGV_ID, 1, 10, 9999, Some(0)), module(Error::ReservedTokenId));
    assert_eq!(r(&mut p, AGV_ID, 1, 10, 10000, Some(0)), module(Error::ReservedTokenId));
    assert_eq!(r(&mut p, AGV_ID, 1, 10, TOKEN, Some(0)), Ok(()));
    assert_eq!(r(&mut p, AGV_ID, 1, 10, TOKEN, Some(0)), module(Error::AssetsGeneratingVCUScheduleAlreadyOnChain));
    assert_eq!(
        p.asset_generating_vcu_schedule(AGV_ACCOUNT, AGV_ID),
        Some(AssetsGeneratingVCUScheduleContent { period_days: 1, amount_vcu: 10, token_id: TOKEN })
    );
    assert_eq!(
        p.destroy_asset_generating_vcu_schedule(Origin::Root, AGV_ACCOUNT, 99),
        module(Error::AssetGeneratedVCUScheduleNotFound)
    );
    assert_eq!(p.destroy_asset_generating_vcu_schedule(Origin::Root, AGV_ACCOUNT, AGV_ID), Ok(()));
    assert_eq!(p.asset_generating_vcu_schedule(AGV_ACCOUNT, AGV_ID), None);
}

#[test]
fn distribute_vcu_gives_the_rest_to_the_last_holder() {
    let holders = vec![(ALICE, 1u32), (BOB, 2u32)];
    assert_eq!(distribute_vcu(100, 3, &holders), vec![(ALICE, 33u128), (BOB, 67u128)]);
    // shares burned: the total exceeds the holders' shares, the last gets the rest
    let holders = vec![(ALICE, 2u32), (BOB, 3u32), (ORACLE, 1u32)];
    let out = distribute_vcu(1000, 10, &holders);
    assert_eq!(out, vec![(ALICE, 200u128), (BOB, 300u128), (ORACLE, 500u128)]);
    assert_eq!(out.iter().map(|x| x.1).sum::<u128>(), 1000);
    assert_eq!(distribute_vcu(1000, 0, &Vec::new()), Vec::new());
}

#[test]
fn scheduled_minting_flow() {
    let mut p = with_agv(100);
    p.mint_shares_asset_generating_vcu(Origin::Root, ALICE, AGV_ACCOUNT, AGV_ID, 1).unwrap();
    p.mint_shares_asset_generating_vcu(Origin::Root, BOB, AGV_ACCOUNT, AGV_ID, 2).unwrap();
    assert_eq!(
        p.mint_scheduled_vcu(Origin::Root, AGV_ACCOUNT, AGV_ID, 100),
        Err(DispatchError::Module(Error::AssetGeneratedVCUScheduleNotFound))
    );
    p.create_asset_generating_vcu_schedule(Origin::Root, AGV_ACCOUNT, AGV_ID, 1, 100, TOKEN, Some(0)).unwrap();
    assert_eq!(
        p.mint_scheduled_vcu(Origin::Unsigned, AGV_ACCOUNT, AGV_ID, 100),
        Err(DispatchError::Module(Error::NotAuthorised))
    );
    // the first minting is granted at any time
    let now: u64 = 1_700_000_000;
    let req = p.mint_scheduled_vcu(Origin::Signed(ADMIN), AGV_ACCOUNT, AGV_ID, now).unwrap();
    assert_eq!(
        req,
        MintRequest { agv_account_id: AGV_ACCOUNT, agv_id: AGV_ID, token_id: TOKEN, token_owner: AGV_ACCOUNT, minter: AGV_ACCOUNT, amount_vcu: 100 }
    );
    assert_eq!(
        req.token_creation(None),
        Some(TokenCreation { token_id: TOKEN, owner: AGV_ACCOUNT, is_sufficient: false, min_balance: 1 })
    );
    assert_eq!(req.token_creation(Some(5)), None);
    // the holders are walked by storage key; the last one walked gets the rest
    let expected = if storage_key(ALICE) < storage_key(BOB) {
        vec![(ALICE, 33u128), (BOB, 67u128)]
    } else {
        vec![(BOB, 66u128), (ALICE, 34u128)]
    };
    assert_eq!(p.mint_payouts(&req), Ok(expected));
    p.complete_scheduled_mint(&req, now);
    assert_eq!(p.vcu_generated(AGV_ACCOUNT, AGV_ID), AssetsGeneratingVCUGeneratedContent { timestamp: now, amount_vcu: 100 });
    assert_eq!(p.events().last(), Some(&Event::AssetsGeneratingVCUGenerated(AGV_ACCOUNT, AGV_ID)));
    // one minting per period: the next is due a whole day (86400 s) later
    assert_eq!(
        p.mint_scheduled_vcu(Origin::Root, AGV_ACCOUNT, AGV_ID, now + 1),
        Err(DispatchError::Module(Error::AssetGeneratedScheduleNotYetArrived))
    );
    assert_eq!(
        p.mint_scheduled_vcu(Origin::Root, AGV_ACCOUNT, AGV_ID, now + 86_399),
        Err(DispatchError::Module(Error::AssetGeneratedScheduleNotYetArrived))
    );
    assert!(p.mint_scheduled_vcu(Origin::Root, AGV_ACCOUNT, AGV_ID, now + 86_400).is_ok());
}

#[test]
fn first_scheduled_minting_at_time_zero_then_a_year_later() {
    let mut p = with_agv(100);
    p.mint_shares_asset_generating_vcu(Origin::Root, ALICE, AGV_ACCOUNT, AGV_ID, 100).unwrap();
    p.create_asset_generating_vcu_schedule(Origin::Root, AGV_ACCOUNT, AGV_ID, 365, 1000, TOKEN, Some(0)).unwrap();
    let req = p.mint_scheduled_vcu(Origin::Root, AGV_ACCOUNT, AGV_ID, 0).unwrap();
    assert_eq!(p.mint_payouts(&req), Ok(vec![(ALICE, 1000u128)]));
    p.complete_scheduled_mint(&req, 0);
    assert!(p.mint_scheduled_vcu(Origin::Root, AGV_ACCOUNT, AGV_ID, 1).is_err());
    assert!(p.mint_scheduled_vcu(Origin::Root, AGV_ACCOUNT, AGV_ID, 365 * 86_400 - 1).is_err());
    assert!(p.mint_scheduled_vcu(Origin::Root, AGV_ACCOUNT, AGV_ID, 365 * 86_400).is_ok());
    // a period too long to reach is never due again
    let mut q = with_agv(100);
    q.create_asset_generating_vcu_schedule(Origin::Root, AGV_ACCOUNT, AGV_ID, u64::MAX, 1, TOKEN, Some(0)).unwrap();
    let req = q.mint_scheduled_vcu(Origin::Root, AGV_ACCOUNT, AGV_ID, 5).unwrap();
    q.complete_scheduled_mint(&req, 5);
    assert_eq!(
        q.mint_scheduled_vcu(Origin::Root, AGV_ACCOUNT, AGV_ID, u64::MAX),
        Err(DispatchError::Module(Error::AssetGeneratedScheduleNotYetArrived))
    );
}

#[test]
fn shareholders_are_walked_by_storage_key() {
    let mut p = with_agv(1000);
    let accounts: Vec<u64> = vec![5, 3, 900, 42, 7, 1 << 40, 0];
    for (i, a) in accounts.iter().enumerate() {
        p.mint_shares_asset_generating_vcu(Origin::Root, *a, AGV_ACCOUNT, AGV_ID, (i + 1) as u32).unwrap();
    }
    // another AGV's holder is not walked
    p.create_asset_generating_vcu(Origin::Root, AGV_ACCOUNT, 8, content(10)).unwrap();
    p.mint_shares_asset_generating_vcu(Origin::Root, 11, AGV_ACCOUNT, 8, 1).unwrap();
    let mut expected: Vec<(u64, u32)> =
        accounts.iter().enumerate().map(|(i, a)| (*a, (i + 1) as u32)).collect();
    expected.sort_by_key(|(a, _)| storage_key(*a));
    assert_eq!(p.shareholders(AGV_ACCOUNT, AGV_ID), expected);
    assert_ne!(expected.iter().map(|x| x.0).collect::<Vec<_>>(), accounts);
    assert_eq!(p.shareholders(AGV_ACCOUNT, 8), vec![(11, 1)]);
    // a minting of 1000 VCU over 28 minted shares: 35 per share, the rest to the last walked
    let req = MintRequest { agv_account_id: AGV_ACCOUNT, agv_id: AGV_ID, token_id: TOKEN, token_owner: AGV_ACCOUNT, minter: AGV_ACCOUNT, amount_vcu: 1000 };
    let payouts = p.mint_payouts(&req).unwrap();
    assert_eq!(payouts.len(), expected.len());
    for (j, (holder, amount)) in payouts.iter().enumerate() {
        assert_eq!(*holder, expected[j].0);
        if j + 1 < expected.len() {
            assert_eq!(*amount, 35 * expected[j].1 as u128);
        }
    }
    assert_eq!(payouts.iter().map(|x| x.1).sum::<u128>(), 1000);
}

#[test]
fn payouts_need_minted_shares() {
    let p = with_agv(100);
    let req = MintRequest { agv_account_id: AGV_ACCOUNT, agv_id: AGV_ID, token_id: TOKEN, token_owner: AGV_ACCOUNT, minter: AGV_ACCOUNT, amount_vcu: 100 };
    assert_eq!(p.mint_payouts(&req), Err(DispatchError::Module(Error::NoAVGSharesNotFound)));
}

#[test]
fn retire_vcu_flow() {
    let mut p = with_agv(100);
    assert_eq!(
        p.retire_vcu(Origin::Signed(ALICE), AGV_ACCOUNT, AGV_ID, 5),
        Err(DispatchError::Module(Error::AssetGeneratedVCUScheduleNotFound))
    );
    p.create_asset_generating_vcu_schedule(Origin::Root, AGV_ACCOUNT, AGV_ID, 1, 100, TOKEN, Some(0)).unwrap();
    assert_eq!(p.retire_vcu(Origin::Root, AGV_ACCOUNT, AGV_ID, 5), Err(DispatchError::BadOrigin));
    let req = p.retire_vcu(Origin::Signed(ALICE), AGV_ACCOUNT, AGV_ID, 5).unwrap();
    assert_eq!(req, RetireRequest { sender: ALICE, agv_account_id: AGV_ACCOUNT, agv_id: AGV_ID, token_id: TOKEN, amount: 5 });
    assert_eq!(req.check_balance(4), module(Error::InsufficientVCUs));
    assert_eq!(req.check_balance(5), Ok(()));
    assert_eq!(p.complete_retire_vcu(&req), Ok(()));
    assert_eq!(p.complete_retire_vcu(&req), Ok(()));
    assert_eq!(p.get_burn_count(ALICE, TOKEN), 2);
    assert_eq!(p.vcu_burned_account(AGV_ACCOUNT, AGV_ID), 10);
    assert_eq!(p.vcu_burned(TOKEN), 10);
    assert_eq!(p.events().last(), Some(&Event::VCUsBurnedAdded(AGV_ACCOUNT, AGV_ID, TOKEN)));
    let big = RetireRequest { amount: u128::MAX, ..req };
    assert_eq!(p.complete_retire_vcu(&big), module(Error::Overflow));
    // the counter was written before the overflow
    assert_eq!(p.get_burn_count(ALICE, TOKEN), 3);
    assert_eq!(p.vcu_burned_account(AGV_ACCOUNT, AGV_ID), 10);
}

#[test]
fn oracle_minting_flow() {
    let mut p = with_agv(100);
    assert_eq!(
        p.create_oracle_account_minting_vcu(Origin::Root, AGV_ACCOUNT, 99, ORACLE, TOKEN),
        module(Error::AssetGeneratingVCUNotFound)
    );
    assert_eq!(
        p.create_oracle_account_minting_vcu(Origin::Root, AGV_ACCOUNT, AGV_ID, ORACLE, 42),
        module(Error::ReservedTokenId)
    );
    assert_eq!(
        p.create_oracle_account_minting_vcu(Origin::Root, AGV_ACCOUNT, AGV_ID, ORACLE, 10000),
        module(Error::ReservedTokenId)
    );
    assert_eq!(p.create_oracle_account_minting_vcu(Origin::Root, AGV_ACCOUNT, AGV_ID, ORACLE, TOKEN), Ok(()));
    assert_eq!(p.oracle_account_generating_vcu(AGV_ACCOUNT, AGV_ID), Some(ORACLE));
    assert_eq!(p.oracle_tokenid_generating_vcu(AGV_ACCOUNT, AGV_ID), TOKEN);
    assert_eq!(
        p.mint_vcu_from_oracle(Origin::Signed(ALICE), AGV_ACCOUNT, AGV_ID, 50),
        Err(DispatchError::Module(Error::OracleAccountNotMatchingSigner))
    );
    assert_eq!(
        p.mint_vcu_from_oracle(Origin::Signed(ORACLE), AGV_ACCOUNT, 99, 50),
        Err(DispatchError::Module(Error::OraclesAccountMintingVCUNotFound))
    );
    let req = p.mint_vcu_from_oracle(Origin::Signed(ORACLE), AGV_ACCOUNT, AGV_ID, 50).unwrap();
    assert_eq!(req.token_owner, ORACLE);
    assert_eq!(req.minter, AGV_ACCOUNT);
    assert_eq!(req.token_id, TOKEN);
    assert_eq!(req.amount_vcu, 50);
    assert_eq!(req.token_creation(None).map(|c| c.owner), Some(ORACLE));
    p.mint_shares_asset_generating_vcu(Origin::Root, BOB, AGV_ACCOUNT, AGV_ID, 4).unwrap();
    assert_eq!(p.mint_payouts(&req), Ok(vec![(BOB, 50u128)]));
    p.complete_oracle_mint(&req);
    assert_eq!(p.events().last(), Some(&Event::OracleAccountVCUMinted(AGV_ACCOUNT, AGV_ID, ORACLE)));
    assert_eq!(p.destroy_oracle_account_minting_vcu(Origin::Root, AGV_ACCOUNT, AGV_ID), Ok(()));
    assert_eq!(p.oracle_account_generating_vcu(AGV_ACCOUNT, AGV_ID), None);
    assert_eq!(p.oracle_tokenid_generating_vcu(AGV_ACCOUNT, AGV_ID), 0);
    assert_eq!(
        p.destroy_oracle_account_minting_vcu(Origin::Root, AGV_ACCOUNT, AGV_ID),
        module(Error::OraclesAccountMintingVCUNotFound)
    );
}

#[test]
fn bundle_checks() {
    let mut p = with_agv(100);
    let bundle = |id: u32| BundleAssetGeneratingVCUContent {
        asset_id: TOKEN,
        description: b"bundle".to_vec(),
        bundle: vec![BundleAssetGeneratingVCUData { account_id: AGV_ACCOUNT, id }],
    };
    assert_eq!(p.create_bundle_agv(Origin::Root, 1, bundle(AGV_ID), None), module(Error::AssetDoesNotExist));
    assert_eq!(p.create_bundle_agv(Origin::Root, 1, bundle(99), Some(0)), module(Error::AssetGeneratingVCUNotFound));
    assert_eq!(p.create_bundle_agv(Origin::Root, 1, bundle(AGV_ID), Some(0)), Ok(()));
    assert_eq!(p.bundle_asset_generating_vcu(1), Some(&bundle(AGV_ID)));
    assert_eq!(p.destroy_bundle_agv(Origin::Root, 2), module(Error::BundleDoesNotExist));
    // only the root destroys a bundle
    assert_eq!(p.destroy_bundle_agv(Origin::Signed(ADMIN), 1), module(Error::NotAuthorised));
    assert_eq!(p.destroy_bundle_agv(Origin::Unsigned, 1), module(Error::NotAuthorised));
    assert_eq!(p.bundle_asset_generating_vcu(1), Some(&bundle(AGV_ID)));
    assert_eq!(p.destroy_bundle_agv(Origin::Root, 1), Ok(()));
    assert_eq!(p.bundle_asset_generating_vcu(1), None);
    assert_eq!(p.events().last(), Some(&Event::DestroyedBundleAssetsGeneratingVCU(1)));
}

#[test]
fn sort_by_key_bytes_orders_by_bytes() {
    let items = vec![
        (vec![2u8, 0], (1u64, 10u32)),
        (vec![1u8, 5, 5], (2, 20)),
        (vec![2u8], (3, 30)),
        (vec![1u8, 5, 5], (4, 40)),
    ];
    // [1,5,5] < [2] < [2,0]; entries with equal keys keep their order
    assert_eq!(sort_by_key_bytes(&items), vec![(2, 20), (4, 40), (3, 30), (1, 10)]);
    assert_eq!(sort_by_key_bytes(&Vec::new()), Vec::new());
}

#[test]
fn order_by_storage_key_uses_blake2_128_concat() {
    let holders: Vec<(u64, u32)> = vec![(1, 1), (2, 2), (3, 3), (4, 4), (255, 5), (256, 6)];
    let mut expected = holders.clone();
    expected.sort_by_key(|(a, _)| storage_key(*a));
    let ordered = order_by_storage_key(&holders);
    assert_eq!(ordered, expected);
    // the walk is not the order of the accounts themselves
    assert_ne!(ordered, holders);
}

#[test]
fn holders_stay_within_minted_total() {
    let mut p = with_agv(50);
    p.mint_shares_asset_generating_vcu(Origin::Root, ALICE, AGV_ACCOUNT, AGV_ID, 20).unwrap();
    p.mint_shares_asset_generating_vcu(Origin::Root, BOB, AGV_ACCOUNT, AGV_ID, 30).unwrap();
    p.burn_shares_asset_generating_vcu(Origin::Root, BOB, AGV_ACCOUNT, AGV_ID, 10).unwrap();
    p.forcetransfer_shares_asset_generating_vcu(Origin::Root, BOB, ALICE, AGV_ACCOUNT, AGV_ID, 5).unwrap();
    let held: u32 = p.shareholders(AGV_ACCOUNT, AGV_ID).iter().map(|x| x.1).sum();
    assert_eq!(held, 40);
    assert_eq!(p.asset_generating_vcu_shares_minted_total(AGV_ACCOUNT, AGV_ID), 50);
    assert!(held <= p.asset_generating_vcu_shares_minted_total(AGV_ACCOUNT, AGV_ID));
}
