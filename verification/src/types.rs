//! The plain values that the pallet stores, takes and reports.
use vstd::prelude::*;

use crate::store::StoreKey;

verus! {

/// An account of the chain.
pub type AccountId = u64;

/// A balance of an asset (VCU token).
pub type Balance = u128;

/// Token ids up to and including this one are reserved for the bridge pallet.
pub const LAST_RESERVED_TOKEN_ID: u32 = 10000;

/// Seconds per day, the unit of the time against which a schedule's period
/// (in days) is measured.
pub const SECONDS_PER_DAY: u64 = 86400;

/// Who dispatched a call.
#[derive(Clone, Copy, Debug, PartialEq, Eq)]
pub enum Origin {
    /// The root (sudo) origin.
    Root,
    /// A signed origin with its account.
    Signed(AccountId),
    /// An unsigned origin.
    Unsigned,
}

/// A key made of an account and a number: an AGV (account, id) or an
/// (account, token id).
#[derive(Clone, Copy, Debug, PartialEq, Eq)]
pub struct AccountKey {
    pub account: AccountId,
    pub id: u32,
}

/// The key of a shareholding: the AGV (account, id) and the holder.
#[derive(Clone, Copy, Debug, PartialEq, Eq)]
pub struct ShareKey {
    pub agv_account: AccountId,
    pub agv_id: u32,
    pub holder: AccountId,
}

impl StoreKey for AccountKey {
    fn same(&self, other: &Self) -> (b: bool) {
        self.account == other.account && self.id == other.id
    }
}

impl StoreKey for ShareKey {
    fn same(&self, other: &Self) -> (b: bool) {
        self.agv_account == other.agv_account && self.agv_id == other.agv_id && self.holder
            == other.holder
    }
}

/// The content of an Asset Generating VCU.
#[derive(Clone, Debug, PartialEq, Eq)]
pub struct AssetGeneratingVCUContent {
    pub description: Vec<u8>,
    pub proof_of_ownership: Vec<u8>,
    /// Seconds.
    pub expiry: u64,
    pub number_of_shares: u32,
}

/// A minting schedule of an AGV.
#[derive(Clone, Copy, Debug, PartialEq, Eq)]
pub struct AssetsGeneratingVCUScheduleContent {
    pub period_days: u64,
    pub amount_vcu: Balance,
    pub token_id: u32,
}

/// The record of an AGV's last scheduled minting: when, and how many VCU.
#[derive(Clone, Copy, Debug, PartialEq, Eq)]
pub struct AssetsGeneratingVCUGeneratedContent {
    /// Seconds since the Unix epoch.
    pub timestamp: u64,
    pub amount_vcu: Balance,
}

/// One AGV of a bundle.
#[derive(Clone, Copy, Debug, PartialEq, Eq)]
pub struct BundleAssetGeneratingVCUData {
    pub account_id: AccountId,
    pub id: u32,
}

/// A bundle of AGVs tied to an asset.
#[derive(Clone, Debug, PartialEq, Eq)]
pub struct BundleAssetGeneratingVCUContent {
    pub asset_id: u32,
    pub description: Vec<u8>,
    pub bundle: Vec<BundleAssetGeneratingVCUData>,
}

/// The limits that the runtime configures.
#[derive(Clone, Copy, Debug, PartialEq, Eq)]
pub struct Config {
    /// Veera project id minimum length.
    pub min_pid_length: u32,
    /// Max size of a description.
    pub max_description_length: u32,
    /// Max size of a document.
    pub max_document_length: u32,
    /// Max number of AGVs in a bundle.
    pub max_bundle_size: u32,
}

/// What the pallet reports.
#[derive(Clone, Copy, Debug, PartialEq, Eq)]
pub enum Event {
    /// Added authorized account.
    AuthorizedAccountAdded(AccountId),
    /// Destroyed authorized account.
    AuthorizedAccountsAGVDestroyed(AccountId),
    /// AssetsGeneratingVCU has been stored.
    AssetsGeneratingVCUCreated(u32),
    /// Destroyed AssetGeneratedVCU.
    AssetGeneratingVCUDestroyed(u32),
    /// Minted AssetGeneratedVCU.
    AssetsGeneratingVCUSharesMinted(AccountId, u32),
    /// Burned AssetGeneratedVCU.
    AssetsGeneratingVCUSharesBurned(AccountId, u32),
    /// Transferred AssetGeneratedVCU.
    AssetsGeneratingVCUSharesTransferred(AccountId),
    /// Added AssetsGeneratingVCUSchedule
    AssetsGeneratingVCUScheduleAdded(AccountId, u32),
    /// Destroyed AssetsGeneratingVCUSchedule
    AssetsGeneratingVCUScheduleDestroyed(AccountId, u32),
    /// Added AssetsGeneratingVCUGenerated.
    AssetsGeneratingVCUGenerated(AccountId, u32),
    /// Added VCUBurned.
    VCUsBurnedAdded(AccountId, u32, u32),
    /// Added OraclesAccountMintingVCU
    OraclesAccountMintingVCUAdded(AccountId, u32, AccountId),
    /// Destroyed OraclesAccountMintingVCUDestroyed
    OraclesAccountMintingVCUDestroyed(AccountId, u32),
    /// OracleAccountVCUMinted
    OracleAccountVCUMinted(AccountId, u32, AccountId),
    /// Added BundleAssetsGeneratingVCU
    AddedBundleAssetsGeneratingVCU(u32),
    /// Destroyed BundleAssetsGeneratingVCU
    DestroyedBundleAssetsGeneratingVCU(u32),
}

/// What can go wrong in the pallet.
#[derive(Clone, Copy, Debug, PartialEq, Eq)]
pub enum Error {
    /// Invalid Description
    InvalidDescription,
    /// NumberofShares not found
    NumberofSharesNotFound,
    /// Number of share cannot be zero
    NumberofSharesCannotBeZero,
    /// Too many NumberofShares
    TooManyShares,
    /// AssetGeneratedVCU has not been found on the blockchain
    AssetGeneratingVCUNotFound,
    /// Invalid AGVId
    InvalidAGVId,
    /// Too less NumberofShares
    TooLessShares,
    /// InsufficientShares
    InsufficientShares,
    /// Got an overflow after adding
    Overflow,
    /// AssetGeneratedShares has not been found on the blockchain
    AssetGeneratedSharesNotFound,
    /// Invalid VCU Amount
    InvalidVCUAmount,
    /// AssetGeneratedVCUSchedule has not been found on the blockchain
    AssetGeneratedVCUScheduleNotFound,
    /// Asset does not exist,
    AssetDoesNotExist,
    /// AOraclesAccountMintingVCU Not Found
    OraclesAccountMintingVCUNotFound,
    /// Bundle does not exist,
    BundleDoesNotExist,
    /// The recipient has not shares minted
    RecipientSharesNotFound,
    /// Recipient Shares are less of burning shares
    RecipientSharesLessOfBurningShares,
    /// Total shares are not enough to burn the amount requested
    TotalSharesNotEnough,
    /// Invalid period in days
    InvalidPeriodDays,
    /// The minting time is not not yet arrived based on the schedule
    AssetGeneratedScheduleNotYetArrived,
    /// Token id not found in Assets Pallet
    TokenIdNotFound,
    /// The schedule is already present on chain
    AssetsGeneratingVCUScheduleAlreadyOnChain,
    /// The Oracle account is not matching the signer of the transaction
    OracleAccountNotMatchingSigner,
    /// Token for Oracle has not been found, inconsistency in stored data
    OraclesTokenMintingVCUNotFound,
    /// InsufficientVCUs
    InsufficientVCUs,
    /// Token id must have a value > 10000 because till 10000 is reserved for the Bridge pallet.
    ReservedTokenId,
    /// The AVG has not yet shares minted
    NoAVGSharesNotFound,
    /// Too many shares
    TooManyNumberofShares,
    /// AGV not found
    AssetGeneratedVCUNotFound,
    /// The account is not authorised to make the call
    NotAuthorised,
}

/// Why a call was refused: its origin, or an error of the pallet.
#[derive(Clone, Copy, Debug, PartialEq, Eq)]
pub enum DispatchError {
    BadOrigin,
    Module(Error),
}

/// The outcome of a call.
pub type DispatchResult = Result<(), DispatchError>;

/// The asset that must be created before VCU are minted in it.
#[derive(Clone, Copy, Debug, PartialEq, Eq)]
pub struct TokenCreation {
    pub token_id: u32,
    pub owner: AccountId,
    pub is_sufficient: bool,
    pub min_balance: Balance,
}

/// A minting of VCU among the shareholders of an AGV that a call has granted.
#[derive(Clone, Copy, Debug, PartialEq, Eq)]
pub struct MintRequest {
    pub agv_account_id: AccountId,
    pub agv_id: u32,
    pub token_id: u32,
    /// The owner of the token where it must be created: the AGV account for
    /// a scheduled minting, the oracle for an oracle minting.
    pub token_owner: AccountId,
    /// The signer of the mintings in the assets pallet: the AGV account.
    pub minter: AccountId,
    pub amount_vcu: Balance,
}

impl MintRequest {
    /// The token to create before minting: one, owned by the token owner,
    /// where no asset with the token id exists (`token_supply` is the asset's
    /// total supply, `None` where there is no such asset).
    pub fn token_creation(&self, token_supply: Option<Balance>) -> (r: Option<TokenCreation>)
        ensures
            r == (if token_supply is None {
                Some(
                    TokenCreation {
                        token_id: self.token_id,
                        owner: self.token_owner,
                        is_sufficient: false,
                        min_balance: 1,
                    },
                )
            } else {
                None
            }),
    {
        match token_supply {
            None => Some(
                TokenCreation {
                    token_id: self.token_id,
                    owner: self.token_owner,
                    is_sufficient: false,
                    min_balance: 1,
                },
            ),
            Some(_) => None,
        }
    }
}

/// A retirement (burning) of VCU that a call has granted up to the balance check.
#[derive(Clone, Copy, Debug, PartialEq, Eq)]
pub struct RetireRequest {
    pub sender: AccountId,
    pub agv_account_id: AccountId,
    pub agv_id: u32,
    pub token_id: u32,
    pub amount: Balance,
}

impl RetireRequest {
    /// Checks the sender's balance of the token: enough for the amount, or
    /// `InsufficientVCUs`.
    pub fn check_balance(&self, balance: Balance) -> (r: DispatchResult)
        ensures
            r == (if balance >= self.amount {
                Ok::<(), DispatchError>(())
            } else {
                Err(DispatchError::Module(Error::InsufficientVCUs))
            }),
    {
        if balance >= self.amount {
            Ok(())
        } else {
            Err(DispatchError::Module(Error::InsufficientVCUs))
        }
    }
}

} // verus!
