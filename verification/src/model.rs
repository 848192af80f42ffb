//! The pallet's storage as mathematical values, and what each call does to it.
use vstd::prelude::*;

use crate::distribution::{payouts, share_sum};
use crate::key_order::storage_order;
use crate::store::{entries_map, has_key, keys_unique, lemma_entry_at, position_of};
use crate::types::{
    AccountId, AccountKey, AssetGeneratingVCUContent, AssetsGeneratingVCUGeneratedContent,
    AssetsGeneratingVCUScheduleContent, Balance,
    BundleAssetGeneratingVCUContent, Config, DispatchError, DispatchResult, Error, Event,
    MintRequest, Origin, RetireRequest, ShareKey, LAST_RESERVED_TOKEN_ID, SECONDS_PER_DAY,
};

verus! {

/// The pallet's storage items and the events it has deposited.
pub struct PalletState {
    pub config: Config,
    /// AuthorizedAccountsAGV: the accounts allowed to manage AGVs, with a description.
    pub authorized_accounts_agv: Map<AccountId, Vec<u8>>,
    /// AssetsGeneratingVCU, by (AGV account, AGV id).
    pub assets_generating_vcu: Map<AccountKey, AssetGeneratingVCUContent>,
    /// AssetsGeneratingVCUShares: the shares of each holder of each AGV, in
    /// the order in which the store walks them.
    pub shares: Seq<(ShareKey, u32)>,
    /// AssetsGeneratingVCUSharesMinted, by AGV.
    pub shares_minted: Map<AccountKey, u32>,
    /// AssetsGeneratingVCUSharesMintedTotal, by AGV.
    pub shares_minted_total: Map<AccountKey, u32>,
    /// AssetsGeneratingVCUSchedule, by AGV.
    pub schedules: Map<AccountKey, AssetsGeneratingVCUScheduleContent>,
    /// AssetsGeneratingVCUGenerated: the time and amount of the last
    /// scheduled minting, by AGV.
    pub generated: Map<AccountKey, AssetsGeneratingVCUGeneratedContent>,
    /// VCUsBurnedAccounts: the VCU retired, by AGV.
    pub vcus_burned_accounts: Map<AccountKey, Balance>,
    /// VCUsBurned: the VCU retired, by token id.
    pub vcus_burned: Map<u32, Balance>,
    /// OraclesAccountMintingVCU, by AGV.
    pub oracle_accounts: Map<AccountKey, AccountId>,
    /// OraclesTokenMintingVCU, by AGV.
    pub oracle_tokens: Map<AccountKey, u32>,
    /// BundleAssetsGeneratingVCU, by bundle id.
    pub bundles: Map<u32, BundleAssetGeneratingVCUContent>,
    /// BurnedCounter: retirements, by (account, token id).
    pub burned_counter: Map<AccountKey, u32>,
    /// The events deposited, oldest first.
    pub events: Seq<Event>,
}

/// A stored `u32`, or 0 where nothing is stored.
pub open spec fn u32_at<K>(m: Map<K, u32>, k: K) -> u32 {
    if m.contains_key(k) {
        m[k]
    } else {
        0
    }
}

/// A stored `u128`, or 0 where nothing is stored.
pub open spec fn u128_at<K>(m: Map<K, u128>, k: K) -> u128 {
    if m.contains_key(k) {
        m[k]
    } else {
        0
    }
}

/// The AGV key of `(account, id)`.
pub open spec fn agv_key(account: AccountId, id: u32) -> AccountKey {
    AccountKey { account, id }
}

/// The shareholding key of `holder` in the AGV `(account, id)`.
pub open spec fn share_key(account: AccountId, id: u32, holder: AccountId) -> ShareKey {
    ShareKey { agv_account: account, agv_id: id, holder }
}

/// The shares held under each key.
pub open spec fn shares_map(s: PalletState) -> Map<ShareKey, u32> {
    entries_map(s.shares)
}

/// The shares held under `k`, or 0.
pub open spec fn share_at(s: PalletState, k: ShareKey) -> u32 {
    u32_at(shares_map(s), k)
}

/// `entries` with `v` written for `k`: in place where `k` is held, else as a
/// new last entry.
pub open spec fn seq_write<K, V>(entries: Seq<(K, V)>, k: K, v: V) -> Seq<(K, V)> {
    if has_key(entries, k) {
        entries.update(position_of(entries, k), (k, v))
    } else {
        entries.push((k, v))
    }
}

/// The shareholding `k` belongs to the AGV `agv`.
pub open spec fn belongs(k: ShareKey, agv: AccountKey) -> bool {
    k.agv_account == agv.account && k.agv_id == agv.id
}

/// The holders of the AGV `agv`, with their shares, in the order in which
/// the store walks them.
pub open spec fn holders(entries: Seq<(ShareKey, u32)>, agv: AccountKey) -> Seq<(AccountId, u32)>
    decreases entries.len(),
{
    if entries.len() == 0 {
        Seq::empty()
    } else {
        let prev = holders(entries.drop_last(), agv);
        let e = entries.last();
        if belongs(e.0, agv) {
            prev.push((e.0.holder, e.1))
        } else {
            prev
        }
    }
}

/// No AGV has more shares in the hands of its holders than the total minted for it.
pub open spec fn shares_within_total(s: PalletState) -> bool {
    forall|agv: AccountKey|
        #[trigger] share_sum(holders(s.shares, agv)) <= u32_at(s.shares_minted_total, agv)
}

/// No schedule and no oracle uses a token id reserved for the bridge.
pub open spec fn reserved_tokens_untouched(s: PalletState) -> bool {
    &&& forall|k: AccountKey| #[trigger]
        s.schedules.contains_key(k) ==> s.schedules[k].token_id > LAST_RESERVED_TOKEN_ID
    &&& forall|k: AccountKey| #[trigger]
        s.oracle_tokens.contains_key(k) ==> s.oracle_tokens[k] > LAST_RESERVED_TOKEN_ID
}

/// What every state of the pallet satisfies.
pub open spec fn state_wf(s: PalletState) -> bool {
    &&& keys_unique(s.shares)
    &&& shares_within_total(s)
    &&& reserved_tokens_untouched(s)
}

/// `origin` is the root or a signed authorized account.
pub open spec fn authorizes(s: PalletState, origin: Origin) -> bool {
    match origin {
        Origin::Root => true,
        Origin::Signed(a) => s.authorized_accounts_agv.contains_key(a),
        Origin::Unsigned => false,
    }
}

/// A refusal with an error of the pallet.
pub open spec fn module_err(e: Error) -> DispatchError {
    DispatchError::Module(e)
}

/// `s` with `e` deposited.
pub open spec fn with_event(s: PalletState, e: Event) -> PalletState {
    PalletState { events: s.events.push(e), ..s }
}

/// The length of a schedule's period, in seconds.
pub open spec fn schedule_period(sched: AssetsGeneratingVCUScheduleContent) -> int {
    sched.period_days * SECONDS_PER_DAY
}

/// A scheduled minting of the AGV `k` at time `now` (seconds) is due: the
/// first minting is due at any time; a later one once a whole period has
/// passed since the last.
pub open spec fn scheduled_mint_due(s: PalletState, k: AccountKey, now: u64) -> bool {
    !s.generated.contains_key(k) || now >= s.generated[k].timestamp + schedule_period(s.schedules[k])
}

/// add_authorized_account: root only; a description of more than 4 bytes;
/// stores (or replaces) the description.
pub open spec fn add_authorized_account_spec(
    s: PalletState,
    origin: Origin,
    account_id: AccountId,
    description: Vec<u8>,
) -> (DispatchResult, PalletState) {
    if origin != Origin::Root {
        (Err(DispatchError::BadOrigin), s)
    } else if description.len() <= 4 {
        (Err(module_err(Error::InvalidDescription)), s)
    } else {
        (
            Ok(()),
            with_event(
                PalletState {
                    authorized_accounts_agv: s.authorized_accounts_agv.insert(account_id, description),
                    ..s
                },
                Event::AuthorizedAccountAdded(account_id),
            ),
        )
    }
}

/// destroy_authorized_account: root only; removes the account.
pub open spec fn destroy_authorized_account_spec(
    s: PalletState,
    origin: Origin,
    account_id: AccountId,
) -> (DispatchResult, PalletState) {
    if origin != Origin::Root {
        (Err(DispatchError::BadOrigin), s)
    } else {
        (
            Ok(()),
            with_event(
                PalletState {
                    authorized_accounts_agv: s.authorized_accounts_agv.remove(account_id),
                    ..s
                },
                Event::AuthorizedAccountsAGVDestroyed(account_id),
            ),
        )
    }
}

/// create_asset_generating_vcu: root or authorized; a non-zero number of
/// shares; stores (or replaces) the AGV.
pub open spec fn create_asset_generating_vcu_spec(
    s: PalletState,
    origin: Origin,
    agv_account_id: AccountId,
    agv_id: u32,
    content: AssetGeneratingVCUContent,
) -> (DispatchResult, PalletState) {
    if !authorizes(s, origin) {
        (Err(module_err(Error::NotAuthorised)), s)
    } else if content.number_of_shares == 0 {
        (Err(module_err(Error::NumberofSharesCannotBeZero)), s)
    } else {
        (
            Ok(()),
            with_event(
                PalletState {
                    assets_generating_vcu: s.assets_generating_vcu.insert(
                        agv_key(agv_account_id, agv_id),
                        content,
                    ),
                    ..s
                },
                Event::AssetsGeneratingVCUCreated(agv_id),
            ),
        )
    }
}

/// destroy_asset_generating_vcu: root or authorized; the AGV must exist.
pub open spec fn destroy_asset_generating_vcu_spec(
    s: PalletState,
    origin: Origin,
    agv_account_id: AccountId,
    agv_id: u32,
) -> (DispatchResult, PalletState) {
    let k = agv_key(agv_account_id, agv_id);
    if !authorizes(s, origin) {
        (Err(module_err(Error::NotAuthorised)), s)
    } else if !s.assets_generating_vcu.contains_key(k) {
        (Err(module_err(Error::AssetGeneratingVCUNotFound)), s)
    } else {
        (
            Ok(()),
            with_event(
                PalletState { assets_generating_vcu: s.assets_generating_vcu.remove(k), ..s },
                Event::AssetGeneratingVCUDestroyed(agv_id),
            ),
        )
    }
}

/// mint_shares_asset_generating_vcu: root or authorized; the AGV must
/// exist; adds the shares to the AGV's minted count, then to its minted
/// total (each refused above the AGV's number of shares), then to the
/// recipient. Each step writes before the next is checked, so a refusal
/// keeps what the steps before it wrote.
pub open spec fn mint_shares_spec(
    s: PalletState,
    origin: Origin,
    recipient: AccountId,
    agv_account: AccountId,
    agv_id: u32,
    number_of_shares: u32,
) -> (DispatchResult, PalletState) {
    let k = agv_key(agv_account, agv_id);
    if !authorizes(s, origin) {
        (Err(module_err(Error::NotAuthorised)), s)
    } else if !s.assets_generating_vcu.contains_key(k) {
        (Err(module_err(Error::AssetGeneratingVCUNotFound)), s)
    } else {
        let cap = s.assets_generating_vcu[k].number_of_shares;
        let minted = u32_at(s.shares_minted, k) + number_of_shares;
        if minted > u32::MAX {
            (Err(module_err(Error::Overflow)), s)
        } else if minted > cap {
            (Err(module_err(Error::TooManyShares)), s)
        } else {
            let s1 = PalletState { shares_minted: s.shares_minted.insert(k, minted as u32), ..s };
            let total = u32_at(s1.shares_minted_total, k) + number_of_shares;
            if total > u32::MAX {
                (Err(module_err(Error::Overflow)), s1)
            } else if total > cap {
                (Err(module_err(Error::TooManyShares)), s1)
            } else {
                let s2 = PalletState {
                    shares_minted_total: s1.shares_minted_total.insert(k, total as u32),
                    ..s1
                };
                let sk = share_key(agv_account, agv_id, recipient);
                let held = share_at(s2, sk) + number_of_shares;
                if held > u32::MAX {
                    (Err(module_err(Error::Overflow)), s2)
                } else {
                    (
                        Ok(()),
                        with_event(
                            PalletState { shares: seq_write(s2.shares, sk, held as u32), ..s2 },
                            Event::AssetsGeneratingVCUSharesMinted(agv_account, agv_id),
                        ),
                    )
                }
            }
        }
    }
}

/// burn_shares_asset_generating_vcu: root or authorized; the AGV and the
/// recipient's shares must exist; takes the shares from the recipient and
/// from the AGV's minted count, which must stay above 0.
pub open spec fn burn_shares_spec(
    s: PalletState,
    origin: Origin,
    recipient: AccountId,
    agv_account: AccountId,
    agv_id: u32,
    number_of_shares: u32,
) -> (DispatchResult, PalletState) {
    let k = agv_key(agv_account, agv_id);
    let sk = share_key(agv_account, agv_id, recipient);
    if !authorizes(s, origin) {
        (Err(module_err(Error::NotAuthorised)), s)
    } else if !s.assets_generating_vcu.contains_key(k) {
        (Err(module_err(Error::AssetGeneratingVCUNotFound)), s)
    } else if !shares_map(s).contains_key(sk) {
        (Err(module_err(Error::RecipientSharesNotFound)), s)
    } else if shares_map(s)[sk] < number_of_shares {
        (Err(module_err(Error::RecipientSharesLessOfBurningShares)), s)
    } else if !s.shares_minted.contains_key(k) || s.shares_minted[k] < number_of_shares {
        (Err(module_err(Error::TotalSharesNotEnough)), s)
    } else if s.shares_minted[k] - number_of_shares == 0 {
        (Err(module_err(Error::TooLessShares)), s)
    } else {
        (
            Ok(()),
            with_event(
                PalletState {
                    shares_minted: s.shares_minted.insert(
                        k,
                        (s.shares_minted[k] - number_of_shares) as u32,
                    ),
                    shares: seq_write(s.shares, sk, (shares_map(s)[sk] - number_of_shares) as u32),
                    ..s
                },
                Event::AssetsGeneratingVCUSharesBurned(agv_account, agv_id),
            ),
        )
    }
}

/// Moves shares of an AGV from `sender` to `recipient`: the sender's shares
/// must exist and suffice; the sender's are taken first, so a refusal of the
/// recipient's addition keeps that taking.
pub open spec fn move_shares_spec(
    s: PalletState,
    sender: AccountId,
    recipient: AccountId,
    agv_account: AccountId,
    agv_id: u32,
    number_of_shares: u32,
) -> (DispatchResult, PalletState) {
    let from = share_key(agv_account, agv_id, sender);
    let to = share_key(agv_account, agv_id, recipient);
    if !shares_map(s).contains_key(from) {
        (Err(module_err(Error::AssetGeneratedSharesNotFound)), s)
    } else if number_of_shares > shares_map(s)[from] {
        (Err(module_err(Error::NumberofSharesNotFound)), s)
    } else {
        let s1 = PalletState {
            shares: seq_write(s.shares, from, (shares_map(s)[from] - number_of_shares) as u32),
            ..s
        };
        let held = share_at(s1, to) + number_of_shares;
        if held > u32::MAX {
            (Err(module_err(Error::Overflow)), s1)
        } else {
            (
                Ok(()),
                with_event(
                    PalletState { shares: seq_write(s1.shares, to, held as u32), ..s1 },
                    Event::AssetsGeneratingVCUSharesTransferred(recipient),
                ),
            )
        }
    }
}

/// transfer_shares_asset_generating_vcu: a signed sender moves its own shares.
pub open spec fn transfer_shares_spec(
    s: PalletState,
    origin: Origin,
    recipient: AccountId,
    agv_account: AccountId,
    agv_id: u32,
    number_of_shares: u32,
) -> (DispatchResult, PalletState) {
    match origin {
        Origin::Signed(sender) => move_shares_spec(
            s,
            sender,
            recipient,
            agv_account,
            agv_id,
            number_of_shares,
        ),
        _ => (Err(DispatchError::BadOrigin), s),
    }
}

/// forcetransfer_shares_asset_generating_vcu: root or authorized moves the
/// shares of any sender.
pub open spec fn forcetransfer_shares_spec(
    s: PalletState,
    origin: Origin,
    sender: AccountId,
    recipient: AccountId,
    agv_account: AccountId,
    agv_id: u32,
    number_of_shares: u32,
) -> (DispatchResult, PalletState) {
    if !authorizes(s, origin) {
        (Err(module_err(Error::NotAuthorised)), s)
    } else {
        move_shares_spec(s, sender, recipient, agv_account, agv_id, number_of_shares)
    }
}

/// create_asset_generating_vcu_schedule: root or authorized; the AGV must
/// exist; a non-zero amount and period; no schedule yet; the token must
/// exist in the assets pallet (`token_supply` is its total supply, `None`
/// where it does not exist) and not be reserved.
pub open spec fn create_schedule_spec(
    s: PalletState,
    origin: Origin,
    agv_account_id: AccountId,
    agv_id: u32,
    period_days: u64,
    amount_vcu: Balance,
    token_id: u32,
    token_supply: Option<Balance>,
) -> (DispatchResult, PalletState) {
    let k = agv_key(agv_account_id, agv_id);
    if !authorizes(s, origin) {
        (Err(module_err(Error::NotAuthorised)), s)
    } else if !s.assets_generating_vcu.contains_key(k) {
        (Err(module_err(Error::AssetGeneratingVCUNotFound)), s)
    } else if amount_vcu == 0 {
        (Err(module_err(Error::InvalidVCUAmount)), s)
    } else if period_days == 0 {
        (Err(module_err(Error::InvalidPeriodDays)), s)
    } else if s.schedules.contains_key(k) {
        (Err(module_err(Error::AssetsGeneratingVCUScheduleAlreadyOnChain)), s)
    } else if token_supply is None {
        (Err(module_err(Error::TokenIdNotFound)), s)
    } else if token_id <= LAST_RESERVED_TOKEN_ID {
        (Err(module_err(Error::ReservedTokenId)), s)
    } else {
        (
            Ok(()),
            with_event(
                PalletState {
                    schedules: s.schedules.insert(
                        k,
                        AssetsGeneratingVCUScheduleContent { period_days, amount_vcu, token_id },
                    ),
                    ..s
                },
                Event::AssetsGeneratingVCUScheduleAdded(agv_account_id, agv_id),
            ),
        )
    }
}

/// destroy_asset_generating_vcu_schedule: root or authorized; the schedule must exist.
pub open spec fn destroy_schedule_spec(
    s: PalletState,
    origin: Origin,
    agv_account_id: AccountId,
    agv_id: u32,
) -> (DispatchResult, PalletState) {
    let k = agv_key(agv_account_id, agv_id);
    if !authorizes(s, origin) {
        (Err(module_err(Error::NotAuthorised)), s)
    } else if !s.schedules.contains_key(k) {
        (Err(module_err(Error::AssetGeneratedVCUScheduleNotFound)), s)
    } else {
        (
            Ok(()),
            with_event(
                PalletState { schedules: s.schedules.remove(k), ..s },
                Event::AssetsGeneratingVCUScheduleDestroyed(agv_account_id, agv_id),
            ),
        )
    }
}

/// mint_scheduled_vcu, up to the minting: root or authorized; the schedule
/// must exist; the minting must be due (the first at any time, a later one
/// a whole period after the last); the token must not be reserved. Grants minting the scheduled
/// amount in the schedule's token, owned by the AGV account where it must be
/// created, signed by the AGV account.
pub open spec fn mint_scheduled_vcu_spec(
    s: PalletState,
    origin: Origin,
    agv_account_id: AccountId,
    agv_id: u32,
    now: u64,
) -> Result<MintRequest, DispatchError> {
    let k = agv_key(agv_account_id, agv_id);
    if !authorizes(s, origin) {
        Err(module_err(Error::NotAuthorised))
    } else if !s.schedules.contains_key(k) {
        Err(module_err(Error::AssetGeneratedVCUScheduleNotFound))
    } else {
        let sched = s.schedules[k];
        if !scheduled_mint_due(s, k, now) {
            Err(module_err(Error::AssetGeneratedScheduleNotYetArrived))
        } else if sched.token_id <= LAST_RESERVED_TOKEN_ID {
            Err(module_err(Error::ReservedTokenId))
        } else {
            Ok(
                MintRequest {
                    agv_account_id,
                    agv_id,
                    token_id: sched.token_id,
                    token_owner: agv_account_id,
                    minter: agv_account_id,
                    amount_vcu: sched.amount_vcu,
                },
            )
        }
    }
}

/// The payouts of a granted minting: refused where the AGV has no minted
/// total; else the amount shared out among the AGV's holders, walked in the
/// order of their storage keys.
pub open spec fn mint_payouts_spec(s: PalletState, req: MintRequest) -> Result<
    Seq<(AccountId, Balance)>,
    DispatchError,
> {
    let k = agv_key(req.agv_account_id, req.agv_id);
    if !s.shares_minted_total.contains_key(k) {
        Err(module_err(Error::NoAVGSharesNotFound))
    } else {
        Ok(
            payouts(
                req.amount_vcu,
                s.shares_minted_total[k] as u128,
                storage_order(holders(s.shares, k)),
            ),
        )
    }
}

/// The shares out of which a minting pays can be divided: where the AGV's
/// minted total is 0, it has no holders.
pub open spec fn payouts_divisible(s: PalletState, req: MintRequest) -> bool {
    let k = agv_key(req.agv_account_id, req.agv_id);
    s.shares_minted_total.contains_key(k) && s.shares_minted_total[k] == 0 ==> holders(
        s.shares,
        k,
    ).len() == 0
}

/// The end of mint_scheduled_vcu once every payout is minted: records `now`
/// and the amount granted as the AGV's last minting.
pub open spec fn complete_scheduled_mint_spec(s: PalletState, req: MintRequest, now: u64) -> PalletState {
    with_event(
        PalletState {
            generated: s.generated.insert(
                agv_key(req.agv_account_id, req.agv_id),
                AssetsGeneratingVCUGeneratedContent { timestamp: now, amount_vcu: req.amount_vcu },
            ),
            ..s
        },
        Event::AssetsGeneratingVCUGenerated(req.agv_account_id, req.agv_id),
    )
}

/// retire_vcu, up to the balance check: a signed sender; the schedule must
/// exist; grants retiring `amount` of the schedule's token.
pub open spec fn retire_vcu_spec(
    s: PalletState,
    origin: Origin,
    agv_account_id: AccountId,
    agv_id: u32,
    amount: Balance,
) -> Result<RetireRequest, DispatchError> {
    let k = agv_key(agv_account_id, agv_id);
    match origin {
        Origin::Signed(sender) => if !s.schedules.contains_key(k) {
            Err(module_err(Error::AssetGeneratedVCUScheduleNotFound))
        } else {
            Ok(
                RetireRequest {
                    sender,
                    agv_account_id,
                    agv_id,
                    token_id: s.schedules[k].token_id,
                    amount,
                },
            )
        },
        _ => Err(DispatchError::BadOrigin),
    }
}

/// The end of retire_vcu once the VCU are burned: counts the retirement for
/// the sender and token, then adds the amount to the AGV's and the token's
/// retired totals (each refused on overflow, keeping what came before).
pub open spec fn complete_retire_vcu_spec(s: PalletState, req: RetireRequest) -> (
    DispatchResult,
    PalletState,
) {
    let ck = agv_key(req.sender, req.token_id);
    let k = agv_key(req.agv_account_id, req.agv_id);
    let s1 = PalletState {
        burned_counter: s.burned_counter.insert(ck, (u32_at(s.burned_counter, ck) + 1) as u32),
        ..s
    };
    let by_agv = u128_at(s1.vcus_burned_accounts, k) + req.amount;
    if by_agv > u128::MAX {
        (Err(module_err(Error::Overflow)), s1)
    } else {
        let s2 = PalletState {
            vcus_burned_accounts: s1.vcus_burned_accounts.insert(k, by_agv as u128),
            ..s1
        };
        let by_token = u128_at(s2.vcus_burned, req.token_id) + req.amount;
        if by_token > u128::MAX {
            (Err(module_err(Error::Overflow)), s2)
        } else {
            (
                Ok(()),
                with_event(
                    PalletState {
                        vcus_burned: s2.vcus_burned.insert(req.token_id, by_token as u128),
                        ..s2
                    },
                    Event::VCUsBurnedAdded(req.agv_account_id, req.agv_id, req.token_id),
                ),
            )
        }
    }
}

/// create_oracle_account_minting_vcu: root or authorized; the AGV must
/// exist; the token must not be reserved; stores (or replaces) the oracle
/// and its token.
pub open spec fn create_oracle_spec(
    s: PalletState,
    origin: Origin,
    agv_account_id: AccountId,
    agv_id: u32,
    oracle_account_id: AccountId,
    token_id: u32,
) -> (DispatchResult, PalletState) {
    let k = agv_key(agv_account_id, agv_id);
    if !authorizes(s, origin) {
        (Err(module_err(Error::NotAuthorised)), s)
    } else if !s.assets_generating_vcu.contains_key(k) {
        (Err(module_err(Error::AssetGeneratingVCUNotFound)), s)
    } else if token_id <= LAST_RESERVED_TOKEN_ID {
        (Err(module_err(Error::ReservedTokenId)), s)
    } else {
        (
            Ok(()),
            with_event(
                PalletState {
                    oracle_tokens: s.oracle_tokens.insert(k, token_id),
                    oracle_accounts: s.oracle_accounts.insert(k, oracle_account_id),
                    ..s
                },
                Event::OraclesAccountMintingVCUAdded(agv_account_id, agv_id, oracle_account_id),
            ),
        )
    }
}

/// destroy_oracle_account_minting_vcu: root or authorized; the oracle must
/// exist; removes the oracle and its token.
pub open spec fn destroy_oracle_spec(
    s: PalletState,
    origin: Origin,
    agv_account_id: AccountId,
    agv_id: u32,
) -> (DispatchResult, PalletState) {
    let k = agv_key(agv_account_id, agv_id);
    if !authorizes(s, origin) {
        (Err(module_err(Error::NotAuthorised)), s)
    } else if !s.oracle_accounts.contains_key(k) {
        (Err(module_err(Error::OraclesAccountMintingVCUNotFound)), s)
    } else {
        (
            Ok(()),
            with_event(
                PalletState {
                    oracle_accounts: s.oracle_accounts.remove(k),
                    oracle_tokens: s.oracle_tokens.remove(k),
                    ..s
                },
                Event::OraclesAccountMintingVCUDestroyed(agv_account_id, agv_id),
            ),
        )
    }
}

/// mint_vcu_from_oracle, up to the minting: a signed sender that is the
/// AGV's oracle, with a token; grants minting `amount_vcu` in that token,
/// owned by the oracle where it must be created, signed by the AGV account.
pub open spec fn mint_vcu_from_oracle_spec(
    s: PalletState,
    origin: Origin,
    agv_account_id: AccountId,
    agv_id: u32,
    amount_vcu: Balance,
) -> Result<MintRequest, DispatchError> {
    let k = agv_key(agv_account_id, agv_id);
    match origin {
        Origin::Signed(sender) => if !s.oracle_accounts.contains_key(k) {
            Err(module_err(Error::OraclesAccountMintingVCUNotFound))
        } else if s.oracle_accounts[k] != sender {
            Err(module_err(Error::OracleAccountNotMatchingSigner))
        } else if !s.oracle_tokens.contains_key(k) {
            Err(module_err(Error::OraclesTokenMintingVCUNotFound))
        } else {
            Ok(
                MintRequest {
                    agv_account_id,
                    agv_id,
                    token_id: s.oracle_tokens[k],
                    token_owner: sender,
                    minter: agv_account_id,
                    amount_vcu,
                },
            )
        },
        _ => Err(DispatchError::BadOrigin),
    }
}

/// The end of mint_vcu_from_oracle once every payout is minted.
pub open spec fn complete_oracle_mint_spec(s: PalletState, req: MintRequest) -> PalletState {
    with_event(s, Event::OracleAccountVCUMinted(req.agv_account_id, req.agv_id, req.token_owner))
}

/// create_bundle_agv: root or authorized; the asset must exist (`token_supply`
/// as for a schedule) and so must every AGV of the bundle; stores (or
/// replaces) the bundle.
pub open spec fn create_bundle_agv_spec(
    s: PalletState,
    origin: Origin,
    bundle_id: u32,
    info: BundleAssetGeneratingVCUContent,
    token_supply: Option<Balance>,
) -> (DispatchResult, PalletState) {
    if !authorizes(s, origin) {
        (Err(module_err(Error::NotAuthorised)), s)
    } else if token_supply is None {
        (Err(module_err(Error::AssetDoesNotExist)), s)
    } else if exists|i: int|
        0 <= i < info.bundle@.len() && !s.assets_generating_vcu.contains_key(
            agv_key(#[trigger] info.bundle@[i].account_id, info.bundle@[i].id),
        ) {
        (Err(module_err(Error::AssetGeneratingVCUNotFound)), s)
    } else {
        (
            Ok(()),
            with_event(
                PalletState { bundles: s.bundles.insert(bundle_id, info), ..s },
                Event::AddedBundleAssetsGeneratingVCU(bundle_id),
            ),
        )
    }
}

/// destroy_bundle_agv: root only (any other origin is refused with
/// `NotAuthorised`); the bundle must exist.
pub open spec fn destroy_bundle_agv_spec(s: PalletState, origin: Origin, bundle_id: u32) -> (
    DispatchResult,
    PalletState,
) {
    if origin != Origin::Root {
        (Err(module_err(Error::NotAuthorised)), s)
    } else if !s.bundles.contains_key(bundle_id) {
        (Err(module_err(Error::BundleDoesNotExist)), s)
    } else {
        (
            Ok(()),
            with_event(
                PalletState { bundles: s.bundles.remove(bundle_id), ..s },
                Event::DestroyedBundleAssetsGeneratingVCU(bundle_id),
            ),
        )
    }
}

/// A call that changes the pallet's storage, with its arguments. The ends of
/// the three mintings and retirements that the runtime carries out stand as
/// calls of their own.
pub enum Call {
    AddAuthorizedAccount { origin: Origin, account_id: AccountId, description: Vec<u8> },
    DestroyAuthorizedAccount { origin: Origin, account_id: AccountId },
    CreateAssetGeneratingVcu {
        origin: Origin,
        agv_account_id: AccountId,
        agv_id: u32,
        content: AssetGeneratingVCUContent,
    },
    DestroyAssetGeneratingVcu { origin: Origin, agv_account_id: AccountId, agv_id: u32 },
    MintShares {
        origin: Origin,
        recipient: AccountId,
        agv_account: AccountId,
        agv_id: u32,
        number_of_shares: u32,
    },
    BurnShares {
        origin: Origin,
        recipient: AccountId,
        agv_account: AccountId,
        agv_id: u32,
        number_of_shares: u32,
    },
    TransferShares {
        origin: Origin,
        recipient: AccountId,
        agv_account: AccountId,
        agv_id: u32,
        number_of_shares: u32,
    },
    ForceTransferShares {
        origin: Origin,
        sender: AccountId,
        recipient: AccountId,
        agv_account: AccountId,
        agv_id: u32,
        number_of_shares: u32,
    },
    CreateSchedule {
        origin: Origin,
        agv_account_id: AccountId,
        agv_id: u32,
        period_days: u64,
        amount_vcu: Balance,
        token_id: u32,
        token_supply: Option<Balance>,
    },
    DestroySchedule { origin: Origin, agv_account_id: AccountId, agv_id: u32 },
    CompleteScheduledMint { req: MintRequest, now: u64 },
    CompleteRetireVcu { req: RetireRequest },
    CreateOracle {
        origin: Origin,
        agv_account_id: AccountId,
        agv_id: u32,
        oracle_account_id: AccountId,
        token_id: u32,
    },
    DestroyOracle { origin: Origin, agv_account_id: AccountId, agv_id: u32 },
    CompleteOracleMint { req: MintRequest },
    CreateBundle {
        origin: Origin,
        bundle_id: u32,
        info: BundleAssetGeneratingVCUContent,
        token_supply: Option<Balance>,
    },
    DestroyBundle { origin: Origin, bundle_id: u32 },
}

/// What a call does to the storage, and its result.
pub open spec fn step(s: PalletState, call: Call) -> (DispatchResult, PalletState) {
    match call {
        Call::AddAuthorizedAccount { origin, account_id, description } => add_authorized_account_spec(
            s,
            origin,
            account_id,
            description,
        ),
        Call::DestroyAuthorizedAccount { origin, account_id } => destroy_authorized_account_spec(
            s,
            origin,
            account_id,
        ),
        Call::CreateAssetGeneratingVcu { origin, agv_account_id, agv_id, content } =>
            create_asset_generating_vcu_spec(s, origin, agv_account_id, agv_id, content),
        Call::DestroyAssetGeneratingVcu { origin, agv_account_id, agv_id } =>
            destroy_asset_generating_vcu_spec(s, origin, agv_account_id, agv_id),
        Call::MintShares { origin, recipient, agv_account, agv_id, number_of_shares } =>
            mint_shares_spec(s, origin, recipient, agv_account, agv_id, number_of_shares),
        Call::BurnShares { origin, recipient, agv_account, agv_id, number_of_shares } =>
            burn_shares_spec(s, origin, recipient, agv_account, agv_id, number_of_shares),
        Call::TransferShares { origin, recipient, agv_account, agv_id, number_of_shares } =>
            transfer_shares_spec(s, origin, recipient, agv_account, agv_id, number_of_shares),
        Call::ForceTransferShares {
            origin,
            sender,
            recipient,
            agv_account,
            agv_id,
            number_of_shares,
        } => forcetransfer_shares_spec(
            s,
            origin,
            sender,
            recipient,
            agv_account,
            agv_id,
            number_of_shares,
        ),
        Call::CreateSchedule {
            origin,
            agv_account_id,
            agv_id,
            period_days,
            amount_vcu,
            token_id,
            token_supply,
        } => create_schedule_spec(
            s,
            origin,
            agv_account_id,
            agv_id,
            period_days,
            amount_vcu,
            token_id,
            token_supply,
        ),
        Call::DestroySchedule { origin, agv_account_id, agv_id } => destroy_schedule_spec(
            s,
            origin,
            agv_account_id,
            agv_id,
        ),
        Call::CompleteScheduledMint { req, now } => (
            Ok(()),
            complete_scheduled_mint_spec(s, req, now),
        ),
        Call::CompleteRetireVcu { req } => complete_retire_vcu_spec(s, req),
        Call::CreateOracle { origin, agv_account_id, agv_id, oracle_account_id, token_id } =>
            create_oracle_spec(s, origin, agv_account_id, agv_id, oracle_account_id, token_id),
        Call::DestroyOracle { origin, agv_account_id, agv_id } => destroy_oracle_spec(
            s,
            origin,
            agv_account_id,
            agv_id,
        ),
        Call::CompleteOracleMint { req } => (Ok(()), complete_oracle_mint_spec(s, req)),
        Call::CreateBundle { origin, bundle_id, info, token_supply } => create_bundle_agv_spec(
            s,
            origin,
            bundle_id,
            info,
            token_supply,
        ),
        Call::DestroyBundle { origin, bundle_id } => destroy_bundle_agv_spec(s, origin, bundle_id),
    }
}

/// The storage after the calls `calls`, made in turn.
pub open spec fn run(s: PalletState, calls: Seq<Call>) -> PalletState
    decreases calls.len(),
{
    if calls.len() == 0 {
        s
    } else {
        run(step(s, calls[0]).1, calls.drop_first())
    }
}


/// The bound of holders' shares reads only the shares and the minted totals.
pub proof fn lemma_shares_frame(a: PalletState, b: PalletState)
    requires
        shares_within_total(a),
        a.shares == b.shares,
        a.shares_minted_total == b.shares_minted_total,
    ensures
        shares_within_total(b),
{
    assert forall|agv: AccountKey| #[trigger]
        share_sum(holders(b.shares, agv)) <= u32_at(b.shares_minted_total, agv) by {
        assert(share_sum(holders(a.shares, agv)) <= u32_at(a.shares_minted_total, agv));
    }
}

/// The invariants read only the shares, the minted totals, the schedules and
/// the oracles' tokens.
pub proof fn lemma_state_wf_frame(a: PalletState, b: PalletState)
    requires
        state_wf(a),
        a.shares == b.shares,
        a.shares_minted_total == b.shares_minted_total,
        a.schedules == b.schedules,
        a.oracle_tokens == b.oracle_tokens,
    ensures
        state_wf(b),
{
    lemma_shares_frame(a, b);
}

// ---------------------------------------------------------------------------
// Facts about the holders of an AGV.
/// Appending an entry adds its holder to the end of its AGV's holders.
pub proof fn lemma_holders_push(entries: Seq<(ShareKey, u32)>, k: ShareKey, v: u32, agv: AccountKey)
    ensures
        holders(entries.push((k, v)), agv) == (if belongs(k, agv) {
            holders(entries, agv).push((k.holder, v))
        } else {
            holders(entries, agv)
        }),
{
    assert(entries.push((k, v)).drop_last() =~= entries);
}

/// The shares of a sequence of holders grow by an appended holder's shares.
pub proof fn lemma_share_sum_push(h: Seq<(AccountId, u32)>, x: (AccountId, u32))
    ensures
        share_sum(h.push(x)) == share_sum(h) + x.1,
{
    assert(h.push(x).drop_last() =~= h);
}

/// Rewriting the value at position `i` changes the shares of its AGV by the
/// difference, and no other AGV's.
pub proof fn lemma_holders_update(entries: Seq<(ShareKey, u32)>, i: int, v: u32, agv: AccountKey)
    requires
        0 <= i < entries.len(),
    ensures
        share_sum(holders(entries.update(i, (entries[i].0, v)), agv)) == share_sum(
            holders(entries, agv),
        ) + (if belongs(entries[i].0, agv) {
            v - entries[i].1
        } else {
            0
        }),
        holders(entries.update(i, (entries[i].0, v)), agv).len() == holders(entries, agv).len(),
    decreases entries.len(),
{
    let t = entries.update(i, (entries[i].0, v));
    let n = entries.len() - 1;
    if i == n {
        assert(t.drop_last() =~= entries.drop_last());
        let prev = holders(entries.drop_last(), agv);
        if belongs(entries[i].0, agv) {
            lemma_share_sum_push(prev, (entries[i].0.holder, v));
            lemma_share_sum_push(prev, (entries[i].0.holder, entries[i].1));
        }
    } else {
        assert(t.drop_last() =~= entries.drop_last().update(i, (entries[i].0, v)));
        lemma_holders_update(entries.drop_last(), i, v, agv);
        let e = entries.last();
        if belongs(e.0, agv) {
            lemma_share_sum_push(holders(entries.drop_last(), agv), (e.0.holder, e.1));
            lemma_share_sum_push(holders(t.drop_last(), agv), (e.0.holder, e.1));
        }
    }
}

/// Writing `v` under `k` changes the shares of `k`'s AGV by the difference
/// from what `k` held (0 where it held nothing), and no other AGV's.
pub proof fn lemma_holders_write(entries: Seq<(ShareKey, u32)>, k: ShareKey, v: u32, agv: AccountKey)
    requires
        keys_unique(entries),
    ensures
        keys_unique(seq_write(entries, k, v)),
        entries_map(seq_write(entries, k, v)) == entries_map(entries).insert(k, v),
        share_sum(holders(seq_write(entries, k, v), agv)) == share_sum(holders(entries, agv)) + (
        if belongs(k, agv) {
            v - u32_at(entries_map(entries), k)
        } else {
            0
        }),
{
    if has_key(entries, k) {
        let i = position_of(entries, k);
        lemma_entry_at(entries, i);
        crate::store::lemma_update_entry(entries, i, v);
        lemma_holders_update(entries, i, v, agv);
    } else {
        crate::store::lemma_push_entry(entries, k, v);
        lemma_holders_push(entries, k, v, agv);
        if belongs(k, agv) {
            lemma_share_sum_push(holders(entries, agv), (k.holder, v));
        }
    }
}

} // verus!
