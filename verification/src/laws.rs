//! What holds of the pallet across calls.
use vstd::prelude::*;

use crate::distribution::{payout_sum, payouts_add_up_to_amount, share_sum};
use crate::key_order::{lemma_storage_order, storage_order};
use crate::key_order::storage_order_is_permutation;
use crate::model::{
    add_authorized_account_spec, agv_key, authorizes, burn_shares_spec, complete_retire_vcu_spec,
    complete_scheduled_mint_spec, create_asset_generating_vcu_spec, create_bundle_agv_spec,
    create_oracle_spec, create_schedule_spec, destroy_asset_generating_vcu_spec,
    destroy_authorized_account_spec, destroy_bundle_agv_spec, destroy_oracle_spec,
    destroy_schedule_spec, holders, lemma_holders_write, mint_payouts_spec, mint_scheduled_vcu_spec,
    mint_shares_spec, mint_vcu_from_oracle_spec, module_err, retire_vcu_spec, run, schedule_period, seq_write,
    share_at, share_key, shares_map, state_wf, step, transfer_shares_spec, u128_at, u32_at, Call,
    PalletState,
};
use crate::types::{
    AccountId, AccountKey, AssetGeneratingVCUContent, AssetsGeneratingVCUScheduleContent, Balance,
    BundleAssetGeneratingVCUContent, DispatchError, Error, Event, MintRequest, Origin, RetireRequest,
    LAST_RESERVED_TOKEN_ID,
};

verus! {

/// In every state of the pallet (every call keeps `Pallet::wf`), no AGV
/// has more shares in the hands of its holders than the total minted for it.
pub proof fn holders_stay_within_minted_total(s: PalletState, agv: AccountKey)
    requires
        state_wf(s),
    ensures
        share_sum(holders(s.shares, agv)) <= u32_at(s.shares_minted_total, agv),
{
}

/// In every state of the pallet, no schedule and no oracle uses a token id
/// reserved for the bridge (up to and including 10000).
pub proof fn reserved_token_ids_stay_unused(s: PalletState, agv: AccountKey)
    requires
        state_wf(s),
    ensures
        s.schedules.contains_key(agv) ==> s.schedules[agv].token_id > LAST_RESERVED_TOKEN_ID,
        s.oracle_tokens.contains_key(agv) ==> s.oracle_tokens[agv] > LAST_RESERVED_TOKEN_ID,
{
}

/// The call revokes the authorization of `account_id`.
pub open spec fn revokes(call: Call, account_id: AccountId) -> bool {
    call matches Call::DestroyAuthorizedAccount { account_id: a, .. } && a == account_id
}

/// No call but the destruction of an authorized account takes an
/// authorization away.
pub proof fn step_keeps_authorization(s: PalletState, call: Call, account_id: AccountId)
    requires
        authorizes(s, Origin::Signed(account_id)),
        !revokes(call, account_id),
    ensures
        authorizes(step(s, call).1, Origin::Signed(account_id)),
{
}

/// An authorized account stays authorized through any calls among which
/// none destroys it.
pub proof fn authorization_persists(s: PalletState, calls: Seq<Call>, account_id: AccountId)
    requires
        authorizes(s, Origin::Signed(account_id)),
        forall|i: int| 0 <= i < calls.len() ==> !revokes(#[trigger] calls[i], account_id),
    ensures
        authorizes(run(s, calls), Origin::Signed(account_id)),
    decreases calls.len(),
{
    if calls.len() > 0 {
        step_keeps_authorization(s, calls[0], account_id);
        let rest = calls.drop_first();
        assert forall|i: int| 0 <= i < rest.len() implies !revokes(#[trigger] rest[i], account_id) by {
            assert(rest[i] == calls[i + 1]);
        }
        authorization_persists(step(s, calls[0]).1, rest, account_id);
    }
}

/// An account added by the root is accepted as an authorized signer by
/// every call that follows, until it is destroyed.
pub proof fn added_account_is_authorized(
    s: PalletState,
    account_id: AccountId,
    description: Vec<u8>,
    calls: Seq<Call>,
)
    requires
        add_authorized_account_spec(s, Origin::Root, account_id, description).0 is Ok,
        forall|i: int| 0 <= i < calls.len() ==> !revokes(#[trigger] calls[i], account_id),
    ensures
        authorizes(
            run(add_authorized_account_spec(s, Origin::Root, account_id, description).1, calls),
            Origin::Signed(account_id),
        ),
{
    authorization_persists(
        add_authorized_account_spec(s, Origin::Root, account_id, description).1,
        calls,
        account_id,
    );
}

/// Destroying an account just added (that was not authorized before)
/// succeeds, gives the authorized accounts back as they were, and revokes
/// the account's authorization.
pub proof fn destroy_undoes_add(s: PalletState, account_id: AccountId, description: Vec<u8>)
    requires
        !s.authorized_accounts_agv.contains_key(account_id),
        add_authorized_account_spec(s, Origin::Root, account_id, description).0 is Ok,
    ensures
        ({
            let t = add_authorized_account_spec(s, Origin::Root, account_id, description).1;
            let d = destroy_authorized_account_spec(t, Origin::Root, account_id);
            &&& d.0 is Ok
            &&& d.1.authorized_accounts_agv == s.authorized_accounts_agv
            &&& !authorizes(d.1, Origin::Signed(account_id))
        }),
{
    let t = add_authorized_account_spec(s, Origin::Root, account_id, description).1;
    assert(t.authorized_accounts_agv.remove(account_id) =~= s.authorized_accounts_agv);
}

/// A successful minting adds the shares to the recipient and never takes
/// the AGV's minted count or minted total above the AGV's number of shares.
pub proof fn minting_stays_within_number_of_shares(
    s: PalletState,
    origin: Origin,
    recipient: AccountId,
    agv_account: AccountId,
    agv_id: u32,
    number_of_shares: u32,
)
    requires
        state_wf(s),
        mint_shares_spec(s, origin, recipient, agv_account, agv_id, number_of_shares).0 is Ok,
    ensures
        ({
            let t = mint_shares_spec(s, origin, recipient, agv_account, agv_id, number_of_shares).1;
            let k = agv_key(agv_account, agv_id);
            let sk = share_key(agv_account, agv_id, recipient);
            &&& u32_at(t.shares_minted, k) <= s.assets_generating_vcu[k].number_of_shares
            &&& u32_at(t.shares_minted_total, k) <= s.assets_generating_vcu[k].number_of_shares
            &&& share_at(t, sk) == share_at(s, sk) + number_of_shares
        }),
{
    let sk = share_key(agv_account, agv_id, recipient);
    lemma_holders_write(s.shares, sk, (share_at(s, sk) + number_of_shares) as u32, agv_key(agv_account, agv_id));
}

/// Burning from a recipient the shares just minted to it (where the AGV had
/// minted shares before) succeeds and gives the recipient's shares and the
/// AGV's minted count their values from before the minting; the minted
/// total keeps the minting.
pub proof fn burn_undoes_mint(
    s: PalletState,
    origin: Origin,
    recipient: AccountId,
    agv_account: AccountId,
    agv_id: u32,
    number_of_shares: u32,
)
    requires
        state_wf(s),
        mint_shares_spec(s, origin, recipient, agv_account, agv_id, number_of_shares).0 is Ok,
        u32_at(s.shares_minted, agv_key(agv_account, agv_id)) > 0,
    ensures
        ({
            let t = mint_shares_spec(s, origin, recipient, agv_account, agv_id, number_of_shares).1;
            let b = burn_shares_spec(t, origin, recipient, agv_account, agv_id, number_of_shares);
            let k = agv_key(agv_account, agv_id);
            let sk = share_key(agv_account, agv_id, recipient);
            &&& b.0 is Ok
            &&& share_at(b.1, sk) == share_at(s, sk)
            &&& u32_at(b.1.shares_minted, k) == u32_at(s.shares_minted, k)
            &&& u32_at(b.1.shares_minted_total, k) == u32_at(s.shares_minted_total, k) + number_of_shares
        }),
{
    let k = agv_key(agv_account, agv_id);
    let sk = share_key(agv_account, agv_id, recipient);
    let held = (share_at(s, sk) + number_of_shares) as u32;
    lemma_holders_write(s.shares, sk, held, k);
    let t = mint_shares_spec(s, origin, recipient, agv_account, agv_id, number_of_shares).1;
    assert(shares_map(t).contains_key(sk));
    lemma_holders_write(t.shares, sk, share_at(s, sk), k);
}

/// A successful transfer moves the shares from the sender to the recipient
/// and keeps the total of every AGV's holders' shares.
pub proof fn transfer_keeps_total_shares(
    s: PalletState,
    sender: AccountId,
    recipient: AccountId,
    agv_account: AccountId,
    agv_id: u32,
    number_of_shares: u32,
    agv: AccountKey,
)
    requires
        state_wf(s),
        transfer_shares_spec(s, Origin::Signed(sender), recipient, agv_account, agv_id, number_of_shares).0 is Ok,
    ensures
        ({
            let t = transfer_shares_spec(s, Origin::Signed(sender), recipient, agv_account, agv_id, number_of_shares).1;
            let from = share_key(agv_account, agv_id, sender);
            let to = share_key(agv_account, agv_id, recipient);
            &&& share_sum(holders(t.shares, agv)) == share_sum(holders(s.shares, agv))
            &&& sender != recipient ==> share_at(t, from) == share_at(s, from) - number_of_shares
            &&& sender != recipient ==> share_at(t, to) == share_at(s, to) + number_of_shares
            &&& sender == recipient ==> share_at(t, from) == share_at(s, from)
        }),
{
    let from = share_key(agv_account, agv_id, sender);
    let to = share_key(agv_account, agv_id, recipient);
    let v1 = (shares_map(s)[from] - number_of_shares) as u32;
    lemma_holders_write(s.shares, from, v1, agv);
    let s1 = PalletState { shares: seq_write(s.shares, from, v1), ..s };
    let v2 = (share_at(s1, to) + number_of_shares) as u32;
    lemma_holders_write(s1.shares, to, v2, agv);
}

/// The first scheduled minting of an AGV is granted at any time (to an
/// authorized origin, with a schedule whose token is not reserved).
pub proof fn first_scheduled_mint_any_time(
    s: PalletState,
    origin: Origin,
    agv_account_id: AccountId,
    agv_id: u32,
    now: u64,
)
    requires
        authorizes(s, origin),
        s.schedules.contains_key(agv_key(agv_account_id, agv_id)),
        s.schedules[agv_key(agv_account_id, agv_id)].token_id > LAST_RESERVED_TOKEN_ID,
        !s.generated.contains_key(agv_key(agv_account_id, agv_id)),
    ensures
        mint_scheduled_vcu_spec(s, origin, agv_account_id, agv_id, now) is Ok,
{
}

/// Once a scheduled minting at `now` is recorded, another at `later` is
/// granted exactly when a whole period has passed: `later >= now + period`.
pub proof fn scheduled_mint_waits_for_period(
    s: PalletState,
    origin: Origin,
    agv_account_id: AccountId,
    agv_id: u32,
    now: u64,
    later: u64,
)
    requires
        mint_scheduled_vcu_spec(s, origin, agv_account_id, agv_id, now) is Ok,
    ensures
        ({
            let req = mint_scheduled_vcu_spec(s, origin, agv_account_id, agv_id, now)->Ok_0;
            let t = complete_scheduled_mint_spec(s, req, now);
            let period = schedule_period(s.schedules[agv_key(agv_account_id, agv_id)]);
            &&& t.generated[agv_key(agv_account_id, agv_id)].timestamp == now
            &&& t.generated[agv_key(agv_account_id, agv_id)].amount_vcu == s.schedules[agv_key(
                agv_account_id,
                agv_id,
            )].amount_vcu
            &&& (mint_scheduled_vcu_spec(t, origin, agv_account_id, agv_id, later) is Ok <==> later
                >= now + period)
        }),
{
}

/// What a minting pays out to an AGV with holders adds up to exactly the
/// amount granted.
pub proof fn minted_payouts_add_up(s: PalletState, req: MintRequest)
    requires
        state_wf(s),
        mint_payouts_spec(s, req) is Ok,
        holders(s.shares, agv_key(req.agv_account_id, req.agv_id)).len() > 0,
        u32_at(s.shares_minted_total, agv_key(req.agv_account_id, req.agv_id)) > 0,
    ensures
        payout_sum(mint_payouts_spec(s, req)->Ok_0) == req.amount_vcu,
{
    let k = agv_key(req.agv_account_id, req.agv_id);
    assert(share_sum(holders(s.shares, k)) <= u32_at(s.shares_minted_total, k));
    lemma_storage_order(holders(s.shares, k));
    payouts_add_up_to_amount(
        req.amount_vcu,
        s.shares_minted_total[k] as u128,
        storage_order(holders(s.shares, k)),
    );
}

/// A completed retirement adds the amount to the AGV's and the token's
/// retired totals, and counts one retirement for the sender and token
/// (where the count has room for it).
pub proof fn retirement_adds_up(s: PalletState, req: RetireRequest)
    requires
        complete_retire_vcu_spec(s, req).0 is Ok,
    ensures
        ({
            let t = complete_retire_vcu_spec(s, req).1;
            &&& u32_at(s.burned_counter, agv_key(req.sender, req.token_id)) < u32::MAX ==> u32_at(
                t.burned_counter,
                agv_key(req.sender, req.token_id),
            ) == u32_at(s.burned_counter, agv_key(req.sender, req.token_id)) + 1
            &&& u128_at(t.vcus_burned_accounts, agv_key(req.agv_account_id, req.agv_id))
                == u128_at(s.vcus_burned_accounts, agv_key(req.agv_account_id, req.agv_id))
                + req.amount
            &&& u128_at(t.vcus_burned, req.token_id) == u128_at(s.vcus_burned, req.token_id)
                + req.amount
        }),
{
}

/// No call lowers a retired total, of an AGV or of a token.
pub proof fn step_keeps_retired_totals(s: PalletState, call: Call, agv: AccountKey, token_id: u32)
    ensures
        u128_at(step(s, call).1.vcus_burned_accounts, agv) >= u128_at(s.vcus_burned_accounts, agv),
        u128_at(step(s, call).1.vcus_burned, token_id) >= u128_at(s.vcus_burned, token_id),
{
}

/// Retired totals never decrease, whatever calls are made.
pub proof fn retired_totals_never_decrease(
    s: PalletState,
    calls: Seq<Call>,
    agv: AccountKey,
    token_id: u32,
)
    ensures
        u128_at(run(s, calls).vcus_burned_accounts, agv) >= u128_at(s.vcus_burned_accounts, agv),
        u128_at(run(s, calls).vcus_burned, token_id) >= u128_at(s.vcus_burned, token_id),
    decreases calls.len(),
{
    if calls.len() > 0 {
        step_keeps_retired_totals(s, calls[0], agv, token_id);
        retired_totals_never_decrease(step(s, calls[0]).1, calls.drop_first(), agv, token_id);
    }
}

/// Adding an authorized account succeeds exactly for the root with a
/// description longer than 4 bytes; it then gives that account the
/// description given (adding or replacing it) and touches no other account.
/// A refusal changes nothing.
pub proof fn add_authorized_account_stores_description(
    s: PalletState,
    origin: Origin,
    account_id: AccountId,
    description: Vec<u8>,
)
    ensures
        ({
            let res = add_authorized_account_spec(s, origin, account_id, description);
            let t = res.1;
            &&& (res.0 is Ok <==> origin == Origin::Root && description.len() > 4)
            &&& res.0 is Ok ==> t.authorized_accounts_agv.contains_key(account_id)
                && t.authorized_accounts_agv[account_id] == description
            &&& res.0 is Ok ==> forall|a: AccountId|
                a != account_id ==> (#[trigger] t.authorized_accounts_agv.contains_key(a)
                    == s.authorized_accounts_agv.contains_key(a)) && (
                s.authorized_accounts_agv.contains_key(a) ==> t.authorized_accounts_agv[a]
                    == s.authorized_accounts_agv[a])
            &&& res.0 is Err ==> t == s
        }),
{
}

/// Destroying an authorized account succeeds exactly for the root, and then
/// the account is no longer authorized while every other account keeps its
/// description.
pub proof fn destroy_authorized_account_removes_it(s: PalletState, origin: Origin, account_id: AccountId)
    ensures
        ({
            let res = destroy_authorized_account_spec(s, origin, account_id);
            let t = res.1;
            &&& (res.0 is Ok <==> origin == Origin::Root)
            &&& res.0 is Ok ==> !authorizes(t, Origin::Signed(account_id))
            &&& res.0 is Ok ==> forall|a: AccountId|
                a != account_id ==> (#[trigger] t.authorized_accounts_agv.contains_key(a)
                    == s.authorized_accounts_agv.contains_key(a)) && (
                s.authorized_accounts_agv.contains_key(a) ==> t.authorized_accounts_agv[a]
                    == s.authorized_accounts_agv[a])
            &&& res.0 is Err ==> t == s
        }),
{
}

/// Creating an AGV succeeds exactly for an authorized origin and a non-zero
/// number of shares; the AGV then holds the content given (new or
/// replaced), so later mintings are capped by the new number of shares.
pub proof fn create_asset_generating_vcu_stores_content(
    s: PalletState,
    origin: Origin,
    agv_account_id: AccountId,
    agv_id: u32,
    content: AssetGeneratingVCUContent,
    recipient: AccountId,
    number_of_shares: u32,
)
    ensures
        ({
            let res = create_asset_generating_vcu_spec(s, origin, agv_account_id, agv_id, content);
            let t = res.1;
            let k = agv_key(agv_account_id, agv_id);
            &&& (res.0 is Ok <==> authorizes(s, origin) && content.number_of_shares > 0)
            &&& res.0 is Ok ==> t.assets_generating_vcu.contains_key(k)
                && t.assets_generating_vcu[k] == content
            &&& res.0 is Ok ==> forall|o: AccountKey|
                o != k ==> (#[trigger] t.assets_generating_vcu.contains_key(o)
                    == s.assets_generating_vcu.contains_key(o)) && (s.assets_generating_vcu.contains_key(
                    o,
                ) ==> t.assets_generating_vcu[o] == s.assets_generating_vcu[o])
            &&& res.0 is Ok && mint_shares_spec(
                t,
                origin,
                recipient,
                agv_account_id,
                agv_id,
                number_of_shares,
            ).0 is Ok ==> u32_at(
                mint_shares_spec(t, origin, recipient, agv_account_id, agv_id, number_of_shares).1.shares_minted,
                k,
            ) <= content.number_of_shares
            &&& res.0 is Err ==> t == s
        }),
{
}

/// Destroying an AGV succeeds exactly for an authorized origin and an
/// existing AGV, and then the AGV is gone while every other stays.
pub proof fn destroy_asset_generating_vcu_removes_it(
    s: PalletState,
    origin: Origin,
    agv_account_id: AccountId,
    agv_id: u32,
)
    ensures
        ({
            let res = destroy_asset_generating_vcu_spec(s, origin, agv_account_id, agv_id);
            let t = res.1;
            let k = agv_key(agv_account_id, agv_id);
            &&& (res.0 is Ok <==> authorizes(s, origin) && s.assets_generating_vcu.contains_key(k))
            &&& res.0 is Ok ==> !t.assets_generating_vcu.contains_key(k)
            &&& res.0 is Ok ==> forall|o: AccountKey|
                o != k ==> (#[trigger] t.assets_generating_vcu.contains_key(o)
                    == s.assets_generating_vcu.contains_key(o)) && (s.assets_generating_vcu.contains_key(
                    o,
                ) ==> t.assets_generating_vcu[o] == s.assets_generating_vcu[o])
            &&& res.0 is Err ==> t == s
        }),
{
}

/// A successful minting adds the shares to the AGV's minted count, to its
/// minted total and to the recipient, and to no other holder.
pub proof fn minting_adds_the_shares(
    s: PalletState,
    origin: Origin,
    recipient: AccountId,
    agv_account: AccountId,
    agv_id: u32,
    number_of_shares: u32,
    other: AccountId,
)
    requires
        state_wf(s),
        mint_shares_spec(s, origin, recipient, agv_account, agv_id, number_of_shares).0 is Ok,
        other != recipient,
    ensures
        ({
            let t = mint_shares_spec(s, origin, recipient, agv_account, agv_id, number_of_shares).1;
            let k = agv_key(agv_account, agv_id);
            &&& u32_at(t.shares_minted, k) == u32_at(s.shares_minted, k) + number_of_shares
            &&& u32_at(t.shares_minted_total, k) == u32_at(s.shares_minted_total, k) + number_of_shares
            &&& share_at(t, share_key(agv_account, agv_id, recipient)) == share_at(
                s,
                share_key(agv_account, agv_id, recipient),
            ) + number_of_shares
            &&& share_at(t, share_key(agv_account, agv_id, other)) == share_at(
                s,
                share_key(agv_account, agv_id, other),
            )
        }),
{
    let sk = share_key(agv_account, agv_id, recipient);
    lemma_holders_write(s.shares, sk, (share_at(s, sk) + number_of_shares) as u32, agv_key(agv_account, agv_id));
}

/// A successful burn takes the shares from the recipient and from the AGV's
/// minted count, which stays above 0; no other holder is touched.
pub proof fn burning_takes_the_shares(
    s: PalletState,
    origin: Origin,
    recipient: AccountId,
    agv_account: AccountId,
    agv_id: u32,
    number_of_shares: u32,
    other: AccountId,
)
    requires
        state_wf(s),
        burn_shares_spec(s, origin, recipient, agv_account, agv_id, number_of_shares).0 is Ok,
        other != recipient,
    ensures
        ({
            let t = burn_shares_spec(s, origin, recipient, agv_account, agv_id, number_of_shares).1;
            let k = agv_key(agv_account, agv_id);
            &&& u32_at(t.shares_minted, k) == u32_at(s.shares_minted, k) - number_of_shares
            &&& u32_at(t.shares_minted, k) > 0
            &&& u32_at(t.shares_minted_total, k) == u32_at(s.shares_minted_total, k)
            &&& share_at(t, share_key(agv_account, agv_id, recipient)) == share_at(
                s,
                share_key(agv_account, agv_id, recipient),
            ) - number_of_shares
            &&& share_at(t, share_key(agv_account, agv_id, other)) == share_at(
                s,
                share_key(agv_account, agv_id, other),
            )
        }),
{
    let sk = share_key(agv_account, agv_id, recipient);
    lemma_holders_write(s.shares, sk, (shares_map(s)[sk] - number_of_shares) as u32, agv_key(agv_account, agv_id));
}

/// Creating a schedule succeeds exactly for an authorized origin, an
/// existing AGV without a schedule, a non-zero amount and period, and an
/// existing, unreserved token; the AGV then has exactly that schedule.
pub proof fn create_schedule_stores_it(
    s: PalletState,
    origin: Origin,
    agv_account_id: AccountId,
    agv_id: u32,
    period_days: u64,
    amount_vcu: Balance,
    token_id: u32,
    token_supply: Option<Balance>,
)
    ensures
        ({
            let res = create_schedule_spec(
                s,
                origin,
                agv_account_id,
                agv_id,
                period_days,
                amount_vcu,
                token_id,
                token_supply,
            );
            let t = res.1;
            let k = agv_key(agv_account_id, agv_id);
            &&& (res.0 is Ok <==> authorizes(s, origin) && s.assets_generating_vcu.contains_key(k)
                && amount_vcu > 0 && period_days > 0 && !s.schedules.contains_key(k)
                && token_supply is Some && token_id > LAST_RESERVED_TOKEN_ID)
            &&& res.0 is Ok ==> t.schedules.contains_key(k) && t.schedules[k]
                == AssetsGeneratingVCUScheduleContent { period_days, amount_vcu, token_id }
            &&& res.0 is Ok ==> forall|o: AccountKey|
                o != k ==> (#[trigger] t.schedules.contains_key(o) == s.schedules.contains_key(o)) && (
                s.schedules.contains_key(o) ==> t.schedules[o] == s.schedules[o])
            &&& res.0 is Err ==> t == s
        }),
{
}

/// Destroying a schedule succeeds exactly for an authorized origin and an
/// existing schedule, which is then gone.
pub proof fn destroy_schedule_removes_it(
    s: PalletState,
    origin: Origin,
    agv_account_id: AccountId,
    agv_id: u32,
)
    ensures
        ({
            let res = destroy_schedule_spec(s, origin, agv_account_id, agv_id);
            let t = res.1;
            let k = agv_key(agv_account_id, agv_id);
            &&& (res.0 is Ok <==> authorizes(s, origin) && s.schedules.contains_key(k))
            &&& res.0 is Ok ==> !t.schedules.contains_key(k)
            &&& res.0 is Ok ==> forall|o: AccountKey|
                o != k ==> (#[trigger] t.schedules.contains_key(o) == s.schedules.contains_key(o)) && (
                s.schedules.contains_key(o) ==> t.schedules[o] == s.schedules[o])
            &&& res.0 is Err ==> t == s
        }),
{
}

/// Creating an oracle succeeds exactly for an authorized origin, an existing
/// AGV and an unreserved token; the AGV's oracle and token are then the ones
/// given (new or replaced): the new oracle is granted its mintings in that
/// token, and any other signer is refused.
pub proof fn create_oracle_sets_the_oracle(
    s: PalletState,
    origin: Origin,
    agv_account_id: AccountId,
    agv_id: u32,
    oracle_account_id: AccountId,
    token_id: u32,
    signer: AccountId,
    amount_vcu: Balance,
)
    ensures
        ({
            let res = create_oracle_spec(s, origin, agv_account_id, agv_id, oracle_account_id, token_id);
            let t = res.1;
            let k = agv_key(agv_account_id, agv_id);
            &&& (res.0 is Ok <==> authorizes(s, origin) && s.assets_generating_vcu.contains_key(k)
                && token_id > LAST_RESERVED_TOKEN_ID)
            &&& res.0 is Ok ==> t.oracle_accounts.contains_key(k) && t.oracle_accounts[k]
                == oracle_account_id && t.oracle_tokens.contains_key(k) && t.oracle_tokens[k]
                == token_id
            &&& res.0 is Ok ==> mint_vcu_from_oracle_spec(
                t,
                Origin::Signed(oracle_account_id),
                agv_account_id,
                agv_id,
                amount_vcu,
            ) == Ok::<MintRequest, DispatchError>(
                MintRequest {
                    agv_account_id,
                    agv_id,
                    token_id,
                    token_owner: oracle_account_id,
                    minter: agv_account_id,
                    amount_vcu,
                },
            )
            &&& res.0 is Ok && signer != oracle_account_id ==> mint_vcu_from_oracle_spec(
                t,
                Origin::Signed(signer),
                agv_account_id,
                agv_id,
                amount_vcu,
            ) == Err::<MintRequest, DispatchError>(module_err(Error::OracleAccountNotMatchingSigner))
            &&& res.0 is Err ==> t == s
        }),
{
}

/// Destroying an oracle succeeds exactly for an authorized origin and an
/// existing oracle; the AGV then has neither oracle nor oracle token, so no
/// one is granted an oracle minting for it.
pub proof fn destroy_oracle_removes_it(
    s: PalletState,
    origin: Origin,
    agv_account_id: AccountId,
    agv_id: u32,
    signer: AccountId,
    amount_vcu: Balance,
)
    ensures
        ({
            let res = destroy_oracle_spec(s, origin, agv_account_id, agv_id);
            let t = res.1;
            let k = agv_key(agv_account_id, agv_id);
            &&& (res.0 is Ok <==> authorizes(s, origin) && s.oracle_accounts.contains_key(k))
            &&& res.0 is Ok ==> !t.oracle_accounts.contains_key(k) && !t.oracle_tokens.contains_key(k)
            &&& res.0 is Ok ==> mint_vcu_from_oracle_spec(
                t,
                Origin::Signed(signer),
                agv_account_id,
                agv_id,
                amount_vcu,
            ) is Err
            &&& res.0 is Err ==> t == s
        }),
{
}

/// Creating a bundle succeeds exactly for an authorized origin, an existing
/// asset, and a bundle whose every AGV exists; the bundle id then holds the
/// bundle given (new or replaced).
pub proof fn create_bundle_needs_every_agv(
    s: PalletState,
    origin: Origin,
    bundle_id: u32,
    info: BundleAssetGeneratingVCUContent,
    token_supply: Option<Balance>,
)
    ensures
        ({
            let res = create_bundle_agv_spec(s, origin, bundle_id, info, token_supply);
            let t = res.1;
            &&& (res.0 is Ok <==> authorizes(s, origin) && token_supply is Some && forall|i: int|
                0 <= i < info.bundle@.len() ==> s.assets_generating_vcu.contains_key(
                    agv_key(#[trigger] info.bundle@[i].account_id, info.bundle@[i].id),
                ))
            &&& res.0 is Ok ==> forall|i: int|
                0 <= i < info.bundle@.len() ==> s.assets_generating_vcu.contains_key(
                    agv_key(#[trigger] info.bundle@[i].account_id, info.bundle@[i].id),
                )
            &&& res.0 is Ok ==> t.bundles.contains_key(bundle_id) && t.bundles[bundle_id] == info
            &&& res.0 is Err ==> t == s
        }),
{
}

/// Destroying a bundle succeeds exactly for the root and an existing
/// bundle, which is then gone.
pub proof fn destroy_bundle_removes_it(s: PalletState, origin: Origin, bundle_id: u32)
    ensures
        ({
            let res = destroy_bundle_agv_spec(s, origin, bundle_id);
            let t = res.1;
            &&& (res.0 is Ok <==> origin == Origin::Root && s.bundles.contains_key(bundle_id))
            &&& res.0 is Ok ==> !t.bundles.contains_key(bundle_id)
            &&& res.0 is Err ==> t == s
        }),
{
}

/// A minting pays each holder walked, in the walk's order, exactly once: the
/// payouts name the walked holders one to one, and every holder of the AGV
/// is among them.
pub proof fn minted_payouts_reach_every_holder(s: PalletState, req: MintRequest, holder: AccountId, held: u32)
    requires
        mint_payouts_spec(s, req) is Ok,
    ensures
        ({
            let p = mint_payouts_spec(s, req)->Ok_0;
            let walk = storage_order(holders(s.shares, agv_key(req.agv_account_id, req.agv_id)));
            &&& p.len() == walk.len()
            &&& forall|j: int| 0 <= j < walk.len() ==> #[trigger] p[j].0 == walk[j].0
            &&& holders(s.shares, agv_key(req.agv_account_id, req.agv_id)).contains((holder, held))
                ==> exists|j: int| 0 <= j < p.len() && #[trigger] p[j].0 == holder
        }),
{
    broadcast use vstd::seq_lib::group_to_multiset_ensures;

    let h = holders(s.shares, agv_key(req.agv_account_id, req.agv_id));
    let walk = storage_order(h);
    let p = mint_payouts_spec(s, req)->Ok_0;
    crate::distribution::payouts_name_the_holders(
        req.amount_vcu,
        s.shares_minted_total[agv_key(req.agv_account_id, req.agv_id)] as u128,
        walk,
    );
    if h.contains((holder, held)) {
        storage_order_is_permutation(h);
        assert(h.to_multiset().count((holder, held)) > 0);
        assert(walk.to_multiset().count((holder, held)) > 0);
        assert(walk.contains((holder, held)));
        let j = choose|j: int| 0 <= j < walk.len() && walk[j] == (holder, held);
        assert(p[j].0 == holder);
    }
}

/// The event that a successful call deposits.
pub open spec fn call_event(call: Call) -> Event {
    match call {
        Call::AddAuthorizedAccount { account_id, .. } => Event::AuthorizedAccountAdded(account_id),
        Call::DestroyAuthorizedAccount { account_id, .. } => Event::AuthorizedAccountsAGVDestroyed(
            account_id,
        ),
        Call::CreateAssetGeneratingVcu { agv_id, .. } => Event::AssetsGeneratingVCUCreated(agv_id),
        Call::DestroyAssetGeneratingVcu { agv_id, .. } => Event::AssetGeneratingVCUDestroyed(agv_id),
        Call::MintShares { agv_account, agv_id, .. } => Event::AssetsGeneratingVCUSharesMinted(
            agv_account,
            agv_id,
        ),
        Call::BurnShares { agv_account, agv_id, .. } => Event::AssetsGeneratingVCUSharesBurned(
            agv_account,
            agv_id,
        ),
        Call::TransferShares { recipient, .. } => Event::AssetsGeneratingVCUSharesTransferred(
            recipient,
        ),
        Call::ForceTransferShares { recipient, .. } => Event::AssetsGeneratingVCUSharesTransferred(
            recipient,
        ),
        Call::CreateSchedule { agv_account_id, agv_id, .. } => Event::AssetsGeneratingVCUScheduleAdded(
            agv_account_id,
            agv_id,
        ),
        Call::DestroySchedule { agv_account_id, agv_id, .. } =>
            Event::AssetsGeneratingVCUScheduleDestroyed(agv_account_id, agv_id),
        Call::CompleteScheduledMint { req, .. } => Event::AssetsGeneratingVCUGenerated(
            req.agv_account_id,
            req.agv_id,
        ),
        Call::CompleteRetireVcu { req } => Event::VCUsBurnedAdded(
            req.agv_account_id,
            req.agv_id,
            req.token_id,
        ),
        Call::CreateOracle { agv_account_id, agv_id, oracle_account_id, .. } =>
            Event::OraclesAccountMintingVCUAdded(agv_account_id, agv_id, oracle_account_id),
        Call::DestroyOracle { agv_account_id, agv_id, .. } =>
            Event::OraclesAccountMintingVCUDestroyed(agv_account_id, agv_id),
        Call::CompleteOracleMint { req } => Event::OracleAccountVCUMinted(
            req.agv_account_id,
            req.agv_id,
            req.token_owner,
        ),
        Call::CreateBundle { bundle_id, .. } => Event::AddedBundleAssetsGeneratingVCU(bundle_id),
        Call::DestroyBundle { bundle_id, .. } => Event::DestroyedBundleAssetsGeneratingVCU(bundle_id),
    }
}

/// A successful call deposits exactly its own event; a refused call
/// deposits none.
pub proof fn calls_deposit_their_event(s: PalletState, call: Call)
    ensures
        step(s, call).0 is Ok ==> step(s, call).1.events == s.events.push(call_event(call)),
        step(s, call).0 is Err ==> step(s, call).1.events == s.events,
{
}

/// A scheduled minting grants the schedule's amount in the schedule's
/// token, owned and minted by the AGV account.
pub proof fn scheduled_mint_grants_the_schedule(
    s: PalletState,
    origin: Origin,
    agv_account_id: AccountId,
    agv_id: u32,
    now: u64,
)
    requires
        mint_scheduled_vcu_spec(s, origin, agv_account_id, agv_id, now) is Ok,
    ensures
        ({
            let k = agv_key(agv_account_id, agv_id);
            let req = mint_scheduled_vcu_spec(s, origin, agv_account_id, agv_id, now)->Ok_0;
            &&& authorizes(s, origin)
            &&& s.schedules.contains_key(k)
            &&& s.schedules[k].token_id > LAST_RESERVED_TOKEN_ID
            &&& req == MintRequest {
                agv_account_id,
                agv_id,
                token_id: s.schedules[k].token_id,
                token_owner: agv_account_id,
                minter: agv_account_id,
                amount_vcu: s.schedules[k].amount_vcu,
            }
        }),
{
}

/// A retirement is granted exactly to a signed sender of an AGV with a
/// schedule, for the amount asked, in the schedule's token.
pub proof fn retirement_grants_the_schedule_token(
    s: PalletState,
    origin: Origin,
    agv_account_id: AccountId,
    agv_id: u32,
    amount: Balance,
)
    ensures
        ({
            let k = agv_key(agv_account_id, agv_id);
            let r = retire_vcu_spec(s, origin, agv_account_id, agv_id, amount);
            &&& (r is Ok <==> origin is Signed && s.schedules.contains_key(k))
            &&& r is Ok ==> r->Ok_0 == RetireRequest {
                sender: origin->Signed_0,
                agv_account_id,
                agv_id,
                token_id: s.schedules[k].token_id,
                amount,
            }
        }),
{
}

} // verus!
