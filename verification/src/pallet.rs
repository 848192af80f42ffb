//! The pallet: its storage and its calls.
use vstd::prelude::*;

use crate::distribution::{distribute_vcu, share_sum};
use crate::key_order::{lemma_storage_order, order_by_storage_key, storage_order};
use crate::model::{
    add_authorized_account_spec, agv_key, authorizes, burn_shares_spec, complete_oracle_mint_spec,
    complete_retire_vcu_spec, complete_scheduled_mint_spec, create_asset_generating_vcu_spec,
    create_bundle_agv_spec, create_oracle_spec, create_schedule_spec,
    destroy_asset_generating_vcu_spec, destroy_authorized_account_spec, destroy_bundle_agv_spec,
    destroy_oracle_spec, destroy_schedule_spec, forcetransfer_shares_spec, holders,
    lemma_holders_push, lemma_holders_write, lemma_shares_frame, lemma_state_wf_frame, mint_payouts_spec,
    mint_scheduled_vcu_spec, mint_shares_spec, mint_vcu_from_oracle_spec, module_err,
    move_shares_spec, payouts_divisible, retire_vcu_spec, seq_write,
    share_at, share_key, shares_map, state_wf, transfer_shares_spec, u128_at, u32_at,
    with_event, PalletState,
};
use crate::store::{Store, StoreKey};
use crate::types::{
    AccountId, AccountKey, AssetGeneratingVCUContent, AssetsGeneratingVCUGeneratedContent,
    AssetsGeneratingVCUScheduleContent, Balance,
    BundleAssetGeneratingVCUContent, Config, DispatchError, DispatchResult, Error, Event,
    MintRequest, Origin, RetireRequest, ShareKey, LAST_RESERVED_TOKEN_ID, SECONDS_PER_DAY,
};

verus! {

/// The pallet's storage and the events it has deposited.
pub struct Pallet {
    config: Config,
    authorized_accounts_agv: Store<AccountId, Vec<u8>>,
    assets_generating_vcu: Store<AccountKey, AssetGeneratingVCUContent>,
    shares: Store<ShareKey, u32>,
    shares_minted: Store<AccountKey, u32>,
    shares_minted_total: Store<AccountKey, u32>,
    schedules: Store<AccountKey, AssetsGeneratingVCUScheduleContent>,
    generated: Store<AccountKey, AssetsGeneratingVCUGeneratedContent>,
    vcus_burned_accounts: Store<AccountKey, Balance>,
    vcus_burned: Store<u32, Balance>,
    oracle_accounts: Store<AccountKey, AccountId>,
    oracle_tokens: Store<AccountKey, u32>,
    bundles: Store<u32, BundleAssetGeneratingVCUContent>,
    burned_counter: Store<AccountKey, u32>,
    events: Vec<Event>,
}

impl View for Pallet {
    type V = PalletState;

    closed spec fn view(&self) -> PalletState {
        PalletState {
            config: self.config,
            authorized_accounts_agv: self.authorized_accounts_agv.map(),
            assets_generating_vcu: self.assets_generating_vcu.map(),
            shares: self.shares.entries(),
            shares_minted: self.shares_minted.map(),
            shares_minted_total: self.shares_minted_total.map(),
            schedules: self.schedules.map(),
            generated: self.generated.map(),
            vcus_burned_accounts: self.vcus_burned_accounts.map(),
            vcus_burned: self.vcus_burned.map(),
            oracle_accounts: self.oracle_accounts.map(),
            oracle_tokens: self.oracle_tokens.map(),
            bundles: self.bundles.map(),
            burned_counter: self.burned_counter.map(),
            events: self.events@,
        }
    }
}

/// The value stored for `k`, or 0.
fn stored_u32<K: StoreKey>(store: &Store<K, u32>, k: &K) -> (r: u32)
    requires
        store.wf(),
    ensures
        r == u32_at(store.map(), *k),
{
    match store.get(k) {
        Some(v) => *v,
        None => 0,
    }
}

/// The value stored for `k`, or 0.
fn stored_u128<K: StoreKey>(store: &Store<K, u128>, k: &K) -> (r: u128)
    requires
        store.wf(),
    ensures
        r == u128_at(store.map(), *k),
{
    match store.get(k) {
        Some(v) => *v,
        None => 0,
    }
}

/// The signer of a signed origin; any other origin is a bad origin.
fn ensure_signed(origin: Origin) -> (r: Result<AccountId, DispatchError>)
    ensures
        r == (match origin {
            Origin::Signed(a) => Ok::<AccountId, DispatchError>(a),
            _ => Err(DispatchError::BadOrigin),
        }),
{
    match origin {
        Origin::Signed(a) => Ok(a),
        _ => Err(DispatchError::BadOrigin),
    }
}

/// The root origin passes; any other is a bad origin.
fn ensure_root(origin: Origin) -> (r: DispatchResult)
    ensures
        r == (if origin == Origin::Root {
            Ok::<(), DispatchError>(())
        } else {
            Err(DispatchError::BadOrigin)
        }),
{
    match origin {
        Origin::Root => Ok(()),
        _ => Err(DispatchError::BadOrigin),
    }
}

impl Pallet {
    /// Every store holds each key once, and the state keeps the pallet's invariants.
    pub closed spec fn wf(&self) -> bool {
        &&& self.authorized_accounts_agv.wf()
        &&& self.assets_generating_vcu.wf()
        &&& self.shares.wf()
        &&& self.shares_minted.wf()
        &&& self.shares_minted_total.wf()
        &&& self.schedules.wf()
        &&& self.generated.wf()
        &&& self.vcus_burned_accounts.wf()
        &&& self.vcus_burned.wf()
        &&& self.oracle_accounts.wf()
        &&& self.oracle_tokens.wf()
        &&& self.bundles.wf()
        &&& self.burned_counter.wf()
        &&& state_wf(self@)
    }

    /// A well-formed pallet keeps the invariants of the state.
    pub proof fn lemma_wf(&self)
        requires
            self.wf(),
        ensures
            state_wf(self@),
    {
    }

    /// The pallet at genesis: every storage item empty, no event.
    pub fn new(config: Config) -> (p: Self)
        ensures
            p.wf(),
            p@ == (PalletState {
                config,
                authorized_accounts_agv: Map::empty(),
                assets_generating_vcu: Map::empty(),
                shares: Seq::empty(),
                shares_minted: Map::empty(),
                shares_minted_total: Map::empty(),
                schedules: Map::empty(),
                generated: Map::empty(),
                vcus_burned_accounts: Map::empty(),
                vcus_burned: Map::empty(),
                oracle_accounts: Map::empty(),
                oracle_tokens: Map::empty(),
                bundles: Map::empty(),
                burned_counter: Map::empty(),
                events: Seq::empty(),
            }),
    {
        let p = Pallet {
            config,
            authorized_accounts_agv: Store::new(),
            assets_generating_vcu: Store::new(),
            shares: Store::new(),
            shares_minted: Store::new(),
            shares_minted_total: Store::new(),
            schedules: Store::new(),
            generated: Store::new(),
            vcus_burned_accounts: Store::new(),
            vcus_burned: Store::new(),
            oracle_accounts: Store::new(),
            oracle_tokens: Store::new(),
            bundles: Store::new(),
            burned_counter: Store::new(),
            events: Vec::new(),
        };
        assert forall|agv: AccountKey| #[trigger]
            share_sum(holders(p@.shares, agv)) <= u32_at(p@.shares_minted_total, agv) by {
            assert(holders(p@.shares, agv) =~= Seq::<(AccountId, u32)>::empty());
        }
        assert(p@.events =~= Seq::<Event>::empty());
        p
    }

    /// The limits the pallet was configured with.
    pub fn config(&self) -> (c: Config)
        ensures
            c == self@.config,
    {
        self.config
    }

    /// The events deposited, oldest first.
    pub fn events(&self) -> (e: &Vec<Event>)
        ensures
            e@ == self@.events,
    {
        &self.events
    }

    fn deposit_event(&mut self, e: Event)
        requires
            old(self).wf(),
        ensures
            final(self).wf(),
            final(self)@ == with_event(old(self)@, e),
    {
        let ghost s0 = self@;
        self.events.push(e);
        assert(self@ == with_event(s0, e));
        proof {
            lemma_state_wf_frame(s0, self@);
        }
    }

    /// Ensures the origin is the root or a signed authorized account; any
    /// other origin is refused with `NotAuthorised`.
    pub fn ensure_root_or_authorized_account(&self, origin: Origin) -> (r: DispatchResult)
        requires
            self.wf(),
        ensures
            r == (if authorizes(self@, origin) {
                Ok::<(), DispatchError>(())
            } else {
                Err(module_err(Error::NotAuthorised))
            }),
    {
        let checked: DispatchResult = match ensure_root(origin) {
            Ok(()) => Ok(()),
            Err(e) => match ensure_signed(origin) {
                Ok(o) => {
                    if self.authorized_accounts_agv.contains_key(&o) {
                        Ok(())
                    } else {
                        Err(e)
                    }
                },
                Err(e2) => Err(e2),
            },
        };
        match checked {
            Ok(()) => Ok(()),
            Err(_) => Err(DispatchError::Module(Error::NotAuthorised)),
        }
    }

    /// Stores (or replaces) an authorized account with its description.
    /// Root only; the description must be longer than 4 bytes.
    pub fn add_authorized_account(
        &mut self,
        origin: Origin,
        account_id: AccountId,
        description: Vec<u8>,
    ) -> (r: DispatchResult)
        requires
            old(self).wf(),
            description.len() <= old(self)@.config.max_description_length,
        ensures
            final(self).wf(),
            (r, final(self)@) == add_authorized_account_spec(
                old(self)@,
                origin,
                account_id,
                description,
            ),
    {
        ensure_root(origin)?;
        if description.len() == 0 {
            return Err(DispatchError::Module(Error::InvalidDescription));
        }
        if !(description.len() > 4) {
            return Err(DispatchError::Module(Error::InvalidDescription));
        }
        let ghost s0 = self@;
        self.authorized_accounts_agv.insert(account_id, description);
        proof {
            lemma_state_wf_frame(s0, self@);
        }
        self.deposit_event(Event::AuthorizedAccountAdded(account_id));
        Ok(())
    }

    /// Removes an authorized account. Root only.
    pub fn destroy_authorized_account(&mut self, origin: Origin, account_id: AccountId) -> (r:
        DispatchResult)
        requires
            old(self).wf(),
        ensures
            final(self).wf(),
            (r, final(self)@) == destroy_authorized_account_spec(old(self)@, origin, account_id),
    {
        ensure_root(origin)?;
        let ghost s0 = self@;
        let _ = self.authorized_accounts_agv.take(&account_id);
        proof {
            lemma_state_wf_frame(s0, self@);
        }
        self.deposit_event(Event::AuthorizedAccountsAGVDestroyed(account_id));
        Ok(())
    }
    /// Stores (or replaces) an Asset Generating VCU. Root or authorized
    /// account; the number of shares must not be 0.
    pub fn create_asset_generating_vcu(
        &mut self,
        origin: Origin,
        agv_account_id: AccountId,
        agv_id: u32,
        content: AssetGeneratingVCUContent,
    ) -> (r: DispatchResult)
        requires
            old(self).wf(),
            content.description.len() <= old(self)@.config.max_description_length,
            content.proof_of_ownership.len() <= old(self)@.config.max_document_length,
        ensures
            final(self).wf(),
            (r, final(self)@) == create_asset_generating_vcu_spec(
                old(self)@,
                origin,
                agv_account_id,
                agv_id,
                content,
            ),
    {
        self.ensure_root_or_authorized_account(origin)?;
        if !(content.number_of_shares > 0) {
            return Err(DispatchError::Module(Error::NumberofSharesCannotBeZero));
        }
        let ghost s0 = self@;
        self.assets_generating_vcu.insert(AccountKey { account: agv_account_id, id: agv_id }, content);
        proof {
            lemma_state_wf_frame(s0, self@);
        }
        self.deposit_event(Event::AssetsGeneratingVCUCreated(agv_id));
        Ok(())
    }

    /// Removes an Asset Generating VCU. Root or authorized account; the AGV
    /// must exist.
    pub fn destroy_asset_generating_vcu(&mut self, origin: Origin, agv_account_id: AccountId, agv_id: u32) -> (r:
        DispatchResult)
        requires
            old(self).wf(),
        ensures
            final(self).wf(),
            (r, final(self)@) == destroy_asset_generating_vcu_spec(
                old(self)@,
                origin,
                agv_account_id,
                agv_id,
            ),
    {
        self.ensure_root_or_authorized_account(origin)?;
        let k = AccountKey { account: agv_account_id, id: agv_id };
        if !self.assets_generating_vcu.contains_key(&k) {
            return Err(DispatchError::Module(Error::AssetGeneratingVCUNotFound));
        }
        let ghost s0 = self@;
        let _ = self.assets_generating_vcu.take(&k);
        proof {
            lemma_state_wf_frame(s0, self@);
        }
        self.deposit_event(Event::AssetGeneratingVCUDestroyed(agv_id));
        Ok(())
    }

    /// Writes `v` as the shares held under `sk`, keeping the invariants where
    /// the AGV's holders' shares stay within its minted total.
    fn write_shares(&mut self, sk: ShareKey, v: u32)
        requires
            old(self).wf(),
            share_sum(holders(old(self)@.shares, AccountKey { account: sk.agv_account, id: sk.agv_id }))
                + v - share_at(old(self)@, sk) <= u32_at(
                old(self)@.shares_minted_total,
                AccountKey { account: sk.agv_account, id: sk.agv_id },
            ),
        ensures
            final(self).wf(),
            final(self)@ == (PalletState { shares: seq_write(old(self)@.shares, sk, v), ..old(self)@ }),
    {
        let ghost s0 = self@;
        let ghost k = AccountKey { account: sk.agv_account, id: sk.agv_id };
        proof {
            lemma_holders_write(s0.shares, sk, v, k);
        }
        self.shares.insert(sk, v);
        proof {
            assert(self@ == (PalletState { shares: seq_write(s0.shares, sk, v), ..s0 }));
            assert forall|agv: AccountKey| #[trigger]
                share_sum(holders(self@.shares, agv)) <= u32_at(self@.shares_minted_total, agv) by {
                lemma_holders_write(s0.shares, sk, v, agv);
                assert(share_sum(holders(s0.shares, agv)) <= u32_at(s0.shares_minted_total, agv));
            }
        }
    }

    /// Mints shares of an AGV to a recipient, up to the AGV's number of
    /// shares. Root or authorized account.
    pub fn mint_shares_asset_generating_vcu(
        &mut self,
        origin: Origin,
        recipient: AccountId,
        agv_account: AccountId,
        agv_id: u32,
        number_of_shares: u32,
    ) -> (r: DispatchResult)
        requires
            old(self).wf(),
        ensures
            final(self).wf(),
            (r, final(self)@) == mint_shares_spec(
                old(self)@,
                origin,
                recipient,
                agv_account,
                agv_id,
                number_of_shares,
            ),
    {
        self.ensure_root_or_authorized_account(origin)?;
        let k = AccountKey { account: agv_account, id: agv_id };
        let cap: u32 = match self.assets_generating_vcu.get(&k) {
            Some(content) => content.number_of_shares,
            None => {
                return Err(DispatchError::Module(Error::AssetGeneratingVCUNotFound));
            },
        };
        // the shares minted for the AGV
        let minted = stored_u32(&self.shares_minted, &k);
        let total_sh = match minted.checked_add(number_of_shares) {
            Some(t) => t,
            None => {
                return Err(DispatchError::Module(Error::Overflow));
            },
        };
        if !(total_sh <= cap) {
            return Err(DispatchError::Module(Error::TooManyShares));
        }
        let ghost s0 = self@;
        self.shares_minted.insert(k, total_sh);
        proof {
            lemma_state_wf_frame(s0, self@);
        }
        // the total shares minted for the AGV
        let total = stored_u32(&self.shares_minted_total, &k);
        let total_sh2 = match total.checked_add(number_of_shares) {
            Some(t) => t,
            None => {
                return Err(DispatchError::Module(Error::Overflow));
            },
        };
        if !(total_sh2 <= cap) {
            return Err(DispatchError::Module(Error::TooManyShares));
        }
        let ghost s1 = self@;
        self.shares_minted_total.insert(k, total_sh2);
        proof {
            assert forall|agv: AccountKey| #[trigger]
                share_sum(holders(self@.shares, agv)) <= u32_at(self@.shares_minted_total, agv) by {
                assert(share_sum(holders(s1.shares, agv)) <= u32_at(s1.shares_minted_total, agv));
            }
        }
        // the shares of the recipient
        let sk = ShareKey { agv_account, agv_id, holder: recipient };
        let held = stored_u32(&self.shares, &sk);
        let total_sha = match held.checked_add(number_of_shares) {
            Some(t) => t,
            None => {
                return Err(DispatchError::Module(Error::Overflow));
            },
        };
        proof {
            assert(share_sum(holders(s1.shares, k)) <= u32_at(s1.shares_minted_total, k));
        }
        self.write_shares(sk, total_sha);
        self.deposit_event(Event::AssetsGeneratingVCUSharesMinted(agv_account, agv_id));
        Ok(())
    }

    /// Burns shares of an AGV held by a recipient. Root or authorized
    /// account; the AGV's minted count must stay above 0.
    pub fn burn_shares_asset_generating_vcu(
        &mut self,
        origin: Origin,
        recipient: AccountId,
        agv_account: AccountId,
        agv_id: u32,
        number_of_shares: u32,
    ) -> (r: DispatchResult)
        requires
            old(self).wf(),
        ensures
            final(self).wf(),
            (r, final(self)@) == burn_shares_spec(
                old(self)@,
                origin,
                recipient,
                agv_account,
                agv_id,
                number_of_shares,
            ),
    {
        self.ensure_root_or_authorized_account(origin)?;
        let k = AccountKey { account: agv_account, id: agv_id };
        if !self.assets_generating_vcu.contains_key(&k) {
            return Err(DispatchError::Module(Error::AssetGeneratingVCUNotFound));
        }
        let sk = ShareKey { agv_account, agv_id, holder: recipient };
        if !self.shares.contains_key(&sk) {
            return Err(DispatchError::Module(Error::RecipientSharesNotFound));
        }
        let currentshares = stored_u32(&self.shares, &sk);
        if !(currentshares >= number_of_shares) {
            return Err(DispatchError::Module(Error::RecipientSharesLessOfBurningShares));
        }
        if !self.shares_minted.contains_key(&k) {
            return Err(DispatchError::Module(Error::TotalSharesNotEnough));
        }
        let totalcurrentshares = stored_u32(&self.shares_minted, &k);
        if !(totalcurrentshares >= number_of_shares) {
            return Err(DispatchError::Module(Error::TotalSharesNotEnough));
        }
        // decrease the shares minted for the AGV
        let total_sh = match totalcurrentshares.checked_sub(number_of_shares) {
            Some(t) => t,
            None => {
                return Err(DispatchError::Module(Error::InsufficientShares));
            },
        };
        if !(total_sh > 0) {
            return Err(DispatchError::Module(Error::TooLessShares));
        }
        let ghost s0 = self@;
        self.shares_minted.insert(k, total_sh);
        proof {
            lemma_state_wf_frame(s0, self@);
        }
        // decrease the shares of the recipient
        let total_sha = match currentshares.checked_sub(number_of_shares) {
            Some(t) => t,
            None => {
                return Err(DispatchError::Module(Error::Overflow));
            },
        };
        proof {
            assert(share_sum(holders(s0.shares, k)) <= u32_at(s0.shares_minted_total, k));
        }
        self.write_shares(sk, total_sha);
        self.deposit_event(Event::AssetsGeneratingVCUSharesBurned(agv_account, agv_id));
        Ok(())
    }

    /// Moves shares of an AGV from `sender` to `recipient`.
    fn move_shares(
        &mut self,
        sender: AccountId,
        recipient: AccountId,
        agv_account: AccountId,
        agv_id: u32,
        number_of_shares: u32,
    ) -> (r: DispatchResult)
        requires
            old(self).wf(),
        ensures
            final(self).wf(),
            (r, final(self)@) == move_shares_spec(
                old(self)@,
                sender,
                recipient,
                agv_account,
                agv_id,
                number_of_shares,
            ),
    {
        let k = AccountKey { account: agv_account, id: agv_id };
        let from = ShareKey { agv_account, agv_id, holder: sender };
        let to = ShareKey { agv_account, agv_id, holder: recipient };
        if !self.shares.contains_key(&from) {
            return Err(DispatchError::Module(Error::AssetGeneratedSharesNotFound));
        }
        let sender_shares = stored_u32(&self.shares, &from);
        if !(number_of_shares <= sender_shares) {
            return Err(DispatchError::Module(Error::NumberofSharesNotFound));
        }
        // decrease the shares of the sender
        let total_sh = match sender_shares.checked_sub(number_of_shares) {
            Some(t) => t,
            None => {
                return Err(DispatchError::Module(Error::TooLessShares));
            },
        };
        let ghost s0 = self@;
        proof {
            assert(share_sum(holders(s0.shares, k)) <= u32_at(s0.shares_minted_total, k));
        }
        self.write_shares(from, total_sh);
        proof {
            lemma_holders_write(s0.shares, from, total_sh, k);
        }
        // increase the shares of the recipient
        let held = stored_u32(&self.shares, &to);
        let total_sh2 = match held.checked_add(number_of_shares) {
            Some(t) => t,
            None => {
                return Err(DispatchError::Module(Error::Overflow));
            },
        };
        self.write_shares(to, total_sh2);
        self.deposit_event(Event::AssetsGeneratingVCUSharesTransferred(recipient));
        Ok(())
    }

    /// The signer transfers its own shares of an AGV to a recipient.
    pub fn transfer_shares_asset_generating_vcu(
        &mut self,
        origin: Origin,
        recipient: AccountId,
        agv_account: AccountId,
        agv_id: u32,
        number_of_shares: u32,
    ) -> (r: DispatchResult)
        requires
            old(self).wf(),
        ensures
            final(self).wf(),
            (r, final(self)@) == transfer_shares_spec(
                old(self)@,
                origin,
                recipient,
                agv_account,
                agv_id,
                number_of_shares,
            ),
    {
        let sender = ensure_signed(origin)?;
        self.move_shares(sender, recipient, agv_account, agv_id, number_of_shares)
    }

    /// Root or an authorized account moves shares of an AGV from a sender to
    /// a recipient.
    pub fn forcetransfer_shares_asset_generating_vcu(
        &mut self,
        origin: Origin,
        sender: AccountId,
        recipient: AccountId,
        agv_account: AccountId,
        agv_id: u32,
        number_of_shares: u32,
    ) -> (r: DispatchResult)
        requires
            old(self).wf(),
        ensures
            final(self).wf(),
            (r, final(self)@) == forcetransfer_shares_spec(
                old(self)@,
                origin,
                sender,
                recipient,
                agv_account,
                agv_id,
                number_of_shares,
            ),
    {
        self.ensure_root_or_authorized_account(origin)?;
        self.move_shares(sender, recipient, agv_account, agv_id, number_of_shares)
    }
    /// Stores the minting schedule of an AGV. Root or authorized account;
    /// the AGV must exist, the amount and period must not be 0, there must be
    /// no schedule yet, the token must exist in the assets pallet
    /// (`token_supply` is its total supply there, `None` where it does not
    /// exist) and must not be reserved.
    pub fn create_asset_generating_vcu_schedule(
        &mut self,
        origin: Origin,
        agv_account_id: AccountId,
        agv_id: u32,
        period_days: u64,
        amount_vcu: Balance,
        token_id: u32,
        token_supply: Option<Balance>,
    ) -> (r: DispatchResult)
        requires
            old(self).wf(),
        ensures
            final(self).wf(),
            (r, final(self)@) == create_schedule_spec(
                old(self)@,
                origin,
                agv_account_id,
                agv_id,
                period_days,
                amount_vcu,
                token_id,
                token_supply,
            ),
    {
        self.ensure_root_or_authorized_account(origin)?;
        let k = AccountKey { account: agv_account_id, id: agv_id };
        if !self.assets_generating_vcu.contains_key(&k) {
            return Err(DispatchError::Module(Error::AssetGeneratingVCUNotFound));
        }
        if !(amount_vcu > 0) {
            return Err(DispatchError::Module(Error::InvalidVCUAmount));
        }
        if !(period_days > 0) {
            return Err(DispatchError::Module(Error::InvalidPeriodDays));
        }
        if self.schedules.contains_key(&k) {
            return Err(DispatchError::Module(Error::AssetsGeneratingVCUScheduleAlreadyOnChain));
        }
        if token_supply.is_none() {
            return Err(DispatchError::Module(Error::TokenIdNotFound));
        }
        if !(token_id > LAST_RESERVED_TOKEN_ID) {
            return Err(DispatchError::Module(Error::ReservedTokenId));
        }
        let ghost s0 = self@;
        self.schedules.insert(k, AssetsGeneratingVCUScheduleContent { period_days, amount_vcu, token_id });
        proof {
            lemma_shares_frame(s0, self@);
        }
        self.deposit_event(Event::AssetsGeneratingVCUScheduleAdded(agv_account_id, agv_id));
        Ok(())
    }

    /// Removes the minting schedule of an AGV. Root or authorized account;
    /// the schedule must exist.
    pub fn destroy_asset_generating_vcu_schedule(
        &mut self,
        origin: Origin,
        agv_account_id: AccountId,
        agv_id: u32,
    ) -> (r: DispatchResult)
        requires
            old(self).wf(),
        ensures
            final(self).wf(),
            (r, final(self)@) == destroy_schedule_spec(old(self)@, origin, agv_account_id, agv_id),
    {
        self.ensure_root_or_authorized_account(origin)?;
        let k = AccountKey { account: agv_account_id, id: agv_id };
        if !self.schedules.contains_key(&k) {
            return Err(DispatchError::Module(Error::AssetGeneratedVCUScheduleNotFound));
        }
        let ghost s0 = self@;
        let _ = self.schedules.take(&k);
        proof {
            lemma_shares_frame(s0, self@);
        }
        self.deposit_event(Event::AssetsGeneratingVCUScheduleDestroyed(agv_account_id, agv_id));
        Ok(())
    }

    /// The start of a scheduled minting of VCU at time `now` (seconds): root
    /// or authorized account; the schedule must exist; the first minting is
    /// due at any time, a later one once the schedule's period (in days) has
    /// passed since the last; the token must not be reserved. What is granted is then carried out with
    /// `MintRequest::token_creation`, `mint_payouts`, the minting of each
    /// payout in the assets pallet, and `complete_scheduled_mint`.
    pub fn mint_scheduled_vcu(&self, origin: Origin, agv_account_id: AccountId, agv_id: u32, now: u64) -> (r:
        Result<MintRequest, DispatchError>)
        requires
            self.wf(),
        ensures
            r == mint_scheduled_vcu_spec(self@, origin, agv_account_id, agv_id, now),
    {
        self.ensure_root_or_authorized_account(origin)?;
        let k = AccountKey { account: agv_account_id, id: agv_id };
        let content: AssetsGeneratingVCUScheduleContent = match self.schedules.get(&k) {
            Some(c) => *c,
            None => {
                return Err(DispatchError::Module(Error::AssetGeneratedVCUScheduleNotFound));
            },
        };
        // the first minting is due at any time, a later one a whole period after the last
        if let Some(record) = self.generated.get(&k) {
            let last = record.timestamp;
            let due = match content.period_days.checked_mul(SECONDS_PER_DAY) {
                Some(period) => match last.checked_add(period) {
                    Some(d) => now >= d,
                    None => false,
                },
                None => false,
            };
            if !due {
                return Err(DispatchError::Module(Error::AssetGeneratedScheduleNotYetArrived));
            }
        }
        if !(content.token_id > LAST_RESERVED_TOKEN_ID) {
            return Err(DispatchError::Module(Error::ReservedTokenId));
        }
        Ok(
            MintRequest {
                agv_account_id,
                agv_id,
                token_id: content.token_id,
                token_owner: agv_account_id,
                minter: agv_account_id,
                amount_vcu: content.amount_vcu,
            },
        )
    }

    /// The holders of an AGV with their shares, in the order in which they
    /// were first written.
    fn holders_in_write_order(&self, agv_account: AccountId, agv_id: u32) -> (r: Vec<(AccountId, u32)>)
        requires
            self.wf(),
        ensures
            r@ == holders(self@.shares, agv_key(agv_account, agv_id)),
    {
        let k = AccountKey { account: agv_account, id: agv_id };
        let entries = self.shares.as_vec();
        let mut out: Vec<(AccountId, u32)> = Vec::new();
        let mut i: usize = 0;
        let ghost s = entries@;
        assert(s.take(0) =~= Seq::<(ShareKey, u32)>::empty());
        while i < entries.len()
            invariant
                s == entries@,
                k == agv_key(agv_account, agv_id),
                i <= s.len(),
                out@ == holders(s.take(i as int), k),
            decreases s.len() - i,
        {
            let e = &entries[i];
            assert(s.take(i + 1) =~= s.take(i as int).push(s[i as int]));
            proof {
                lemma_holders_push(s.take(i as int), s[i as int].0, s[i as int].1, k);
            }
            if e.0.agv_account == agv_account && e.0.agv_id == agv_id {
                out.push((e.0.holder, e.1));
            }
            i = i + 1;
        }
        assert(s.take(s.len() as int) =~= s);
        out
    }

    /// The holders of an AGV with their shares, in the order in which the
    /// storage walks them: by their storage keys.
    pub fn shareholders(&self, agv_account: AccountId, agv_id: u32) -> (r: Vec<(AccountId, u32)>)
        requires
            self.wf(),
        ensures
            r@ == storage_order(holders(self@.shares, agv_key(agv_account, agv_id))),
    {
        let h = self.holders_in_write_order(agv_account, agv_id);
        order_by_storage_key(&h)
    }

    /// The payouts of a granted minting, after the token exists: refused with
    /// `NoAVGSharesNotFound` where no total of shares was ever minted for
    /// the AGV; else the amount shared out among the AGV's holders.
    pub fn mint_payouts(&self, req: &MintRequest) -> (r: Result<Vec<(AccountId, Balance)>, DispatchError>)
        requires
            self.wf(),
            payouts_divisible(self@, *req),
        ensures
            match r {
                Ok(p) => mint_payouts_spec(self@, *req) == Ok::<
                    Seq<(AccountId, Balance)>,
                    DispatchError,
                >(p@),
                Err(e) => mint_payouts_spec(self@, *req) == Err::<
                    Seq<(AccountId, Balance)>,
                    DispatchError,
                >(e),
            },
    {
        let k = AccountKey { account: req.agv_account_id, id: req.agv_id };
        if !self.shares_minted_total.contains_key(&k) {
            return Err(DispatchError::Module(Error::NoAVGSharesNotFound));
        }
        let totalshares: u128 = stored_u32(&self.shares_minted_total, &k) as u128;
        let holders_vec = self.shareholders(req.agv_account_id, req.agv_id);
        proof {
            assert(share_sum(holders(self@.shares, k)) <= u32_at(self@.shares_minted_total, k));
            lemma_storage_order(holders(self@.shares, k));
        }
        let p = distribute_vcu(req.amount_vcu, totalshares, &holders_vec);
        Ok(p)
    }

    /// The end of a scheduled minting once every payout is minted: records
    /// `now` and the amount granted as the AGV's last minting.
    pub fn complete_scheduled_mint(&mut self, req: &MintRequest, now: u64)
        requires
            old(self).wf(),
        ensures
            final(self).wf(),
            final(self)@ == complete_scheduled_mint_spec(old(self)@, *req, now),
    {
        let k = AccountKey { account: req.agv_account_id, id: req.agv_id };
        let record = AssetsGeneratingVCUGeneratedContent { timestamp: now, amount_vcu: req.amount_vcu };
        let ghost s0 = self@;
        if self.generated.contains_key(&k) {
            let _ = self.generated.take(&k);
        }
        self.generated.insert(k, record);
        proof {
            assert(self@.generated =~= s0.generated.insert(k, record));
            lemma_state_wf_frame(s0, self@);
        }
        self.deposit_event(Event::AssetsGeneratingVCUGenerated(req.agv_account_id, req.agv_id));
    }

    /// The start of a retirement (burning) of VCU by their owner: a signed
    /// sender; the AGV's schedule must exist and gives the token. What is
    /// granted is then carried out with `RetireRequest::check_balance`, the
    /// burning in the assets pallet, and `complete_retire_vcu`.
    pub fn retire_vcu(&self, origin: Origin, agv_account_id: AccountId, agv_id: u32, amount: Balance) -> (r:
        Result<RetireRequest, DispatchError>)
        requires
            self.wf(),
        ensures
            r == retire_vcu_spec(self@, origin, agv_account_id, agv_id, amount),
    {
        let sender = ensure_signed(origin)?;
        let k = AccountKey { account: agv_account_id, id: agv_id };
        let content: AssetsGeneratingVCUScheduleContent = match self.schedules.get(&k) {
            Some(c) => *c,
            None => {
                return Err(DispatchError::Module(Error::AssetGeneratedVCUScheduleNotFound));
            },
        };
        Ok(RetireRequest { sender, agv_account_id, agv_id, token_id: content.token_id, amount })
    }

    /// The end of a retirement once the VCU are burned: counts it for the
    /// sender and token, and adds the amount to the AGV's and the token's
    /// retired totals.
    pub fn complete_retire_vcu(&mut self, req: &RetireRequest) -> (r: DispatchResult)
        requires
            old(self).wf(),
            u32_at(old(self)@.burned_counter, agv_key(req.sender, req.token_id)) < u32::MAX,
        ensures
            final(self).wf(),
            (r, final(self)@) == complete_retire_vcu_spec(old(self)@, *req),
    {
        let ghost s0 = self@;
        let ck = AccountKey { account: req.sender, id: req.token_id };
        let count = stored_u32(&self.burned_counter, &ck);
        self.burned_counter.insert(ck, count + 1);
        proof {
            lemma_state_wf_frame(s0, self@);
        }
        let ghost s1 = self@;
        let k = AccountKey { account: req.agv_account_id, id: req.agv_id };
        let vcu = stored_u128(&self.vcus_burned_accounts, &k);
        let total_vcu = match vcu.checked_add(req.amount) {
            Some(t) => t,
            None => {
                return Err(DispatchError::Module(Error::Overflow));
            },
        };
        self.vcus_burned_accounts.insert(k, total_vcu);
        proof {
            lemma_state_wf_frame(s1, self@);
        }
        let ghost s2 = self@;
        let burned = stored_u128(&self.vcus_burned, &req.token_id);
        let total_burned = match burned.checked_add(req.amount) {
            Some(t) => t,
            None => {
                return Err(DispatchError::Module(Error::Overflow));
            },
        };
        self.vcus_burned.insert(req.token_id, total_burned);
        proof {
            lemma_state_wf_frame(s2, self@);
        }
        self.deposit_event(Event::VCUsBurnedAdded(req.agv_account_id, req.agv_id, req.token_id));
        Ok(())
    }

    /// Stores (or replaces) the oracle that may mint VCU for an AGV, with its
    /// token. Root or authorized account; the AGV must exist; the token must
    /// not be reserved.
    pub fn create_oracle_account_minting_vcu(
        &mut self,
        origin: Origin,
        agv_account_id: AccountId,
        agv_id: u32,
        oracle_account_id: AccountId,
        token_id: u32,
    ) -> (r: DispatchResult)
        requires
            old(self).wf(),
        ensures
            final(self).wf(),
            (r, final(self)@) == create_oracle_spec(
                old(self)@,
                origin,
                agv_account_id,
                agv_id,
                oracle_account_id,
                token_id,
            ),
    {
        self.ensure_root_or_authorized_account(origin)?;
        let k = AccountKey { account: agv_account_id, id: agv_id };
        if !self.assets_generating_vcu.contains_key(&k) {
            return Err(DispatchError::Module(Error::AssetGeneratingVCUNotFound));
        }
        if !(token_id > LAST_RESERVED_TOKEN_ID) {
            return Err(DispatchError::Module(Error::ReservedTokenId));
        }
        let ghost s0 = self@;
        if self.oracle_tokens.contains_key(&k) {
            let _ = self.oracle_tokens.take(&k);
        }
        self.oracle_tokens.insert(k, token_id);
        self.oracle_accounts.insert(k, oracle_account_id);
        proof {
            assert(self@.oracle_tokens =~= s0.oracle_tokens.insert(k, token_id));
            lemma_shares_frame(s0, self@);
        }
        self.deposit_event(
            Event::OraclesAccountMintingVCUAdded(agv_account_id, agv_id, oracle_account_id),
        );
        Ok(())
    }

    /// Removes the oracle of an AGV and its token. Root or authorized
    /// account; the oracle must exist.
    pub fn destroy_oracle_account_minting_vcu(
        &mut self,
        origin: Origin,
        agv_account_id: AccountId,
        agv_id: u32,
    ) -> (r: DispatchResult)
        requires
            old(self).wf(),
        ensures
            final(self).wf(),
            (r, final(self)@) == destroy_oracle_spec(old(self)@, origin, agv_account_id, agv_id),
    {
        self.ensure_root_or_authorized_account(origin)?;
        let k = AccountKey { account: agv_account_id, id: agv_id };
        if !self.oracle_accounts.contains_key(&k) {
            return Err(DispatchError::Module(Error::OraclesAccountMintingVCUNotFound));
        }
        let ghost s0 = self@;
        let _ = self.oracle_accounts.take(&k);
        let _ = self.oracle_tokens.take(&k);
        proof {
            lemma_shares_frame(s0, self@);
        }
        self.deposit_event(Event::OraclesAccountMintingVCUDestroyed(agv_account_id, agv_id));
        Ok(())
    }

    /// The start of a minting of VCU by an AGV's oracle: a signed sender that
    /// is the oracle, with a token. What is granted is then carried out with
    /// `MintRequest::token_creation`, `mint_payouts`, the minting of each
    /// payout in the assets pallet, and `complete_oracle_mint`.
    pub fn mint_vcu_from_oracle(
        &self,
        origin: Origin,
        agv_account_id: AccountId,
        agv_id: u32,
        amount_vcu: Balance,
    ) -> (r: Result<MintRequest, DispatchError>)
        requires
            self.wf(),
        ensures
            r == mint_vcu_from_oracle_spec(self@, origin, agv_account_id, agv_id, amount_vcu),
    {
        let sender = ensure_signed(origin)?;
        let k = AccountKey { account: agv_account_id, id: agv_id };
        let oracle_account: AccountId = match self.oracle_accounts.get(&k) {
            Some(a) => *a,
            None => {
                return Err(DispatchError::Module(Error::OraclesAccountMintingVCUNotFound));
            },
        };
        if !(oracle_account == sender) {
            return Err(DispatchError::Module(Error::OracleAccountNotMatchingSigner));
        }
        if !self.oracle_tokens.contains_key(&k) {
            return Err(DispatchError::Module(Error::OraclesTokenMintingVCUNotFound));
        }
        let token_id = stored_u32(&self.oracle_tokens, &k);
        Ok(
            MintRequest {
                agv_account_id,
                agv_id,
                token_id,
                token_owner: oracle_account,
                minter: agv_account_id,
                amount_vcu,
            },
        )
    }

    /// The end of an oracle's minting once every payout is minted.
    pub fn complete_oracle_mint(&mut self, req: &MintRequest)
        requires
            old(self).wf(),
        ensures
            final(self).wf(),
            final(self)@ == complete_oracle_mint_spec(old(self)@, *req),
    {
        self.deposit_event(
            Event::OracleAccountVCUMinted(req.agv_account_id, req.agv_id, req.token_owner),
        );
    }

    /// Stores (or replaces) a bundle of AGVs. Root or authorized account; the
    /// bundle's asset must exist in the assets pallet (`token_supply` is its
    /// total supply there, `None` where it does not exist) and so must every
    /// AGV of the bundle.
    pub fn create_bundle_agv(
        &mut self,
        origin: Origin,
        bundle_id: u32,
        info: BundleAssetGeneratingVCUContent,
        token_supply: Option<Balance>,
    ) -> (r: DispatchResult)
        requires
            old(self).wf(),
            info.description.len() <= old(self)@.config.max_description_length,
            info.bundle.len() <= old(self)@.config.max_bundle_size,
        ensures
            final(self).wf(),
            (r, final(self)@) == create_bundle_agv_spec(
                old(self)@,
                origin,
                bundle_id,
                info,
                token_supply,
            ),
    {
        self.ensure_root_or_authorized_account(origin)?;
        if token_supply.is_none() {
            return Err(DispatchError::Module(Error::AssetDoesNotExist));
        }
        let mut i: usize = 0;
        let ghost s_start = self@;
        while i < info.bundle.len()
            invariant
                self.wf(),
                self@ == s_start,
                authorizes(s_start, origin),
                token_supply is Some,
                i <= info.bundle@.len(),
                forall|j: int|
                    0 <= j < i ==> self@.assets_generating_vcu.contains_key(
                        agv_key(#[trigger] info.bundle@[j].account_id, info.bundle@[j].id),
                    ),
            decreases info.bundle@.len() - i,
        {
            let agv = info.bundle[i];
            if !self.assets_generating_vcu.contains_key(&AccountKey { account: agv.account_id, id: agv.id }) {
                assert(!self@.assets_generating_vcu.contains_key(
                    agv_key(info.bundle@[i as int].account_id, info.bundle@[i as int].id),
                ));
                return Err(DispatchError::Module(Error::AssetGeneratingVCUNotFound));
            }
            i = i + 1;
        }
        let ghost s0 = self@;
        self.bundles.insert(bundle_id, info);
        proof {
            lemma_state_wf_frame(s0, self@);
        }
        self.deposit_event(Event::AddedBundleAssetsGeneratingVCU(bundle_id));
        Ok(())
    }

    /// Removes a bundle of AGVs. Root only (any other origin is refused with
    /// `NotAuthorised`); the bundle must exist.
    pub fn destroy_bundle_agv(&mut self, origin: Origin, bundle_id: u32) -> (r: DispatchResult)
        requires
            old(self).wf(),
        ensures
            final(self).wf(),
            (r, final(self)@) == destroy_bundle_agv_spec(old(self)@, origin, bundle_id),
    {
        if ensure_root(origin).is_err() {
            return Err(DispatchError::Module(Error::NotAuthorised));
        }
        if !self.bundles.contains_key(&bundle_id) {
            return Err(DispatchError::Module(Error::BundleDoesNotExist));
        }
        let ghost s0 = self@;
        let _ = self.bundles.take(&bundle_id);
        proof {
            lemma_state_wf_frame(s0, self@);
        }
        self.deposit_event(Event::DestroyedBundleAssetsGeneratingVCU(bundle_id));
        Ok(())
    }
    /// The description of an authorized account, if it is one.
    pub fn get_authorized_accounts(&self, account_id: AccountId) -> (r: Option<&Vec<u8>>)
        requires
            self.wf(),
        ensures
            r == (if self@.authorized_accounts_agv.contains_key(account_id) {
                Some(&self@.authorized_accounts_agv[account_id])
            } else {
                None
            }),
    {
        self.authorized_accounts_agv.get(&account_id)
    }

    /// An Asset Generating VCU, if stored.
    pub fn asset_generating_vcu(&self, agv_account_id: AccountId, agv_id: u32) -> (r: Option<&AssetGeneratingVCUContent>)
        requires
            self.wf(),
        ensures
            r == (if self@.assets_generating_vcu.contains_key(agv_key(agv_account_id, agv_id)) {
                Some(&self@.assets_generating_vcu[agv_key(agv_account_id, agv_id)])
            } else {
                None
            }),
    {
        self.assets_generating_vcu.get(&AccountKey { account: agv_account_id, id: agv_id })
    }

    /// The shares of a holder in an AGV (0 where none are stored).
    pub fn asset_generating_vcu_shares(&self, agv_account_id: AccountId, agv_id: u32, holder: AccountId) -> (r: u32)
        requires
            self.wf(),
        ensures
            r == u32_at(shares_map(self@), share_key(agv_account_id, agv_id, holder)),
    {
        stored_u32(&self.shares, &ShareKey { agv_account: agv_account_id, agv_id, holder })
    }

    /// The shares minted for an AGV, less those burned (0 where none).
    pub fn asset_generating_vcu_shares_minted(&self, agv_account_id: AccountId, agv_id: u32) -> (r: u32)
        requires
            self.wf(),
        ensures
            r == u32_at(self@.shares_minted, agv_key(agv_account_id, agv_id)),
    {
        stored_u32(&self.shares_minted, &AccountKey { account: agv_account_id, id: agv_id })
    }

    /// The total of the shares ever minted for an AGV (0 where none).
    pub fn asset_generating_vcu_shares_minted_total(&self, agv_account_id: AccountId, agv_id: u32) -> (r: u32)
        requires
            self.wf(),
        ensures
            r == u32_at(self@.shares_minted_total, agv_key(agv_account_id, agv_id)),
    {
        stored_u32(&self.shares_minted_total, &AccountKey { account: agv_account_id, id: agv_id })
    }

    /// The minting schedule of an AGV, if stored.
    pub fn asset_generating_vcu_schedule(&self, agv_account_id: AccountId, agv_id: u32) -> (r: Option<AssetsGeneratingVCUScheduleContent>)
        requires
            self.wf(),
        ensures
            r == (if self@.schedules.contains_key(agv_key(agv_account_id, agv_id)) {
                Some(self@.schedules[agv_key(agv_account_id, agv_id)])
            } else {
                None
            }),
    {
        match self.schedules.get(&AccountKey { account: agv_account_id, id: agv_id }) {
            Some(v) => Some(*v),
            None => None,
        }
    }

    /// The time and amount of an AGV's last scheduled minting (both 0 where
    /// there was none).
    pub fn vcu_generated(&self, agv_account_id: AccountId, agv_id: u32) -> (r:
        AssetsGeneratingVCUGeneratedContent)
        requires
            self.wf(),
        ensures
            r == (if self@.generated.contains_key(agv_key(agv_account_id, agv_id)) {
                self@.generated[agv_key(agv_account_id, agv_id)]
            } else {
                AssetsGeneratingVCUGeneratedContent { timestamp: 0, amount_vcu: 0 }
            }),
    {
        match self.generated.get(&AccountKey { account: agv_account_id, id: agv_id }) {
            Some(record) => *record,
            None => AssetsGeneratingVCUGeneratedContent { timestamp: 0, amount_vcu: 0 },
        }
    }

    /// The VCU retired for an AGV (0 where none).
    pub fn vcu_burned_account(&self, agv_account_id: AccountId, agv_id: u32) -> (r: u128)
        requires
            self.wf(),
        ensures
            r == u128_at(self@.vcus_burned_accounts, agv_key(agv_account_id, agv_id)),
    {
        stored_u128(&self.vcus_burned_accounts, &AccountKey { account: agv_account_id, id: agv_id })
    }

    /// The VCU retired in a token (0 where none).
    pub fn vcu_burned(&self, token_id: u32) -> (r: u128)
        requires
            self.wf(),
        ensures
            r == u128_at(self@.vcus_burned, token_id),
    {
        stored_u128(&self.vcus_burned, &token_id)
    }

    /// The oracle of an AGV, if stored.
    pub fn oracle_account_generating_vcu(&self, agv_account_id: AccountId, agv_id: u32) -> (r: Option<AccountId>)
        requires
            self.wf(),
        ensures
            r == (if self@.oracle_accounts.contains_key(agv_key(agv_account_id, agv_id)) {
                Some(self@.oracle_accounts[agv_key(agv_account_id, agv_id)])
            } else {
                None
            }),
    {
        match self.oracle_accounts.get(&AccountKey { account: agv_account_id, id: agv_id }) {
            Some(v) => Some(*v),
            None => None,
        }
    }

    /// The token of an AGV's oracle (0 where none).
    pub fn oracle_tokenid_generating_vcu(&self, agv_account_id: AccountId, agv_id: u32) -> (r: u32)
        requires
            self.wf(),
        ensures
            r == u32_at(self@.oracle_tokens, agv_key(agv_account_id, agv_id)),
    {
        stored_u32(&self.oracle_tokens, &AccountKey { account: agv_account_id, id: agv_id })
    }

    /// A bundle of AGVs, if stored.
    pub fn bundle_asset_generating_vcu(&self, bundle_id: u32) -> (r: Option<&BundleAssetGeneratingVCUContent>)
        requires
            self.wf(),
        ensures
            r == (if self@.bundles.contains_key(bundle_id) {
                Some(&self@.bundles[bundle_id])
            } else {
                None
            }),
    {
        self.bundles.get(&bundle_id)
    }

    /// The retirements of an account in a token (0 where none).
    pub fn get_burn_count(&self, account_id: AccountId, token_id: u32) -> (r: u32)
        requires
            self.wf(),
        ensures
            r == u32_at(self@.burned_counter, agv_key(account_id, token_id)),
    {
        stored_u32(&self.burned_counter, &AccountKey { account: account_id, id: token_id })
    }
}

} // verus!
