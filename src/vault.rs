use vstd::prelude::*;
use crate::account::{account_id_is_valid, valid_account_id};
use crate::ledger::{LedgerError, ShareLedger};
use crate::metadata::{NFT141PairMetadata, NFT141PairMetadataProvider, NFT141_FT_METADATA_SPEC};

verus! {

/// Share units that one deposited asset is worth when a vault is created:
/// 100 whole units of 24 decimals.
pub const INITIAL_UNIT_VALUE: u128 = 100_000_000_000_000_000_000_000_000;

/// Decimals of a vault's share token.
pub const SHARE_DECIMALS: u8 = 24;

/// Why a vault refused an operation. A refused operation changes nothing and
/// requests nothing.
#[derive(Debug, Clone, Copy, PartialEq, Eq)]
pub enum VaultError {
    /// An account that must receive or hold assets is not a well-formed account id.
    InvalidAccount,
    /// The caller holds fewer shares than the assets it asks for are worth.
    InsufficientBalance,
    /// Only the registry that created the vault may change its parameters.
    Unauthorized,
    /// The unit value is zero, so no supply can be reported.
    ZeroUnitValue,
    /// The total supply is below one unit, so the seed unit is missing.
    SupplyUnderflow,
    /// The shares to mint do not fit in 128 bits.
    Overflow,
    /// The share ledger refused the change.
    Ledger(LedgerError),
}

/// A request to the asset registry: move asset `token_id` to `receiver_id`.
pub struct AssetTransfer {
    pub receiver_id: String,
    pub token_id: String,
}

/// The public view of a vault: its name, symbol, the number of deposited
/// assets that its shares represent, and its media link.
pub struct PairInfos {
    pub name: String,
    pub symbol: String,
    pub supply: u128,
    pub media: String,
}

impl PairInfos {
    pub open spec fn view(&self) -> (Seq<char>, Seq<char>, u128, Seq<char>) {
        (self.name@, self.symbol@, self.supply, self.media@)
    }

    pub fn duplicate(&self) -> (r: PairInfos)
        ensures
            r.view() == self.view(),
    {
        PairInfos {
            name: self.name.clone(),
            symbol: self.symbol.clone(),
            supply: self.supply,
            media: self.media.clone(),
        }
    }
}

/// The transfers of assets `ids`, in order, each to `receiver`.
pub open spec fn transfers_to(r: Seq<AssetTransfer>, ids: Seq<String>, receiver: Seq<char>) -> bool {
    &&& r.len() == ids.len()
    &&& forall|i: int|
        0 <= i < r.len() ==> (#[trigger] r[i]).receiver_id@ == receiver && r[i].token_id@
            == ids[i]@
}

/// A vault: it holds deposited assets of one origin and keeps the ledger of
/// the shares issued against them.
pub struct NFT141Pair {
    pub token: ShareLedger,
    pub metadata: NFT141PairMetadata,
    /// The registry that created the vault, the one principal allowed to change its parameters.
    pub factory_contract_address: String,
    /// The account of the vault itself, which takes custody of deposited assets.
    pub own_account: String,
    pub nft_contract_address: String,
    pub nft_value: u128,
    pub vault_name: String,
    pub vault_symbol: String,
    pub feature_media: String,
}

impl NFT141Pair {
    pub open spec fn wf(&self) -> bool {
        self.token.wf()
    }

    /// Shares of account `a`.
    pub open spec fn shares(&self, a: Seq<char>) -> nat {
        self.token.balance(a)
    }

    pub open spec fn supply(&self) -> nat {
        self.token.supply()
    }

    /// Whether the vault can report its supply: a nonzero unit and at least one unit issued.
    pub open spec fn reportable(&self) -> bool {
        self.nft_value > 0 && self.supply() >= self.nft_value
    }

    /// The number of deposited assets that the shares stand for: whole units
    /// of supply less the seed unit.
    pub open spec fn reported_supply(&self) -> int {
        self.supply() as int / self.nft_value as int - 1
    }

    /// What the vault shows of itself, where it can.
    pub open spec fn infos_view(&self) -> Option<(Seq<char>, Seq<char>, int, Seq<char>)> {
        if self.reportable() {
            Some((self.vault_name@, self.vault_symbol@, self.reported_supply(), self.feature_media@))
        } else {
            None
        }
    }

    /// `new` is `old` with `n` assets' worth of shares minted to `a`.
    pub open spec fn minted(old: NFT141Pair, new: NFT141Pair, a: Seq<char>, n: nat) -> bool {
        &&& new.shares(a) == old.shares(a) + n * old.nft_value
        &&& new.supply() == old.supply() + n * old.nft_value
        &&& forall|b: Seq<char>| b != a ==> #[trigger] new.shares(b) == old.shares(b)
        &&& NFT141Pair::same_params(old, new)
    }

    /// `new` is `old` with `n` assets' worth of shares of `a` burned.
    pub open spec fn burned(old: NFT141Pair, new: NFT141Pair, a: Seq<char>, n: nat) -> bool {
        &&& new.shares(a) == old.shares(a) - n * old.nft_value
        &&& new.supply() == old.supply() - n * old.nft_value
        &&& forall|b: Seq<char>| b != a ==> #[trigger] new.shares(b) == old.shares(b)
        &&& NFT141Pair::same_params(old, new)
    }

    /// Everything but the ledger is the same in `old` and `new`.
    pub open spec fn same_params(old: NFT141Pair, new: NFT141Pair) -> bool {
        &&& new.factory_contract_address == old.factory_contract_address
        &&& new.own_account == old.own_account
        &&& new.nft_contract_address == old.nft_contract_address
        &&& new.nft_value == old.nft_value
        &&& new.vault_name == old.vault_name
        &&& new.vault_symbol == old.vault_symbol
        &&& new.feature_media == old.feature_media
        &&& new.metadata == old.metadata
    }

    /// Creates a vault for assets of `nft_contract_address`, set up by
    /// `factory` and running as `own_account`. The vault's own account holds
    /// the seed unit: one unit of shares that no holder can redeem.
    pub fn init_vault(
        nft_contract_address: String,
        vault_name: String,
        vault_symbol: String,
        feature_media: String,
        factory: String,
        own_account: String,
    ) -> (r: NFT141Pair)
        ensures
            r.wf(),
            r.nft_value == INITIAL_UNIT_VALUE,
            r.supply() == INITIAL_UNIT_VALUE,
            r.shares(own_account@) == INITIAL_UNIT_VALUE,
            forall|b: Seq<char>| b != own_account@ ==> #[trigger] r.shares(b) == 0,
            r.token.registered(own_account@),
            forall|b: Seq<char>| b != own_account@ ==> !#[trigger] r.token.registered(b),
            r.factory_contract_address == factory,
            r.own_account == own_account,
            r.nft_contract_address == nft_contract_address,
            r.vault_name == vault_name,
            r.vault_symbol == vault_symbol,
            r.feature_media == feature_media,
            r.metadata.valid(),
            r.metadata.name@ == vault_name@,
            r.metadata.symbol@ == vault_symbol@,
            r.metadata.icon matches Some(i) && i@ == feature_media@,
            r.metadata.decimals == SHARE_DECIMALS,
            r.metadata.reference is None,
            r.metadata.reference_hash is None,
            r.reportable() && r.reported_supply() == 0,
    {
        let metadata = NFT141PairMetadata {
            spec: NFT141_FT_METADATA_SPEC.to_owned(),
            name: vault_name.clone(),
            symbol: vault_symbol.clone(),
            icon: Some(feature_media.clone()),
            reference: None,
            reference_hash: None,
            decimals: SHARE_DECIMALS,
        };
        let mut token = ShareLedger::new();
        let registered = token.register(&own_account);
        let deposited = token.deposit(&own_account, INITIAL_UNIT_VALUE);
        assert(registered is Ok);
        assert(deposited is Ok);
        assert(INITIAL_UNIT_VALUE as int / INITIAL_UNIT_VALUE as int == 1) by (nonlinear_arith);
        NFT141Pair {
            token,
            metadata,
            factory_contract_address: factory,
            own_account,
            nft_contract_address,
            nft_value: INITIAL_UNIT_VALUE,
            vault_name,
            vault_symbol,
            feature_media,
        }
    }

    /// The vault's public view. Refused, rather than underflowing, where the
    /// unit value is zero or the supply is below one unit.
    pub fn get_infos(&self) -> (r: Result<PairInfos, VaultError>)
        ensures
            r is Ok <==> self.reportable(),
            r == Err::<PairInfos, VaultError>(VaultError::ZeroUnitValue) <==> self.nft_value == 0,
            r == Err::<PairInfos, VaultError>(VaultError::SupplyUnderflow) <==> self.nft_value > 0
                && self.supply() < self.nft_value,
            r matches Ok(i) ==> self.infos_view() == Some(
                (i.name@, i.symbol@, i.supply as int, i.media@),
            ),
    {
        if self.nft_value == 0 {
            return Err(VaultError::ZeroUnitValue);
        }
        let total = self.token.total_supply();
        if total < self.nft_value {
            return Err(VaultError::SupplyUnderflow);
        }
        let units = total / self.nft_value;
        assert(units >= 1) by (nonlinear_arith)
            requires
                units == total as int / self.nft_value as int,
                total >= self.nft_value,
                self.nft_value > 0,
        ;
        Ok(
            PairInfos {
                name: self.vault_name.clone(),
                symbol: self.vault_symbol.clone(),
                supply: units - 1,
                media: self.feature_media.clone(),
            },
        )
    }

    pub fn get_nft_contract_address(&self) -> (r: String)
        ensures
            r@ == self.nft_contract_address@,
    {
        self.nft_contract_address.clone()
    }

    pub fn ft_total_supply(&self) -> (r: u128)
        ensures
            r == self.supply(),
    {
        self.token.total_supply()
    }

    pub fn ft_balance_of(&self, account: &String) -> (r: u128)
        requires
            self.wf(),
        ensures
            r == self.shares(account@),
    {
        self.token.balance_of(account)
    }

    /// Moves `amount` shares from `caller` to `receiver_id`. Both must hold
    /// accounts in the ledger; the total supply does not change.
    pub fn ft_transfer(&mut self, caller: &String, receiver_id: &String, amount: u128) -> (r: Result<
        (),
        VaultError,
    >)
        requires
            old(self).wf(),
        ensures
            final(self).wf(),
            r == Err::<(), VaultError>(VaultError::InvalidAccount) <==> !valid_account_id(receiver_id@),
            r is Ok <==> valid_account_id(receiver_id@) && caller@ != receiver_id@ && amount > 0
                && old(self).token.registered(caller@) && old(self).token.registered(receiver_id@)
                && old(self).shares(caller@) >= amount,
            r matches Err(VaultError::Ledger(e)) ==> valid_account_id(receiver_id@) && old(
                self,
            ).token.transfer_refusal(caller@, receiver_id@, amount) == Some(e),
            valid_account_id(receiver_id@) && old(self).token.transfer_refusal(
                caller@,
                receiver_id@,
                amount,
            ) is Some ==> r is Err,
            r is Err ==> *final(self) == *old(self),
            r is Ok ==> {
                &&& final(self).shares(caller@) == old(self).shares(caller@) - amount
                &&& final(self).shares(receiver_id@) == old(self).shares(receiver_id@) + amount
                &&& final(self).supply() == old(self).supply()
                &&& NFT141Pair::same_params(*old(self), *final(self))
            },
            forall|b: Seq<char>|
                b != caller@ && b != receiver_id@ ==> #[trigger] final(self).shares(b) == old(
                    self,
                ).shares(b),
    {
        if !account_id_is_valid(receiver_id) {
            return Err(VaultError::InvalidAccount);
        }
        match self.token.transfer(caller, receiver_id, amount) {
            Ok(()) => Ok(()),
            Err(e) => Err(VaultError::Ledger(e)),
        }
    }

    /// Swaps asset `token_in` of the signer for asset `token_out` of the
    /// vault: two independent transfers, the first into the vault's custody,
    /// the second to the signer. The shares are not touched, and nothing here
    /// checks that the vault holds `token_out`.
    pub fn swap171(&self, token_in: String, token_out: String, signer: &String) -> (r: Result<
        Vec<AssetTransfer>,
        VaultError,
    >)
        ensures
            r is Ok <==> valid_account_id(self.own_account@) && valid_account_id(signer@),
            r is Err ==> r == Err::<Vec<AssetTransfer>, VaultError>(VaultError::InvalidAccount),
            r matches Ok(t) ==> {
                &&& t@.len() == 2
                &&& t@[0].receiver_id@ == self.own_account@ && t@[0].token_id@ == token_in@
                &&& t@[1].receiver_id@ == signer@ && t@[1].token_id@ == token_out@
            },
    {
        if !account_id_is_valid(&self.own_account) || !account_id_is_valid(signer) {
            return Err(VaultError::InvalidAccount);
        }
        let mut t: Vec<AssetTransfer> = Vec::new();
        t.push(AssetTransfer { receiver_id: self.own_account.clone(), token_id: token_in });
        t.push(AssetTransfer { receiver_id: signer.clone(), token_id: token_out });
        Ok(t)
    }

    /// Deposits assets `ids` of `caller`: one transfer per asset into the
    /// vault's custody, and `nft_value` shares per asset minted to `caller`
    /// at once, before any transfer is confirmed. The caller's account is
    /// opened first where it has none.
    pub fn multi_nft_deposits(&mut self, ids: Vec<String>, caller: &String) -> (r: Result<
        Vec<AssetTransfer>,
        VaultError,
    >)
        requires
            old(self).wf(),
        ensures
            final(self).wf(),
            r is Ok <==> valid_account_id(old(self).own_account@) && ids@.len()
                * old(self).nft_value + old(self).supply() <= u128::MAX,
            r == Err::<Vec<AssetTransfer>, VaultError>(VaultError::InvalidAccount) <==> !valid_account_id(
                old(self).own_account@,
            ),
            r == Err::<Vec<AssetTransfer>, VaultError>(VaultError::Overflow) <==> valid_account_id(
                old(self).own_account@,
            ) && ids@.len() * old(self).nft_value + old(self).supply() > u128::MAX,
            r is Err ==> *final(self) == *old(self),
            r is Ok ==> NFT141Pair::minted(*old(self), *final(self), caller@, ids@.len()),
            r is Ok ==> final(self).token.registered(caller@),
            r matches Ok(t) ==> transfers_to(t@, ids@, old(self).own_account@),
    {
        if !account_id_is_valid(&self.own_account) {
            return Err(VaultError::InvalidAccount);
        }
        let count = ids.len() as u128;
        let amount = match count.checked_mul(self.nft_value) {
            Some(v) => v,
            None => return Err(VaultError::Overflow),
        };
        if self.token.total_supply().checked_add(amount).is_none() {
            return Err(VaultError::Overflow);
        }
        let transfers = transfers_of(&ids, &self.own_account);
        proof {
            self.token.lemma_balance_le_supply(caller@);
        }
        if !self.token.is_registered(caller) {
            let _ = self.token.register(caller);
        }
        let credited = self.token.deposit(caller, amount);
        assert(credited is Ok);
        Ok(transfers)
    }

    /// Redeems one unit of `caller`'s shares for asset `id`: the shares are
    /// burned at once, then the asset is sent to `caller`.
    pub fn withdraw(&mut self, id: String, caller: &String) -> (r: Result<
        Vec<AssetTransfer>,
        VaultError,
    >)
        requires
            old(self).wf(),
        ensures
            final(self).wf(),
            r is Ok <==> valid_account_id(caller@) && old(self).shares(caller@) >= old(self).nft_value,
            r == Err::<Vec<AssetTransfer>, VaultError>(VaultError::InvalidAccount) <==> !valid_account_id(caller@),
            r == Err::<Vec<AssetTransfer>, VaultError>(VaultError::InsufficientBalance) <==> valid_account_id(caller@)
                && old(self).shares(caller@) < old(self).nft_value,
            r is Err ==> *final(self) == *old(self),
            r is Ok ==> NFT141Pair::burned(*old(self), *final(self), caller@, 1),
            r matches Ok(t) ==> t@.len() == 1 && t@[0].receiver_id@ == caller@ && t@[0].token_id@ == id@,
    {
        if !account_id_is_valid(caller) {
            return Err(VaultError::InvalidAccount);
        }
        let balance = self.token.balance_of(caller);
        if balance < self.nft_value {
            return Err(VaultError::InsufficientBalance);
        }
        let burned = self.token.burn(caller, self.nft_value);
        assert(burned is Ok);
        let mut t: Vec<AssetTransfer> = Vec::new();
        t.push(AssetTransfer { receiver_id: caller.clone(), token_id: id });
        Ok(t)
    }

    /// Redeems `nft_value` shares of `caller` for each asset of `ids`: the
    /// shares are burned at once, then one transfer per asset goes to `caller`.
    pub fn batch_withdraw(&mut self, ids: Vec<String>, caller: &String) -> (r: Result<
        Vec<AssetTransfer>,
        VaultError,
    >)
        requires
            old(self).wf(),
        ensures
            final(self).wf(),
            r is Ok <==> valid_account_id(caller@) && old(self).shares(caller@) >= ids@.len()
                * old(self).nft_value,
            r == Err::<Vec<AssetTransfer>, VaultError>(VaultError::InvalidAccount) <==> !valid_account_id(caller@),
            r == Err::<Vec<AssetTransfer>, VaultError>(VaultError::InsufficientBalance) <==> valid_account_id(caller@)
                && old(self).shares(caller@) < ids@.len() * old(self).nft_value,
            r is Err ==> *final(self) == *old(self),
            r is Ok ==> NFT141Pair::burned(*old(self), *final(self), caller@, ids@.len()),
            r matches Ok(t) ==> transfers_to(t@, ids@, caller@),
    {
        if !account_id_is_valid(caller) {
            return Err(VaultError::InvalidAccount);
        }
        let balance = self.token.balance_of(caller);
        let count = ids.len() as u128;
        let amount = match count.checked_mul(self.nft_value) {
            Some(v) => v,
            None => return Err(VaultError::InsufficientBalance),
        };
        if balance < amount {
            return Err(VaultError::InsufficientBalance);
        }
        let burned = self.token.burn(caller, amount);
        assert(burned is Ok);
        Ok(transfers_of(&ids, caller))
    }

    /// Replaces the name, symbol, unit value and media, where `caller` is the
    /// registry that created the vault. Balances are not rescaled.
    #[allow(non_snake_case)]
    pub fn setParams(
        &mut self,
        caller: &String,
        name: String,
        symbol: String,
        value: u128,
        media: String,
    ) -> (r: Result<(), VaultError>)
        ensures
            NFT141Pair::params_set(*old(self), *final(self), caller@, name@, symbol@, value, media@),
            r is Ok <==> caller@ == old(self).factory_contract_address@,
            r is Err ==> r == Err::<(), VaultError>(VaultError::Unauthorized),
    {
        if *caller != self.factory_contract_address {
            return Err(VaultError::Unauthorized);
        }
        self.vault_name = name;
        self.vault_symbol = symbol;
        self.nft_value = value;
        self.feature_media = media;
        Ok(())
    }

    /// What `setParams` by `caller` makes of `old`: the new parameters where
    /// `caller` is the vault's registry, else nothing changes.
    pub open spec fn params_set(
        old: NFT141Pair,
        new: NFT141Pair,
        caller: Seq<char>,
        name: Seq<char>,
        symbol: Seq<char>,
        value: u128,
        media: Seq<char>,
    ) -> bool {
        if caller == old.factory_contract_address@ {
            &&& new.vault_name@ == name
            &&& new.vault_symbol@ == symbol
            &&& new.nft_value == value
            &&& new.feature_media@ == media
            &&& new.token == old.token
            &&& new.metadata == old.metadata
            &&& new.factory_contract_address == old.factory_contract_address
            &&& new.own_account == old.own_account
            &&& new.nft_contract_address == old.nft_contract_address
        } else {
            new == old
        }
    }
}

impl NFT141PairMetadataProvider for NFT141Pair {
    /// The metadata fixed when the vault was created; `setParams` does not change it.
    open spec fn provided_metadata(&self) -> NFT141PairMetadata {
        self.metadata
    }

    fn ft_metadata(&self) -> (r: NFT141PairMetadata) {
        self.metadata.duplicate()
    }
}

/// Minting `n` assets' worth of shares to an account and then burning as
/// many leaves every account's shares and the total supply as they were.
pub proof fn lemma_deposit_withdraw_round_trip(
    v0: NFT141Pair,
    v1: NFT141Pair,
    v2: NFT141Pair,
    a: Seq<char>,
    n: nat,
)
    requires
        NFT141Pair::minted(v0, v1, a, n),
        NFT141Pair::burned(v1, v2, a, n),
    ensures
        v2.supply() == v0.supply(),
        forall|b: Seq<char>| #[trigger] v2.shares(b) == v0.shares(b),
        NFT141Pair::same_params(v0, v2),
{
    assert forall|b: Seq<char>| #[trigger] v2.shares(b) == v0.shares(b) by {
        if b != a {
            assert(v1.shares(b) == v0.shares(b));
        }
    }
}

/// A parameter change by anyone but the vault's registry leaves what the
/// vault shows of itself unchanged; one by the registry shows the new name,
/// symbol and media, and the supply counted in the new unit value.
pub proof fn lemma_set_params_reflected(
    v: NFT141Pair,
    w: NFT141Pair,
    caller: Seq<char>,
    name: Seq<char>,
    symbol: Seq<char>,
    value: u128,
    media: Seq<char>,
)
    requires
        NFT141Pair::params_set(v, w, caller, name, symbol, value, media),
    ensures
        caller != v.factory_contract_address@ ==> w.infos_view() == v.infos_view(),
        caller == v.factory_contract_address@ && value > 0 && v.supply() >= value ==> w.infos_view()
            == Some((name, symbol, v.supply() as int / value as int - 1, media)),
        caller == v.factory_contract_address@ && !(value > 0 && v.supply() >= value) ==> w.infos_view()
            is None,
{
}

/// Transfers of each asset of `ids`, in order, to `receiver`.
fn transfers_of(ids: &Vec<String>, receiver: &String) -> (r: Vec<AssetTransfer>)
    ensures
        transfers_to(r@, ids@, receiver@),
{
    let mut r: Vec<AssetTransfer> = Vec::new();
    let mut i: usize = 0;
    while i < ids.len()
        invariant
            i <= ids@.len(),
            transfers_to(r@, ids@.take(i as int), receiver@),
        decreases ids@.len() - i,
    {
        r.push(AssetTransfer { receiver_id: receiver.clone(), token_id: ids[i].clone() });
        i = i + 1;
    }
    assert(ids@.take(ids@.len() as int) =~= ids@);
    r
}

} // verus!
