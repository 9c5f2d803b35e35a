use vstd::prelude::*;
use crate::account::{account_id_is_valid, valid_account_id};
use crate::naming::{get_pair_contract_name, pair_account_of};
use crate::vault::PairInfos;

verus! {

/// Funding sent along with the creation of a vault's account: two and a half
/// whole units of 24 decimals.
pub const VAULT_FUNDING: u128 = 2_500_000_000_000_000_000_000_000;

/// The vault created for an asset origin, and its place in creation order.
pub struct VaultRecord {
    pub index: u64,
    pub origin: String,
    pub vault_address: String,
}

/// How a remote call that the registry waits on came back.
pub enum PromiseOutcome {
    NotReady,
    Failed,
    Successful(PairInfos),
}

/// What the host must do to bring up a new vault: create and fund account
/// `account`, deploy the vault there and call its constructor with the rest.
pub struct VaultDeployment {
    pub account: String,
    pub funding: u128,
    pub nft_contract_address: String,
    pub vault_name: String,
    pub vault_symbol: String,
    pub feature_media: String,
}

/// A parameter change to forward to vault `pair`.
pub struct SetParamsCall {
    pub pair: String,
    pub name: String,
    pub symbol: String,
    pub value: u128,
    pub media: String,
}

/// Why the registry refused an operation. A refused operation changes nothing.
#[derive(Debug, Clone, Copy, PartialEq, Eq)]
pub enum RegistryError {
    /// A vault for this origin exists already.
    AlreadyRegistered,
    /// The signer is not a well-formed account id.
    InvalidAccount,
    /// No index is left for another vault.
    CounterExhausted,
    /// No vault has this index.
    NotFound,
    /// Only the registry's administrator may do this.
    Unauthorized,
    /// The call did not resume exactly one remote call.
    NotACallback,
    /// The remote call has not resolved.
    CallPending,
    /// The remote call failed.
    CallFailed,
}

/// The registry: it creates one vault per asset origin, indexes them in
/// creation order, and caches the public views that vaults send back.
pub struct NFT141Factory {
    records: Vec<VaultRecord>,
    pairs_info: Vec<PairInfos>,
    counter: u64,
    fee: u128,
    owner: Option<String>,
}

impl NFT141Factory {
    pub closed spec fn records(&self) -> Seq<VaultRecord> {
        self.records@
    }

    /// The cached public views, in the order they arrived.
    pub closed spec fn cache(&self) -> Seq<PairInfos> {
        self.pairs_info@
    }

    pub closed spec fn fee_rate(&self) -> u128 {
        self.fee
    }

    /// The administrator, where one is configured.
    pub closed spec fn admin(&self) -> Option<Seq<char>> {
        match self.owner {
            Some(o) => Some(o@),
            None => None,
        }
    }

    pub open spec fn count(&self) -> nat {
        self.records().len()
    }

    pub open spec fn registered(&self, origin: Seq<char>) -> bool {
        exists|i: int| 0 <= i < self.count() && (#[trigger] self.records()[i]).origin@ == origin
    }

    /// Records are numbered from 0 in order, and no origin has two.
    pub closed spec fn wf(&self) -> bool {
        &&& self.counter as nat == self.records@.len()
        &&& forall|i: int| 0 <= i < self.records@.len() ==> (#[trigger] self.records@[i]).index == i
        &&& forall|i: int, j: int|
            0 <= i < j < self.records@.len() ==> (#[trigger] self.records@[i]).origin@
                != (#[trigger] self.records@[j]).origin@
    }

    /// `new` is `old` with one more vault, for `origin` at `address`.
    pub open spec fn vault_added(
        old: NFT141Factory,
        new: NFT141Factory,
        origin: Seq<char>,
        address: Seq<char>,
    ) -> bool {
        &&& new.count() == old.count() + 1
        &&& new.records().drop_last() == old.records()
        &&& new.records().last().index == old.count()
        &&& new.records().last().origin@ == origin
        &&& new.records().last().vault_address@ == address
        &&& new.cache() == old.cache()
        &&& new.fee_rate() == old.fee_rate()
        &&& new.admin() == old.admin()
    }

    /// `new` is `old` with `info` appended to the cache.
    pub open spec fn info_arrived(old: NFT141Factory, new: NFT141Factory, info: (
        Seq<char>,
        Seq<char>,
        u128,
        Seq<char>,
    )) -> bool {
        &&& new.cache().len() == old.cache().len() + 1
        &&& new.cache().drop_last() == old.cache()
        &&& new.cache().last().view() == info
        &&& new.records() == old.records()
        &&& new.fee_rate() == old.fee_rate()
        &&& new.admin() == old.admin()
    }

    /// A registry with no vaults, an empty cache and administrator `owner`.
    pub fn with_owner(owner: String) -> (r: NFT141Factory)
        ensures
            r.wf(),
            r.count() == 0,
            r.cache().len() == 0,
            r.fee_rate() == 0,
            r.admin() == Some(owner@),
    {
        NFT141Factory {
            records: Vec::new(),
            pairs_info: Vec::new(),
            counter: 0,
            fee: 0,
            owner: Some(owner),
        }
    }

    fn find_origin(&self, origin: &String) -> (r: bool)
        ensures
            r == self.registered(origin@),
    {
        let mut i: usize = 0;
        while i < self.records.len()
            invariant
                i <= self.records@.len(),
                forall|j: int| 0 <= j < i ==> (#[trigger] self.records@[j]).origin@ != origin@,
            decreases self.records@.len() - i,
        {
            if self.records[i].origin == *origin {
                assert(self.records()[i as int].origin@ == origin@);
                return true;
            }
            i = i + 1;
        }
        false
    }

    /// Creates the vault for asset origin `nft_origin`, at the account named
    /// after `nft_symbol` under `factory_account`, on behalf of `signer`. The
    /// record is kept at once, before the vault's constructor has run.
    #[allow(non_snake_case)]
    pub fn nft141Pair(
        &mut self,
        name: String,
        nft_origin: String,
        nft_symbol: String,
        feature_media: String,
        factory_account: &String,
        signer: &String,
    ) -> (r: Result<VaultDeployment, RegistryError>)
        requires
            old(self).wf(),
        ensures
            final(self).wf(),
            r == Err::<VaultDeployment, RegistryError>(RegistryError::AlreadyRegistered) <==> old(
                self,
            ).registered(nft_origin@),
            r == Err::<VaultDeployment, RegistryError>(RegistryError::InvalidAccount) <==> !old(
                self,
            ).registered(nft_origin@) && !valid_account_id(signer@),
            r == Err::<VaultDeployment, RegistryError>(RegistryError::CounterExhausted) <==> !old(
                self,
            ).registered(nft_origin@) && valid_account_id(signer@) && old(self).count() == u64::MAX,
            r is Ok <==> !old(self).registered(nft_origin@) && valid_account_id(signer@) && old(
                self,
            ).count() < u64::MAX,
            r is Err ==> *final(self) == *old(self),
            r matches Ok(d) ==> {
                &&& NFT141Factory::vault_added(*old(self), *final(self), nft_origin@, d.account@)
                &&& d.account@ == pair_account_of(nft_symbol@, factory_account@)
                &&& d.funding == VAULT_FUNDING
                &&& d.nft_contract_address@ == nft_origin@
                &&& d.vault_name@ == name@
                &&& d.vault_symbol@ == nft_symbol@
                &&& d.feature_media@ == feature_media@
            },
    {
        if self.find_origin(&nft_origin) {
            return Err(RegistryError::AlreadyRegistered);
        }
        if !account_id_is_valid(signer) {
            return Err(RegistryError::InvalidAccount);
        }
        if self.counter == u64::MAX {
            return Err(RegistryError::CounterExhausted);
        }
        let pair_contract = get_pair_contract_name(&nft_symbol, factory_account);
        let ghost before = self.records@;
        let ghost f0 = *self;
        self.records.push(
            VaultRecord {
                index: self.counter,
                origin: nft_origin.clone(),
                vault_address: pair_contract.clone(),
            },
        );
        self.counter = self.counter + 1;
        proof {
            assert(self.records@.drop_last() =~= before);
            assert forall|i: int, j: int|
                0 <= i < j < self.records@.len() implies (#[trigger] self.records@[i]).origin@
                != (#[trigger] self.records@[j]).origin@ by {
                if j == self.records@.len() - 1 {
                    assert(before[i] == self.records@[i]);
                    assert(f0.records()[i] == before[i]);
                    assert(before[i].origin@ != nft_origin@);
                } else {
                    assert(before[i] == self.records@[i] && before[j] == self.records@[j]);
                }
            }
        }
        Ok(
            VaultDeployment {
                account: pair_contract,
                funding: VAULT_FUNDING,
                nft_contract_address: nft_origin,
                vault_name: name,
                vault_symbol: nft_symbol,
                feature_media,
            },
        )
    }

    /// The address of the vault with index `index`, to which the host sends a
    /// request for its public view, resuming in `pair_info_callback`.
    #[allow(non_snake_case)]
    pub fn getPairByNftAddress(&self, index: u64) -> (r: Result<String, RegistryError>)
        requires
            self.wf(),
        ensures
            r is Ok <==> index < self.count(),
            r is Err ==> r == Err::<String, RegistryError>(RegistryError::NotFound),
            r matches Ok(a) ==> a@ == self.records()[index as int].vault_address@,
    {
        match self.getPairAddressByIndex(index) {
            Some(a) => Ok(a),
            None => Err(RegistryError::NotFound),
        }
    }

    /// Clears the cache and returns the address of every vault, in index
    /// order: the host requests each one's public view. The views arrive in
    /// any order.
    #[allow(non_snake_case)]
    pub fn refreshAllPairsInfo(&mut self) -> (r: Vec<String>)
        requires
            old(self).wf(),
        ensures
            final(self).wf(),
            final(self).cache().len() == 0,
            final(self).records() == old(self).records(),
            final(self).fee_rate() == old(self).fee_rate(),
            final(self).admin() == old(self).admin(),
            r@.len() == old(self).count(),
            forall|i: int| 0 <= i < r@.len() ==> (#[trigger] r@[i])@ == old(self).records()[i].vault_address@,
    {
        self.pairs_info.clear();
        let mut r: Vec<String> = Vec::new();
        let mut i: usize = 0;
        while i < self.records.len()
            invariant
                i <= self.records@.len(),
                r@.len() == i,
                forall|j: int| 0 <= j < i ==> (#[trigger] r@[j])@ == self.records@[j].vault_address@,
            decreases self.records@.len() - i,
        {
            r.push(self.records[i].vault_address.clone());
            i = i + 1;
        }
        r
    }

    /// A copy of the cache, in arrival order.
    #[allow(non_snake_case)]
    pub fn getAllPairsInfo(&self) -> (r: Vec<PairInfos>)
        ensures
            r@.len() == self.cache().len(),
            forall|i: int| 0 <= i < r@.len() ==> (#[trigger] r@[i]).view() == self.cache()[i].view(),
    {
        let mut r: Vec<PairInfos> = Vec::new();
        let mut i: usize = 0;
        while i < self.pairs_info.len()
            invariant
                i <= self.pairs_info@.len(),
                r@.len() == i,
                forall|j: int| 0 <= j < i ==> (#[trigger] r@[j]).view() == self.pairs_info@[j].view(),
            decreases self.pairs_info@.len() - i,
        {
            r.push(self.pairs_info[i].duplicate());
            i = i + 1;
        }
        r
    }

    /// The address of the vault with index `index`, where there is one.
    #[allow(non_snake_case)]
    pub fn getPairAddressByIndex(&self, index: u64) -> (r: Option<String>)
        requires
            self.wf(),
        ensures
            r is Some <==> index < self.count(),
            r matches Some(a) ==> a@ == self.records()[index as int].vault_address@,
    {
        if index >= self.counter {
            return None;
        }
        let n: usize = self.records.len();
        assert(index < n);
        let i: usize = index as usize;
        Some(self.records[i].vault_address.clone())
    }

    /// The asset origin of the vault with index `index`, where there is one.
    pub fn index_to_nft(&self, index: u64) -> (r: Option<String>)
        requires
            self.wf(),
        ensures
            r is Some <==> index < self.count(),
            r matches Some(o) ==> o@ == self.records()[index as int].origin@,
    {
        if index >= self.counter {
            return None;
        }
        let n: usize = self.records.len();
        assert(index < n);
        let i: usize = index as usize;
        Some(self.records[i].origin.clone())
    }

    /// The number of vaults created.
    #[allow(non_snake_case)]
    pub fn getCounter(&self) -> (r: u64)
        requires
            self.wf(),
        ensures
            r == self.count(),
    {
        self.counter
    }

    /// A parameter change for vault `pair`, to be forwarded to it, where
    /// `caller` is the registry's administrator.
    #[allow(non_snake_case)]
    pub fn setValue(
        &self,
        caller: &String,
        pair: String,
        name: String,
        symbol: String,
        value: u128,
        media: String,
    ) -> (r: Result<SetParamsCall, RegistryError>)
        ensures
            r is Ok <==> self.admin() == Some(caller@),
            r is Err ==> r == Err::<SetParamsCall, RegistryError>(RegistryError::Unauthorized),
            r matches Ok(c) ==> c.pair@ == pair@ && c.name@ == name@ && c.symbol@ == symbol@ && c.value
                == value && c.media@ == media@,
    {
        match &self.owner {
            Some(o) => {
                if *o != *caller {
                    return Err(RegistryError::Unauthorized);
                }
            },
            None => return Err(RegistryError::Unauthorized),
        }
        Ok(SetParamsCall { pair, name, symbol, value, media })
    }

    /// The stored fee rate.
    pub fn fee(&self) -> (r: u128)
        ensures
            r == self.fee_rate(),
    {
        self.fee
    }

    /// Stores the fee rate; no operation here reads it.
    #[allow(non_snake_case)]
    pub fn setFee(&mut self, fee: u128)
        requires
            old(self).wf(),
        ensures
            final(self).wf(),
            final(self).fee_rate() == fee,
            final(self).records() == old(self).records(),
            final(self).cache() == old(self).cache(),
            final(self).admin() == old(self).admin(),
    {
        self.fee = fee;
    }

    /// Resumes after a vault's public view was requested. Exactly one result
    /// must be handed in; where it is a success, the view is appended to the
    /// cache and returned, else nothing changes.
    pub fn pair_info_callback(&mut self, results: Vec<PromiseOutcome>) -> (r: Result<
        PairInfos,
        RegistryError,
    >)
        requires
            old(self).wf(),
        ensures
            final(self).wf(),
            r == Err::<PairInfos, RegistryError>(RegistryError::NotACallback) <==> results@.len() != 1,
            r == Err::<PairInfos, RegistryError>(RegistryError::CallPending) <==> results@.len() == 1
                && results@[0] is NotReady,
            r == Err::<PairInfos, RegistryError>(RegistryError::CallFailed) <==> results@.len() == 1
                && results@[0] is Failed,
            r is Err ==> *final(self) == *old(self),
            r is Ok <==> results@.len() == 1 && results@[0] is Successful,
            r matches Ok(i) ==> {
                &&& results@[0] matches PromiseOutcome::Successful(s) && s.view() == i.view()
                &&& NFT141Factory::info_arrived(*old(self), *final(self), i.view())
            },
    {
        if results.len() != 1 {
            return Err(RegistryError::NotACallback);
        }
        let mut results = results;
        let outcome = results.pop();
        match outcome {
            Some(PromiseOutcome::Successful(info)) => {
                let copy = info.duplicate();
                let ghost old_cache = self.pairs_info@;
                self.pairs_info.push(info);
                assert(self.pairs_info@.drop_last() =~= old_cache);
                Ok(copy)
            },
            Some(PromiseOutcome::NotReady) => Err(RegistryError::CallPending),
            _ => Err(RegistryError::CallFailed),
        }
    }

    /// Records are numbered from 0 in creation order: the next vault gets the
    /// current count, so indices strictly increase and no origin repeats.
    pub proof fn lemma_indices_in_order(&self)
        requires
            self.wf(),
        ensures
            forall|i: int| 0 <= i < self.count() ==> (#[trigger] self.records()[i]).index == i,
            forall|i: int, j: int|
                0 <= i < j < self.count() ==> (#[trigger] self.records()[i]).index < (
                #[trigger] self.records()[j]).index,
            forall|i: int, j: int|
                0 <= i < j < self.count() ==> (#[trigger] self.records()[i]).origin@ != (
                #[trigger] self.records()[j]).origin@,
    {
    }
}

impl Default for NFT141Factory {
    /// A registry with no vaults and no administrator.
    fn default() -> (r: NFT141Factory)
        ensures
            r.wf(),
            r.count() == 0,
            r.cache().len() == 0,
            r.fee_rate() == 0,
            r.admin() is None,
    {
        NFT141Factory { records: Vec::new(), pairs_info: Vec::new(), counter: 0, fee: 0, owner: None }
    }
}

/// Once a vault for `origin` is added, the origin is registered: a second
/// creation for it is refused. The new vault's index is the count before.
pub proof fn lemma_registered_after_add(
    f0: NFT141Factory,
    f1: NFT141Factory,
    origin: Seq<char>,
    address: Seq<char>,
)
    requires
        NFT141Factory::vault_added(f0, f1, origin, address),
    ensures
        f1.registered(origin),
        f1.records()[f0.count() as int].index == f0.count(),
        forall|o: Seq<char>| f0.registered(o) ==> #[trigger] f1.registered(o),
{
    assert(f1.records()[f1.count() - 1].origin@ == origin);
    assert forall|o: Seq<char>| f0.registered(o) implies #[trigger] f1.registered(o) by {
        let i = choose|i: int| 0 <= i < f0.count() && (#[trigger] f0.records()[i]).origin@ == o;
        assert(f1.records().drop_last()[i] == f1.records()[i]);
    }
}

/// Starting from an empty cache, views that arrive one by one fill the cache
/// with exactly those views, in arrival order; so it holds as many as arrived,
/// and the same multiset of views whatever the order of arrival.
pub proof fn lemma_cache_holds_arrivals(
    states: Seq<NFT141Factory>,
    arrivals: Seq<(Seq<char>, Seq<char>, u128, Seq<char>)>,
)
    requires
        states.len() == arrivals.len() + 1,
        states[0].cache().len() == 0,
        forall|i: int|
            0 <= i < arrivals.len() ==> NFT141Factory::info_arrived(
                #[trigger] states[i],
                states[i + 1],
                arrivals[i],
            ),
    ensures
        states.last().cache().len() == arrivals.len(),
        states.last().cache().map_values(|p: PairInfos| p.view()) == arrivals,
        states.last().cache().map_values(|p: PairInfos| p.view()).to_multiset()
            == arrivals.to_multiset(),
    decreases arrivals.len(),
{
    if arrivals.len() > 0 {
        let n = arrivals.len() - 1;
        assert(NFT141Factory::info_arrived(states[n], states[n + 1], arrivals[n]));
        lemma_cache_holds_arrivals(states.drop_last(), arrivals.drop_last());
        let prev = states[n].cache();
        let last = states.last().cache();
        assert(last.drop_last() == prev);
        assert(last.map_values(|p: PairInfos| p.view()) =~= arrivals) by {
            assert(prev.map_values(|p: PairInfos| p.view()) == arrivals.drop_last());
            assert forall|k: int| 0 <= k < last.len() implies last.map_values(
                |p: PairInfos| p.view(),
            )[k] == arrivals[k] by {
                if k < n {
                    assert(last[k] == prev[k]);
                    assert(prev.map_values(|p: PairInfos| p.view())[k] == arrivals.drop_last()[k]);
                }
            }
        }
    }
}

} // verus!
