use vstd::prelude::*;
use crate::accounts::{accounts_wf, credit, debit, find_entity, has_entity, is_whitelisted, set_flag};
use crate::delegation::{
    authorized, edge_of, edges_wf, grant_operator, granted, has_edge, is_authorized, revoke_operator,
};
use crate::events::CEP47Event;
use crate::index::{has_hash, has_ordinal, has_pair, lemma_resolve_round_trip, IdentifierIndex};
use crate::tally::{
    count_live, count_owner, lemma_count_bound, lemma_count_positive, lemma_count_push,
    lemma_count_update, lemma_count_zero, sum_balances,
};
use crate::types::{
    BurnMode, Entity, EntityData, EventsMode, MetadataMutability, MintingMode, NFTIdentifierMode,
    NFTKind, NFTMetadataKind, NftError, OperatorEntry, OwnershipMode, TokenData, TokenIdentifier,
    WhitelistMode,
};

verus! {

/// The deployment-time policy of a registry, fixed at construction.
pub struct PolicyConfig {
    pub identifier_mode: NFTIdentifierMode,
    pub ownership_mode: OwnershipMode,
    pub minting_mode: MintingMode,
    pub whitelist_mode: WhitelistMode,
    pub metadata_mutability: MetadataMutability,
    pub burn_mode: BurnMode,
    pub events_mode: EventsMode,
    pub base_metadata_kind: NFTMetadataKind,
    pub nft_kind: NFTKind,
    pub acl_whitelist: Vec<Entity>,
    pub acl_package_mode: bool,
    pub package_operator_mode: bool,
    pub operator_burn_mode: bool,
}

/// The mutable tables of a registry. Token records are stored by ordinal:
/// the record of the `n`-th minted token is `data[n]`, and under hash
/// identifiers `index` pairs `n` with that token's content hash.
pub struct StateStore {
    pub operators: Vec<OperatorEntry>,
    pub entity_data: Vec<(Entity, EntityData)>,
    pub data: Vec<TokenData>,
    pub index: IdentifierIndex,
    pub burned_tokens: Vec<u64>,
    pub json_schema: Option<String>,
}

impl Default for StateStore {
    fn default() -> (r: StateStore)
        ensures
            r.operators@.len() == 0,
            r.entity_data@.len() == 0,
            r.data@.len() == 0,
            r.index@.len() == 0,
            r.index.wf(),
            r.burned_tokens@.len() == 0,
            r.json_schema is None,
    {
        StateStore {
            operators: Vec::new(),
            entity_data: Vec::new(),
            data: Vec::new(),
            index: IdentifierIndex::new(),
            burned_tokens: Vec::new(),
            json_schema: None,
        }
    }
}

/// A whole registry: collection counters, policy, and tables.
pub struct CEP78State {
    pub collection_name: String,
    pub collection_symbol: String,
    pub total_token_supply: u64,
    pub allow_minting: bool,
    pub minting_mode: MintingMode,
    pub ownership_mode: OwnershipMode,
    pub nft_kind: NFTKind,
    pub whitelist_mode: WhitelistMode,
    pub acl_whitelist: Vec<Entity>,
    pub acl_package_mode: bool,
    pub package_operator_mode: bool,
    pub package_hash: String,
    pub base_metadata_kind: NFTMetadataKind,
    pub optional_metadata: Vec<u8>,
    pub additional_required_metadata: Vec<u8>,
    pub identifier_mode: NFTIdentifierMode,
    pub metadata_mutability: MetadataMutability,
    pub installer: Entity,
    pub events_mode: EventsMode,
    pub minted_tokens_count: u64,
    pub burn_mode: BurnMode,
    pub operator_burn_mode: bool,
    pub store: StateStore,
}

/// A policy combination that construction rejects: a zero supply, or
/// ACL minting under a locked whitelist with an empty ACL, where nobody
/// could ever mint.
pub open spec fn config_invalid(total_token_supply: u64, policy: PolicyConfig) -> bool {
    total_token_supply == 0 || (policy.minting_mode == MintingMode::Acl && policy.whitelist_mode
        == WhitelistMode::Locked && policy.acl_whitelist@.len() == 0)
}

/// A record after its owner became `owner`: the approval is cleared,
/// issuer and metadata stay.
pub open spec fn reassigned(d: TokenData, owner: Option<Entity>) -> TokenData {
    TokenData { approved: None, issuer: d.issuer, owner, metadata: d.metadata }
}

/// A record with a new approval and metadata; owner and issuer stay.
pub open spec fn refilled(d: TokenData, approved: Option<Entity>, metadata: String) -> TokenData {
    TokenData { approved, issuer: d.issuer, owner: d.owner, metadata }
}

/// The record a mint creates.
pub open spec fn new_record(issuer: Entity, owner: Entity, metadata: String) -> TokenData {
    TokenData { approved: None, issuer: Some(issuer), owner: Some(owner), metadata }
}

impl CEP78State {
    pub open spec fn tokens(&self) -> Seq<TokenData> {
        self.store.data@
    }

    pub open spec fn accounts(&self) -> Seq<(Entity, EntityData)> {
        self.store.entity_data@
    }

    /// Ordinal `o` names a token that has been burned.
    pub open spec fn is_burned(&self, o: int) -> bool {
        0 <= o < self.tokens().len() && self.tokens()[o].owner is None
    }

    /// The registry's invariant.
    pub open spec fn wf(&self) -> bool {
        let t = self.tokens();
        let a = self.accounts();
        &&& t.len() == self.minted_tokens_count
        &&& self.minted_tokens_count <= self.total_token_supply
        &&& forall|i: int| 0 <= i < t.len() ==> (#[trigger] t[i]).issuer is Some
        &&& forall|i: int| 0 <= i < t.len() && (#[trigger] t[i]).owner is None ==> t[i].approved is None
        &&& forall|o: u64| self.store.burned_tokens@.contains(o) == self.is_burned(o as int)
        &&& accounts_wf(a)
        &&& forall|k: int| 0 <= k < a.len() ==> (#[trigger] a[k]).1.balance == count_owner(t, Some(a[k].0))
        &&& forall|i: int| 0 <= i < t.len() && (#[trigger] t[i]).owner is Some ==> has_entity(a, t[i].owner->0)
        &&& sum_balances(a) == count_live(t)
        &&& edges_wf(self.store.operators@)
        &&& self.store.index.wf()
        &&& self.identifier_mode == NFTIdentifierMode::Ordinal ==> self.store.index@.len() == 0
        &&& self.identifier_mode == NFTIdentifierMode::Hash ==> self.store.index@.len() == t.len()
            && forall|i: int| 0 <= i < t.len() ==> (#[trigger] self.store.index@[i]).0 == i
    }

    /// Everything that no token operation may change.
    pub open spec fn config_kept(&self, prev: &CEP78State) -> bool {
        &&& self.collection_name == prev.collection_name
        &&& self.collection_symbol == prev.collection_symbol
        &&& self.total_token_supply == prev.total_token_supply
        &&& self.minting_mode == prev.minting_mode
        &&& self.ownership_mode == prev.ownership_mode
        &&& self.nft_kind == prev.nft_kind
        &&& self.whitelist_mode == prev.whitelist_mode
        &&& self.acl_whitelist@ == prev.acl_whitelist@
        &&& self.identifier_mode == prev.identifier_mode
        &&& self.metadata_mutability == prev.metadata_mutability
        &&& self.installer == prev.installer
        &&& self.events_mode == prev.events_mode
        &&& self.burn_mode == prev.burn_mode
        &&& self.operator_burn_mode == prev.operator_burn_mode
    }

    /// The ordinal of the token that `token` names, if it names one.
    pub open spec fn ordinal_of(&self, token: TokenIdentifier) -> Option<int> {
        match token {
            TokenIdentifier::Ordinal(n) => if self.identifier_mode == NFTIdentifierMode::Ordinal
                && n < self.tokens().len() {
                Some(n as int)
            } else {
                None
            },
            TokenIdentifier::Hash(h) => if self.identifier_mode == NFTIdentifierMode::Hash
                && has_hash(self.store.index@, h@) {
                Some((choose|o: u64| has_pair(self.store.index@, o, h@)) as int)
            } else {
                None
            },
        }
    }

    /// The identifier of the token with ordinal `o`, as plain data.
    pub open spec fn key_of(&self, o: int) -> (Option<u64>, Seq<char>) {
        if self.identifier_mode == NFTIdentifierMode::Ordinal {
            (Some(o as u64), Seq::empty())
        } else {
            (None, self.store.index@[o].1)
        }
    }

    /// The live balance of `e`: how many unburned tokens it owns.
    pub open spec fn balance_spec(&self, e: Entity) -> nat {
        count_owner(self.tokens(), Some(e))
    }

    /// Whether `caller` may mint under the registry's minting mode.
    pub open spec fn can_mint_spec(&self, caller: Entity) -> bool {
        match self.minting_mode {
            MintingMode::Installer => caller == self.installer,
            MintingMode::Public => true,
            MintingMode::Acl => self.acl_whitelist@.contains(caller) && (self.whitelist_mode
                == WhitelistMode::Unlocked || is_whitelisted(self.accounts(), caller)),
        }
    }

    /// Why a mint by `caller` with content hash `hash` is rejected, if it is.
    pub open spec fn mint_error(&self, caller: Entity, hash: Seq<char>) -> Option<NftError> {
        if !self.allow_minting {
            Some(NftError::MintingDisabled)
        } else if !self.can_mint_spec(caller) {
            Some(NftError::Unauthorized)
        } else if self.minted_tokens_count >= self.total_token_supply {
            Some(NftError::SupplyExhausted)
        } else if self.identifier_mode == NFTIdentifierMode::Hash && has_hash(self.store.index@, hash) {
            Some(NftError::DuplicateIdentifier)
        } else {
            None
        }
    }

    /// Builds an empty registry, or rejects an unsupported policy
    /// combination with `ConfigurationError`.
    pub fn new(
        collection_name: String,
        collection_symbol: String,
        total_token_supply: u64,
        installer: Entity,
        policy: PolicyConfig,
    ) -> (r: Result<CEP78State, NftError>)
        ensures
            config_invalid(total_token_supply, policy) ==> r == Err::<CEP78State, NftError>(
                NftError::ConfigurationError,
            ),
            !config_invalid(total_token_supply, policy) ==> r is Ok,
            r matches Ok(s) ==> s.wf() && s.tokens().len() == 0 && s.accounts().len() == 0
                && s.store.operators@.len() == 0 && s.allow_minting && s.collection_name
                == collection_name && s.collection_symbol == collection_symbol
                && s.total_token_supply == total_token_supply && s.installer == installer
                && s.identifier_mode == policy.identifier_mode && s.ownership_mode
                == policy.ownership_mode && s.minting_mode == policy.minting_mode
                && s.whitelist_mode == policy.whitelist_mode && s.metadata_mutability
                == policy.metadata_mutability && s.burn_mode == policy.burn_mode && s.events_mode
                == policy.events_mode && s.acl_whitelist@ == policy.acl_whitelist@
                && s.operator_burn_mode == policy.operator_burn_mode,
    {
        if total_token_supply == 0 {
            return Err(NftError::ConfigurationError);
        }
        if policy.minting_mode == MintingMode::Acl && policy.whitelist_mode == WhitelistMode::Locked
            && policy.acl_whitelist.len() == 0 {
            return Err(NftError::ConfigurationError);
        }
        let store = StateStore::default();
        let s = CEP78State {
            collection_name,
            collection_symbol,
            total_token_supply,
            allow_minting: true,
            minting_mode: policy.minting_mode,
            ownership_mode: policy.ownership_mode,
            nft_kind: policy.nft_kind,
            whitelist_mode: policy.whitelist_mode,
            acl_whitelist: policy.acl_whitelist,
            acl_package_mode: policy.acl_package_mode,
            package_operator_mode: policy.package_operator_mode,
            package_hash: String::new(),
            base_metadata_kind: policy.base_metadata_kind,
            optional_metadata: Vec::new(),
            additional_required_metadata: Vec::new(),
            identifier_mode: policy.identifier_mode,
            metadata_mutability: policy.metadata_mutability,
            installer,
            events_mode: policy.events_mode,
            minted_tokens_count: 0,
            burn_mode: policy.burn_mode,
            operator_burn_mode: policy.operator_burn_mode,
            store,
        };
        proof {
            assert(s.store.burned_tokens@ =~= Seq::<u64>::empty());
        }
        Ok(s)
    }

    /// Whether `e` is in the ACL whitelist.
    fn in_acl(&self, e: Entity) -> (r: bool)
        ensures
            r == self.acl_whitelist@.contains(e),
    {
        let mut i: usize = 0;
        while i < self.acl_whitelist.len()
            invariant
                i <= self.acl_whitelist@.len(),
                forall|k: int| 0 <= k < i ==> self.acl_whitelist@[k] != e,
            decreases self.acl_whitelist.len() - i,
        {
            if self.acl_whitelist[i] == e {
                return true;
            }
            i += 1;
        }
        false
    }

    /// Whether `e` has its whitelist flag set.
    pub fn whitelisted(&self, e: Entity) -> (r: bool)
        requires
            self.wf(),
        ensures
            r == is_whitelisted(self.accounts(), e),
    {
        match find_entity(&self.store.entity_data, e) {
            Some(k) => {
                let flag = self.store.entity_data[k].1.whitelisted;
                proof {
                    let a = self.accounts();
                    if is_whitelisted(a, e) {
                        let j = choose|j: int| 0 <= j < a.len() && #[trigger] a[j].0 == e && a[j].1.whitelisted;
                        if j != k {
                            assert(a[j].0 != a[k as int].0);
                        }
                    }
                }
                flag
            },
            None => false,
        }
    }

    /// Whether `caller` may mint under the registry's minting mode.
    pub fn can_mint(&self, caller: Entity) -> (r: bool)
        requires
            self.wf(),
        ensures
            r == self.can_mint_spec(caller),
    {
        match self.minting_mode {
            MintingMode::Installer => caller == self.installer,
            MintingMode::Public => true,
            MintingMode::Acl => self.in_acl(caller) && (self.whitelist_mode == WhitelistMode::Unlocked
                || self.whitelisted(caller)),
        }
    }

    /// Mints the next token to `recipient` with `metadata`. Under hash
    /// identifiers, `content_hash` (the host's digest of the metadata) is the
    /// new token's identifier; under ordinal identifiers it is not used and
    /// the token's identifier is the number of tokens minted before it.
    #[verifier::rlimit(40)]
    pub fn mint(&mut self, caller: Entity, recipient: Entity, metadata: String, content_hash: String) -> (r:
        Result<Option<CEP47Event>, NftError>)
        requires
            old(self).wf(),
        ensures
            final(self).wf(),
            final(self).config_kept(old(self)),
            old(self).mint_error(caller, content_hash@) is Some ==> r == Err::<Option<CEP47Event>, NftError>(
                old(self).mint_error(caller, content_hash@)->0,
            ) && *final(self) == *old(self),
            old(self).mint_error(caller, content_hash@) is None ==> r is Ok && final(self).tokens()
                == old(self).tokens().push(new_record(caller, recipient, metadata))
                && final(self).minted_tokens_count == old(self).minted_tokens_count + 1
                && final(self).allow_minting == old(self).allow_minting
                && final(self).store.operators@ == old(self).store.operators@
                && final(self).store.burned_tokens@ == old(self).store.burned_tokens@
                && (final(self).identifier_mode == NFTIdentifierMode::Hash ==> final(self).store.index@
                == old(self).store.index@.push((old(self).minted_tokens_count, content_hash@)))
                && (forall|x: Entity| is_whitelisted(final(self).accounts(), x) == is_whitelisted(
                old(self).accounts(),
                x,
            )),
            r matches Ok(ev) ==> (ev is None <==> old(self).events_mode == EventsMode::NoEvents),
            r matches Ok(Some(ev)) ==> (ev matches CEP47Event::Mint { recipient: x, token_id }
                && x == recipient && token_id.key() == final(self).key_of(old(self).tokens().len() as int)),
    {
        if !self.allow_minting {
            return Err(NftError::MintingDisabled);
        }
        if !self.can_mint(caller) {
            return Err(NftError::Unauthorized);
        }
        if self.minted_tokens_count >= self.total_token_supply {
            return Err(NftError::SupplyExhausted);
        }
        let n = self.minted_tokens_count;
        let hash_mode = self.identifier_mode == NFTIdentifierMode::Hash;
        if hash_mode {
            proof {
                let v = self.store.index@;
                if has_ordinal(v, n) {
                    let i = choose|i: int| 0 <= i < v.len() && #[trigger] v[i].0 == n;
                    assert(v[i].0 == i);
                }
            }
            if let Ok(o) = self.store.index.resolve_by_hash(&content_hash) {
                proof {
                    let v = self.store.index@;
                    let i = choose|i: int| 0 <= i < v.len() && #[trigger] v[i] == (o, content_hash@);
                    assert(v[i].1 == content_hash@);
                }
                return Err(NftError::DuplicateIdentifier);
            }
            // Cannot fail: the hash was checked above and ordinal `n` is not yet registered.
            let _ = self.store.index.register(n, content_hash.clone());
        }
        let ghost t0 = self.store.data@;
        let ghost a0 = self.store.entity_data@;
        let rec = TokenData { approved: None, issuer: Some(caller), owner: Some(recipient), metadata };
        self.store.data.push(rec);
        proof {
            lemma_count_bound(t0, Some(recipient));
        }
        credit(&mut self.store.entity_data, recipient);
        self.minted_tokens_count = n + 1;
        proof {
            let t = self.store.data@;
            let a = self.store.entity_data@;
            assert(t == t0.push(rec));
            lemma_count_push(t0, rec, None);
            assert forall|x: Entity| #[trigger] count_owner(t, Some(x)) == count_owner(t0, Some(x)) + (if x
                == recipient { 1int } else { 0int }) by {
                lemma_count_push(t0, rec, Some(x));
            }
            assert forall|o: u64| self.store.burned_tokens@.contains(o) == self.is_burned(o as int) by {
                assert(old(self).store.burned_tokens@.contains(o) == old(self).is_burned(o as int));
                if 0 <= o < t0.len() {
                    assert(t[o as int] == t0[o as int]);
                } else if o == t0.len() {
                    assert(t[o as int] == rec);
                }
            }
            assert forall|k: int| 0 <= k < a.len() implies (#[trigger] a[k]).1.balance == count_owner(
                t,
                Some(a[k].0),
            ) by {
                if k < a0.len() {
                    assert(a0[k].1.balance == count_owner(t0, Some(a0[k].0)));
                } else {
                    assert forall|i: int| 0 <= i < t0.len() implies #[trigger] t0[i].owner != Some(recipient) by {
                        if t0[i].owner == Some(recipient) {
                            assert(t0[i].owner is Some);
                        }
                    }
                    lemma_count_zero(t0, Some(recipient));
                }
            }
            assert forall|i: int| 0 <= i < t.len() && (#[trigger] t[i]).owner is Some implies has_entity(
                a,
                t[i].owner->0,
            ) by {
                if i < t0.len() {
                    assert(t[i] == t0[i]);
                    assert(has_entity(a0, t0[i].owner->0));
                }
            }
            assert forall|i: int| 0 <= i < t.len() implies (#[trigger] t[i]).issuer is Some by {
                if i < t0.len() {
                    assert(t[i] == t0[i]);
                }
            }
            assert forall|i: int| 0 <= i < t.len() && (#[trigger] t[i]).owner is None implies t[i].approved is None by {
                if i < t0.len() {
                    assert(t[i] == t0[i]);
                }
            }
            if hash_mode {
                let v = self.store.index@;
                assert forall|i: int| 0 <= i < t.len() implies (#[trigger] v[i]).0 == i by {
                    if i < t0.len() {
                        assert(v[i] == old(self).store.index@[i]);
                    }
                }
            }
        }
        if self.events_mode == EventsMode::NoEvents {
            Ok(None)
        } else {
            let pos = self.store.data.len() - 1;
            let token_id = self.identifier_at(pos);
            Ok(Some(CEP47Event::Mint { recipient, token_id }))
        }
    }

    /// Gives token `i` to `new_owner` (`None` burns it), clears its approval,
    /// moves one unit of balance, and records a burn.
    #[verifier::rlimit(80)]
    fn reassign(&mut self, i: usize, new_owner: Option<Entity>)
        requires
            old(self).wf(),
            i < old(self).tokens().len(),
            old(self).tokens()[i as int].owner is Some,
        ensures
            final(self).wf(),
            final(self).config_kept(old(self)),
            final(self).tokens() == old(self).tokens().update(i as int, reassigned(old(self).tokens()[i as int], new_owner)),
            final(self).minted_tokens_count == old(self).minted_tokens_count,
            final(self).allow_minting == old(self).allow_minting,
            final(self).store.operators@ == old(self).store.operators@,
            final(self).store.index@ == old(self).store.index@,
            new_owner is Some ==> final(self).store.burned_tokens@ == old(self).store.burned_tokens@,
            new_owner is None ==> final(self).store.burned_tokens@ == old(self).store.burned_tokens@.push(i as u64),
            forall|x: Entity| is_whitelisted(final(self).accounts(), x) == is_whitelisted(old(self).accounts(), x),
    {
        let ghost t0 = self.store.data@;
        let ghost a0 = self.store.entity_data@;
        let ghost b0 = self.store.burned_tokens@;
        let prev_owner = self.store.data[i].owner;
        let a = match prev_owner {
            Some(a) => a,
            None => { return; },
        };
        let rec = TokenData {
            approved: None,
            issuer: self.store.data[i].issuer,
            owner: new_owner,
            metadata: self.store.data[i].metadata.clone(),
        };
        self.store.data.set(i, rec);
        let ghost t1 = self.store.data@;
        proof {
            assert(rec == reassigned(t0[i as int], new_owner));
            assert forall|x: Option<Entity>| #[trigger] count_owner(t1, x) == count_owner(t0, x) - (if x
                == Some(a) { 1int } else { 0int }) + (if x == new_owner { 1int } else { 0int }) by {
                lemma_count_update(t0, i as int, rec, x);
            }
            lemma_count_positive(t0, i as int, Some(a));
            assert(has_entity(a0, a));
        }
        if new_owner != Some(a) {
            proof {
                assert forall|k: int| 0 <= k < a0.len() && #[trigger] a0[k].0 == a implies a0[k].1.balance >= 1 by {
                    assert(a0[k].1.balance == count_owner(t0, Some(a0[k].0)));
                }
            }
            debit(&mut self.store.entity_data, a);
            if let Some(b) = new_owner {
                proof {
                    lemma_count_bound(t1, Some(b));
                    let a1 = self.store.entity_data@;
                    assert forall|k: int| 0 <= k < a1.len() && #[trigger] a1[k].0 == b implies a1[k].1.balance < u64::MAX by {
                        assert(a0[k].1.balance == count_owner(t0, Some(a0[k].0)));
                    }
                }
                credit(&mut self.store.entity_data, b);
            }
        }
        if new_owner.is_none() {
            self.store.burned_tokens.push(i as u64);
        }
        proof {
            let t = self.store.data@;
            let a2 = self.store.entity_data@;
            assert forall|o: u64| self.store.burned_tokens@.contains(o) == self.is_burned(o as int) by {
                assert(b0.contains(o) == old(self).is_burned(o as int));
                if o as int == i as int {
                    assert(t[o as int] == rec);
                    if new_owner is None {
                        assert(self.store.burned_tokens@[b0.len() as int] == o);
                    }
                } else {
                    if 0 <= o < t0.len() {
                        assert(t[o as int] == t0[o as int]);
                    }
                    if new_owner is None {
                        if self.store.burned_tokens@.contains(o) {
                            let j = choose|j: int| 0 <= j < self.store.burned_tokens@.len() && self.store.burned_tokens@[j] == o;
                            if j < b0.len() {
                                assert(b0[j] == o);
                            }
                        }
                        if b0.contains(o) {
                            let j = choose|j: int| 0 <= j < b0.len() && b0[j] == o;
                            assert(self.store.burned_tokens@[j] == o);
                        }
                    }
                }
            }
            assert forall|k: int| 0 <= k < a2.len() implies (#[trigger] a2[k]).1.balance == count_owner(
                t,
                Some(a2[k].0),
            ) by {
                if k < a0.len() {
                    assert(a0[k].1.balance == count_owner(t0, Some(a0[k].0)));
                    assert(count_owner(t1, Some(a0[k].0)) == count_owner(t0, Some(a0[k].0)) - (if Some(a0[k].0)
                        == Some(a) { 1int } else { 0int }) + (if Some(a0[k].0) == new_owner { 1int } else { 0int }));
                } else {
                    let b = new_owner->0;
                    assert forall|j: int| 0 <= j < t0.len() implies #[trigger] t0[j].owner != Some(b) by {
                        if t0[j].owner == Some(b) {
                            assert(t0[j].owner is Some);
                        }
                    }
                    lemma_count_zero(t0, Some(b));
                    assert(count_owner(t1, Some(b)) == count_owner(t0, Some(b)) - (if Some(b)
                        == Some(a) { 1int } else { 0int }) + (if Some(b) == new_owner { 1int } else { 0int }));
                }
            }
            assert forall|j: int| 0 <= j < t.len() && (#[trigger] t[j]).owner is Some implies has_entity(
                a2,
                t[j].owner->0,
            ) by {
                if j != i {
                    assert(t[j] == t0[j]);
                    assert(has_entity(a0, t0[j].owner->0));
                }
            }
            assert forall|j: int| 0 <= j < t.len() implies (#[trigger] t[j]).issuer is Some by {
                if j != i {
                    assert(t[j] == t0[j]);
                } else {
                    assert(t0[j].issuer is Some);
                }
            }
            assert forall|j: int| 0 <= j < t.len() && (#[trigger] t[j]).owner is None implies t[j].approved is None by {
                if j != i {
                    assert(t[j] == t0[j]);
                }
            }
            assert(count_owner(t1, None) == count_owner(t0, None) + (if None::<Entity> == new_owner { 1int } else { 0int }));
            if self.identifier_mode == NFTIdentifierMode::Hash {
                let v = self.store.index@;
                assert forall|j: int| 0 <= j < t.len() implies (#[trigger] v[j]).0 == j by {
                    assert(v[j] == old(self).store.index@[j]);
                }
            }
        }
    }

    /// Why `caller` may not transfer `token` to `recipient`, if it may not.
    pub open spec fn transfer_error(&self, caller: Entity, token: TokenIdentifier) -> Option<NftError> {
        match self.ordinal_of(token) {
            None => Some(NftError::NotFound),
            Some(i) => if self.ownership_mode != OwnershipMode::Transferable {
                Some(NftError::InvalidOwnershipMode)
            } else if self.tokens()[i].owner is None {
                Some(NftError::TokenBurned)
            } else if !authorized(
                self.store.operators@,
                caller,
                self.tokens()[i].owner->0,
                self.tokens()[i].approved,
            ) {
                Some(NftError::Unauthorized)
            } else {
                None
            },
        }
    }

    /// Moves `token` to `recipient`, clearing its approval.
    pub fn transfer(&mut self, caller: Entity, token: &TokenIdentifier, recipient: Entity) -> (r: Result<
        Option<CEP47Event>,
        NftError,
    >)
        requires
            old(self).wf(),
        ensures
            final(self).wf(),
            final(self).config_kept(old(self)),
            old(self).transfer_error(caller, *token) is Some ==> r == Err::<Option<CEP47Event>, NftError>(
                old(self).transfer_error(caller, *token)->0,
            ) && *final(self) == *old(self),
            old(self).transfer_error(caller, *token) is None ==> r is Ok && final(self).tokens()
                == old(self).tokens().update(
                old(self).ordinal_of(*token)->0,
                reassigned(old(self).tokens()[old(self).ordinal_of(*token)->0], Some(recipient)),
            ) && final(self).minted_tokens_count == old(self).minted_tokens_count
                && final(self).allow_minting == old(self).allow_minting
                && final(self).store.operators@ == old(self).store.operators@
                && final(self).store.index@ == old(self).store.index@
                && final(self).store.burned_tokens@ == old(self).store.burned_tokens@
                && (forall|x: Entity| is_whitelisted(final(self).accounts(), x) == is_whitelisted(
                old(self).accounts(),
                x,
            )),
            r matches Ok(ev) ==> (ev is None <==> old(self).events_mode == EventsMode::NoEvents),
            r matches Ok(Some(ev)) ==> (ev matches CEP47Event::Transfer { sender, recipient: x, token_id }
                && x == recipient && Some(sender) == old(self).tokens()[old(self).ordinal_of(*token)->0].owner
                && token_id.key() == token.key()),
    {
        let i = match self.resolve(token) {
            Ok(i) => i,
            Err(e) => { return Err(e); },
        };
        if self.ownership_mode != OwnershipMode::Transferable {
            return Err(NftError::InvalidOwnershipMode);
        }
        let owner = match self.store.data[i].owner {
            Some(o) => o,
            None => { return Err(NftError::TokenBurned); },
        };
        if !is_authorized(&self.store.operators, caller, owner, self.store.data[i].approved) {
            return Err(NftError::Unauthorized);
        }
        self.reassign(i, Some(recipient));
        if self.events_mode == EventsMode::NoEvents {
            Ok(None)
        } else {
            let token_id = self.identifier_at(i);
            Ok(Some(CEP47Event::Transfer { sender: owner, recipient, token_id }))
        }
    }

    /// Why `caller` may not burn `token`, if it may not.
    pub open spec fn burn_error(&self, caller: Entity, token: TokenIdentifier) -> Option<NftError> {
        if self.burn_mode != BurnMode::Burnable {
            Some(NftError::BurnDisabled)
        } else {
            match self.ordinal_of(token) {
                None => Some(NftError::NotFound),
                Some(i) => if self.tokens()[i].owner is None {
                    Some(NftError::TokenBurned)
                } else if !(caller == self.tokens()[i].owner->0 || (self.operator_burn_mode && authorized(
                    self.store.operators@,
                    caller,
                    self.tokens()[i].owner->0,
                    self.tokens()[i].approved,
                ))) {
                    Some(NftError::Unauthorized)
                } else {
                    None
                },
            }
        }
    }

    /// Burns `token`: its owner is cleared, its approval too, and its ordinal
    /// joins the burned set for good.
    pub fn burn(&mut self, caller: Entity, token: &TokenIdentifier) -> (r: Result<Option<CEP47Event>, NftError>)
        requires
            old(self).wf(),
        ensures
            final(self).wf(),
            final(self).config_kept(old(self)),
            old(self).burn_error(caller, *token) is Some ==> r == Err::<Option<CEP47Event>, NftError>(
                old(self).burn_error(caller, *token)->0,
            ) && *final(self) == *old(self),
            old(self).burn_error(caller, *token) is None ==> r is Ok && final(self).tokens()
                == old(self).tokens().update(
                old(self).ordinal_of(*token)->0,
                reassigned(old(self).tokens()[old(self).ordinal_of(*token)->0], None),
            ) && final(self).store.burned_tokens@ == old(self).store.burned_tokens@.push(
                old(self).ordinal_of(*token)->0 as u64,
            ) && final(self).minted_tokens_count == old(self).minted_tokens_count
                && final(self).allow_minting == old(self).allow_minting
                && final(self).store.operators@ == old(self).store.operators@
                && final(self).store.index@ == old(self).store.index@
                && (forall|x: Entity| is_whitelisted(final(self).accounts(), x) == is_whitelisted(
                old(self).accounts(),
                x,
            )),
            r matches Ok(ev) ==> (ev is None <==> old(self).events_mode == EventsMode::NoEvents),
            r matches Ok(Some(ev)) ==> (ev matches CEP47Event::Burn { owner, token_id, burner }
                && burner == caller && Some(owner) == old(self).tokens()[old(self).ordinal_of(*token)->0].owner
                && token_id.key() == token.key()),
    {
        if self.burn_mode != BurnMode::Burnable {
            return Err(NftError::BurnDisabled);
        }
        let i = match self.resolve(token) {
            Ok(i) => i,
            Err(e) => { return Err(e); },
        };
        let owner = match self.store.data[i].owner {
            Some(o) => o,
            None => { return Err(NftError::TokenBurned); },
        };
        if !(caller == owner || (self.operator_burn_mode && is_authorized(
            &self.store.operators,
            caller,
            owner,
            self.store.data[i].approved,
        ))) {
            return Err(NftError::Unauthorized);
        }
        self.reassign(i, None);
        if self.events_mode == EventsMode::NoEvents {
            Ok(None)
        } else {
            let token_id = self.identifier_at(i);
            Ok(Some(CEP47Event::Burn { owner, token_id, burner: caller }))
        }
    }

    /// Replaces the approval and metadata of the live token `i`.
    fn refill(&mut self, i: usize, approved: Option<Entity>, metadata: String)
        requires
            old(self).wf(),
            i < old(self).tokens().len(),
            old(self).tokens()[i as int].owner is Some,
        ensures
            final(self).wf(),
            final(self).tokens() == old(self).tokens().update(i as int, refilled(old(self).tokens()[i as int], approved, metadata)),
            final(self).config_kept(old(self)),
            final(self).minted_tokens_count == old(self).minted_tokens_count,
            final(self).allow_minting == old(self).allow_minting,
            final(self).store.operators@ == old(self).store.operators@,
            final(self).store.index@ == old(self).store.index@,
            final(self).store.burned_tokens@ == old(self).store.burned_tokens@,
            final(self).accounts() == old(self).accounts(),
    {
        let ghost t0 = self.store.data@;
        let rec = TokenData { approved, issuer: self.store.data[i].issuer, owner: self.store.data[i].owner, metadata };
        self.store.data.set(i, rec);
        proof {
            let t = self.store.data@;
            let a = self.store.entity_data@;
            assert(rec == refilled(t0[i as int], approved, metadata));
            assert forall|x: Option<Entity>| #[trigger] count_owner(t, x) == count_owner(t0, x) by {
                lemma_count_update(t0, i as int, rec, x);
            }
            assert forall|o: u64| self.store.burned_tokens@.contains(o) == self.is_burned(o as int) by {
                assert(old(self).store.burned_tokens@.contains(o) == old(self).is_burned(o as int));
                if 0 <= o < t0.len() && o != i {
                    assert(t[o as int] == t0[o as int]);
                }
            }
            assert forall|k: int| 0 <= k < a.len() implies (#[trigger] a[k]).1.balance == count_owner(t, Some(a[k].0)) by {
                assert(count_owner(t, Some(a[k].0)) == count_owner(t0, Some(a[k].0)));
            }
            assert forall|j: int| 0 <= j < t.len() && (#[trigger] t[j]).owner is Some implies has_entity(a, t[j].owner->0) by {
                assert(t0[j].owner is Some);
            }
            assert forall|j: int| 0 <= j < t.len() implies (#[trigger] t[j]).issuer is Some by {
                assert(t0[j].issuer is Some);
            }
            assert forall|j: int| 0 <= j < t.len() && (#[trigger] t[j]).owner is None implies t[j].approved is None by {
                assert(t0[j].owner is None ==> t0[j].approved is None);
            }
            assert(count_owner(t, None) == count_owner(t0, None));
            if self.identifier_mode == NFTIdentifierMode::Hash {
                let v = self.store.index@;
                assert forall|j: int| 0 <= j < t.len() implies (#[trigger] v[j]).0 == j by {
                    assert(v[j] == old(self).store.index@[j]);
                }
            }
        }
    }

    /// Why `caller` may not name `delegate` as the approved delegate of
    /// `token`, if it may not.
    pub open spec fn approve_error(&self, caller: Entity, token: TokenIdentifier, delegate: Entity) -> Option<NftError> {
        match self.ordinal_of(token) {
            None => Some(NftError::NotFound),
            Some(i) => if self.tokens()[i].owner is None {
                Some(NftError::TokenBurned)
            } else if caller != self.tokens()[i].owner->0 {
                Some(NftError::Unauthorized)
            } else if delegate == caller {
                Some(NftError::SelfApproval)
            } else {
                None
            },
        }
    }

    /// Makes `delegate` the single approved delegate of `token`.
    pub fn approve(&mut self, caller: Entity, token: &TokenIdentifier, delegate: Entity) -> (r: Result<
        Option<CEP47Event>,
        NftError,
    >)
        requires
            old(self).wf(),
        ensures
            final(self).wf(),
            final(self).config_kept(old(self)),
            old(self).approve_error(caller, *token, delegate) is Some ==> r == Err::<Option<CEP47Event>, NftError>(
                old(self).approve_error(caller, *token, delegate)->0,
            ) && *final(self) == *old(self),
            old(self).approve_error(caller, *token, delegate) is None ==> r is Ok && final(self).tokens()
                == old(self).tokens().update(
                old(self).ordinal_of(*token)->0,
                refilled(
                    old(self).tokens()[old(self).ordinal_of(*token)->0],
                    Some(delegate),
                    old(self).tokens()[old(self).ordinal_of(*token)->0].metadata,
                ),
            ) && final(self).minted_tokens_count == old(self).minted_tokens_count
                && final(self).allow_minting == old(self).allow_minting
                && final(self).store.operators@ == old(self).store.operators@
                && final(self).store.burned_tokens@ == old(self).store.burned_tokens@
                && final(self).accounts() == old(self).accounts(),
            r matches Ok(ev) ==> (ev is None <==> old(self).events_mode == EventsMode::NoEvents),
            r matches Ok(Some(ev)) ==> (ev matches CEP47Event::ApprovalGranted { owner, spender, token_id }
                && owner == caller && spender == delegate && token_id.key() == token.key()),
    {
        let i = match self.resolve(token) {
            Ok(i) => i,
            Err(e) => { return Err(e); },
        };
        let owner = match self.store.data[i].owner {
            Some(o) => o,
            None => { return Err(NftError::TokenBurned); },
        };
        if caller != owner {
            return Err(NftError::Unauthorized);
        }
        if delegate == caller {
            return Err(NftError::SelfApproval);
        }
        let metadata = self.store.data[i].metadata.clone();
        self.refill(i, Some(delegate), metadata);
        if self.events_mode == EventsMode::NoEvents {
            Ok(None)
        } else {
            let token_id = self.identifier_at(i);
            Ok(Some(CEP47Event::ApprovalGranted { owner, spender: delegate, token_id }))
        }
    }

    /// Why `caller` may not clear the approval of `token`, if it may not.
    pub open spec fn revoke_error(&self, caller: Entity, token: TokenIdentifier) -> Option<NftError> {
        match self.ordinal_of(token) {
            None => Some(NftError::NotFound),
            Some(i) => if self.tokens()[i].owner is None {
                Some(NftError::TokenBurned)
            } else if caller != self.tokens()[i].owner->0 {
                Some(NftError::Unauthorized)
            } else {
                None
            },
        }
    }

    /// Clears the approval of `token`. Clearing when there is none succeeds,
    /// changes nothing and emits nothing.
    pub fn revoke_approval(&mut self, caller: Entity, token: &TokenIdentifier) -> (r: Result<
        Option<CEP47Event>,
        NftError,
    >)
        requires
            old(self).wf(),
        ensures
            final(self).wf(),
            final(self).config_kept(old(self)),
            old(self).revoke_error(caller, *token) is Some ==> r == Err::<Option<CEP47Event>, NftError>(
                old(self).revoke_error(caller, *token)->0,
            ) && *final(self) == *old(self),
            old(self).revoke_error(caller, *token) is None ==> r is Ok && final(self).tokens()
                == old(self).tokens().update(
                old(self).ordinal_of(*token)->0,
                refilled(
                    old(self).tokens()[old(self).ordinal_of(*token)->0],
                    None,
                    old(self).tokens()[old(self).ordinal_of(*token)->0].metadata,
                ),
            ) && final(self).minted_tokens_count == old(self).minted_tokens_count
                && final(self).allow_minting == old(self).allow_minting
                && final(self).store.operators@ == old(self).store.operators@
                && final(self).store.burned_tokens@ == old(self).store.burned_tokens@
                && final(self).accounts() == old(self).accounts(),
            old(self).revoke_error(caller, *token) is None && old(self).tokens()[old(self).ordinal_of(
                *token,
            )->0].approved is None ==> r == Ok::<Option<CEP47Event>, NftError>(None) && *final(self) == *old(self),
            r matches Ok(ev) ==> (ev is None <==> (old(self).events_mode == EventsMode::NoEvents
                || old(self).tokens()[old(self).ordinal_of(*token)->0].approved is None)),
            r matches Ok(Some(ev)) ==> (ev matches CEP47Event::ApprovalRevoked { owner, token_id }
                && owner == caller && token_id.key() == token.key()),
    {
        let i = match self.resolve(token) {
            Ok(i) => i,
            Err(e) => { return Err(e); },
        };
        let owner = match self.store.data[i].owner {
            Some(o) => o,
            None => { return Err(NftError::TokenBurned); },
        };
        if caller != owner {
            return Err(NftError::Unauthorized);
        }
        if self.store.data[i].approved.is_none() {
            proof {
                assert(self.tokens().update(i as int, refilled(self.tokens()[i as int], None, self.tokens()[i as int].metadata))
                    =~= self.tokens());
            }
            return Ok(None);
        }
        let metadata = self.store.data[i].metadata.clone();
        self.refill(i, None, metadata);
        if self.events_mode == EventsMode::NoEvents {
            Ok(None)
        } else {
            let token_id = self.identifier_at(i);
            Ok(Some(CEP47Event::ApprovalRevoked { owner, token_id }))
        }
    }

    /// Why `caller` may not replace the metadata of `token`, if it may not.
    pub open spec fn update_error(&self, caller: Entity, token: TokenIdentifier) -> Option<NftError> {
        if self.metadata_mutability != MetadataMutability::Mutable {
            Some(NftError::MetadataImmutable)
        } else {
            match self.ordinal_of(token) {
                None => Some(NftError::NotFound),
                Some(i) => if self.tokens()[i].owner is None {
                    Some(NftError::TokenBurned)
                } else if !(caller == self.tokens()[i].owner->0 || self.tokens()[i].approved == Some(caller)) {
                    Some(NftError::Unauthorized)
                } else {
                    None
                },
            }
        }
    }

    /// Replaces the metadata of `token`. The identifier does not change, also
    /// under hash identifiers.
    pub fn update_metadata(&mut self, caller: Entity, token: &TokenIdentifier, new_metadata: String) -> (r:
        Result<Option<CEP47Event>, NftError>)
        requires
            old(self).wf(),
        ensures
            final(self).wf(),
            final(self).config_kept(old(self)),
            old(self).update_error(caller, *token) is Some ==> r == Err::<Option<CEP47Event>, NftError>(
                old(self).update_error(caller, *token)->0,
            ) && *final(self) == *old(self),
            old(self).update_error(caller, *token) is None ==> r is Ok && final(self).tokens()
                == old(self).tokens().update(
                old(self).ordinal_of(*token)->0,
                refilled(
                    old(self).tokens()[old(self).ordinal_of(*token)->0],
                    old(self).tokens()[old(self).ordinal_of(*token)->0].approved,
                    new_metadata,
                ),
            ) && final(self).minted_tokens_count == old(self).minted_tokens_count
                && final(self).allow_minting == old(self).allow_minting
                && final(self).store.operators@ == old(self).store.operators@
                && final(self).store.index@ == old(self).store.index@
                && final(self).store.burned_tokens@ == old(self).store.burned_tokens@
                && final(self).accounts() == old(self).accounts(),
            r matches Ok(ev) ==> (ev is None <==> old(self).events_mode == EventsMode::NoEvents),
            r matches Ok(Some(ev)) ==> (ev matches CEP47Event::MetadataUpdate { token_id }
                && token_id.key() == token.key()),
    {
        if self.metadata_mutability != MetadataMutability::Mutable {
            return Err(NftError::MetadataImmutable);
        }
        let i = match self.resolve(token) {
            Ok(i) => i,
            Err(e) => { return Err(e); },
        };
        let owner = match self.store.data[i].owner {
            Some(o) => o,
            None => { return Err(NftError::TokenBurned); },
        };
        let approved = self.store.data[i].approved;
        if !(caller == owner || approved == Some(caller)) {
            return Err(NftError::Unauthorized);
        }
        self.refill(i, approved, new_metadata);
        if self.events_mode == EventsMode::NoEvents {
            Ok(None)
        } else {
            let token_id = self.identifier_at(i);
            Ok(Some(CEP47Event::MetadataUpdate { token_id }))
        }
    }

    /// Grants (`approved`) or revokes `operator`'s blanket authority over all
    /// of `caller`'s tokens. Granting an existing edge and revoking an absent
    /// one are successes that change nothing; the event fires on every call.
    pub fn set_approval_for_all(&mut self, caller: Entity, operator: Entity, approved: bool) -> (r: Option<
        CEP47Event,
    >)
        requires
            old(self).wf(),
        ensures
            final(self).wf(),
            final(self).config_kept(old(self)),
            final(self).tokens() == old(self).tokens(),
            final(self).accounts() == old(self).accounts(),
            final(self).minted_tokens_count == old(self).minted_tokens_count,
            final(self).allow_minting == old(self).allow_minting,
            final(self).store.index@ == old(self).store.index@,
            final(self).store.burned_tokens@ == old(self).store.burned_tokens@,
            approved ==> final(self).store.operators@ == granted(old(self).store.operators@, edge_of(caller, operator)),
            !approved ==> !has_edge(final(self).store.operators@, edge_of(caller, operator)) && forall|e: OperatorEntry|
                e != edge_of(caller, operator) ==> (has_edge(final(self).store.operators@, e) == has_edge(
                old(self).store.operators@,
                e,
            )),
            r is None <==> old(self).events_mode == EventsMode::NoEvents,
            r matches Some(ev) ==> if approved {
                ev matches CEP47Event::ApprovalForAll { owner, operator: x } && owner == caller && x == operator
            } else {
                ev matches CEP47Event::RevokedForAll { owner, operator: x } && owner == caller && x == operator
            },
    {
        if approved {
            let _ = grant_operator(&mut self.store.operators, caller, operator);
        } else {
            let _ = revoke_operator(&mut self.store.operators, caller, operator);
        }
        proof {
            assert forall|o: u64| self.store.burned_tokens@.contains(o) == self.is_burned(o as int) by {
                assert(old(self).store.burned_tokens@.contains(o) == old(self).is_burned(o as int));
            }
            if self.identifier_mode == NFTIdentifierMode::Hash {
                let v = self.store.index@;
                assert forall|j: int| 0 <= j < self.tokens().len() implies (#[trigger] v[j]).0 == j by {
                    assert(v[j] == old(self).store.index@[j]);
                }
            }
        }
        if self.events_mode == EventsMode::NoEvents {
            None
        } else if approved {
            Some(CEP47Event::ApprovalForAll { owner: caller, operator })
        } else {
            Some(CEP47Event::RevokedForAll { owner: caller, operator })
        }
    }

    /// Switches minting on or off; only the installer may.
    pub fn set_allow_minting(&mut self, caller: Entity, allow: bool) -> (r: Result<Option<CEP47Event>, NftError>)
        requires
            old(self).wf(),
        ensures
            final(self).wf(),
            final(self).config_kept(old(self)),
            caller != old(self).installer ==> r == Err::<Option<CEP47Event>, NftError>(NftError::Unauthorized)
                && *final(self) == *old(self),
            caller == old(self).installer ==> r is Ok && final(self).allow_minting == allow
                && final(self).store == old(self).store
                && final(self).minted_tokens_count == old(self).minted_tokens_count,
            r matches Ok(ev) ==> (ev is None <==> old(self).events_mode == EventsMode::NoEvents),
            r matches Ok(Some(ev)) ==> ev is VariablesSet,
    {
        if caller != self.installer {
            return Err(NftError::Unauthorized);
        }
        self.allow_minting = allow;
        proof {
            assert forall|o: u64| self.store.burned_tokens@.contains(o) == self.is_burned(o as int) by {
                assert(old(self).store.burned_tokens@.contains(o) == old(self).is_burned(o as int));
            }
        }
        if self.events_mode == EventsMode::NoEvents {
            Ok(None)
        } else {
            Ok(Some(CEP47Event::VariablesSet))
        }
    }

    /// Sets the whitelist flag of `entity`; only the installer may.
    pub fn set_whitelisted(&mut self, caller: Entity, entity: Entity, flag: bool) -> (r: Result<
        Option<CEP47Event>,
        NftError,
    >)
        requires
            old(self).wf(),
        ensures
            final(self).wf(),
            final(self).config_kept(old(self)),
            caller != old(self).installer ==> r == Err::<Option<CEP47Event>, NftError>(NftError::Unauthorized)
                && *final(self) == *old(self),
            caller == old(self).installer ==> r is Ok && final(self).tokens() == old(self).tokens()
                && final(self).minted_tokens_count == old(self).minted_tokens_count
                && final(self).allow_minting == old(self).allow_minting
                && final(self).store.operators@ == old(self).store.operators@
                && final(self).store.index@ == old(self).store.index@
                && final(self).store.burned_tokens@ == old(self).store.burned_tokens@
                && forall|x: Entity| is_whitelisted(final(self).accounts(), x) == if x == entity {
                flag
            } else {
                is_whitelisted(old(self).accounts(), x)
            },
            r matches Ok(ev) ==> (ev is None <==> old(self).events_mode == EventsMode::NoEvents),
            r matches Ok(Some(ev)) ==> ev is VariablesSet,
    {
        if caller != self.installer {
            return Err(NftError::Unauthorized);
        }
        let ghost a0 = self.store.entity_data@;
        set_flag(&mut self.store.entity_data, entity, flag);
        proof {
            let t = self.tokens();
            let a = self.store.entity_data@;
            assert forall|o: u64| self.store.burned_tokens@.contains(o) == self.is_burned(o as int) by {
                assert(old(self).store.burned_tokens@.contains(o) == old(self).is_burned(o as int));
            }
            assert forall|k: int| 0 <= k < a.len() implies (#[trigger] a[k]).1.balance == count_owner(t, Some(a[k].0)) by {
                if k < a0.len() {
                    assert(a0[k].1.balance == count_owner(t, Some(a0[k].0)));
                } else {
                    assert forall|i: int| 0 <= i < t.len() implies #[trigger] t[i].owner != Some(entity) by {
                        if t[i].owner == Some(entity) {
                            assert(t[i].owner is Some);
                        }
                    }
                    lemma_count_zero(t, Some(entity));
                }
            }
            assert forall|i: int| 0 <= i < t.len() && (#[trigger] t[i]).owner is Some implies has_entity(a, t[i].owner->0) by {
                assert(has_entity(a0, t[i].owner->0));
            }
            if self.identifier_mode == NFTIdentifierMode::Hash {
                let v = self.store.index@;
                assert forall|j: int| 0 <= j < t.len() implies (#[trigger] v[j]).0 == j by {
                    assert(v[j] == old(self).store.index@[j]);
                }
            }
        }
        if self.events_mode == EventsMode::NoEvents {
            Ok(None)
        } else {
            Ok(Some(CEP47Event::VariablesSet))
        }
    }

    /// The owner of `token`: `None` once it is burned; `NotFound` if no token
    /// has that identifier.
    pub fn owner_of(&self, token: &TokenIdentifier) -> (r: Result<Option<Entity>, NftError>)
        requires
            self.wf(),
        ensures
            self.ordinal_of(*token) is None ==> r == Err::<Option<Entity>, NftError>(NftError::NotFound),
            self.ordinal_of(*token) matches Some(i) ==> r == Ok::<Option<Entity>, NftError>(self.tokens()[i].owner),
    {
        let i = self.resolve(token)?;
        Ok(self.store.data[i].owner)
    }

    /// The approved delegate of `token`, if any; `NotFound` if no token has
    /// that identifier.
    pub fn is_approved(&self, token: &TokenIdentifier) -> (r: Result<Option<Entity>, NftError>)
        requires
            self.wf(),
        ensures
            self.ordinal_of(*token) is None ==> r == Err::<Option<Entity>, NftError>(NftError::NotFound),
            self.ordinal_of(*token) matches Some(i) ==> r == Ok::<Option<Entity>, NftError>(self.tokens()[i].approved),
    {
        let i = self.resolve(token)?;
        Ok(self.store.data[i].approved)
    }

    /// The metadata of `token`; `NotFound` if no token has that identifier.
    pub fn metadata_of(&self, token: &TokenIdentifier) -> (r: Result<String, NftError>)
        requires
            self.wf(),
        ensures
            self.ordinal_of(*token) is None ==> r == Err::<String, NftError>(NftError::NotFound),
            self.ordinal_of(*token) matches Some(i) ==> r matches Ok(m) && m@ == self.tokens()[i].metadata@,
    {
        let i = self.resolve(token)?;
        Ok(self.store.data[i].metadata.clone())
    }

    /// How many unburned tokens `e` owns.
    pub fn balance_of(&self, e: Entity) -> (r: u64)
        requires
            self.wf(),
        ensures
            r == self.balance_spec(e),
    {
        match find_entity(&self.store.entity_data, e) {
            Some(k) => self.store.entity_data[k].1.balance,
            None => {
                proof {
                    let t = self.tokens();
                    assert forall|i: int| 0 <= i < t.len() implies #[trigger] t[i].owner != Some(e) by {
                        if t[i].owner == Some(e) {
                            assert(t[i].owner is Some);
                        }
                    }
                    lemma_count_zero(t, Some(e));
                }
                0
            },
        }
    }

    /// The supply cap.
    pub fn total_supply(&self) -> (r: u64)
        ensures
            r == self.total_token_supply,
    {
        self.total_token_supply
    }

    /// How many tokens have been minted, burned ones included.
    pub fn minted_count(&self) -> (r: u64)
        ensures
            r == self.minted_tokens_count,
    {
        self.minted_tokens_count
    }

    /// Ordinal of the token `token` names, or `NotFound`.
    fn resolve(&self, token: &TokenIdentifier) -> (r: Result<usize, NftError>)
        requires
            self.wf(),
        ensures
            match r {
                Ok(o) => self.ordinal_of(*token) == Some(o as int) && o < self.tokens().len()
                    && self.key_of(o as int) == token.key(),
                Err(e) => e == NftError::NotFound && self.ordinal_of(*token) is None,
            },
    {
        match token {
            TokenIdentifier::Ordinal(n) => {
                if self.identifier_mode == NFTIdentifierMode::Ordinal && *n < self.store.data.len() as u64 {
                    Ok(*n as usize)
                } else {
                    Err(NftError::NotFound)
                }
            },
            TokenIdentifier::Hash(h) => {
                if self.identifier_mode != NFTIdentifierMode::Hash {
                    return Err(NftError::NotFound);
                }
                let len = self.store.data.len();
                match self.store.index.resolve_by_hash(h) {
                    Ok(o) => {
                        proof {
                            let v = self.store.index@;
                            let i = choose|i: int| 0 <= i < v.len() && #[trigger] v[i] == (o, h@);
                            assert(v[i].1 == h@);
                            assert(v[i].0 == i);
                            assert(v[o as int] == (o, h@));
                            lemma_resolve_round_trip(v, o, h@);
                            let c = choose|c: u64| has_pair(v, c, h@);
                            assert(has_pair(v, c, h@));
                        }
                        Ok(o as usize)
                    },
                    Err(e) => Err(e),
                }
            },
        }
    }

    /// The identifier of the token with ordinal `o`.
    fn identifier_at(&self, o: usize) -> (r: TokenIdentifier)
        requires
            self.wf(),
            o < self.tokens().len(),
        ensures
            r.key() == self.key_of(o as int),
    {
        if self.identifier_mode == NFTIdentifierMode::Ordinal {
            TokenIdentifier::Ordinal(o as u64)
        } else {
            proof {
                assert(self.store.index@[o as int].0 == o);
            }
            match self.store.index.resolve_by_ordinal(o as u64) {
                Ok(h) => {
                    proof {
                        lemma_resolve_round_trip(self.store.index@, o as u64, self.store.index@[o as int].1);
                    }
                    TokenIdentifier::Hash(h)
                },
                Err(_) => {
                    proof {
                        assert(self.store.index@[o as int].0 == o as u64);
                    }
                    TokenIdentifier::Ordinal(o as u64)
                },
            }
        }
    }
}

/// A token has no owner exactly when its ordinal is in the burned set.
pub proof fn lemma_burned_iff_ownerless(s: &CEP78State, o: u64)
    requires
        s.wf(),
    ensures
        s.store.burned_tokens@.contains(o) <==> (o < s.tokens().len() && s.tokens()[o as int].owner is None),
{
    assert(s.store.burned_tokens@.contains(o) == s.is_burned(o as int));
}

/// A burned identifier is never handed out again: its ordinal lies below the
/// next one a mint allocates, and under hash identifiers a mint carrying its
/// hash is rejected.
pub proof fn lemma_burned_never_reminted(s: &CEP78State, o: u64, caller: Entity)
    requires
        s.wf(),
        s.store.burned_tokens@.contains(o),
    ensures
        o < s.minted_tokens_count,
        s.identifier_mode == NFTIdentifierMode::Hash ==> s.mint_error(caller, s.store.index@[o as int].1) is Some,
{
    assert(s.store.burned_tokens@.contains(o) == s.is_burned(o as int));
    if s.identifier_mode == NFTIdentifierMode::Hash {
        let v = s.store.index@;
        assert(v[o as int].1 == s.store.index@[o as int].1);
        assert(has_hash(v, v[o as int].1));
    }
}

/// The balances of all entities add up to the number of unburned tokens,
/// and each entity's stored balance is the number of tokens it owns.
pub proof fn lemma_balances_match_tokens(s: &CEP78State)
    requires
        s.wf(),
    ensures
        sum_balances(s.accounts()) == count_live(s.tokens()),
        forall|k: int| 0 <= k < s.accounts().len() ==> (#[trigger] s.accounts()[k]).1.balance == s.balance_spec(
            s.accounts()[k].0,
        ),
{
}

/// The minted count never exceeds the supply cap, and the number of
/// unburned tokens never exceeds the minted count.
pub proof fn lemma_minted_within_supply(s: &CEP78State)
    requires
        s.wf(),
    ensures
        s.minted_tokens_count <= s.total_token_supply,
        0 <= count_live(s.tokens()) <= s.minted_tokens_count,
{
    lemma_count_bound(s.tokens(), None);
}

/// Under hash identifiers every minted token's hash resolves to that token's
/// ordinal and back to the same hash, and no other ordinal shares it; minting
/// and burning keep this, since they keep `wf`.
pub proof fn lemma_hash_identifiers_round_trip(s: &CEP78State, o: int)
    requires
        s.wf(),
        s.identifier_mode == NFTIdentifierMode::Hash,
        0 <= o < s.tokens().len(),
    ensures
        has_pair(s.store.index@, o as u64, s.store.index@[o].1),
        forall|o2: u64| #[trigger] has_pair(s.store.index@, o2, s.store.index@[o].1) ==> o2 == o,
        forall|h2: Seq<char>| #[trigger] has_pair(s.store.index@, o as u64, h2) ==> h2 == s.store.index@[o].1,
{
    let v = s.store.index@;
    assert(v[o] == (o as u64, v[o].1));
    lemma_resolve_round_trip(v, o as u64, v[o].1);
}

} // verus!
