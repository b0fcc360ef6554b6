use std::collections::hash_map::DefaultHasher;
use std::hash::{Hash, Hasher};

use nft_registry::delegation::{grant_operator, revoke_operator};
use nft_registry::events::CEP47Event;
use nft_registry::index::IdentifierIndex;
use nft_registry::ledger::{CEP78State, PolicyConfig, StateStore};
use nft_registry::types::{
    BurnMode, Entity, EventsMode, MetadataMutability, MintingMode, NFTIdentifierMode, NFTKind,
    NFTMetadataKind, NftError, OperatorEntry, OwnershipMode, TokenIdentifier, WhitelistMode,
};

const E1: Entity = Entity { id: 1 };
const E2: Entity = Entity { id: 2 };
const E3: Entity = Entity { id: 3 };

fn policy() -> PolicyConfig {
    PolicyConfig {
        identifier_mode: NFTIdentifierMode::Ordinal,
        ownership_mode: OwnershipMode::Transferable,
        minting_mode: MintingMode::Public,
        whitelist_mode: WhitelistMode::Unlocked,
        metadata_mutability: MetadataMutability::Mutable,
        burn_mode: BurnMode::Burnable,
        events_mode: EventsMode::CEP47,
        base_metadata_kind: NFTMetadataKind::Raw,
        nft_kind: NFTKind::Digital,
        acl_whitelist: Vec::new(),
        acl_package_mode: false,
        package_operator_mode: false,
        operator_burn_mode: false,
    }
}

fn registry(supply: u64, p: PolicyConfig) -> CEP78State {
    CEP78State::new("Collection".to_string(), "COL".to_string(), supply, E1, p).unwrap()
}

fn digest(metadata: &str) -> String {
    let mut h = DefaultHasher::new();
    metadata.hash(&mut h);
    format!("{:016x}", h.finish())
}

fn ord(n: u64) -> TokenIdentifier {
    TokenIdentifier::Ordinal(n)
}

fn mint(s: &mut CEP78State, caller: Entity, to: Entity, m: &str) -> Result<Option<CEP47Event>, NftError> {
    s.mint(caller, to, m.to_string(), digest(m))
}

#[test]
fn supply_of_one_allows_one_mint() {
    let mut s = registry(1, policy());
    let ev = mint(&mut s, E1, E1, "a").unwrap();
    match ev {
        Some(CEP47Event::Mint { recipient, token_id }) => {
            assert_eq!(recipient, E1);
            assert!(matches!(token_id, TokenIdentifier::Ordinal(0)));
        }
        _ => panic!("expected a mint event"),
    }
    assert_eq!(s.owner_of(&ord(0)), Ok(Some(E1)));
    assert_eq!(mint(&mut s, E1, E1, "b").unwrap_err(), NftError::SupplyExhausted);
    assert_eq!(s.minted_count(), 1);
    assert_eq!(s.total_supply(), 1);
}

#[test]
fn minter_mode_rejects_transfer() {
    let mut p = policy();
    p.ownership_mode = OwnershipMode::Minter;
    let mut s = registry(10, p);
    mint(&mut s, E1, E1, "a").unwrap();
    assert_eq!(s.transfer(E1, &ord(0), E2).unwrap_err(), NftError::InvalidOwnershipMode);
    assert_eq!(s.owner_of(&ord(0)), Ok(Some(E1)));
    assert_eq!(s.balance_of(E1), 1);
    assert_eq!(s.balance_of(E2), 0);
}

#[test]
fn assigned_mode_rejects_transfer() {
    let mut p = policy();
    p.ownership_mode = OwnershipMode::Assigned;
    let mut s = registry(10, p);
    mint(&mut s, E1, E2, "a").unwrap();
    assert_eq!(s.transfer(E2, &ord(0), E3).unwrap_err(), NftError::InvalidOwnershipMode);
}

#[test]
fn non_burnable_rejects_burn() {
    let mut p = policy();
    p.burn_mode = BurnMode::NonBurnable;
    let mut s = registry(10, p);
    mint(&mut s, E1, E1, "a").unwrap();
    assert_eq!(s.burn(E1, &ord(0)).unwrap_err(), NftError::BurnDisabled);
    assert_eq!(s.owner_of(&ord(0)), Ok(Some(E1)));
    assert_eq!(s.balance_of(E1), 1);
    assert!(s.store.burned_tokens.is_empty());
}

#[test]
fn hash_mode_rejects_duplicate_content() {
    let mut p = policy();
    p.identifier_mode = NFTIdentifierMode::Hash;
    let mut s = registry(10, p);
    mint(&mut s, E1, E1, "same").unwrap();
    assert_eq!(mint(&mut s, E1, E2, "same").unwrap_err(), NftError::DuplicateIdentifier);
    assert_eq!(s.minted_count(), 1);
    assert_eq!(s.balance_of(E2), 0);
    let id = TokenIdentifier::Hash(digest("same"));
    assert_eq!(s.owner_of(&id), Ok(Some(E1)));
    assert_eq!(s.owner_of(&ord(0)), Err(NftError::NotFound));
}

#[test]
fn transfer_clears_approval() {
    let mut s = registry(10, policy());
    mint(&mut s, E1, E1, "a").unwrap();
    s.approve(E1, &ord(0), E2).unwrap();
    assert_eq!(s.is_approved(&ord(0)), Ok(Some(E2)));
    let ev = s.transfer(E2, &ord(0), E3).unwrap();
    assert!(matches!(ev, Some(CEP47Event::Transfer { sender, recipient, .. }) if sender == E1 && recipient == E3));
    assert_eq!(s.is_approved(&ord(0)), Ok(None));
    assert_eq!(s.owner_of(&ord(0)), Ok(Some(E3)));
    assert_eq!(s.balance_of(E1), 0);
    assert_eq!(s.balance_of(E3), 1);
}

#[test]
fn burned_token_is_ownerless_and_not_reminted() {
    let mut s = registry(10, policy());
    mint(&mut s, E1, E1, "a").unwrap();
    let ev = s.burn(E1, &ord(0)).unwrap();
    assert!(matches!(ev, Some(CEP47Event::Burn { owner, burner, .. }) if owner == E1 && burner == E1));
    assert_eq!(s.owner_of(&ord(0)), Ok(None));
    assert_eq!(s.store.burned_tokens, vec![0u64]);
    assert_eq!(s.burn(E1, &ord(0)).unwrap_err(), NftError::TokenBurned);
    assert_eq!(s.transfer(E1, &ord(0), E2).unwrap_err(), NftError::TokenBurned);
    let ev = mint(&mut s, E1, E1, "b").unwrap();
    assert!(matches!(ev, Some(CEP47Event::Mint { token_id: TokenIdentifier::Ordinal(1), .. })));
}

#[test]
fn burned_hash_is_not_reminted() {
    let mut p = policy();
    p.identifier_mode = NFTIdentifierMode::Hash;
    let mut s = registry(10, p);
    mint(&mut s, E1, E1, "a").unwrap();
    s.burn(E1, &TokenIdentifier::Hash(digest("a"))).unwrap();
    assert_eq!(mint(&mut s, E1, E1, "a").unwrap_err(), NftError::DuplicateIdentifier);
}

#[test]
fn balances_sum_to_live_tokens() {
    let mut s = registry(10, policy());
    mint(&mut s, E1, E1, "a").unwrap();
    mint(&mut s, E1, E2, "b").unwrap();
    mint(&mut s, E1, E2, "c").unwrap();
    s.transfer(E2, &ord(1), E3).unwrap();
    s.burn(E2, &ord(2)).unwrap();
    let total: u64 = [E1, E2, E3].iter().map(|e| s.balance_of(*e)).sum();
    let live = (0..3).filter(|n| s.owner_of(&ord(*n)).unwrap().is_some()).count() as u64;
    assert_eq!(total, 2);
    assert_eq!(total, live);
}

#[test]
fn transfer_to_self_keeps_balance() {
    let mut s = registry(10, policy());
    mint(&mut s, E1, E1, "a").unwrap();
    s.transfer(E1, &ord(0), E1).unwrap();
    assert_eq!(s.balance_of(E1), 1);
}

#[test]
fn hash_index_round_trip() {
    let mut idx = IdentifierIndex::new();
    idx.register(0, "aa".to_string()).unwrap();
    idx.register(1, "bb".to_string()).unwrap();
    let o = idx.resolve_by_hash(&"bb".to_string()).unwrap();
    assert_eq!(o, 1);
    assert_eq!(idx.resolve_by_ordinal(o).unwrap(), "bb");
    assert_eq!(idx.register(2, "aa".to_string()), Err(NftError::DuplicateIdentifier));
    assert_eq!(idx.register(1, "cc".to_string()), Err(NftError::DuplicateIdentifier));
    assert_eq!(idx.resolve_by_hash(&"zz".to_string()), Err(NftError::NotFound));
    assert_eq!(idx.resolve_by_ordinal(9), Err(NftError::NotFound));
    assert_eq!(idx.remove(0, &"bb".to_string()), Err(NftError::InconsistentIndex));
    assert_eq!(idx.remove(7, &"zz".to_string()), Err(NftError::NotFound));
    assert_eq!(idx.remove(0, &"aa".to_string()), Ok(()));
    assert_eq!(idx.len(), 1);
    assert_eq!(idx.resolve_by_hash(&"aa".to_string()), Err(NftError::NotFound));
}

#[test]
fn minted_count_bounded_by_supply() {
    let mut s = registry(2, policy());
    mint(&mut s, E1, E1, "a").unwrap();
    assert_eq!(s.minted_count(), 1);
    s.burn(E1, &ord(0)).unwrap();
    assert_eq!(s.minted_count(), 1);
    mint(&mut s, E1, E1, "b").unwrap();
    assert_eq!(mint(&mut s, E1, E1, "c").unwrap_err(), NftError::SupplyExhausted);
    assert_eq!(s.minted_count(), 2);
}

#[test]
fn operator_grant_twice_leaves_one_edge() {
    let mut s = registry(10, policy());
    let ev = s.set_approval_for_all(E1, E2, true);
    assert!(matches!(ev, Some(CEP47Event::ApprovalForAll { owner, operator }) if owner == E1 && operator == E2));
    s.set_approval_for_all(E1, E2, true);
    assert_eq!(s.store.operators.len(), 1);
    let ev = s.set_approval_for_all(E1, E2, false);
    assert!(matches!(ev, Some(CEP47Event::RevokedForAll { .. })));
    assert!(s.store.operators.is_empty());
    s.set_approval_for_all(E1, E2, false);
    assert!(s.store.operators.is_empty());
}

#[test]
fn revoke_without_approval_is_silent() {
    let mut s = registry(10, policy());
    mint(&mut s, E1, E1, "a").unwrap();
    assert_eq!(s.revoke_approval(E1, &ord(0)).unwrap().is_none(), true);
    s.approve(E1, &ord(0), E2).unwrap();
    let ev = s.revoke_approval(E1, &ord(0)).unwrap();
    assert!(matches!(ev, Some(CEP47Event::ApprovalRevoked { owner, .. }) if owner == E1));
    assert_eq!(s.is_approved(&ord(0)), Ok(None));
}

#[test]
fn operator_may_transfer() {
    let mut s = registry(10, policy());
    mint(&mut s, E1, E1, "a").unwrap();
    assert_eq!(s.transfer(E2, &ord(0), E3).unwrap_err(), NftError::Unauthorized);
    s.set_approval_for_all(E1, E2, true);
    s.transfer(E2, &ord(0), E3).unwrap();
    assert_eq!(s.owner_of(&ord(0)), Ok(Some(E3)));
}

#[test]
fn operator_burn_needs_operator_burn_mode() {
    let mut s = registry(10, policy());
    mint(&mut s, E1, E1, "a").unwrap();
    s.set_approval_for_all(E1, E2, true);
    assert_eq!(s.burn(E2, &ord(0)).unwrap_err(), NftError::Unauthorized);
    let mut p = policy();
    p.operator_burn_mode = true;
    let mut s = registry(10, p);
    mint(&mut s, E1, E1, "a").unwrap();
    s.set_approval_for_all(E1, E2, true);
    let ev = s.burn(E2, &ord(0)).unwrap();
    assert!(matches!(ev, Some(CEP47Event::Burn { owner, burner, .. }) if owner == E1 && burner == E2));
}

#[test]
fn no_events_mode_emits_nothing() {
    let mut p = policy();
    p.events_mode = EventsMode::NoEvents;
    let mut s = registry(10, p);
    assert!(mint(&mut s, E1, E1, "a").unwrap().is_none());
    assert!(s.transfer(E1, &ord(0), E2).unwrap().is_none());
    assert!(s.set_approval_for_all(E2, E3, true).is_none());
}

#[test]
fn errors_on_configuration() {
    let r = CEP78State::new("c".to_string(), "C".to_string(), 0, E1, policy());
    assert_eq!(r.err(), Some(NftError::ConfigurationError));
    let mut p = policy();
    p.minting_mode = MintingMode::Acl;
    p.whitelist_mode = WhitelistMode::Locked;
    let r = CEP78State::new("c".to_string(), "C".to_string(), 5, E1, p);
    assert_eq!(r.err(), Some(NftError::ConfigurationError));
    let mut p = policy();
    p.identifier_mode = NFTIdentifierMode::Ordinal;
    p.events_mode = EventsMode::CES;
    assert!(CEP78State::new("c".to_string(), "C".to_string(), 5, E1, p).is_ok());
}

#[test]
fn minting_modes() {
    let mut p = policy();
    p.minting_mode = MintingMode::Installer;
    let mut s = registry(10, p);
    assert_eq!(mint(&mut s, E2, E2, "a").unwrap_err(), NftError::Unauthorized);
    mint(&mut s, E1, E2, "a").unwrap();
    let mut p = policy();
    p.minting_mode = MintingMode::Acl;
    p.acl_whitelist = vec![E2];
    let mut s = registry(10, p);
    assert_eq!(mint(&mut s, E3, E3, "a").unwrap_err(), NftError::Unauthorized);
    mint(&mut s, E2, E3, "a").unwrap();
    assert_eq!(s.owner_of(&ord(0)), Ok(Some(E3)));
}

#[test]
fn minting_switch() {
    let mut s = registry(10, policy());
    assert_eq!(s.set_allow_minting(E2, false).unwrap_err(), NftError::Unauthorized);
    let ev = s.set_allow_minting(E1, false).unwrap();
    assert!(matches!(ev, Some(CEP47Event::VariablesSet)));
    assert_eq!(mint(&mut s, E1, E1, "a").unwrap_err(), NftError::MintingDisabled);
    s.set_allow_minting(E1, true).unwrap();
    mint(&mut s, E1, E1, "a").unwrap();
}

#[test]
fn approval_errors() {
    let mut s = registry(10, policy());
    mint(&mut s, E1, E1, "a").unwrap();
    assert_eq!(s.approve(E1, &ord(0), E1).unwrap_err(), NftError::SelfApproval);
    assert_eq!(s.approve(E2, &ord(0), E3).unwrap_err(), NftError::Unauthorized);
    assert_eq!(s.approve(E1, &ord(5), E2).unwrap_err(), NftError::NotFound);
    assert_eq!(s.revoke_approval(E2, &ord(0)).unwrap_err(), NftError::Unauthorized);
    let ev = s.approve(E1, &ord(0), E2).unwrap();
    assert!(matches!(ev, Some(CEP47Event::ApprovalGranted { owner, spender, .. }) if owner == E1 && spender == E2));
}

#[test]
fn metadata_updates() {
    let mut s = registry(10, policy());
    mint(&mut s, E1, E1, "a").unwrap();
    assert_eq!(s.update_metadata(E2, &ord(0), "x".to_string()).unwrap_err(), NftError::Unauthorized);
    s.approve(E1, &ord(0), E2).unwrap();
    let ev = s.update_metadata(E2, &ord(0), "x".to_string()).unwrap();
    assert!(matches!(ev, Some(CEP47Event::MetadataUpdate { .. })));
    assert_eq!(s.metadata_of(&ord(0)).unwrap(), "x");
    let mut p = policy();
    p.metadata_mutability = MetadataMutability::Immutable;
    let mut s = registry(10, p);
    mint(&mut s, E1, E1, "a").unwrap();
    assert_eq!(s.update_metadata(E1, &ord(0), "x".to_string()).unwrap_err(), NftError::MetadataImmutable);
    assert_eq!(s.metadata_of(&ord(0)).unwrap(), "a");
}

#[test]
fn hash_metadata_update_keeps_identifier() {
    let mut p = policy();
    p.identifier_mode = NFTIdentifierMode::Hash;
    let mut s = registry(10, p);
    mint(&mut s, E1, E1, "a").unwrap();
    let id = TokenIdentifier::Hash(digest("a"));
    s.update_metadata(E1, &id, "b".to_string()).unwrap();
    assert_eq!(s.metadata_of(&id).unwrap(), "b");
    assert_eq!(s.owner_of(&TokenIdentifier::Hash(digest("b"))), Err(NftError::NotFound));
}

#[test]
fn operator_edge_errors() {
    let mut ops: Vec<OperatorEntry> = Vec::new();
    assert_eq!(grant_operator(&mut ops, E1, E2), Ok(()));
    assert_eq!(grant_operator(&mut ops, E1, E2), Err(NftError::DuplicateOperator));
    assert_eq!(revoke_operator(&mut ops, E1, E3), Err(NftError::NotFound));
    assert_eq!(revoke_operator(&mut ops, E1, E2), Ok(()));
    assert!(ops.is_empty());
}

#[test]
fn empty_store() {
    let st = StateStore::default();
    assert!(st.data.is_empty() && st.operators.is_empty() && st.burned_tokens.is_empty());
    assert_eq!(st.index.len(), 0);
}

#[test]
fn identifier_text() {
    assert_eq!(TokenIdentifier::Ordinal(42).to_text(), "42");
    assert_eq!(TokenIdentifier::Ordinal(0).to_text(), "0");
    assert_eq!(TokenIdentifier::Ordinal(u64::MAX).to_text(), "18446744073709551615");
    assert_eq!(TokenIdentifier::Hash("ab12".to_string()).to_text(), "ab12");
}

#[test]
fn identifier_equality() {
    assert!(TokenIdentifier::Ordinal(3) == TokenIdentifier::Ordinal(3));
    assert!(TokenIdentifier::Ordinal(3) != TokenIdentifier::Ordinal(4));
    assert!(TokenIdentifier::Hash("a".to_string()) == TokenIdentifier::Hash("a".to_string()));
    assert!(TokenIdentifier::Hash("3".to_string()) != TokenIdentifier::Ordinal(3));
}

#[test]
fn locked_whitelist_needs_flag() {
    let mut p = policy();
    p.minting_mode = MintingMode::Acl;
    p.whitelist_mode = WhitelistMode::Locked;
    p.acl_whitelist = vec![E2];
    let mut s = registry(10, p);
    assert_eq!(mint(&mut s, E2, E2, "a").unwrap_err(), NftError::Unauthorized);
    assert_eq!(s.set_whitelisted(E2, E2, true).unwrap_err(), NftError::Unauthorized);
    let ev = s.set_whitelisted(E1, E2, true).unwrap();
    assert!(matches!(ev, Some(CEP47Event::VariablesSet)));
    assert!(s.whitelisted(E2));
    assert!(s.can_mint(E2));
    mint(&mut s, E2, E2, "a").unwrap();
    assert_eq!(s.balance_of(E2), 1);
    s.set_whitelisted(E1, E2, false).unwrap();
    assert_eq!(mint(&mut s, E2, E2, "b").unwrap_err(), NftError::Unauthorized);
    assert_eq!(s.balance_of(E2), 1);
}

#[test]
fn unknown_identifier_kind_is_not_found() {
    let mut s = registry(10, policy());
    mint(&mut s, E1, E1, "a").unwrap();
    let h = TokenIdentifier::Hash(digest("a"));
    assert_eq!(s.owner_of(&h), Err(NftError::NotFound));
    assert_eq!(s.transfer(E1, &h, E2).unwrap_err(), NftError::NotFound);
    assert_eq!(s.metadata_of(&ord(1)).unwrap_err(), NftError::NotFound);
}
