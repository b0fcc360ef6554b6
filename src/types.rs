use vstd::prelude::*;

verus! {

/// An already-authenticated participant of the registry (an account or a
/// contract), identified by a stable number that the host assigns.
#[derive(Clone, Copy, Debug, PartialEq, Eq, Structural, Hash)]
pub struct Entity {
    pub id: u64,
}

/// How tokens are keyed for the whole lifetime of a registry.
#[derive(Clone, Copy, Debug, PartialEq, Eq, Structural)]
pub enum NFTIdentifierMode {
    Ordinal,
    Hash,
}

/// Whether, and in which style, events are produced.
#[derive(Clone, Copy, Debug, PartialEq, Eq, Structural)]
pub enum EventsMode {
    NoEvents,
    CEP47,
    CES,
}

/// Whether a token's metadata may be replaced after mint.
#[derive(Clone, Copy, Debug, PartialEq, Eq, Structural)]
pub enum MetadataMutability {
    Immutable,
    Mutable,
}

/// Whether tokens may be burned.
#[derive(Clone, Copy, Debug, PartialEq, Eq, Structural)]
pub enum BurnMode {
    Burnable,
    NonBurnable,
}

/// Which owner-to-token reverse lookups a host keeps.
#[derive(Clone, Copy, Debug, PartialEq, Eq, Structural)]
pub enum OwnerReverseLookupMode {
    NoLookUp,
    Complete,
    TransfersOnly,
}

/// The schema that token metadata follows.
#[derive(Clone, Copy, Debug, PartialEq, Eq, Structural)]
pub enum NFTMetadataKind {
    CEP78,
    NFT721,
    Raw,
    CustomValidated,
}

/// Who may mint.
#[derive(Clone, Copy, Debug, PartialEq, Eq, Structural)]
pub enum MintingMode {
    /// Only the installer.
    Installer,
    /// The ability to mint NFTs is not restricted.
    Public,
    /// The ability to mint NFTs is restricted by an ACL.
    Acl,
}

/// Whether and how a token may change owner after mint.
#[derive(Clone, Copy, Debug, PartialEq, Eq, Structural)]
pub enum OwnershipMode {
    /// The minter owns it and can never transfer it.
    Minter,
    /// The minter assigns it to an address and can never be transferred.
    Assigned,
    /// The NFT can be transferred even to a recipient that does not exist.
    Transferable,
}

/// What a token stands for.
#[derive(Clone, Copy, Debug, PartialEq, Eq, Structural)]
pub enum NFTKind {
    /// A real-world physical asset, like a house.
    Physical,
    /// A digital asset, like a unique JPEG or digital art.
    Digital,
    /// The virtual representation of a physical notion, e.g. a patent or
    /// copyright.
    Virtual,
}

/// Which kinds of entities may hold tokens.
#[derive(Clone, Copy, Debug, PartialEq, Eq, Structural)]
pub enum NFTHolderMode {
    Accounts,
    Contracts,
    Mixed,
}

/// Whether ACL-mode minting additionally requires the per-entity
/// whitelist flag.
#[derive(Clone, Copy, Debug, PartialEq, Eq, Structural)]
pub enum WhitelistMode {
    Unlocked,
    Locked,
}

/// The primary key of a token: a sequential ordinal or a content hash.
#[derive(Clone, Debug)]
pub enum TokenIdentifier {
    Ordinal(u64),
    Hash(String),
}

impl TokenIdentifier {
    /// The identifier as plain data: the ordinal, or the hash's characters.
    pub open spec fn key(&self) -> (Option<u64>, Seq<char>) {
        match self {
            TokenIdentifier::Ordinal(n) => (Some(*n), Seq::empty()),
            TokenIdentifier::Hash(h) => (None, h@),
        }
    }
}

/// The decimal digit `d` (below ten) as a character.
pub open spec fn digit_char(d: nat) -> char {
    if d == 0 { '0' } else if d == 1 { '1' } else if d == 2 { '2' } else if d == 3 { '3' } else if d == 4 {
        '4'
    } else if d == 5 { '5' } else if d == 6 { '6' } else if d == 7 { '7' } else if d == 8 { '8' } else {
        '9'
    }
}

/// The decimal representation of `n`, without leading zeros.
pub open spec fn decimal(n: nat) -> Seq<char>
    decreases n,
{
    if n < 10 {
        seq![digit_char(n)]
    } else {
        decimal(n / 10) + seq![digit_char(n % 10)]
    }
}

/// Relies on `u64`'s `Display` (through `ToString`): base ten, no sign, no
/// leading zeros.
#[verifier::external_body]
fn decimal_text(n: u64) -> (r: String)
    ensures
        r@ == decimal(n as nat),
{
    n.to_string()
}

impl TokenIdentifier {
    /// The identifier as text: the ordinal in decimal, or the hash itself.
    pub open spec fn text(&self) -> Seq<char> {
        match self {
            TokenIdentifier::Ordinal(n) => decimal(*n as nat),
            TokenIdentifier::Hash(h) => h@,
        }
    }

    /// The identifier as text, as it appears in storage keys and event
    /// payloads.
    pub fn to_text(&self) -> (r: String)
        ensures
            r@ == self.text(),
    {
        match self {
            TokenIdentifier::Ordinal(n) => decimal_text(*n),
            TokenIdentifier::Hash(h) => h.clone(),
        }
    }
}

impl PartialEq for TokenIdentifier {
    fn eq(&self, other: &TokenIdentifier) -> (r: bool)
        ensures
            r == (self.key() == other.key()),
    {
        match (self, other) {
            (TokenIdentifier::Ordinal(a), TokenIdentifier::Ordinal(b)) => *a == *b,
            (TokenIdentifier::Hash(a), TokenIdentifier::Hash(b)) => *a == *b,
            _ => false,
        }
    }
}

impl vstd::std_specs::cmp::PartialEqSpecImpl for TokenIdentifier {
    open spec fn obeys_eq_spec() -> bool {
        true
    }

    open spec fn eq_spec(&self, other: &TokenIdentifier) -> bool {
        self.key() == other.key()
    }
}

/// A flattened `(owner, operator)` edge: `value` may act for `key` on all of
/// `key`'s tokens.
#[derive(Clone, Copy, Debug, PartialEq, Eq, Structural)]
pub struct OperatorEntry {
    pub key: Entity,
    pub value: Entity,
}

/// The record of one minted token. `owner` is `None` exactly when the token
/// has been burned; `issuer` is set at mint and never changes.
#[derive(Clone, Debug)]
pub struct TokenData {
    pub approved: Option<Entity>,
    pub issuer: Option<Entity>,
    pub owner: Option<Entity>,
    pub metadata: String,
}

/// Per-entity aggregate: how many live tokens it owns, and its whitelist
/// flag.
#[derive(Clone, Copy, Debug, PartialEq, Eq, Structural)]
pub struct EntityData {
    pub balance: u64,
    pub whitelisted: bool,
}

/// Why an operation was rejected.
#[derive(Clone, Copy, Debug, PartialEq, Eq, Structural)]
pub enum NftError {
    /// The caller lacks the relation the operation requires.
    Unauthorized,
    /// The policy combination given at construction is not supported.
    ConfigurationError,
    /// Minting has been switched off.
    MintingDisabled,
    /// Every token the supply allows has been minted.
    SupplyExhausted,
    /// The registry does not allow burning.
    BurnDisabled,
    /// The registry does not allow metadata updates.
    MetadataImmutable,
    /// The ownership mode forbids transfers.
    InvalidOwnershipMode,
    /// The token has been burned.
    TokenBurned,
    /// The identifier is already registered.
    DuplicateIdentifier,
    /// The operator edge already exists.
    DuplicateOperator,
    /// No such token, identifier or edge.
    NotFound,
    /// The identifier index holds one direction of a pair without the other.
    InconsistentIndex,
    /// An owner tried to approve itself.
    SelfApproval,
}

} // verus!
