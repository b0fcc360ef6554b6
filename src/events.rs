use vstd::prelude::*;
use crate::types::{Entity, TokenIdentifier};

verus! {

/// The record of one completed transition, handed to the host for delivery.
#[derive(Clone, Debug)]
pub enum CEP47Event {
    Mint { recipient: Entity, token_id: TokenIdentifier },
    Burn { owner: Entity, token_id: TokenIdentifier, burner: Entity },
    ApprovalGranted { owner: Entity, spender: Entity, token_id: TokenIdentifier },
    ApprovalRevoked { owner: Entity, token_id: TokenIdentifier },
    ApprovalForAll { owner: Entity, operator: Entity },
    RevokedForAll { owner: Entity, operator: Entity },
    Transfer { sender: Entity, recipient: Entity, token_id: TokenIdentifier },
    MetadataUpdate { token_id: TokenIdentifier },
    VariablesSet,
    Migrate,
}

} // verus!
