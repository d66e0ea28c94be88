//! Error kinds of the escrow. Every validation failure aborts the operation
//! with one of these; no state changes on any failure path.

use vstd::prelude::*;

verus! {

/// The machine-readable error kinds a create or swap can fail with.
#[derive(Debug, Clone, Copy, PartialEq, Eq, Structural)]
pub enum ContractError {
    /// Offer creation was attempted while the config's active flag is false.
    Inactive,
    /// Creation with an already-elapsed expiration, or a swap against an
    /// offer whose expiration has elapsed.
    Expired,
    /// A native payment carried more than one coin denomination.
    TooManyDenominations,
    /// Payment kind or denomination/contract address does not match the
    /// offer's ask.
    WrongDenomination,
    /// Payment amount is below the ask amount.
    InsufficientPayment,
    /// The referenced offer identifier does not exist.
    NotFound,
    /// The payer equals the offer's seller.
    SelfTrade,
    /// Reserved for administrative operations outside the escrow core.
    Unauthorized,
}

impl ContractError {
    /// The human-readable message surfaced with this kind.
    pub open spec fn spec_message(self) -> Seq<char> {
        match self {
            ContractError::Inactive => "The factory has been stopped.  No new otc can be created"@,
            ContractError::Expired => "Expired"@,
            ContractError::TooManyDenominations => "Too many denominations"@,
            ContractError::WrongDenomination => "Wrong denomination"@,
            ContractError::InsufficientPayment => "Sent amount is smaller than what being asked"@,
            ContractError::NotFound => "Not found"@,
            ContractError::SelfTrade => "Can't swap with yourself"@,
            ContractError::Unauthorized => "Unauthorized"@,
        }
    }

    /// The human-readable message surfaced with this kind.
    pub fn message(&self) -> (r: String)
        ensures
            r@ == self.spec_message(),
    {
        match self {
            ContractError::Inactive => "The factory has been stopped.  No new otc can be created"
                .to_owned(),
            ContractError::Expired => "Expired".to_owned(),
            ContractError::TooManyDenominations => "Too many denominations".to_owned(),
            ContractError::WrongDenomination => "Wrong denomination".to_owned(),
            ContractError::InsufficientPayment => "Sent amount is smaller than what being asked"
                .to_owned(),
            ContractError::NotFound => "Not found".to_owned(),
            ContractError::SelfTrade => "Can't swap with yourself".to_owned(),
            ContractError::Unauthorized => "Unauthorized".to_owned(),
        }
    }
}

} // verus!
