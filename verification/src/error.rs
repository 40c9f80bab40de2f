//! The ways in which a call can fail.

use vstd::prelude::*;

verus! {

/// Failures of the surroundings of the ledger rather than of its rules.
#[derive(Debug, PartialEq, Eq)]
pub enum StdError {
    /// A failure described by its message only.
    GenericErr { msg: String },
    /// Something that was looked up does not exist.
    NotFound { kind: String },
    /// A sum does not fit the accumulator.
    Overflow,
}

/// What a `StdError` holds.
pub enum StdErrorView {
    GenericErr { msg: Seq<char> },
    NotFound { kind: Seq<char> },
    Overflow,
}

impl View for StdError {
    type V = StdErrorView;

    open spec fn view(&self) -> StdErrorView {
        match self {
            StdError::GenericErr { msg } => StdErrorView::GenericErr { msg: msg@ },
            StdError::NotFound { kind } => StdErrorView::NotFound { kind: kind@ },
            StdError::Overflow => StdErrorView::Overflow,
        }
    }
}

/// Failures of the hand-over of the minter role.
#[derive(Clone, Copy, Debug, PartialEq, Eq)]
pub enum OwnershipError {
    /// The role has been renounced.
    NoOwner,
    /// The caller does not hold the role.
    NotOwner,
    /// The caller is not the one the role was offered to.
    NotPendingOwner,
    /// The role has not been offered to anyone.
    TransferNotFound,
    /// The offer has lapsed.
    TransferExpired,
}

/// Every failure that a call on the ledger can report.
#[derive(Debug, PartialEq, Eq)]
pub enum ContractError {
    Std(StdError),
    Ownership(OwnershipError),
    /// The token id is taken, or was taken by a token since burnt.
    Claimed {},
    /// The expiration given for an approval has already lapsed.
    Expired {},
    /// The spender holds no approval that is in force.
    ApprovalNotFound { spender: String },
    /// This deployment does not burn tokens.
    BurnNotAllowed {},
    /// Every token of the supply has been issued.
    MaxSupplyExceeded {},
    /// A royalty percentage above one hundred.
    InvalidRoyaltyPercentage,
    /// The caller lacks the right to do what was asked.
    Unauthorized {},
    /// A withdrawal of rewards is already awaiting its reply.
    WithdrawalPending {},
}

/// What a `ContractError` holds.
pub enum ContractErrorView {
    Std(StdErrorView),
    Ownership(OwnershipError),
    Claimed,
    Expired,
    ApprovalNotFound { spender: Seq<char> },
    BurnNotAllowed,
    MaxSupplyExceeded,
    InvalidRoyaltyPercentage,
    Unauthorized,
    WithdrawalPending,
}

impl View for ContractError {
    type V = ContractErrorView;

    open spec fn view(&self) -> ContractErrorView {
        match self {
            ContractError::Std(e) => ContractErrorView::Std(e@),
            ContractError::Ownership(e) => ContractErrorView::Ownership(*e),
            ContractError::Claimed {  } => ContractErrorView::Claimed,
            ContractError::Expired {  } => ContractErrorView::Expired,
            ContractError::ApprovalNotFound { spender } => ContractErrorView::ApprovalNotFound {
                spender: spender@,
            },
            ContractError::BurnNotAllowed {  } => ContractErrorView::BurnNotAllowed,
            ContractError::MaxSupplyExceeded {  } => ContractErrorView::MaxSupplyExceeded,
            ContractError::InvalidRoyaltyPercentage => ContractErrorView::InvalidRoyaltyPercentage,
            ContractError::Unauthorized {  } => ContractErrorView::Unauthorized,
            ContractError::WithdrawalPending {  } => ContractErrorView::WithdrawalPending,
        }
    }
}

/// What is reported when a token is looked up that does not exist.
pub open spec fn token_not_found() -> ContractErrorView {
    ContractErrorView::Std(StdErrorView::NotFound { kind: "token"@ })
}

/// What is reported when an address is empty.
pub open spec fn invalid_address() -> ContractErrorView {
    ContractErrorView::Std(StdErrorView::GenericErr { msg: "Invalid input: empty address"@ })
}

/// The failure for a token that does not exist.
pub fn no_such_token() -> (e: ContractError)
    ensures
        e@ == token_not_found(),
{
    ContractError::Std(StdError::NotFound { kind: "token".to_owned() })
}

/// The failure for an empty address.
pub fn empty_address() -> (e: ContractError)
    ensures
        e@ == invalid_address(),
{
    ContractError::Std(StdError::GenericErr { msg: "Invalid input: empty address".to_owned() })
}

} // verus!
