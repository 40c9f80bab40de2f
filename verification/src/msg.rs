//! The messages that a ledger takes, and the answers it gives.

use vstd::prelude::*;

use crate::expiration::{BlockInfo, Expiration};
use crate::metadata::Extension;
use crate::state::Approval;

verus! {

/// Where on the chain a call executes.
#[derive(Clone, Copy, Debug, PartialEq, Eq)]
pub struct Env {
    pub block: BlockInfo,
}

/// Who makes a call.
#[derive(Debug, PartialEq, Eq)]
pub struct MessageInfo {
    pub sender: String,
}

/// What a ledger is created with.
#[derive(Debug, PartialEq, Eq)]
pub struct InstantiateMsg {
    /// Name of the collection.
    pub name: String,
    /// Symbol of the collection.
    pub symbol: String,
    /// Who may issue tokens.
    pub minter: String,
    /// The currency in which rewards are paid.
    pub rewards_denom: String,
}

/// A step of the hand-over of the minter role.
#[derive(Debug, PartialEq, Eq)]
pub enum Action {
    /// The minter offers the role to `new_owner`, to be accepted before `expiry`.
    TransferOwnership { new_owner: String, expiry: Option<Expiration> },
    /// The one to whom the role was offered takes it.
    AcceptOwnership,
    /// The minter gives the role up for good.
    RenounceOwnership,
}

/// The commands of a ledger.
#[allow(inconsistent_fields)]
#[derive(Debug, PartialEq, Eq)]
pub enum ExecuteMsg {
    /// Pass a token to another account.
    TransferNft { recipient: String, token_id: String },
    /// Pass a token to a contract and tell the contract so.
    SendNft { contract: String, token_id: String, msg: Vec<u8> },
    /// Let `spender` transfer the token, until `expires` where that is given.
    Approve { spender: String, token_id: String, expires: Option<Expiration> },
    /// Take back an approval.
    Revoke { spender: String, token_id: String },
    /// Let `operator` transfer every token of the sender, until `expires` where that is given.
    ApproveAll { operator: String, expires: Option<Expiration> },
    /// Take back the approval of an operator.
    RevokeAll { operator: String },
    /// Issue a new token; for the minter only.
    Mint { token_id: String, owner: String, token_uri: Option<String>, extension: Extension },
    /// Ask for the rewards of the ledger to be paid out; for the minter only.
    WithdrawRewards {  },
    /// Ask for rewards to be paid out on behalf of a token.
    WithdrawTokenRewards { token_id: String },
    /// Offer the minter role to `minter`.
    UpdateMinter { minter: String },
    /// Remove a token for good.
    Burn { token_id: String },
    /// Take a step of the hand-over of the minter role.
    UpdateOwnership(Action),
}

/// The questions about royalties.
#[derive(Debug, PartialEq, Eq)]
pub enum Cw2981QueryMsg {
    /// What is owed on a sale of the token at `sale_price`, and to whom.
    RoyaltyInfo { token_id: String, sale_price: u128 },
    /// Whether the ledger knows royalties at all.
    CheckRoyalties {  },
}

impl Default for Cw2981QueryMsg {
    fn default() -> (msg: Self)
        ensures
            msg == (Cw2981QueryMsg::CheckRoyalties {  }),
    {
        Cw2981QueryMsg::CheckRoyalties {  }
    }
}

/// The questions that a ledger answers.
#[allow(inconsistent_fields)]
#[derive(Debug, PartialEq, Eq)]
pub enum QueryMsg {
    /// The owner of a token and the approvals on it.
    OwnerOf { token_id: String, include_expired: Option<bool> },
    /// The approval of one spender on a token.
    Approval { token_id: String, spender: String, include_expired: Option<bool> },
    /// The approvals on a token.
    Approvals { token_id: String, include_expired: Option<bool> },
    /// The approval of one operator for the tokens of an owner.
    Operator { owner: String, operator: String, include_expired: Option<bool> },
    /// The operators of an owner, a page at a time.
    AllOperators {
        owner: String,
        include_expired: Option<bool>,
        start_after: Option<String>,
        limit: Option<u32>,
    },
    /// The number of tokens issued.
    NumTokens {  },
    /// Name and symbol of the collection.
    ContractInfo {  },
    /// Address and metadata of a token.
    NftInfo { token_id: String },
    /// What `NftInfo` and `OwnerOf` answer, together.
    AllNftInfo { token_id: String, include_expired: Option<bool> },
    /// The tokens of an owner, a page at a time.
    Tokens { owner: String, start_after: Option<String>, limit: Option<u32> },
    /// All tokens, a page at a time.
    AllTokens { start_after: Option<String>, limit: Option<u32> },
    /// Who may issue tokens.
    Minter {  },
    /// The rewards withdrawn so far: those credited to a token, or those of the ledger.
    TotalArchReward { token_id: Option<String> },
    /// A question about royalties.
    Extension { msg: Cw2981QueryMsg },
    /// The state of the minter role.
    Ownership {  },
}

/// The rewards withdrawn so far.
#[derive(Debug, PartialEq, Eq)]
pub struct TotalRewardResponse {
    pub total_arch_reward: u128,
}

/// Who may issue tokens.
#[derive(Debug, PartialEq, Eq)]
pub struct MinterResponse {
    pub minter: Option<String>,
}

/// What a sale owes in royalties, and to whom.
#[derive(Debug, PartialEq, Eq)]
pub struct RoyaltiesInfoResponse {
    /// Who receives the royalty; empty where no one does.
    pub address: String,
    pub royalty_amount: u128,
}

/// Whether the ledger knows royalties.
#[derive(Debug, PartialEq, Eq)]
pub struct CheckRoyaltiesResponse {
    pub royalty_payments: bool,
}

/// What a migration is asked with.
#[derive(Debug, PartialEq, Eq)]
pub enum MigrateMsg {
    Migrate {  },
}

/// The owner of a token and the approvals on it.
#[derive(Debug, PartialEq, Eq)]
pub struct OwnerOfResponse {
    pub owner: String,
    pub approvals: Vec<Approval>,
}

/// The approval of one spender.
#[derive(Debug, PartialEq, Eq)]
pub struct ApprovalResponse {
    pub approval: Approval,
}

/// The approvals on a token.
#[derive(Debug, PartialEq, Eq)]
pub struct ApprovalsResponse {
    pub approvals: Vec<Approval>,
}

/// The approval of one operator.
#[derive(Debug, PartialEq, Eq)]
pub struct OperatorResponse {
    pub approval: Approval,
}

/// A page of the operators of an owner.
#[derive(Debug, PartialEq, Eq)]
pub struct OperatorsResponse {
    pub operators: Vec<Approval>,
}

/// The number of tokens issued.
#[derive(Debug, PartialEq, Eq)]
pub struct NumTokensResponse {
    pub count: u64,
}

/// Name and symbol of the collection.
#[derive(Debug, PartialEq, Eq)]
pub struct ContractInfoResponse {
    pub name: String,
    pub symbol: String,
}

/// Address and metadata of a token.
#[derive(Debug, PartialEq, Eq)]
pub struct NftInfoResponse {
    pub token_uri: Option<String>,
    pub extension: Extension,
}

/// Owner, approvals, address and metadata of a token.
#[derive(Debug, PartialEq, Eq)]
pub struct AllNftInfoResponse {
    pub access: OwnerOfResponse,
    pub info: NftInfoResponse,
}

/// A page of token ids.
#[derive(Debug, PartialEq, Eq)]
pub struct TokensResponse {
    pub tokens: Vec<String>,
}

/// The state of the minter role.
#[derive(Debug, PartialEq, Eq)]
pub struct OwnershipResponse {
    pub owner: Option<String>,
    pub pending_owner: Option<String>,
    pub pending_expiry: Option<Expiration>,
}

/// The answer to a question, whichever it was.
#[derive(Debug, PartialEq, Eq)]
pub enum QueryResponse {
    OwnerOf(OwnerOfResponse),
    Approval(ApprovalResponse),
    Approvals(ApprovalsResponse),
    Operator(OperatorResponse),
    Operators(OperatorsResponse),
    NumTokens(NumTokensResponse),
    ContractInfo(ContractInfoResponse),
    NftInfo(NftInfoResponse),
    AllNftInfo(AllNftInfoResponse),
    Tokens(TokensResponse),
    Minter(MinterResponse),
    TotalArchReward(TotalRewardResponse),
    RoyaltiesInfo(RoyaltiesInfoResponse),
    CheckRoyalties(CheckRoyaltiesResponse),
    Ownership(OwnershipResponse),
}

} // verus!
