//! The records that the ledger keeps, and what each of them holds.

use vstd::prelude::*;

use crate::expiration::{BlockInfo, Expiration};
use crate::keyed::{as_map, keys_distinct};
use crate::metadata::{Extension, MetadataView};
use crate::order::{ascending, pairs_ascending};

verus! {

/// The right of `spender` to transfer one token, until `expires`.
#[derive(Debug, PartialEq, Eq)]
pub struct Approval {
    pub spender: String,
    pub expires: Expiration,
}

/// What an `Approval` holds.
pub struct ApprovalView {
    pub spender: Seq<char>,
    pub expires: Expiration,
}

impl View for Approval {
    type V = ApprovalView;

    open spec fn view(&self) -> ApprovalView {
        ApprovalView { spender: self.spender@, expires: self.expires }
    }
}

impl DeepView for Approval {
    type V = ApprovalView;

    open spec fn deep_view(&self) -> ApprovalView {
        self@
    }
}

impl Clone for Approval {
    fn clone(&self) -> (copy: Self)
        ensures
            copy@ == self@,
    {
        Approval { spender: self.spender.clone(), expires: self.expires }
    }
}

/// A uniquely identified token, with its owner and those who may transfer it.
#[derive(Debug, PartialEq, Eq)]
pub struct Token {
    pub token_id: String,
    pub owner: String,
    pub approvals: Vec<Approval>,
    pub token_uri: Option<String>,
    pub extension: Extension,
}

/// What a `Token` holds.
pub struct TokenView {
    pub token_id: Seq<char>,
    pub owner: Seq<char>,
    pub approvals: Seq<ApprovalView>,
    pub token_uri: Option<Seq<char>>,
    pub extension: Option<MetadataView>,
}

impl View for Token {
    type V = TokenView;

    open spec fn view(&self) -> TokenView {
        TokenView {
            token_id: self.token_id@,
            owner: self.owner@,
            approvals: self.approvals.deep_view(),
            token_uri: self.token_uri.deep_view(),
            extension: self.extension.deep_view(),
        }
    }
}

/// Whether a royalty percentage, where one is set, is at most one hundred.
pub open spec fn royalty_in_range(extension: Option<MetadataView>) -> bool {
    match extension {
        Some(metadata) => match metadata.royalty_percentage {
            Some(percentage) => percentage <= 100,
            None => true,
        },
        None => true,
    }
}

/// No two approvals name the same spender.
pub open spec fn spenders_distinct(approvals: Seq<ApprovalView>) -> bool {
    forall|i: int, j: int|
        0 <= i < j < approvals.len() ==> (#[trigger] approvals[i]).spender != (
        #[trigger] approvals[j]).spender
}

impl TokenView {
    /// The token has an owner, at most one approval for each spender, and a royalty
    /// percentage of at most one hundred.
    pub open spec fn valid(self) -> bool {
        &&& self.owner.len() > 0
        &&& spenders_distinct(self.approvals)
        &&& royalty_in_range(self.extension)
    }
}

/// The right of `operator` to transfer every token of `owner`, until `expires`.
#[derive(Debug, PartialEq, Eq)]
pub struct OperatorApproval {
    pub owner: String,
    pub operator: String,
    pub expires: Expiration,
}

/// The rewards credited to one token.
#[derive(Debug, PartialEq, Eq)]
pub struct TokenReward {
    pub token_id: String,
    pub amount: u128,
}

/// Whether a withdrawal of rewards has been requested and not yet answered.
#[derive(Debug, PartialEq, Eq)]
pub enum Withdrawal {
    /// No request is outstanding.
    Idle,
    /// One request is outstanding; its payout is also credited to `token_id`, if any.
    AwaitingReply { token_id: Option<String> },
}

/// What a `Withdrawal` holds.
pub enum WithdrawalView {
    Idle,
    AwaitingReply { token_id: Option<Seq<char>> },
}

impl View for Withdrawal {
    type V = WithdrawalView;

    open spec fn view(&self) -> WithdrawalView {
        match self {
            Withdrawal::Idle => WithdrawalView::Idle,
            Withdrawal::AwaitingReply { token_id } => WithdrawalView::AwaitingReply {
                token_id: token_id.deep_view(),
            },
        }
    }
}

/// Who holds the minter role, and to whom it has been offered.
#[derive(Debug, PartialEq, Eq)]
pub struct MinterAuthority {
    /// The minter; `None` once the role has been renounced.
    pub owner: Option<String>,
    /// To whom the role has been offered.
    pub pending_owner: Option<String>,
    /// Until when the offer can be accepted; `None` for an offer without a deadline.
    pub pending_expiry: Option<Expiration>,
}

/// What a `MinterAuthority` holds.
pub struct MinterView {
    pub owner: Option<Seq<char>>,
    pub pending_owner: Option<Seq<char>>,
    pub pending_expiry: Option<Expiration>,
}

impl View for MinterAuthority {
    type V = MinterView;

    open spec fn view(&self) -> MinterView {
        MinterView {
            owner: self.owner.deep_view(),
            pending_owner: self.pending_owner.deep_view(),
            pending_expiry: self.pending_expiry,
        }
    }
}

/// How many tokens have been issued, and how many may be.
#[derive(Clone, Copy, Debug, PartialEq, Eq)]
pub struct SupplyTracker {
    pub issued_count: u64,
    pub max_supply: u64,
}

/// What a deployment fixes for the lifetime of a ledger.
#[derive(Clone, Copy, Debug, PartialEq, Eq)]
pub struct Deployment {
    /// The number of tokens that may be issued.
    pub max_supply: u64,
    /// Whether tokens may be burnt.
    pub burn_allowed: bool,
}

/// The name and version under which a ledger was created.
#[derive(Debug, PartialEq, Eq)]
pub struct ContractVersion {
    pub contract: String,
    pub version: String,
}

/// The whole state of a ledger.
#[derive(Debug, PartialEq, Eq)]
pub struct Cw721Contract {
    pub name: String,
    pub symbol: String,
    /// The currency in which rewards are paid.
    pub rewards_denom: String,
    pub burn_allowed: bool,
    pub supply: SupplyTracker,
    pub minter: MinterAuthority,
    /// The tokens, in ascending order of their ids.
    pub tokens: Vec<Token>,
    /// The ids of the tokens that were burnt.
    pub retired: Vec<String>,
    /// The operator approvals, in ascending order of owner, then operator.
    pub operators: Vec<OperatorApproval>,
    /// The rewards withdrawn so far, over all currencies.
    pub total_rewards: u128,
    /// The rewards withdrawn on behalf of single tokens.
    pub token_rewards: Vec<TokenReward>,
    pub withdrawal: Withdrawal,
    pub version: ContractVersion,
}

/// The ledger as mathematics: finite maps in place of ordered lists.
pub struct ContractView {
    pub name: Seq<char>,
    pub symbol: Seq<char>,
    pub rewards_denom: Seq<char>,
    pub burn_allowed: bool,
    pub supply: SupplyTracker,
    pub minter: MinterView,
    /// Each token under its id.
    pub tokens: Map<Seq<char>, TokenView>,
    /// The ids of burnt tokens.
    pub retired: Set<Seq<char>>,
    /// The expiration of each operator approval, under `(owner, operator)`.
    pub operators: Map<(Seq<char>, Seq<char>), Expiration>,
    pub total_rewards: u128,
    /// The rewards of each token that has been credited any.
    pub token_rewards: Map<Seq<char>, u128>,
    pub withdrawal: WithdrawalView,
    pub version: (Seq<char>, Seq<char>),
}

/// The ids of a list of tokens, in the order of the list.
pub open spec fn token_ids(tokens: Seq<Token>) -> Seq<Seq<char>> {
    Seq::new(tokens.len(), |i: int| tokens[i].token_id@)
}

/// Each token of a list, paired with its id.
pub open spec fn token_entries(tokens: Seq<Token>) -> Seq<(Seq<char>, TokenView)> {
    Seq::new(tokens.len(), |i: int| (tokens[i].token_id@, tokens[i]@))
}

/// The `(owner, operator)` pairs of a list of operator approvals, in the order of the list.
pub open spec fn operator_keys(operators: Seq<OperatorApproval>) -> Seq<(Seq<char>, Seq<char>)> {
    Seq::new(operators.len(), |i: int| (operators[i].owner@, operators[i].operator@))
}

/// Each operator approval of a list as a pair and its expiration.
pub open spec fn operator_entries(operators: Seq<OperatorApproval>) -> Seq<
    ((Seq<char>, Seq<char>), Expiration),
> {
    Seq::new(
        operators.len(),
        |i: int| ((operators[i].owner@, operators[i].operator@), operators[i].expires),
    )
}

/// Each reward of a list as a token id and an amount.
pub open spec fn reward_entries(rewards: Seq<TokenReward>) -> Seq<(Seq<char>, u128)> {
    Seq::new(rewards.len(), |i: int| (rewards[i].token_id@, rewards[i].amount))
}

/// The strings of a list, in the order of the list.
pub open spec fn names(list: Seq<String>) -> Seq<Seq<char>> {
    Seq::new(list.len(), |i: int| list[i]@)
}

impl View for Cw721Contract {
    type V = ContractView;

    open spec fn view(&self) -> ContractView {
        ContractView {
            name: self.name@,
            symbol: self.symbol@,
            rewards_denom: self.rewards_denom@,
            burn_allowed: self.burn_allowed,
            supply: self.supply,
            minter: self.minter@,
            tokens: as_map(token_entries(self.tokens@)),
            retired: names(self.retired@).to_set(),
            operators: as_map(operator_entries(self.operators@)),
            total_rewards: self.total_rewards,
            token_rewards: as_map(reward_entries(self.token_rewards@)),
            withdrawal: self.withdrawal@,
            version: (self.version.contract@, self.version.version@),
        }
    }
}

impl Cw721Contract {
    /// What the lists of a ledger must satisfy for it to stand for a `ContractView`: tokens
    /// and operator approvals in ascending order, nothing listed twice, no burnt id in use,
    /// every token valid, every issued token either in the ledger or burnt, and no token
    /// credited more rewards than the ledger.
    pub open spec fn wf(&self) -> bool {
        &&& ascending(token_ids(self.tokens@))
        &&& forall|i: int| 0 <= i < self.tokens.len() ==> (#[trigger] self.tokens[i])@.valid()
        &&& pairs_ascending(operator_keys(self.operators@))
        &&& names(self.retired@).no_duplicates()
        &&& forall|i: int, j: int|
            0 <= i < self.retired.len() && 0 <= j < self.tokens.len() ==> (
            #[trigger] self.retired[i])@ != (#[trigger] self.tokens[j]).token_id@
        &&& keys_distinct(reward_entries(self.token_rewards@))
        &&& forall|i: int|
            0 <= i < self.token_rewards.len() ==> (#[trigger] self.token_rewards[i]).amount
                <= self.total_rewards
        &&& self.supply.issued_count <= self.supply.max_supply
        &&& self.supply.issued_count == self.tokens.len() + self.retired.len()
    }
}

impl ContractView {
    /// What holds of every ledger: each token is valid and stands under its own id, no
    /// burnt id is in use, every issued token is either in the ledger or burnt, and no
    /// token has been credited more rewards than the ledger.
    pub open spec fn valid(self) -> bool {
        &&& self.tokens.dom().finite()
        &&& self.retired.finite()
        &&& forall|id: Seq<char>| #[trigger]
            self.tokens.dom().contains(id) ==> self.tokens[id].token_id == id
                && self.tokens[id].valid()
        &&& self.tokens.dom().disjoint(self.retired)
        &&& self.supply.issued_count <= self.supply.max_supply
        &&& self.supply.issued_count == self.tokens.dom().len() + self.retired.len()
        &&& forall|id: Seq<char>| #[trigger]
            self.token_rewards.dom().contains(id) ==> self.token_rewards[id] <= self.total_rewards
    }

    /// Whether `actor` may transfer or burn `token` at `block`: as its owner, by an
    /// approval on the token that has not lapsed, or by an operator approval of the owner
    /// that has not lapsed.
    pub open spec fn is_authorized(self, token: TokenView, actor: Seq<char>, block: BlockInfo) -> bool {
        ||| actor == token.owner
        ||| has_active_approval(token.approvals, actor, block)
        ||| self.has_active_operator(token.owner, actor, block)
    }

    /// Whether `operator` holds an approval of `owner` that has not lapsed at `block`.
    pub open spec fn has_active_operator(
        self,
        owner: Seq<char>,
        operator: Seq<char>,
        block: BlockInfo,
    ) -> bool {
        self.operators.dom().contains((owner, operator)) && !self.operators[(
            owner,
            operator,
        )].expired_at(block)
    }

    /// The rewards credited to the token `id`; zero where none were.
    pub open spec fn token_reward(self, id: Seq<char>) -> u128 {
        if self.token_rewards.dom().contains(id) {
            self.token_rewards[id]
        } else {
            0
        }
    }
}

/// Whether `approvals` holds an approval for `spender` that has not lapsed at `block`.
pub open spec fn has_active_approval(
    approvals: Seq<ApprovalView>,
    spender: Seq<char>,
    block: BlockInfo,
) -> bool {
    exists|i: int|
        0 <= i < approvals.len() && (#[trigger] approvals[i]).spender == spender
            && !approvals[i].expires.expired_at(block)
}

} // verus!
