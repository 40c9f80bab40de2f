//! The rules of the ledger, stated on its mathematical view: what each command makes of a
//! ledger, and when it fails.

use vstd::prelude::*;

use crate::error::{invalid_address, token_not_found, ContractError, ContractErrorView, OwnershipError};
use crate::expiration::{BlockInfo, Expiration};
use crate::metadata::MetadataView;
use crate::response::{Response, ResponseView, SubMsgView};
use crate::rewards::REWARDS_WITHDRAW_REPLY;
use crate::state::{
    has_active_approval, royalty_in_range, ApprovalView, ContractView, MinterView, SupplyTracker,
    TokenView, WithdrawalView,
};

verus! {

/// The outcome of a command on the view of a ledger.
pub type Outcome = Result<ContractView, ContractErrorView>;

/// The approvals that are not for `spender`.
pub open spec fn other_spender(spender: Seq<char>) -> spec_fn(ApprovalView) -> bool {
    |approval: ApprovalView| approval.spender != spender
}

/// The approvals that have not lapsed at `block`.
pub open spec fn in_force(block: BlockInfo) -> spec_fn(ApprovalView) -> bool {
    |approval: ApprovalView| !approval.expires.expired_at(block)
}

/// The expiration that a command asks for; never, where it names none.
pub open spec fn expiry_or_never(expires: Option<Expiration>) -> Expiration {
    match expires {
        Some(expiration) => expiration,
        None => Expiration::Never,
    }
}

impl MinterView {
    /// The current minter offers the role to `new_minter`. An earlier offer is replaced.
    pub open spec fn propose_transfer(
        self,
        sender: Seq<char>,
        new_minter: Seq<char>,
        expiry: Option<Expiration>,
    ) -> Result<MinterView, OwnershipError> {
        match self.owner {
            None => Err(OwnershipError::NoOwner),
            Some(owner) => if owner != sender {
                Err(OwnershipError::NotOwner)
            } else {
                Ok(
                    MinterView {
                        owner: self.owner,
                        pending_owner: Some(new_minter),
                        pending_expiry: expiry,
                    },
                )
            },
        }
    }

    /// The one to whom the role was offered takes it, unless the offer has lapsed.
    pub open spec fn accept_transfer(self, block: BlockInfo, sender: Seq<char>) -> Result<
        MinterView,
        OwnershipError,
    > {
        match self.pending_owner {
            None => Err(OwnershipError::TransferNotFound),
            Some(pending) => if pending != sender {
                Err(OwnershipError::NotPendingOwner)
            } else if self.pending_expiry is Some && self.pending_expiry->0.expired_at(block) {
                Err(OwnershipError::TransferExpired)
            } else {
                Ok(MinterView { owner: Some(pending), pending_owner: None, pending_expiry: None })
            },
        }
    }

    /// The current minter gives the role up for good. A pending offer is withdrawn.
    pub open spec fn renounce(self, sender: Seq<char>) -> Result<MinterView, OwnershipError> {
        match self.owner {
            None => Err(OwnershipError::NoOwner),
            Some(owner) => if owner != sender {
                Err(OwnershipError::NotOwner)
            } else {
                Ok(MinterView { owner: None, pending_owner: None, pending_expiry: None })
            },
        }
    }

    /// Whether `sender` is the minter.
    pub open spec fn is_minter(self, sender: Seq<char>) -> bool {
        self.owner == Some(sender)
    }
}

impl SupplyTracker {
    /// The tracker after one more token has been issued, or `None` where the supply is
    /// used up.
    pub open spec fn reserved(self) -> Option<SupplyTracker> {
        if self.issued_count >= self.max_supply {
            None
        } else {
            Some(SupplyTracker { issued_count: (self.issued_count + 1) as u64, ..self })
        }
    }
}

impl ContractView {
    /// The ledger with `token` stored under its id.
    pub open spec fn with_token(self, token: TokenView) -> ContractView {
        ContractView { tokens: self.tokens.insert(token.token_id, token), ..self }
    }

    /// The minter issues a new token to `owner`.
    ///
    /// Fails, in this order: on a royalty percentage above one hundred; where `sender` is
    /// not the minter; on an empty owner; where the id is in use or belonged to a burnt
    /// token; where the supply is used up.
    pub open spec fn mint(
        self,
        sender: Seq<char>,
        token_id: Seq<char>,
        owner: Seq<char>,
        token_uri: Option<Seq<char>>,
        extension: Option<MetadataView>,
    ) -> Outcome {
        if !royalty_in_range(extension) {
            Err(ContractErrorView::InvalidRoyaltyPercentage)
        } else if !self.minter.is_minter(sender) {
            Err(ContractErrorView::Unauthorized)
        } else if owner.len() == 0 {
            Err(invalid_address())
        } else if self.tokens.dom().contains(token_id) || self.retired.contains(token_id) {
            Err(ContractErrorView::Claimed)
        } else if self.supply.reserved() is None {
            Err(ContractErrorView::MaxSupplyExceeded)
        } else {
            Ok(
                ContractView { supply: self.supply.reserved()->0, ..self }.with_token(
                    TokenView { token_id, owner, approvals: Seq::empty(), token_uri, extension },
                ),
            )
        }
    }

    /// The token passes to `recipient` and loses its approvals.
    ///
    /// Fails, in this order: where the token does not exist; where `sender` is not
    /// authorized for it; on an empty recipient.
    pub open spec fn transfer(
        self,
        block: BlockInfo,
        sender: Seq<char>,
        recipient: Seq<char>,
        token_id: Seq<char>,
    ) -> Outcome {
        if !self.tokens.dom().contains(token_id) {
            Err(token_not_found())
        } else if !self.is_authorized(self.tokens[token_id], sender, block) {
            Err(ContractErrorView::Unauthorized)
        } else if recipient.len() == 0 {
            Err(invalid_address())
        } else {
            Ok(
                self.with_token(
                    TokenView {
                        owner: recipient,
                        approvals: Seq::empty(),
                        ..self.tokens[token_id]
                    },
                ),
            )
        }
    }

    /// The owner of the token lets `spender` transfer it until `expires`. An earlier
    /// approval for `spender` is replaced.
    ///
    /// Fails, in this order: where the token does not exist; where `sender` is not its
    /// owner; where `expires` has lapsed already.
    pub open spec fn approve(
        self,
        block: BlockInfo,
        sender: Seq<char>,
        spender: Seq<char>,
        token_id: Seq<char>,
        expires: Option<Expiration>,
    ) -> Outcome {
        if !self.tokens.dom().contains(token_id) {
            Err(token_not_found())
        } else if self.tokens[token_id].owner != sender {
            Err(ContractErrorView::Unauthorized)
        } else if expiry_or_never(expires).expired_at(block) {
            Err(ContractErrorView::Expired)
        } else {
            let token = self.tokens[token_id];
            Ok(
                self.with_token(
                    TokenView {
                        approvals: token.approvals.filter(other_spender(spender)).push(
                            ApprovalView { spender, expires: expiry_or_never(expires) },
                        ),
                        ..token
                    },
                ),
            )
        }
    }

    /// The owner of the token takes back the approval of `spender`.
    ///
    /// Fails, in this order: where the token does not exist; where `sender` is not its
    /// owner; where `spender` has no approval in force.
    pub open spec fn revoke(
        self,
        block: BlockInfo,
        sender: Seq<char>,
        spender: Seq<char>,
        token_id: Seq<char>,
    ) -> Outcome {
        if !self.tokens.dom().contains(token_id) {
            Err(token_not_found())
        } else if self.tokens[token_id].owner != sender {
            Err(ContractErrorView::Unauthorized)
        } else if !has_active_approval(self.tokens[token_id].approvals, spender, block) {
            Err(ContractErrorView::ApprovalNotFound { spender })
        } else {
            let token = self.tokens[token_id];
            Ok(
                self.with_token(
                    TokenView {
                        approvals: token.approvals.filter(other_spender(spender)),
                        ..token
                    },
                ),
            )
        }
    }

    /// `sender` lets `operator` transfer all of their tokens until `expires`. An earlier
    /// approval for `operator` is replaced. Fails where `expires` has lapsed already.
    pub open spec fn approve_all(
        self,
        block: BlockInfo,
        sender: Seq<char>,
        operator: Seq<char>,
        expires: Option<Expiration>,
    ) -> Outcome {
        if expiry_or_never(expires).expired_at(block) {
            Err(ContractErrorView::Expired)
        } else {
            Ok(
                ContractView {
                    operators: self.operators.insert((sender, operator), expiry_or_never(expires)),
                    ..self
                },
            )
        }
    }

    /// `sender` takes back the approval of `operator`. Fails where `operator` has no
    /// approval of `sender` in force.
    pub open spec fn revoke_all(self, block: BlockInfo, sender: Seq<char>, operator: Seq<char>)
        -> Outcome {
        if !self.has_active_operator(sender, operator, block) {
            Err(ContractErrorView::ApprovalNotFound { spender: operator })
        } else {
            Ok(ContractView { operators: self.operators.remove((sender, operator)), ..self })
        }
    }

    /// The token is removed for good; its id is never issued again.
    ///
    /// Fails, in this order: where the deployment does not burn; where the token does not
    /// exist; where `sender` is not authorized for it.
    pub open spec fn burn(self, block: BlockInfo, sender: Seq<char>, token_id: Seq<char>)
        -> Outcome {
        if !self.burn_allowed {
            Err(ContractErrorView::BurnNotAllowed)
        } else if !self.tokens.dom().contains(token_id) {
            Err(token_not_found())
        } else if !self.is_authorized(self.tokens[token_id], sender, block) {
            Err(ContractErrorView::Unauthorized)
        } else {
            Ok(
                ContractView {
                    tokens: self.tokens.remove(token_id),
                    retired: self.retired.insert(token_id),
                    ..self
                },
            )
        }
    }

    /// The minter asks for the rewards of the ledger to be paid out.
    ///
    /// Fails, in this order: where `sender` is not the minter; where an earlier request
    /// still awaits its reply.
    pub open spec fn initiate_withdrawal(self, sender: Seq<char>) -> Outcome {
        if !self.minter.is_minter(sender) {
            Err(ContractErrorView::Unauthorized)
        } else if self.withdrawal != WithdrawalView::Idle {
            Err(ContractErrorView::WithdrawalPending)
        } else {
            Ok(
                ContractView {
                    withdrawal: WithdrawalView::AwaitingReply { token_id: None },
                    ..self
                },
            )
        }
    }

    /// Someone authorized for a token asks for rewards to be paid out on its behalf.
    ///
    /// Fails, in this order: where the token does not exist; where `sender` is not
    /// authorized for it; where an earlier request still awaits its reply.
    pub open spec fn initiate_token_withdrawal(
        self,
        block: BlockInfo,
        sender: Seq<char>,
        token_id: Seq<char>,
    ) -> Outcome {
        if !self.tokens.dom().contains(token_id) {
            Err(token_not_found())
        } else if !self.is_authorized(self.tokens[token_id], sender, block) {
            Err(ContractErrorView::Unauthorized)
        } else if self.withdrawal != WithdrawalView::Idle {
            Err(ContractErrorView::WithdrawalPending)
        } else {
            Ok(
                ContractView {
                    withdrawal: WithdrawalView::AwaitingReply { token_id: Some(token_id) },
                    ..self
                },
            )
        }
    }

    /// One step of the hand-over of the minter role, `step` being what it makes of the
    /// role.
    pub open spec fn with_minter(self, step: Result<MinterView, OwnershipError>) -> Outcome {
        match step {
            Ok(minter) => Ok(ContractView { minter, ..self }),
            Err(e) => Err(ContractErrorView::Ownership(e)),
        }
    }
}

/// A response that records `attributes` and sends nothing.
pub open spec fn recorded(attributes: Seq<(Seq<char>, Seq<char>)>) -> ResponseView {
    ResponseView { messages: Seq::empty(), attributes }
}

/// The record of a mint.
pub open spec fn mint_response(sender: Seq<char>, owner: Seq<char>, token_id: Seq<char>)
    -> ResponseView {
    recorded(
        seq![
            ("action"@, "mint"@),
            ("minter"@, sender),
            ("owner"@, owner),
            ("token_id"@, token_id),
        ],
    )
}

/// The record of a transfer.
pub open spec fn transfer_response(sender: Seq<char>, recipient: Seq<char>, token_id: Seq<char>)
    -> ResponseView {
    recorded(
        seq![
            ("action"@, "transfer_nft"@),
            ("sender"@, sender),
            ("recipient"@, recipient),
            ("token_id"@, token_id),
        ],
    )
}

/// The record of a token sent to a contract, and the notice that the contract is owed.
pub open spec fn send_response(
    sender: Seq<char>,
    contract: Seq<char>,
    token_id: Seq<char>,
    msg: Seq<u8>,
) -> ResponseView {
    ResponseView {
        messages: seq![SubMsgView::ReceiveNft { contract, sender, token_id, msg }],
        attributes: seq![
            ("action"@, "send_nft"@),
            ("sender"@, sender),
            ("recipient"@, contract),
            ("token_id"@, token_id),
        ],
    }
}

/// The record of an approval.
pub open spec fn approve_response(sender: Seq<char>, spender: Seq<char>, token_id: Seq<char>)
    -> ResponseView {
    recorded(
        seq![
            ("action"@, "approve"@),
            ("sender"@, sender),
            ("spender"@, spender),
            ("token_id"@, token_id),
        ],
    )
}

/// The record of an approval taken back.
pub open spec fn revoke_response(sender: Seq<char>, spender: Seq<char>, token_id: Seq<char>)
    -> ResponseView {
    recorded(
        seq![
            ("action"@, "revoke"@),
            ("sender"@, sender),
            ("spender"@, spender),
            ("token_id"@, token_id),
        ],
    )
}

/// The record of the approval of an operator.
pub open spec fn approve_all_response(sender: Seq<char>, operator: Seq<char>) -> ResponseView {
    recorded(seq![("action"@, "approve_all"@), ("sender"@, sender), ("operator"@, operator)])
}

/// The record of the approval of an operator taken back.
pub open spec fn revoke_all_response(sender: Seq<char>, operator: Seq<char>) -> ResponseView {
    recorded(seq![("action"@, "revoke_all"@), ("sender"@, sender), ("operator"@, operator)])
}

/// The record of a burn.
pub open spec fn burn_response(sender: Seq<char>, token_id: Seq<char>) -> ResponseView {
    recorded(seq![("action"@, "burn"@), ("sender"@, sender), ("token_id"@, token_id)])
}

/// The record of a step of the hand-over of the minter role.
pub open spec fn minter_response(action: Seq<char>, sender: Seq<char>) -> ResponseView {
    recorded(seq![("action"@, action), ("sender"@, sender)])
}

/// The record of a withdrawal request, and the request itself under the tag of its reply.
pub open spec fn withdraw_response(action: Seq<char>, sender: Seq<char>) -> ResponseView {
    ResponseView {
        messages: seq![
            SubMsgView::WithdrawRewards { reply_id: REWARDS_WITHDRAW_REPLY, records_limit: 0 },
        ],
        attributes: seq![("action"@, action), ("sender"@, sender)],
    }
}

/// Whether `result` and `new` are what a command makes of `old`, the rules giving
/// `expected` and, where that is a ledger, the response `response`: on success the ledger
/// and the response that the rules give; on failure their error and the ledger as it was.
pub open spec fn refines(
    old: ContractView,
    expected: Outcome,
    response: ResponseView,
    result: Result<Response, ContractError>,
    new: ContractView,
) -> bool {
    match result {
        Ok(given) => expected == Ok::<ContractView, ContractErrorView>(new) && given@ == response,
        Err(e) => expected == Err::<ContractView, ContractErrorView>(e@) && new == old,
    }
}

} // verus!
