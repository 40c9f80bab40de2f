//! The entry points of a ledger: creation, commands, questions, replies and migration.

use vstd::prelude::*;
use vstd::string::StringExecFns;

use crate::error::{ContractError, StdError, StdErrorView};
use crate::execute::ownership_step;
use crate::expiration::BlockInfo;
use crate::model::{
    approve_all_response, approve_response, burn_response, minter_response, mint_response,
    recorded, refines, revoke_all_response, revoke_response, send_response, transfer_response,
    withdraw_response, Outcome,
};
use crate::msg::{
    Cw2981QueryMsg, Env, ExecuteMsg, InstantiateMsg, MessageInfo, MigrateMsg, QueryMsg,
    QueryResponse,
};
use crate::query::{
    answers_all_nft_info, answers_all_tokens, answers_approval, answers_approvals,
    answers_contract_info, answers_minter, answers_nft_info, answers_operator,
    answers_operators, answers_owner_of, answers_ownership, answers_royalties, answers_tokens,
    answers_total_reward,
};
use crate::response::{Response, ResponseView};
use crate::rewards::{
    after_rewards_withdrawn, decimal, reply_payout, settled, u64_to_string, Reply,
    REWARDS_WITHDRAW_REPLY,
};
use crate::state::{
    ContractVersion, ContractView, Cw721Contract, Deployment, MinterAuthority, MinterView,
    SupplyTracker, Withdrawal, WithdrawalView,
};

verus! {

/// The name under which a ledger records its creation.
pub const CONTRACT_NAME: &'static str = "crates.io:cw721-rewards";

/// The version under which a ledger records its creation.
pub const CONTRACT_VERSION: &'static str = "0.1.0";

/// The supply of a deployment that names none.
pub const DEFAULT_MAX_SUPPLY: u64 = 10000;

impl Default for Deployment {
    /// A supply of `DEFAULT_MAX_SUPPLY` tokens, none of which can be burnt.
    fn default() -> (deployment: Self)
        ensures
            deployment == (Deployment { max_supply: DEFAULT_MAX_SUPPLY, burn_allowed: false }),
    {
        Deployment { max_supply: DEFAULT_MAX_SUPPLY, burn_allowed: false }
    }
}

/// The ledger that `msg` creates under `deployment`: no tokens, no approvals, no rewards,
/// and the minter role in the hands of `msg.minter`.
pub open spec fn created(deployment: Deployment, msg: InstantiateMsg) -> ContractView {
    ContractView {
        name: msg.name@,
        symbol: msg.symbol@,
        rewards_denom: msg.rewards_denom@,
        burn_allowed: deployment.burn_allowed,
        supply: SupplyTracker { issued_count: 0, max_supply: deployment.max_supply },
        minter: MinterView { owner: Some(msg.minter@), pending_owner: None, pending_expiry: None },
        tokens: Map::empty(),
        retired: Set::empty(),
        operators: Map::empty(),
        total_rewards: 0,
        token_rewards: Map::empty(),
        withdrawal: WithdrawalView::Idle,
        version: (CONTRACT_NAME@, CONTRACT_VERSION@),
    }
}

/// Creates a ledger. Fails on an empty minter.
pub fn instantiate(deployment: Deployment, env: Env, info: MessageInfo, msg: InstantiateMsg) -> (result:
    Result<(Cw721Contract, Response), StdError>)
    ensures
        match result {
            Ok((contract, response)) => {
                &&& msg.minter@.len() > 0
                &&& contract.wf()
                &&& contract@ == created(deployment, msg)
                &&& response@ == recorded(Seq::empty())
            },
            Err(e) => msg.minter@.len() == 0 && e@ == (StdErrorView::GenericErr {
                msg: "Invalid input: empty address"@,
            }),
        },
{
    if msg.minter.as_str().is_empty() {
        return Err(StdError::GenericErr { msg: "Invalid input: empty address".to_owned() });
    }
    let contract = Cw721Contract {
        name: msg.name,
        symbol: msg.symbol,
        rewards_denom: msg.rewards_denom,
        burn_allowed: deployment.burn_allowed,
        supply: SupplyTracker::new(deployment.max_supply),
        minter: MinterAuthority::new(Some(msg.minter)),
        tokens: Vec::new(),
        retired: Vec::new(),
        operators: Vec::new(),
        total_rewards: 0,
        token_rewards: Vec::new(),
        withdrawal: Withdrawal::Idle,
        version: ContractVersion {
            contract: CONTRACT_NAME.to_owned(),
            version: CONTRACT_VERSION.to_owned(),
        },
    };
    proof {
        assert(contract@.tokens =~= Map::empty());
        assert(contract@.operators =~= Map::empty());
        assert(contract@.token_rewards =~= Map::empty());
        assert(contract@.retired =~= Set::empty());
    }
    Ok((contract, Response::new()))
}

/// What a command makes of a ledger.
pub open spec fn execute_outcome(
    old: ContractView,
    block: BlockInfo,
    sender: Seq<char>,
    msg: ExecuteMsg,
) -> Outcome {
    match msg {
        ExecuteMsg::TransferNft { recipient, token_id } => old.transfer(
            block,
            sender,
            recipient@,
            token_id@,
        ),
        ExecuteMsg::SendNft { contract, token_id, msg } => old.transfer(
            block,
            sender,
            contract@,
            token_id@,
        ),
        ExecuteMsg::Approve { spender, token_id, expires } => old.approve(
            block,
            sender,
            spender@,
            token_id@,
            expires,
        ),
        ExecuteMsg::Revoke { spender, token_id } => old.revoke(block, sender, spender@, token_id@),
        ExecuteMsg::ApproveAll { operator, expires } => old.approve_all(
            block,
            sender,
            operator@,
            expires,
        ),
        ExecuteMsg::RevokeAll { operator } => old.revoke_all(block, sender, operator@),
        ExecuteMsg::Mint { token_id, owner, token_uri, extension } => old.mint(
            sender,
            token_id@,
            owner@,
            token_uri.deep_view(),
            extension.deep_view(),
        ),
        ExecuteMsg::WithdrawRewards {  } => old.initiate_withdrawal(sender),
        ExecuteMsg::WithdrawTokenRewards { token_id } => old.initiate_token_withdrawal(
            block,
            sender,
            token_id@,
        ),
        ExecuteMsg::UpdateMinter { minter } => old.with_minter(
            old.minter.propose_transfer(sender, minter@, None),
        ),
        ExecuteMsg::Burn { token_id } => old.burn(block, sender, token_id@),
        ExecuteMsg::UpdateOwnership(action) => old.with_minter(
            ownership_step(old, block, sender, action),
        ),
    }
}

/// What a command that succeeds hands back.
pub open spec fn execute_response(sender: Seq<char>, msg: ExecuteMsg) -> ResponseView {
    match msg {
        ExecuteMsg::TransferNft { recipient, token_id } => transfer_response(
            sender,
            recipient@,
            token_id@,
        ),
        ExecuteMsg::SendNft { contract, token_id, msg } => send_response(
            sender,
            contract@,
            token_id@,
            msg@,
        ),
        ExecuteMsg::Approve { spender, token_id, expires } => approve_response(
            sender,
            spender@,
            token_id@,
        ),
        ExecuteMsg::Revoke { spender, token_id } => revoke_response(sender, spender@, token_id@),
        ExecuteMsg::ApproveAll { operator, expires } => approve_all_response(sender, operator@),
        ExecuteMsg::RevokeAll { operator } => revoke_all_response(sender, operator@),
        ExecuteMsg::Mint { token_id, owner, token_uri, extension } => mint_response(
            sender,
            owner@,
            token_id@,
        ),
        ExecuteMsg::WithdrawRewards {  } => withdraw_response("withdraw_rewards"@, sender),
        ExecuteMsg::WithdrawTokenRewards { token_id } => withdraw_response(
            "withdraw_token_rewards"@,
            sender,
        ),
        ExecuteMsg::UpdateMinter { minter } => minter_response("update_minter"@, sender),
        ExecuteMsg::Burn { token_id } => burn_response(sender, token_id@),
        ExecuteMsg::UpdateOwnership(action) => minter_response("update_ownership"@, sender),
    }
}

/// Carries out a command: all of it, or on failure none of it.
pub fn execute(contract: &mut Cw721Contract, env: Env, info: MessageInfo, msg: ExecuteMsg) -> (result:
    Result<Response, ContractError>)
    requires
        old(contract).wf(),
    ensures
        final(contract).wf(),
        refines(
            old(contract)@,
            execute_outcome(old(contract)@, env.block, info.sender@, msg),
            execute_response(info.sender@, msg),
            result,
            final(contract)@,
        ),
{
    match msg {
        ExecuteMsg::TransferNft { recipient, token_id } => contract.transfer_nft(
            &env,
            &info,
            recipient,
            token_id,
        ),
        ExecuteMsg::SendNft { contract: receiver, token_id, msg } => contract.send_nft(
            &env,
            &info,
            receiver,
            token_id,
            msg,
        ),
        ExecuteMsg::Approve { spender, token_id, expires } => contract.approve(
            &env,
            &info,
            spender,
            token_id,
            expires,
        ),
        ExecuteMsg::Revoke { spender, token_id } => contract.revoke(&env, &info, spender, token_id),
        ExecuteMsg::ApproveAll { operator, expires } => contract.approve_all(
            &env,
            &info,
            operator,
            expires,
        ),
        ExecuteMsg::RevokeAll { operator } => contract.revoke_all(&env, &info, operator),
        ExecuteMsg::Mint { token_id, owner, token_uri, extension } => contract.mint(
            &info,
            token_id,
            owner,
            token_uri,
            extension,
        ),
        ExecuteMsg::WithdrawRewards {  } => contract.withdraw_rewards(&info),
        ExecuteMsg::WithdrawTokenRewards { token_id } => contract.withdraw_token_rewards(
            &env,
            &info,
            token_id,
        ),
        ExecuteMsg::UpdateMinter { minter } => contract.update_minter(&info, minter),
        ExecuteMsg::Burn { token_id } => contract.burn(&env, &info, token_id),
        ExecuteMsg::UpdateOwnership(action) => contract.update_ownership(&env, &info, action),
    }
}

/// Whether a question asks for lapsed approvals too; it does not, unless it says so.
pub open spec fn with_expired(include_expired: Option<bool>) -> bool {
    match include_expired {
        Some(all) => all,
        None => false,
    }
}

/// Whether a question asks for lapsed approvals too.
pub fn wants_expired(include_expired: Option<bool>) -> (all: bool)
    ensures
        all == with_expired(include_expired),
{
    match include_expired {
        Some(all) => all,
        None => false,
    }
}

/// Whether `result` answers the question `msg` about `contract` at `block`: with the
/// answer of its kind that the ledger gives, or with the failure that the ledger reports.
pub open spec fn answered(
    contract: Cw721Contract,
    block: BlockInfo,
    msg: QueryMsg,
    result: Result<QueryResponse, StdError>,
) -> bool {
    let ledger = contract@;
    match msg {
        QueryMsg::OwnerOf { token_id, include_expired } => match result {
            Ok(QueryResponse::OwnerOf(answer)) => answers_owner_of(
                ledger,
                block,
                token_id@,
                with_expired(include_expired),
                Ok(answer),
            ),
            Err(e) => answers_owner_of(
                ledger,
                block,
                token_id@,
                with_expired(include_expired),
                Err(e),
            ),
            _ => false,
        },
        QueryMsg::Approval { token_id, spender, include_expired } => match result {
            Ok(QueryResponse::Approval(answer)) => answers_approval(
                ledger,
                block,
                token_id@,
                spender@,
                with_expired(include_expired),
                Ok(answer),
            ),
            Err(e) => answers_approval(
                ledger,
                block,
                token_id@,
                spender@,
                with_expired(include_expired),
                Err(e),
            ),
            _ => false,
        },
        QueryMsg::Approvals { token_id, include_expired } => match result {
            Ok(QueryResponse::Approvals(answer)) => answers_approvals(
                ledger,
                block,
                token_id@,
                with_expired(include_expired),
                Ok(answer),
            ),
            Err(e) => answers_approvals(
                ledger,
                block,
                token_id@,
                with_expired(include_expired),
                Err(e),
            ),
            _ => false,
        },
        QueryMsg::Operator { owner, operator, include_expired } => match result {
            Ok(QueryResponse::Operator(answer)) => answers_operator(
                ledger,
                block,
                owner@,
                operator@,
                with_expired(include_expired),
                Ok(answer),
            ),
            Err(e) => answers_operator(
                ledger,
                block,
                owner@,
                operator@,
                with_expired(include_expired),
                Err(e),
            ),
            _ => false,
        },
        QueryMsg::AllOperators { owner, include_expired, start_after, limit } => match result {
            Ok(QueryResponse::Operators(answer)) => answers_operators(
                contract,
                block,
                owner@,
                with_expired(include_expired),
                start_after.deep_view(),
                limit,
                answer,
            ),
            _ => false,
        },
        QueryMsg::NumTokens {  } => match result {
            Ok(QueryResponse::NumTokens(answer)) => answer.count == ledger.supply.issued_count,
            _ => false,
        },
        QueryMsg::ContractInfo {  } => match result {
            Ok(QueryResponse::ContractInfo(answer)) => answers_contract_info(ledger, answer),
            _ => false,
        },
        QueryMsg::NftInfo { token_id } => match result {
            Ok(QueryResponse::NftInfo(answer)) => answers_nft_info(ledger, token_id@, Ok(answer)),
            Err(e) => answers_nft_info(ledger, token_id@, Err(e)),
            _ => false,
        },
        QueryMsg::AllNftInfo { token_id, include_expired } => match result {
            Ok(QueryResponse::AllNftInfo(answer)) => answers_all_nft_info(
                ledger,
                block,
                token_id@,
                with_expired(include_expired),
                Ok(answer),
            ),
            Err(e) => answers_all_nft_info(
                ledger,
                block,
                token_id@,
                with_expired(include_expired),
                Err(e),
            ),
            _ => false,
        },
        QueryMsg::Tokens { owner, start_after, limit } => match result {
            Ok(QueryResponse::Tokens(answer)) => answers_tokens(
                contract,
                owner@,
                start_after.deep_view(),
                limit,
                answer,
            ),
            _ => false,
        },
        QueryMsg::AllTokens { start_after, limit } => match result {
            Ok(QueryResponse::Tokens(answer)) => answers_all_tokens(
                contract,
                start_after.deep_view(),
                limit,
                answer,
            ),
            _ => false,
        },
        QueryMsg::Minter {  } => match result {
            Ok(QueryResponse::Minter(answer)) => answers_minter(ledger, answer),
            _ => false,
        },
        QueryMsg::TotalArchReward { token_id } => match result {
            Ok(QueryResponse::TotalArchReward(answer)) => answers_total_reward(
                ledger,
                token_id.deep_view(),
                answer,
            ),
            _ => false,
        },
        QueryMsg::Extension { msg: Cw2981QueryMsg::RoyaltyInfo { token_id, sale_price } } => {
            match result {
                Ok(QueryResponse::RoyaltiesInfo(answer)) => answers_royalties(
                    ledger,
                    token_id@,
                    sale_price,
                    Ok(answer),
                ),
                Err(e) => answers_royalties(ledger, token_id@, sale_price, Err(e)),
                _ => false,
            }
        },
        QueryMsg::Extension { msg: Cw2981QueryMsg::CheckRoyalties {  } } => match result {
            Ok(QueryResponse::CheckRoyalties(answer)) => answer.royalty_payments,
            _ => false,
        },
        QueryMsg::Ownership {  } => match result {
            Ok(QueryResponse::Ownership(answer)) => answers_ownership(ledger, answer),
            _ => false,
        },
    }
}

/// Answers a question about the ledger.
pub fn query(contract: &Cw721Contract, env: Env, msg: QueryMsg) -> (result: Result<
    QueryResponse,
    StdError,
>)
    requires
        contract.wf(),
    ensures
        answered(*contract, env.block, msg, result),
{
    match msg {
        QueryMsg::OwnerOf { token_id, include_expired } => {
            match contract.owner_of(&env, token_id, wants_expired(include_expired)) {
                Ok(answer) => Ok(QueryResponse::OwnerOf(answer)),
                Err(e) => Err(e),
            }
        },
        QueryMsg::Approval { token_id, spender, include_expired } => {
            match contract.approval(&env, token_id, spender, wants_expired(include_expired)) {
                Ok(answer) => Ok(QueryResponse::Approval(answer)),
                Err(e) => Err(e),
            }
        },
        QueryMsg::Approvals { token_id, include_expired } => {
            match contract.approvals(&env, token_id, wants_expired(include_expired)) {
                Ok(answer) => Ok(QueryResponse::Approvals(answer)),
                Err(e) => Err(e),
            }
        },
        QueryMsg::Operator { owner, operator, include_expired } => {
            match contract.operator(&env, owner, operator, wants_expired(include_expired)) {
                Ok(answer) => Ok(QueryResponse::Operator(answer)),
                Err(e) => Err(e),
            }
        },
        QueryMsg::AllOperators { owner, include_expired, start_after, limit } => Ok(
            QueryResponse::Operators(
                contract.operators(
                    &env,
                    owner,
                    wants_expired(include_expired),
                    start_after,
                    limit,
                ),
            ),
        ),
        QueryMsg::NumTokens {  } => Ok(QueryResponse::NumTokens(contract.num_tokens())),
        QueryMsg::ContractInfo {  } => Ok(QueryResponse::ContractInfo(contract.contract_info())),
        QueryMsg::NftInfo { token_id } => match contract.nft_info(token_id) {
            Ok(answer) => Ok(QueryResponse::NftInfo(answer)),
            Err(e) => Err(e),
        },
        QueryMsg::AllNftInfo { token_id, include_expired } => {
            match contract.all_nft_info(&env, token_id, wants_expired(include_expired)) {
                Ok(answer) => Ok(QueryResponse::AllNftInfo(answer)),
                Err(e) => Err(e),
            }
        },
        QueryMsg::Tokens { owner, start_after, limit } => Ok(
            QueryResponse::Tokens(contract.tokens(owner, start_after, limit)),
        ),
        QueryMsg::AllTokens { start_after, limit } => Ok(
            QueryResponse::Tokens(contract.all_tokens(start_after, limit)),
        ),
        QueryMsg::Minter {  } => Ok(QueryResponse::Minter(contract.minter())),
        QueryMsg::TotalArchReward { token_id } => Ok(
            QueryResponse::TotalArchReward(contract.total_arch_reward(token_id)),
        ),
        QueryMsg::Extension { msg } => match msg {
            Cw2981QueryMsg::RoyaltyInfo { token_id, sale_price } => {
                match contract.query_royalties_info(token_id, sale_price) {
                    Ok(answer) => Ok(QueryResponse::RoyaltiesInfo(answer)),
                    Err(e) => Err(e),
                }
            },
            Cw2981QueryMsg::CheckRoyalties {  } => Ok(
                QueryResponse::CheckRoyalties(contract.check_royalties()),
            ),
        },
        QueryMsg::Ownership {  } => Ok(QueryResponse::Ownership(contract.ownership())),
    }
}

/// What is reported for a reply under a tag that the ledger did not send.
pub open spec fn unknown_reply(id: u64) -> StdErrorView {
    StdErrorView::NotFound { kind: "Unknown reply id: "@ + decimal(id as nat) }
}

/// Whether `result` and `new` are what the reply `msg` makes of `old`: under the tag of a
/// withdrawal what the payout that it carries makes of it, under any other tag a failure
/// that leaves the ledger as it was.
pub open spec fn replied(
    old: ContractView,
    msg: Reply,
    result: Result<Response, StdError>,
    new: ContractView,
) -> bool {
    if msg.id == REWARDS_WITHDRAW_REPLY {
        match reply_payout(msg) {
            Ok(payout) => settled(old, payout, result, new),
            Err(e) => result is Err && result->Err_0@ == e && new == old,
        }
    } else {
        result is Err && result->Err_0@ == unknown_reply(msg.id) && new == old
    }
}

/// Takes the reply to a message that the ledger sent.
pub fn reply(contract: &mut Cw721Contract, env: Env, msg: Reply) -> (result: Result<
    Response,
    StdError,
>)
    requires
        old(contract).wf(),
    ensures
        final(contract).wf(),
        replied(old(contract)@, msg, result, final(contract)@),
{
    if msg.id == REWARDS_WITHDRAW_REPLY {
        after_rewards_withdrawn(contract, msg)
    } else {
        let kind = String::from_str("Unknown reply id: ").concat(u64_to_string(msg.id).as_str());
        Err(StdError::NotFound { kind })
    }
}

/// Moves a ledger to this version of the rules: nothing changes.
pub fn migrate(contract: &mut Cw721Contract, env: Env, msg: MigrateMsg) -> (result: Result<
    Response,
    ContractError,
>)
    ensures
        *final(contract) == *old(contract),
        result is Ok,
        result->Ok_0@ == recorded(Seq::empty()),
{
    Ok(Response::new())
}

} // verus!
