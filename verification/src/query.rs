//! The questions that a ledger answers. None of them changes it.

use vstd::prelude::*;

use crate::error::{StdError, StdErrorView};
use crate::expiration::{BlockInfo, Expiration};
use crate::keyed::{keys_distinct, lemma_as_map_absent, lemma_as_map_at};
use crate::lookup::{clone_approvals, unexpired};
use crate::metadata::clone_extension;
use crate::model::in_force;
use crate::msg::{
    AllNftInfoResponse, ApprovalResponse, ApprovalsResponse, CheckRoyaltiesResponse,
    ContractInfoResponse, Env, MinterResponse, NftInfoResponse, NumTokensResponse,
    OperatorResponse, OperatorsResponse, OwnerOfResponse, OwnershipResponse,
    RoyaltiesInfoResponse, TokensResponse, TotalRewardResponse,
};
use crate::order::{str_less, str_lt};
use crate::royalty::{royalty_amount, royalty_of};
use crate::state::{
    operator_entries, reward_entries, spenders_distinct, Approval, ApprovalView, ContractView,
    Cw721Contract, Token, TokenView,
};

verus! {

/// The page size where a question names none.
pub const DEFAULT_LIMIT: u32 = 10;

/// The largest page size.
pub const MAX_LIMIT: u32 = 1000;

/// The page size that a question asks for: its limit, at most `MAX_LIMIT`; `DEFAULT_LIMIT`
/// where it names none.
pub open spec fn page_size(limit: Option<u32>) -> nat {
    match limit {
        Some(asked) => if asked < MAX_LIMIT {
            asked as nat
        } else {
            MAX_LIMIT as nat
        },
        None => DEFAULT_LIMIT as nat,
    }
}

/// The first `size` elements of `list`; all of it, where it has no more.
pub open spec fn page<A>(list: Seq<A>, size: nat) -> Seq<A> {
    if list.len() <= size {
        list
    } else {
        list.take(size as int)
    }
}

/// Whether `id` comes after the cursor; every id does, where there is no cursor.
pub open spec fn after_cursor(start_after: Option<Seq<char>>, id: Seq<char>) -> bool {
    match start_after {
        Some(cursor) => str_lt(cursor, id),
        None => true,
    }
}

/// The tokens whose ids come after the cursor.
pub open spec fn tokens_after(start_after: Option<Seq<char>>) -> spec_fn(TokenView) -> bool {
    |token: TokenView| after_cursor(start_after, token.token_id)
}

/// The tokens of `owner` whose ids come after the cursor.
pub open spec fn owned_after(owner: Seq<char>, start_after: Option<Seq<char>>) -> spec_fn(
    TokenView,
) -> bool {
    |token: TokenView| token.owner == owner && after_cursor(start_after, token.token_id)
}

/// The operator approvals of `owner` whose operators come after the cursor, and which have
/// not lapsed at `block` unless lapsed ones are asked for too.
pub open spec fn operators_shown(
    owner: Seq<char>,
    start_after: Option<Seq<char>>,
    include_expired: bool,
    block: BlockInfo,
) -> spec_fn(((Seq<char>, Seq<char>), Expiration)) -> bool {
    |entry: ((Seq<char>, Seq<char>), Expiration)|
        entry.0.0 == owner && after_cursor(start_after, entry.0.1) && (include_expired
            || !entry.1.expired_at(block))
}

/// The id of a token.
pub open spec fn id_of() -> spec_fn(TokenView) -> Seq<char> {
    |token: TokenView| token.token_id
}

/// An operator approval as the approval of a spender.
pub open spec fn as_approval() -> spec_fn(((Seq<char>, Seq<char>), Expiration)) -> ApprovalView {
    |entry: ((Seq<char>, Seq<char>), Expiration)|
        ApprovalView { spender: entry.0.1, expires: entry.1 }
}

/// What each token of a list holds, in the order of the list.
pub open spec fn token_views(tokens: Seq<Token>) -> Seq<TokenView> {
    Seq::new(tokens.len(), |i: int| tokens[i]@)
}

/// The approvals of a token that a question shows: all of them, or those that have not
/// lapsed at `block`.
pub open spec fn approvals_shown(
    approvals: Seq<ApprovalView>,
    include_expired: bool,
    block: BlockInfo,
) -> Seq<ApprovalView> {
    if include_expired {
        approvals
    } else {
        approvals.filter(in_force(block))
    }
}

/// Whether the approval at position `i` is one for `spender` that a question shows.
pub open spec fn shows_at(
    approvals: Seq<ApprovalView>,
    i: int,
    spender: Seq<char>,
    include_expired: bool,
    block: BlockInfo,
) -> bool {
    0 <= i < approvals.len() && approvals[i].spender == spender && (include_expired
        || !approvals[i].expires.expired_at(block))
}

/// The approval for `spender` that a question shows, if there is one.
pub open spec fn approval_shown(
    approvals: Seq<ApprovalView>,
    spender: Seq<char>,
    include_expired: bool,
    block: BlockInfo,
) -> Option<ApprovalView> {
    if exists|i: int| shows_at(approvals, i, spender, include_expired, block) {
        Some(approvals[choose|i: int| shows_at(approvals, i, spender, include_expired, block)])
    } else {
        None
    }
}

/// What is reported for an approval that does not exist or is not shown.
pub open spec fn approval_not_found() -> StdErrorView {
    StdErrorView::NotFound { kind: "Approval not found"@ }
}

/// What is reported for a token that does not exist.
pub open spec fn unknown_token() -> StdErrorView {
    StdErrorView::NotFound { kind: "token"@ }
}

/// The royalty that `token` owes on a sale at `sale_price`, and to whom. A token without a
/// royalty percentage owes nothing to no one; one without a payee owes to the empty address.
pub open spec fn royalty_due(token: TokenView, sale_price: u128) -> (Seq<char>, nat) {
    match token.extension {
        Some(metadata) => match metadata.royalty_percentage {
            Some(percentage) => (
                match metadata.royalty_payment_address {
                    Some(payee) => payee,
                    None => Seq::empty(),
                },
                royalty_of(sale_price as nat, percentage as nat),
            ),
            None => (Seq::empty(), 0),
        },
        None => (Seq::empty(), 0),
    }
}

/// Whether `result` is the owner of the token and the approvals shown on it, or the
/// failure for a token that does not exist.
pub open spec fn answers_owner_of(
    ledger: ContractView,
    block: BlockInfo,
    token_id: Seq<char>,
    include_expired: bool,
    result: Result<OwnerOfResponse, StdError>,
) -> bool {
    match result {
        Ok(answer) => ledger.tokens.dom().contains(token_id) && answer.owner@
            == ledger.tokens[token_id].owner && answer.approvals.deep_view() == approvals_shown(
            ledger.tokens[token_id].approvals,
            include_expired,
            block,
        ),
        Err(e) => !ledger.tokens.dom().contains(token_id) && e@ == unknown_token(),
    }
}

/// Whether `result` is the approval shown for `spender` on the token, or the failure for a
/// token that does not exist or for an approval that is not shown.
pub open spec fn answers_approval(
    ledger: ContractView,
    block: BlockInfo,
    token_id: Seq<char>,
    spender: Seq<char>,
    include_expired: bool,
    result: Result<ApprovalResponse, StdError>,
) -> bool {
    match result {
        Ok(answer) => ledger.tokens.dom().contains(token_id) && approval_shown(
            ledger.tokens[token_id].approvals,
            spender,
            include_expired,
            block,
        ) == Some(answer.approval@),
        Err(e) => if ledger.tokens.dom().contains(token_id) {
            approval_shown(ledger.tokens[token_id].approvals, spender, include_expired, block)
                is None && e@ == approval_not_found()
        } else {
            e@ == unknown_token()
        },
    }
}

/// Whether `result` is the approvals shown on the token, or the failure for a token that
/// does not exist.
pub open spec fn answers_approvals(
    ledger: ContractView,
    block: BlockInfo,
    token_id: Seq<char>,
    include_expired: bool,
    result: Result<ApprovalsResponse, StdError>,
) -> bool {
    match result {
        Ok(answer) => ledger.tokens.dom().contains(token_id) && answer.approvals.deep_view()
            == approvals_shown(ledger.tokens[token_id].approvals, include_expired, block),
        Err(e) => !ledger.tokens.dom().contains(token_id) && e@ == unknown_token(),
    }
}

/// Whether `result` is the approval of `operator` for the tokens of `owner`, or the
/// failure for one that does not exist or has lapsed and is not asked for.
pub open spec fn answers_operator(
    ledger: ContractView,
    block: BlockInfo,
    owner: Seq<char>,
    operator: Seq<char>,
    include_expired: bool,
    result: Result<OperatorResponse, StdError>,
) -> bool {
    let shown = ledger.operators.dom().contains((owner, operator)) && (include_expired
        || !ledger.operators[(owner, operator)].expired_at(block));
    match result {
        Ok(answer) => shown && answer.approval@ == (ApprovalView {
            spender: operator,
            expires: ledger.operators[(owner, operator)],
        }),
        Err(e) => !shown && e@ == approval_not_found(),
    }
}

/// Whether `answer` is the page of the operators of `owner` after the cursor, in ascending
/// order.
pub open spec fn answers_operators(
    contract: Cw721Contract,
    block: BlockInfo,
    owner: Seq<char>,
    include_expired: bool,
    start_after: Option<Seq<char>>,
    limit: Option<u32>,
    answer: OperatorsResponse,
) -> bool {
    answer.operators.deep_view() == page(
        operator_entries(contract.operators@).filter(
            operators_shown(owner, start_after, include_expired, block),
        ),
        page_size(limit),
    ).map_values(as_approval())
}

/// Whether `result` is the address and the metadata of the token, or the failure for a
/// token that does not exist.
pub open spec fn answers_nft_info(
    ledger: ContractView,
    token_id: Seq<char>,
    result: Result<NftInfoResponse, StdError>,
) -> bool {
    match result {
        Ok(answer) => ledger.tokens.dom().contains(token_id) && answer.token_uri.deep_view()
            == ledger.tokens[token_id].token_uri && answer.extension.deep_view()
            == ledger.tokens[token_id].extension,
        Err(e) => !ledger.tokens.dom().contains(token_id) && e@ == unknown_token(),
    }
}

/// Whether `result` is what `answers_nft_info` and `answers_owner_of` ask for, together.
pub open spec fn answers_all_nft_info(
    ledger: ContractView,
    block: BlockInfo,
    token_id: Seq<char>,
    include_expired: bool,
    result: Result<AllNftInfoResponse, StdError>,
) -> bool {
    match result {
        Ok(answer) => {
            let token = ledger.tokens[token_id];
            &&& ledger.tokens.dom().contains(token_id)
            &&& answer.access.owner@ == token.owner
            &&& answer.access.approvals.deep_view() == approvals_shown(
                token.approvals,
                include_expired,
                block,
            )
            &&& answer.info.token_uri.deep_view() == token.token_uri
            &&& answer.info.extension.deep_view() == token.extension
        },
        Err(e) => !ledger.tokens.dom().contains(token_id) && e@ == unknown_token(),
    }
}

/// Whether `answer` is the page of the ids of the tokens of `owner` after the cursor, in
/// ascending order.
pub open spec fn answers_tokens(
    contract: Cw721Contract,
    owner: Seq<char>,
    start_after: Option<Seq<char>>,
    limit: Option<u32>,
    answer: TokensResponse,
) -> bool {
    answer.tokens.deep_view() == page(
        token_views(contract.tokens@).filter(owned_after(owner, start_after)),
        page_size(limit),
    ).map_values(id_of())
}

/// Whether `answer` is the page of the ids of the tokens after the cursor, in ascending
/// order.
pub open spec fn answers_all_tokens(
    contract: Cw721Contract,
    start_after: Option<Seq<char>>,
    limit: Option<u32>,
    answer: TokensResponse,
) -> bool {
    answer.tokens.deep_view() == page(
        token_views(contract.tokens@).filter(tokens_after(start_after)),
        page_size(limit),
    ).map_values(id_of())
}

/// Whether `answer` names the minter.
pub open spec fn answers_minter(ledger: ContractView, answer: MinterResponse) -> bool {
    answer.minter.deep_view() == ledger.minter.owner
}

/// Whether `answer` is the state of the minter role.
pub open spec fn answers_ownership(ledger: ContractView, answer: OwnershipResponse) -> bool {
    &&& answer.owner.deep_view() == ledger.minter.owner
    &&& answer.pending_owner.deep_view() == ledger.minter.pending_owner
    &&& answer.pending_expiry == ledger.minter.pending_expiry
}

/// Whether `answer` is name and symbol of the collection.
pub open spec fn answers_contract_info(ledger: ContractView, answer: ContractInfoResponse) -> bool {
    answer.name@ == ledger.name && answer.symbol@ == ledger.symbol
}

/// Whether `answer` is the rewards credited to the token, or those of the ledger where no
/// token is named.
pub open spec fn answers_total_reward(
    ledger: ContractView,
    token_id: Option<Seq<char>>,
    answer: TotalRewardResponse,
) -> bool {
    answer.total_arch_reward == match token_id {
        Some(id) => ledger.token_reward(id),
        None => ledger.total_rewards,
    }
}

/// Whether `result` is the royalty due on a sale of the token at `sale_price`, or the
/// failure for a token that does not exist.
pub open spec fn answers_royalties(
    ledger: ContractView,
    token_id: Seq<char>,
    sale_price: u128,
    result: Result<RoyaltiesInfoResponse, StdError>,
) -> bool {
    match result {
        Ok(answer) => ledger.tokens.dom().contains(token_id) && (
            answer.address@,
            answer.royalty_amount as nat,
        ) == royalty_due(ledger.tokens[token_id], sale_price),
        Err(e) => !ledger.tokens.dom().contains(token_id) && e@ == unknown_token(),
    }
}

/// The page size that a question asks for.
pub fn effective_limit(limit: Option<u32>) -> (size: usize)
    ensures
        size == page_size(limit),
{
    match limit {
        Some(asked) => if asked < MAX_LIMIT {
            asked as usize
        } else {
            MAX_LIMIT as usize
        },
        None => DEFAULT_LIMIT as usize,
    }
}

/// Whether `id` comes after the cursor.
pub fn is_after(start_after: &Option<String>, id: &String) -> (after: bool)
    ensures
        after == after_cursor(start_after.deep_view(), id@),
{
    match start_after {
        Some(cursor) => str_less(cursor.as_str(), id.as_str()),
        None => true,
    }
}

/// What stands at the end of a filtered listing once `size` entries were found in its
/// first `i` entries: they are the page.
proof fn lemma_page_reached<A>(list: Seq<A>, keep: spec_fn(A) -> bool, i: int, size: nat)
    requires
        0 <= i <= list.len(),
        list.take(i).filter(keep).len() == size || i == list.len(),
        list.take(i).filter(keep).len() <= size,
    ensures
        page(list.filter(keep), size) == list.take(i).filter(keep),
{
    let head = list.take(i);
    let tail = list.skip(i);
    assert(list =~= head + tail);
    Seq::filter_distributes_over_add(head, tail, keep);
    if i == list.len() {
        assert(tail =~= Seq::empty());
        tail.lemma_filter_len(keep);
        assert(head.filter(keep) + tail.filter(keep) =~= head.filter(keep));
    } else {
        let all = head.filter(keep) + tail.filter(keep);
        if all.len() > size {
            assert(all.take(size as int) =~= head.filter(keep));
        } else {
            assert(all =~= head.filter(keep));
        }
    }
}

impl Cw721Contract {
    /// The owner of a token and the approvals on it.
    pub fn owner_of(&self, env: &Env, token_id: String, include_expired: bool) -> (result: Result<
        OwnerOfResponse,
        StdError,
    >)
        requires
            self.wf(),
        ensures
            answers_owner_of(self@, env.block, token_id@, include_expired, result),
    {
        match self.find_token(&token_id) {
            None => Err(StdError::NotFound { kind: "token".to_owned() }),
            Some(i) => {
                let token = &self.tokens[i];
                let approvals = if include_expired {
                    clone_approvals(&token.approvals)
                } else {
                    unexpired(&token.approvals, &env.block)
                };
                Ok(OwnerOfResponse { owner: token.owner.clone(), approvals })
            },
        }
    }

    /// The approval of `spender` on a token.
    pub fn approval(&self, env: &Env, token_id: String, spender: String, include_expired: bool) -> (result:
        Result<ApprovalResponse, StdError>)
        requires
            self.wf(),
        ensures
            answers_approval(self@, env.block, token_id@, spender@, include_expired, result),
    {
        let i = match self.find_token(&token_id) {
            None => {
                return Err(StdError::NotFound { kind: "token".to_owned() });
            },
            Some(i) => i,
        };
        let approvals = &self.tokens[i].approvals;
        let ghost all = approvals.deep_view();
        assert(all == self.tokens[i as int]@.approvals);
        let mut k: usize = 0;
        while k < approvals.len()
            invariant
                k <= approvals.len(),
                all == approvals.deep_view(),
                self@.tokens.dom().contains(token_id@),
                self@.tokens[token_id@].approvals == all,
                spenders_distinct(all),
                forall|j: int| 0 <= j < k ==> !shows_at(all, j, spender@, include_expired, env.block),
            decreases approvals.len() - k,
        {
            if approvals[k].spender == spender && (include_expired
                || !approvals[k].expires.is_expired(&env.block)) {
                proof {
                    assert(shows_at(all, k as int, spender@, include_expired, env.block));
                    let c = choose|c: int| shows_at(all, c, spender@, include_expired, env.block);
                    if c < k {
                        assert(all[c].spender != all[k as int].spender);
                    } else if k < c {
                        assert(all[k as int].spender != all[c].spender);
                    }
                }
                return Ok(ApprovalResponse { approval: approvals[k].clone() });
            }
            k += 1;
        }
        Err(StdError::NotFound { kind: "Approval not found".to_owned() })
    }

    /// The approvals on a token.
    pub fn approvals(&self, env: &Env, token_id: String, include_expired: bool) -> (result: Result<
        ApprovalsResponse,
        StdError,
    >)
        requires
            self.wf(),
        ensures
            answers_approvals(self@, env.block, token_id@, include_expired, result),
    {
        match self.owner_of(env, token_id, include_expired) {
            Ok(answer) => Ok(ApprovalsResponse { approvals: answer.approvals }),
            Err(e) => Err(e),
        }
    }

    /// The approval of `operator` for the tokens of `owner`.
    pub fn operator(&self, env: &Env, owner: String, operator: String, include_expired: bool) -> (result:
        Result<OperatorResponse, StdError>)
        requires
            self.wf(),
        ensures
            answers_operator(self@, env.block, owner@, operator@, include_expired, result),
    {
        match self.find_operator(&owner, &operator) {
            Some(i) => {
                let expires = self.operators[i].expires;
                if include_expired || !expires.is_expired(&env.block) {
                    return Ok(OperatorResponse { approval: Approval { spender: operator, expires } });
                }
            },
            None => {},
        }
        Err(StdError::NotFound { kind: "Approval not found".to_owned() })
    }

    /// The operators of `owner` after the cursor, in ascending order, a page of them.
    pub fn operators(
        &self,
        env: &Env,
        owner: String,
        include_expired: bool,
        start_after: Option<String>,
        limit: Option<u32>,
    ) -> (answer: OperatorsResponse)
        requires
            self.wf(),
        ensures
            answers_operators(
                *self,
                env.block,
                owner@,
                include_expired,
                start_after.deep_view(),
                limit,
                answer,
            ),
    {
        let size = effective_limit(limit);
        let ghost list = operator_entries(self.operators@);
        let ghost keep = operators_shown(
            owner@,
            start_after.deep_view(),
            include_expired,
            env.block,
        );
        let mut found: Vec<Approval> = Vec::new();
        let mut i: usize = 0;
        proof {
            assert(list.take(0) =~= Seq::empty());
            Seq::<((Seq<char>, Seq<char>), Expiration)>::empty().lemma_filter_len(keep);
            assert(found.deep_view() =~= list.take(0).filter(keep).map_values(as_approval()));
        }
        while i < self.operators.len() && found.len() < size
            invariant
                i <= self.operators.len(),
                list == operator_entries(self.operators@),
                keep == operators_shown(
                    owner@,
                    start_after.deep_view(),
                    include_expired,
                    env.block,
                ),
                found.len() <= size,
                found.deep_view() == list.take(i as int).filter(keep).map_values(as_approval()),
            decreases self.operators.len() - i,
        {
            let entry = &self.operators[i];
            let ghost before = found.deep_view();
            proof {
                assert(list.take(i as int + 1) =~= list.take(i as int).push(list[i as int]));
                list.take(i as int).lemma_filter_push(list[i as int], keep);
            }
            if entry.owner == owner && is_after(&start_after, &entry.operator) && (include_expired
                || !entry.expires.is_expired(&env.block)) {
                found.push(Approval { spender: entry.operator.clone(), expires: entry.expires });
                assert(found.deep_view() =~= before.push(as_approval()(list[i as int])));
                assert(found.deep_view() =~= list.take(i as int + 1).filter(keep).map_values(
                    as_approval(),
                ));
            }
            i += 1;
        }
        proof {
            lemma_page_reached(list, keep, i as int, size as nat);
        }
        OperatorsResponse { operators: found }
    }

    /// The number of tokens issued so far; burnt tokens count.
    pub fn num_tokens(&self) -> (answer: NumTokensResponse)
        ensures
            answer.count == self@.supply.issued_count,
    {
        NumTokensResponse { count: self.supply.issued_count }
    }

    /// Name and symbol of the collection.
    pub fn contract_info(&self) -> (answer: ContractInfoResponse)
        ensures
            answers_contract_info(self@, answer),
    {
        ContractInfoResponse { name: self.name.clone(), symbol: self.symbol.clone() }
    }

    /// Address and metadata of a token.
    pub fn nft_info(&self, token_id: String) -> (result: Result<NftInfoResponse, StdError>)
        requires
            self.wf(),
        ensures
            answers_nft_info(self@, token_id@, result),
    {
        match self.find_token(&token_id) {
            None => Err(StdError::NotFound { kind: "token".to_owned() }),
            Some(i) => {
                let token = &self.tokens[i];
                Ok(
                    NftInfoResponse {
                        token_uri: token.token_uri.clone(),
                        extension: clone_extension(&token.extension),
                    },
                )
            },
        }
    }

    /// What `nft_info` and `owner_of` answer, together.
    pub fn all_nft_info(&self, env: &Env, token_id: String, include_expired: bool) -> (result:
        Result<AllNftInfoResponse, StdError>)
        requires
            self.wf(),
        ensures
            answers_all_nft_info(self@, env.block, token_id@, include_expired, result),
    {
        let info = match self.nft_info(token_id.clone()) {
            Ok(info) => info,
            Err(e) => {
                return Err(e);
            },
        };
        match self.owner_of(env, token_id, include_expired) {
            Ok(access) => Ok(AllNftInfoResponse { access, info }),
            Err(e) => Err(e),
        }
    }

    /// The ids of the tokens of `owner` after the cursor, in ascending order, a page of them.
    pub fn tokens(&self, owner: String, start_after: Option<String>, limit: Option<u32>) -> (answer:
        TokensResponse)
        requires
            self.wf(),
        ensures
            answers_tokens(*self, owner@, start_after.deep_view(), limit, answer),
    {
        let size = effective_limit(limit);
        let ghost list = token_views(self.tokens@);
        let ghost keep = owned_after(owner@, start_after.deep_view());
        let mut found: Vec<String> = Vec::new();
        let mut i: usize = 0;
        proof {
            assert(list.take(0) =~= Seq::empty());
            Seq::<TokenView>::empty().lemma_filter_len(keep);
            assert(found.deep_view() =~= list.take(0).filter(keep).map_values(id_of()));
        }
        while i < self.tokens.len() && found.len() < size
            invariant
                i <= self.tokens.len(),
                list == token_views(self.tokens@),
                keep == owned_after(owner@, start_after.deep_view()),
                found.len() <= size,
                found.deep_view() == list.take(i as int).filter(keep).map_values(id_of()),
            decreases self.tokens.len() - i,
        {
            let token = &self.tokens[i];
            let ghost before = found.deep_view();
            proof {
                assert(list.take(i as int + 1) =~= list.take(i as int).push(list[i as int]));
                list.take(i as int).lemma_filter_push(list[i as int], keep);
            }
            if token.owner == owner && is_after(&start_after, &token.token_id) {
                found.push(token.token_id.clone());
                assert(found.deep_view() =~= before.push(id_of()(list[i as int])));
                assert(found.deep_view() =~= list.take(i as int + 1).filter(keep).map_values(
                    id_of(),
                ));
            }
            i += 1;
        }
        proof {
            lemma_page_reached(list, keep, i as int, size as nat);
        }
        TokensResponse { tokens: found }
    }

    /// The ids of the tokens after the cursor, in ascending order, a page of them.
    pub fn all_tokens(&self, start_after: Option<String>, limit: Option<u32>) -> (answer:
        TokensResponse)
        requires
            self.wf(),
        ensures
            answers_all_tokens(*self, start_after.deep_view(), limit, answer),
    {
        let size = effective_limit(limit);
        let ghost list = token_views(self.tokens@);
        let ghost keep = tokens_after(start_after.deep_view());
        let mut found: Vec<String> = Vec::new();
        let mut i: usize = 0;
        proof {
            assert(list.take(0) =~= Seq::empty());
            Seq::<TokenView>::empty().lemma_filter_len(keep);
            assert(found.deep_view() =~= list.take(0).filter(keep).map_values(id_of()));
        }
        while i < self.tokens.len() && found.len() < size
            invariant
                i <= self.tokens.len(),
                list == token_views(self.tokens@),
                keep == tokens_after(start_after.deep_view()),
                found.len() <= size,
                found.deep_view() == list.take(i as int).filter(keep).map_values(id_of()),
            decreases self.tokens.len() - i,
        {
            let token = &self.tokens[i];
            let ghost before = found.deep_view();
            proof {
                assert(list.take(i as int + 1) =~= list.take(i as int).push(list[i as int]));
                list.take(i as int).lemma_filter_push(list[i as int], keep);
            }
            if is_after(&start_after, &token.token_id) {
                found.push(token.token_id.clone());
                assert(found.deep_view() =~= before.push(id_of()(list[i as int])));
                assert(found.deep_view() =~= list.take(i as int + 1).filter(keep).map_values(
                    id_of(),
                ));
            }
            i += 1;
        }
        proof {
            lemma_page_reached(list, keep, i as int, size as nat);
        }
        TokensResponse { tokens: found }
    }

    /// Who may issue tokens.
    pub fn minter(&self) -> (answer: MinterResponse)
        ensures
            answers_minter(self@, answer),
    {
        MinterResponse { minter: self.minter.owner.clone() }
    }

    /// The state of the minter role.
    pub fn ownership(&self) -> (answer: OwnershipResponse)
        ensures
            answers_ownership(self@, answer),
    {
        OwnershipResponse {
            owner: self.minter.owner.clone(),
            pending_owner: self.minter.pending_owner.clone(),
            pending_expiry: self.minter.pending_expiry,
        }
    }

    /// The rewards withdrawn so far: those credited to the token of `token_id`, or those of
    /// the ledger where no token is named.
    pub fn total_arch_reward(&self, token_id: Option<String>) -> (answer: TotalRewardResponse)
        requires
            self.wf(),
        ensures
            answers_total_reward(self@, token_id.deep_view(), answer),
    {
        match token_id {
            None => TotalRewardResponse { total_arch_reward: self.total_rewards },
            Some(id) => {
                let ghost entries = reward_entries(self.token_rewards@);
                let mut i: usize = 0;
                while i < self.token_rewards.len()
                    invariant
                        i <= self.token_rewards.len(),
                        entries == reward_entries(self.token_rewards@),
                        token_id.deep_view() == Some(id@),
                        keys_distinct(entries),
                        forall|j: int| 0 <= j < i ==> (#[trigger] entries[j]).0 != id@,
                    decreases self.token_rewards.len() - i,
                {
                    if self.token_rewards[i].token_id == id {
                        proof {
                            assert(entries[i as int] == (id@, self.token_rewards[i as int].amount));
                            lemma_as_map_at(entries, i as int);
                        }
                        return TotalRewardResponse {
                            total_arch_reward: self.token_rewards[i].amount,
                        };
                    }
                    assert(entries[i as int].0 != id@);
                    i += 1;
                }
                proof {
                    lemma_as_map_absent(entries, id@);
                }
                TotalRewardResponse { total_arch_reward: 0 }
            },
        }
    }

    /// What a sale of the token at `sale_price` owes in royalties, and to whom.
    pub fn query_royalties_info(&self, token_id: String, sale_price: u128) -> (result: Result<
        RoyaltiesInfoResponse,
        StdError,
    >)
        requires
            self.wf(),
        ensures
            answers_royalties(self@, token_id@, sale_price, result),
    {
        let i = match self.find_token(&token_id) {
            None => {
                return Err(StdError::NotFound { kind: "token".to_owned() });
            },
            Some(i) => i,
        };
        let token = &self.tokens[i];
        assert(token@.valid());
        match &token.extension {
            Some(metadata) => match metadata.royalty_percentage {
                Some(percentage) => {
                    let address = match &metadata.royalty_payment_address {
                        Some(payee) => payee.clone(),
                        None => String::new(),
                    };
                    Ok(
                        RoyaltiesInfoResponse {
                            address,
                            royalty_amount: royalty_amount(sale_price, percentage),
                        },
                    )
                },
                None => Ok(RoyaltiesInfoResponse { address: String::new(), royalty_amount: 0 }),
            },
            None => Ok(RoyaltiesInfoResponse { address: String::new(), royalty_amount: 0 }),
        }
    }

    /// Whether the ledger knows royalties at all: it does.
    pub fn check_royalties(&self) -> (answer: CheckRoyaltiesResponse)
        ensures
            answer.royalty_payments,
    {
        CheckRoyaltiesResponse { royalty_payments: true }
    }
}

} // verus!
