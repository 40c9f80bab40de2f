//! The commands of the ledger, each carried out on its lists and proved to do what the
//! rules say of its view.

use vstd::prelude::*;

use crate::error::{
    empty_address, no_such_token, ContractError, ContractErrorView, OwnershipError,
};
use crate::expiration::{BlockInfo, Expiration};
use crate::keyed::{
    as_map, lemma_as_map_absent, lemma_as_map_at, lemma_as_map_insert, lemma_as_map_remove,
    lemma_as_map_update,
};
use crate::lookup::{
    has_approval, lemma_filter_spenders, lemma_operator_keys_distinct, lemma_token_keys_distinct,
    locate_operator, locate_token, without_spender,
};
use crate::metadata::Extension;
use crate::model::{
    approve_all_response, approve_response, burn_response, expiry_or_never, minter_response,
    mint_response, other_spender, refines, revoke_all_response, revoke_response, send_response,
    transfer_response, withdraw_response, Outcome,
};
use crate::msg::{Action, Env, MessageInfo};
use crate::order::{
    ascending, lemma_pair_lt_irreflexive, lemma_str_lt_asymmetric, pair_lt, pairs_ascending,
    str_lt,
};
use crate::response::{Response, SubMsg};
use crate::rewards::REWARDS_WITHDRAW_REPLY;
use crate::royalty::valid_royalty;
use crate::state::{
    names, operator_entries, operator_keys, token_entries, token_ids, Approval, ApprovalView,
    ContractView, Cw721Contract, MinterView, OperatorApproval, Token, Withdrawal,
};

verus! {

/// A token put in its place in an ascending list leaves the list ascending, and adds the
/// token to what the list holds.
pub proof fn lemma_token_inserted(tokens: Seq<Token>, slot: int, token: Token)
    requires
        ascending(token_ids(tokens)),
        0 <= slot <= tokens.len(),
        forall|j: int| 0 <= j < slot ==> str_lt(tokens[j].token_id@, token.token_id@),
        forall|j: int| slot <= j < tokens.len() ==> str_lt(token.token_id@, tokens[j].token_id@),
    ensures
        ascending(token_ids(tokens.insert(slot, token))),
        as_map(token_entries(tokens.insert(slot, token))) == as_map(token_entries(tokens)).insert(
            token.token_id@,
            token@,
        ),
{
    let grown = tokens.insert(slot, token);
    let ids = token_ids(tokens);
    let new_ids = token_ids(grown);
    assert forall|i: int, j: int| 0 <= i < j < new_ids.len() implies str_lt(
        #[trigger] new_ids[i],
        #[trigger] new_ids[j],
    ) by {
        let oi = if i < slot { i } else { i - 1 };
        let oj = if j < slot { j } else { j - 1 };
        if i != slot && j != slot {
            assert(grown[i] == tokens[oi] && grown[j] == tokens[oj]);
            assert(str_lt(ids[oi], ids[oj]));
        } else if i == slot {
            assert(grown[j] == tokens[oj]);
        } else {
            assert(grown[i] == tokens[oi]);
        }
    }
    let entries = token_entries(tokens);
    lemma_token_keys_distinct(tokens);
    assert forall|j: int| 0 <= j < entries.len() implies (#[trigger] entries[j]).0
        != token.token_id@ by {
        if j < slot {
            lemma_str_lt_asymmetric(tokens[j].token_id@, token.token_id@);
        } else {
            lemma_str_lt_asymmetric(token.token_id@, tokens[j].token_id@);
        }
    }
    lemma_as_map_absent(entries, token.token_id@);
    lemma_as_map_insert(entries, slot, (token.token_id@, token@));
    assert(token_entries(grown) =~= entries.insert(slot, (token.token_id@, token@)));
}

/// A token replaced by one of the same id leaves the order as it was, and replaces the
/// token in what the list holds.
pub proof fn lemma_token_replaced(tokens: Seq<Token>, changed: Seq<Token>, i: int)
    requires
        ascending(token_ids(tokens)),
        0 <= i < tokens.len(),
        changed.len() == tokens.len(),
        forall|j: int| 0 <= j < tokens.len() && j != i ==> changed[j] == tokens[j],
        changed[i].token_id@ == tokens[i].token_id@,
    ensures
        token_ids(changed) == token_ids(tokens),
        as_map(token_entries(changed)) == as_map(token_entries(tokens)).insert(
            tokens[i].token_id@,
            changed[i]@,
        ),
{
    assert(token_ids(changed) =~= token_ids(tokens));
    let entries = token_entries(tokens);
    lemma_token_keys_distinct(tokens);
    lemma_as_map_update(entries, i, changed[i]@);
    assert(token_entries(changed) =~= entries.update(i, (entries[i].0, changed[i]@)));
}

/// A token taken out of an ascending list leaves the list ascending, and removes the token
/// from what the list holds.
pub proof fn lemma_token_removed(tokens: Seq<Token>, i: int)
    requires
        ascending(token_ids(tokens)),
        0 <= i < tokens.len(),
    ensures
        ascending(token_ids(tokens.remove(i))),
        as_map(token_entries(tokens.remove(i))) == as_map(token_entries(tokens)).remove(
            tokens[i].token_id@,
        ),
{
    let rest = tokens.remove(i);
    let ids = token_ids(tokens);
    let new_ids = token_ids(rest);
    assert forall|a: int, b: int| 0 <= a < b < new_ids.len() implies str_lt(
        #[trigger] new_ids[a],
        #[trigger] new_ids[b],
    ) by {
        let oa = if a < i { a } else { a + 1 };
        let ob = if b < i { b } else { b + 1 };
        assert(rest[a] == tokens[oa] && rest[b] == tokens[ob]);
        assert(str_lt(ids[oa], ids[ob]));
    }
    let entries = token_entries(tokens);
    lemma_token_keys_distinct(tokens);
    lemma_as_map_remove(entries, i);
    assert(token_entries(rest) =~= entries.remove(i));
}

/// An operator approval put in its place in an ascending list leaves the list ascending,
/// and adds the approval to what the list holds.
pub proof fn lemma_operator_inserted(
    operators: Seq<OperatorApproval>,
    slot: int,
    approval: OperatorApproval,
)
    requires
        pairs_ascending(operator_keys(operators)),
        0 <= slot <= operators.len(),
        forall|j: int|
            0 <= j < slot ==> pair_lt(
                operator_keys(operators)[j],
                (approval.owner@, approval.operator@),
            ),
        forall|j: int|
            slot <= j < operators.len() ==> pair_lt(
                (approval.owner@, approval.operator@),
                operator_keys(operators)[j],
            ),
    ensures
        pairs_ascending(operator_keys(operators.insert(slot, approval))),
        as_map(operator_entries(operators.insert(slot, approval))) == as_map(
            operator_entries(operators),
        ).insert((approval.owner@, approval.operator@), approval.expires),
{
    let grown = operators.insert(slot, approval);
    let keys = operator_keys(operators);
    let new_keys = operator_keys(grown);
    let key = (approval.owner@, approval.operator@);
    assert forall|i: int, j: int| 0 <= i < j < new_keys.len() implies pair_lt(
        #[trigger] new_keys[i],
        #[trigger] new_keys[j],
    ) by {
        let oi = if i < slot { i } else { i - 1 };
        let oj = if j < slot { j } else { j - 1 };
        if i != slot && j != slot {
            assert(grown[i] == operators[oi] && grown[j] == operators[oj]);
            assert(pair_lt(keys[oi], keys[oj]));
        } else if i == slot {
            assert(grown[j] == operators[oj]);
            assert(pair_lt(key, keys[oj]));
        } else {
            assert(grown[i] == operators[oi]);
            assert(pair_lt(keys[oi], key));
        }
    }
    let entries = operator_entries(operators);
    lemma_operator_keys_distinct(operators);
    assert forall|j: int| 0 <= j < entries.len() implies (#[trigger] entries[j]).0 != key by {
        lemma_pair_lt_irreflexive(key);
        if j < slot {
            assert(pair_lt(keys[j], key));
        } else {
            assert(pair_lt(key, keys[j]));
        }
    }
    lemma_as_map_absent(entries, key);
    lemma_as_map_insert(entries, slot, (key, approval.expires));
    assert(operator_entries(grown) =~= entries.insert(slot, (key, approval.expires)));
}

/// An operator approval given a new expiration leaves the order as it was, and replaces
/// the expiration in what the list holds.
pub proof fn lemma_operator_replaced(
    operators: Seq<OperatorApproval>,
    changed: Seq<OperatorApproval>,
    i: int,
)
    requires
        pairs_ascending(operator_keys(operators)),
        0 <= i < operators.len(),
        changed.len() == operators.len(),
        forall|j: int| 0 <= j < operators.len() && j != i ==> changed[j] == operators[j],
        changed[i].owner@ == operators[i].owner@,
        changed[i].operator@ == operators[i].operator@,
    ensures
        operator_keys(changed) == operator_keys(operators),
        as_map(operator_entries(changed)) == as_map(operator_entries(operators)).insert(
            (operators[i].owner@, operators[i].operator@),
            changed[i].expires,
        ),
{
    assert(operator_keys(changed) =~= operator_keys(operators));
    let entries = operator_entries(operators);
    lemma_operator_keys_distinct(operators);
    lemma_as_map_update(entries, i, changed[i].expires);
    assert(operator_entries(changed) =~= entries.update(i, (entries[i].0, changed[i].expires)));
}

/// An operator approval taken out of an ascending list leaves the list ascending, and
/// removes the approval from what the list holds.
pub proof fn lemma_operator_removed(operators: Seq<OperatorApproval>, i: int)
    requires
        pairs_ascending(operator_keys(operators)),
        0 <= i < operators.len(),
    ensures
        pairs_ascending(operator_keys(operators.remove(i))),
        as_map(operator_entries(operators.remove(i))) == as_map(
            operator_entries(operators),
        ).remove((operators[i].owner@, operators[i].operator@)),
{
    let rest = operators.remove(i);
    let keys = operator_keys(operators);
    let new_keys = operator_keys(rest);
    assert forall|a: int, b: int| 0 <= a < b < new_keys.len() implies pair_lt(
        #[trigger] new_keys[a],
        #[trigger] new_keys[b],
    ) by {
        let oa = if a < i { a } else { a + 1 };
        let ob = if b < i { b } else { b + 1 };
        assert(rest[a] == operators[oa] && rest[b] == operators[ob]);
        assert(pair_lt(keys[oa], keys[ob]));
    }
    let entries = operator_entries(operators);
    lemma_operator_keys_distinct(operators);
    lemma_as_map_remove(entries, i);
    assert(operator_entries(rest) =~= entries.remove(i));
}

/// The expiration that a command asks for; never, where it names none.
pub fn expiry_of(expires: Option<Expiration>) -> (expiry: Expiration)
    ensures
        expiry == expiry_or_never(expires),
{
    match expires {
        Some(expiration) => expiration,
        None => Expiration::Never,
    }
}

/// Whether `result` and `new` are what the rules make of `old`: on success their ledger,
/// on failure their error and the ledger as it was.
pub open spec fn carried_out(
    old: ContractView,
    expected: Outcome,
    result: Result<(), ContractError>,
    new: ContractView,
) -> bool {
    match result {
        Ok(()) => expected == Ok::<ContractView, ContractErrorView>(new),
        Err(e) => expected == Err::<ContractView, ContractErrorView>(e@) && new == old,
    }
}

impl Cw721Contract {
    /// Issues the token `token_id` to `owner`; for the minter only.
    pub fn mint(
        &mut self,
        info: &MessageInfo,
        token_id: String,
        owner: String,
        token_uri: Option<String>,
        extension: Extension,
    ) -> (result: Result<Response, ContractError>)
        requires
            old(self).wf(),
        ensures
            final(self).wf(),
            refines(
                old(self)@,
                old(self)@.mint(
                    info.sender@,
                    token_id@,
                    owner@,
                    token_uri.deep_view(),
                    extension.deep_view(),
                ),
                mint_response(info.sender@, owner@, token_id@),
                result,
                final(self)@,
            ),
    {
        if !valid_royalty(&extension) {
            return Err(ContractError::InvalidRoyaltyPercentage);
        }
        if !self.minter.is_minter(&info.sender) {
            return Err(ContractError::Unauthorized {  });
        }
        if owner.as_str().is_empty() {
            return Err(empty_address());
        }
        let (slot, found) = locate_token(&self.tokens, &token_id);
        let ghost before = *self;
        proof {
            let entries = token_entries(self.tokens@);
            lemma_token_keys_distinct(self.tokens@);
            if found {
                assert(entries[slot as int].0 == token_id@);
                lemma_as_map_at(entries, slot as int);
            } else {
                lemma_as_map_absent(entries, token_id@);
            }
        }
        if found || self.is_retired(&token_id) {
            return Err(ContractError::Claimed {  });
        }
        match self.supply.reserve_one() {
            Err(e) => {
                return Err(e);
            },
            Ok(()) => {},
        }
        let response = Response::new().add_attribute("action", "mint".to_owned()).add_attribute(
            "minter",
            info.sender.clone(),
        ).add_attribute("owner", owner.clone()).add_attribute("token_id", token_id.clone());
        let token = Token { token_id, owner, approvals: Vec::new(), token_uri, extension };
        proof {
            lemma_token_inserted(before.tokens@, slot as int, token);
            assert(token@.approvals =~= Seq::empty());
        }
        self.tokens.insert(slot, token);
        proof {
            assert(response@.attributes =~= mint_response(
                info.sender@,
                token.owner@,
                token.token_id@,
            ).attributes);
            assert forall|i: int| 0 <= i < self.tokens.len() implies (
            #[trigger] self.tokens[i])@.valid() by {
                if i < slot {
                    assert(self.tokens[i] == before.tokens[i]);
                } else if i > slot {
                    assert(self.tokens[i] == before.tokens[i - 1]);
                }
            }
            assert forall|i: int, j: int|
                0 <= i < self.retired.len() && 0 <= j < self.tokens.len() implies (
            #[trigger] self.retired[i])@ != (#[trigger] self.tokens[j]).token_id@ by {
                if j < slot {
                    assert(self.tokens[j] == before.tokens[j]);
                } else if j > slot {
                    assert(self.tokens[j] == before.tokens[j - 1]);
                } else {
                    assert(names(before.retired@)[i] == self.retired[i]@);
                    assert(names(before.retired@).contains(self.retired[i]@));
                }
            }
        }
        Ok(response)
    }

    /// Passes the token to `recipient` and clears its approvals, where `info.sender` may.
    fn transfer_token(&mut self, env: &Env, info: &MessageInfo, recipient: String, token_id: &String) -> (result:
        Result<(), ContractError>)
        requires
            old(self).wf(),
        ensures
            final(self).wf(),
            carried_out(
                old(self)@,
                old(self)@.transfer(env.block, info.sender@, recipient@, token_id@),
                result,
                final(self)@,
            ),
    {
        let i = match self.find_token(token_id) {
            Some(i) => i,
            None => {
                return Err(no_such_token());
            },
        };
        if !self.check_can_send(&env.block, i, &info.sender) {
            return Err(ContractError::Unauthorized {  });
        }
        if recipient.as_str().is_empty() {
            return Err(empty_address());
        }
        let ghost before = *self;
        let token = &mut self.tokens[i];
        token.owner = recipient;
        token.approvals = Vec::new();
        proof {
            lemma_token_replaced(before.tokens@, self.tokens@, i as int);
            assert(self.tokens[i as int]@.approvals =~= Seq::empty());
            assert forall|j: int| 0 <= j < self.tokens.len() implies (
            #[trigger] self.tokens[j])@.valid() by {
                if j != i {
                    assert(self.tokens[j] == before.tokens[j]);
                }
            }
            assert forall|a: int, b: int|
                0 <= a < self.retired.len() && 0 <= b < self.tokens.len() implies (
            #[trigger] self.retired[a])@ != (#[trigger] self.tokens[b]).token_id@ by {
                assert(self.tokens[b].token_id@ == before.tokens[b].token_id@);
                assert(before.retired[a]@ != before.tokens[b].token_id@);
            }
        }
        Ok(())
    }

    /// Passes the token to another account.
    pub fn transfer_nft(&mut self, env: &Env, info: &MessageInfo, recipient: String, token_id: String) -> (result:
        Result<Response, ContractError>)
        requires
            old(self).wf(),
        ensures
            final(self).wf(),
            refines(
                old(self)@,
                old(self)@.transfer(env.block, info.sender@, recipient@, token_id@),
                transfer_response(info.sender@, recipient@, token_id@),
                result,
                final(self)@,
            ),
    {
        let to = recipient.clone();
        match self.transfer_token(env, info, recipient, &token_id) {
            Err(e) => Err(e),
            Ok(()) => {
                let response = Response::new().add_attribute(
                    "action",
                    "transfer_nft".to_owned(),
                ).add_attribute("sender", info.sender.clone()).add_attribute(
                    "recipient",
                    to,
                ).add_attribute("token_id", token_id);
                assert(response@.attributes =~= transfer_response(
                    info.sender@,
                    recipient@,
                    token_id@,
                ).attributes);
                Ok(response)
            },
        }
    }

    /// Passes the token to a contract, and leaves a notice for the contract.
    pub fn send_nft(
        &mut self,
        env: &Env,
        info: &MessageInfo,
        contract: String,
        token_id: String,
        msg: Vec<u8>,
    ) -> (result: Result<Response, ContractError>)
        requires
            old(self).wf(),
        ensures
            final(self).wf(),
            refines(
                old(self)@,
                old(self)@.transfer(env.block, info.sender@, contract@, token_id@),
                send_response(info.sender@, contract@, token_id@, msg@),
                result,
                final(self)@,
            ),
    {
        let to = contract.clone();
        let receiver = contract.clone();
        match self.transfer_token(env, info, contract, &token_id) {
            Err(e) => Err(e),
            Ok(()) => {
                let notice = SubMsg::ReceiveNft {
                    contract: receiver,
                    sender: info.sender.clone(),
                    token_id: token_id.clone(),
                    msg,
                };
                let response = Response::new().add_submessage(notice).add_attribute(
                    "action",
                    "send_nft".to_owned(),
                ).add_attribute("sender", info.sender.clone()).add_attribute(
                    "recipient",
                    to,
                ).add_attribute("token_id", token_id);
                assert(response@.attributes =~= send_response(
                    info.sender@,
                    contract@,
                    token_id@,
                    msg@,
                ).attributes);
                assert(response@.messages =~= send_response(
                    info.sender@,
                    contract@,
                    token_id@,
                    msg@,
                ).messages);
                Ok(response)
            },
        }
    }

    /// Lets `spender` transfer the token until `expires`; for the owner of the token only.
    pub fn approve(
        &mut self,
        env: &Env,
        info: &MessageInfo,
        spender: String,
        token_id: String,
        expires: Option<Expiration>,
    ) -> (result: Result<Response, ContractError>)
        requires
            old(self).wf(),
        ensures
            final(self).wf(),
            refines(
                old(self)@,
                old(self)@.approve(env.block, info.sender@, spender@, token_id@, expires),
                approve_response(info.sender@, spender@, token_id@),
                result,
                final(self)@,
            ),
    {
        let i = match self.find_token(&token_id) {
            Some(i) => i,
            None => {
                return Err(no_such_token());
            },
        };
        if self.tokens[i].owner != info.sender {
            return Err(ContractError::Unauthorized {  });
        }
        let expiry = expiry_of(expires);
        if expiry.is_expired(&env.block) {
            return Err(ContractError::Expired {  });
        }
        let ghost before = *self;
        let ghost earlier = self.tokens[i as int]@.approvals;
        let mut approvals = without_spender(&self.tokens[i].approvals, &spender);
        let ghost kept = approvals.deep_view();
        approvals.push(Approval { spender: spender.clone(), expires: expiry });
        let token = &mut self.tokens[i];
        token.approvals = approvals;
        proof {
            lemma_token_replaced(before.tokens@, self.tokens@, i as int);
            lemma_filter_spenders(earlier, other_spender(spender@));
            let now = self.tokens[i as int]@.approvals;
            assert(now =~= kept.push(
                ApprovalView { spender: spender@, expires: expiry },
            ));
            assert forall|j: int| 0 <= j < self.tokens.len() implies (
            #[trigger] self.tokens[j])@.valid() by {
                if j != i {
                    assert(self.tokens[j] == before.tokens[j]);
                } else {
                    assert(before.tokens[i as int]@.valid());
                }
            }
            assert forall|a: int, b: int|
                0 <= a < self.retired.len() && 0 <= b < self.tokens.len() implies (
            #[trigger] self.retired[a])@ != (#[trigger] self.tokens[b]).token_id@ by {
                assert(self.tokens[b].token_id@ == before.tokens[b].token_id@);
                assert(before.retired[a]@ != before.tokens[b].token_id@);
            }
        }
        let response = Response::new().add_attribute("action", "approve".to_owned()).add_attribute(
            "sender",
            info.sender.clone(),
        ).add_attribute("spender", spender).add_attribute("token_id", token_id);
        assert(response@.attributes =~= approve_response(
            info.sender@,
            spender@,
            token_id@,
        ).attributes);
        Ok(response)
    }

    /// Takes back the approval of `spender` on the token; for the owner of the token only.
    pub fn revoke(&mut self, env: &Env, info: &MessageInfo, spender: String, token_id: String) -> (result:
        Result<Response, ContractError>)
        requires
            old(self).wf(),
        ensures
            final(self).wf(),
            refines(
                old(self)@,
                old(self)@.revoke(env.block, info.sender@, spender@, token_id@),
                revoke_response(info.sender@, spender@, token_id@),
                result,
                final(self)@,
            ),
    {
        let i = match self.find_token(&token_id) {
            Some(i) => i,
            None => {
                return Err(no_such_token());
            },
        };
        if self.tokens[i].owner != info.sender {
            return Err(ContractError::Unauthorized {  });
        }
        if !has_approval(&self.tokens[i].approvals, &spender, &env.block) {
            return Err(ContractError::ApprovalNotFound { spender });
        }
        let ghost before = *self;
        let ghost earlier = self.tokens[i as int]@.approvals;
        let approvals = without_spender(&self.tokens[i].approvals, &spender);
        let token = &mut self.tokens[i];
        token.approvals = approvals;
        proof {
            lemma_token_replaced(before.tokens@, self.tokens@, i as int);
            lemma_filter_spenders(earlier, other_spender(spender@));
            assert forall|j: int| 0 <= j < self.tokens.len() implies (
            #[trigger] self.tokens[j])@.valid() by {
                if j != i {
                    assert(self.tokens[j] == before.tokens[j]);
                } else {
                    assert(before.tokens[i as int]@.valid());
                }
            }
            assert forall|a: int, b: int|
                0 <= a < self.retired.len() && 0 <= b < self.tokens.len() implies (
            #[trigger] self.retired[a])@ != (#[trigger] self.tokens[b]).token_id@ by {
                assert(self.tokens[b].token_id@ == before.tokens[b].token_id@);
                assert(before.retired[a]@ != before.tokens[b].token_id@);
            }
        }
        let response = Response::new().add_attribute("action", "revoke".to_owned()).add_attribute(
            "sender",
            info.sender.clone(),
        ).add_attribute("spender", spender).add_attribute("token_id", token_id);
        assert(response@.attributes =~= revoke_response(
            info.sender@,
            spender@,
            token_id@,
        ).attributes);
        Ok(response)
    }

    /// Lets `operator` transfer every token of the sender until `expires`.
    pub fn approve_all(
        &mut self,
        env: &Env,
        info: &MessageInfo,
        operator: String,
        expires: Option<Expiration>,
    ) -> (result: Result<Response, ContractError>)
        requires
            old(self).wf(),
        ensures
            final(self).wf(),
            refines(
                old(self)@,
                old(self)@.approve_all(env.block, info.sender@, operator@, expires),
                approve_all_response(info.sender@, operator@),
                result,
                final(self)@,
            ),
    {
        let expiry = expiry_of(expires);
        if expiry.is_expired(&env.block) {
            return Err(ContractError::Expired {  });
        }
        let ghost before = *self;
        let (slot, found) = locate_operator(&self.operators, &info.sender, &operator);
        if found {
            let approval = &mut self.operators[slot];
            approval.expires = expiry;
            proof {
                lemma_operator_replaced(before.operators@, self.operators@, slot as int);
            }
        } else {
            let approval = OperatorApproval {
                owner: info.sender.clone(),
                operator: operator.clone(),
                expires: expiry,
            };
            proof {
                lemma_operator_inserted(before.operators@, slot as int, approval);
            }
            self.operators.insert(slot, approval);
        }
        let response = Response::new().add_attribute(
            "action",
            "approve_all".to_owned(),
        ).add_attribute("sender", info.sender.clone()).add_attribute("operator", operator);
        assert(response@.attributes =~= approve_all_response(info.sender@, operator@).attributes);
        Ok(response)
    }

    /// Takes back the approval of `operator` for the tokens of the sender.
    pub fn revoke_all(&mut self, env: &Env, info: &MessageInfo, operator: String) -> (result: Result<
        Response,
        ContractError,
    >)
        requires
            old(self).wf(),
        ensures
            final(self).wf(),
            refines(
                old(self)@,
                old(self)@.revoke_all(env.block, info.sender@, operator@),
                revoke_all_response(info.sender@, operator@),
                result,
                final(self)@,
            ),
    {
        let slot = match self.find_operator(&info.sender, &operator) {
            Some(i) => i,
            None => {
                return Err(ContractError::ApprovalNotFound { spender: operator });
            },
        };
        if self.operators[slot].expires.is_expired(&env.block) {
            return Err(ContractError::ApprovalNotFound { spender: operator });
        }
        proof {
            lemma_operator_removed(self.operators@, slot as int);
        }
        self.operators.remove(slot);
        let response = Response::new().add_attribute(
            "action",
            "revoke_all".to_owned(),
        ).add_attribute("sender", info.sender.clone()).add_attribute("operator", operator);
        assert(response@.attributes =~= revoke_all_response(info.sender@, operator@).attributes);
        Ok(response)
    }

    /// Removes the token for good, where the deployment burns and `info.sender` may.
    pub fn burn(&mut self, env: &Env, info: &MessageInfo, token_id: String) -> (result: Result<
        Response,
        ContractError,
    >)
        requires
            old(self).wf(),
        ensures
            final(self).wf(),
            refines(
                old(self)@,
                old(self)@.burn(env.block, info.sender@, token_id@),
                burn_response(info.sender@, token_id@),
                result,
                final(self)@,
            ),
    {
        if !self.burn_allowed {
            return Err(ContractError::BurnNotAllowed {  });
        }
        let i = match self.find_token(&token_id) {
            Some(i) => i,
            None => {
                return Err(no_such_token());
            },
        };
        if !self.check_can_send(&env.block, i, &info.sender) {
            return Err(ContractError::Unauthorized {  });
        }
        let ghost before = *self;
        proof {
            lemma_token_removed(self.tokens@, i as int);
            lemma_token_keys_distinct(self.tokens@);
        }
        let token = self.tokens.remove(i);
        self.retired.push(token.token_id);
        proof {
            let gone = names(before.retired@);
            let now = names(self.retired@);
            assert(now =~= gone.push(token_id@));
            gone.lemma_push_to_set_commute(token_id@);
            assert forall|a: int| 0 <= a < gone.len() implies gone[a] != token_id@ by {
                assert(before.retired[a]@ != before.tokens[i as int].token_id@);
            }
            assert(now.no_duplicates());
            assert forall|j: int| 0 <= j < self.tokens.len() implies (
            #[trigger] self.tokens[j])@.valid() by {
                if j < i {
                    assert(self.tokens[j] == before.tokens[j]);
                } else {
                    assert(self.tokens[j] == before.tokens[j + 1]);
                }
            }
            assert forall|a: int, b: int|
                0 <= a < self.retired.len() && 0 <= b < self.tokens.len() implies (
            #[trigger] self.retired[a])@ != (#[trigger] self.tokens[b]).token_id@ by {
                let ob = if b < i { b } else { b + 1 };
                assert(self.tokens[b] == before.tokens[ob]);
                if a < gone.len() {
                    assert(self.retired[a] == before.retired[a]);
                    assert(before.retired[a]@ != before.tokens[ob].token_id@);
                } else {
                    let entries = token_entries(before.tokens@);
                    if ob < i {
                        assert(entries[ob].0 != entries[i as int].0);
                    } else {
                        assert(entries[i as int].0 != entries[ob].0);
                    }
                }
            }
        }
        let response = Response::new().add_attribute("action", "burn".to_owned()).add_attribute(
            "sender",
            info.sender.clone(),
        ).add_attribute("token_id", token_id);
        assert(response@.attributes =~= burn_response(info.sender@, token_id@).attributes);
        Ok(response)
    }

    /// Asks for the rewards of the ledger to be paid out; for the minter only, and only
    /// while no earlier request awaits its reply.
    pub fn withdraw_rewards(&mut self, info: &MessageInfo) -> (result: Result<Response, ContractError>)
        requires
            old(self).wf(),
        ensures
            final(self).wf(),
            refines(
                old(self)@,
                old(self)@.initiate_withdrawal(info.sender@),
                withdraw_response("withdraw_rewards"@, info.sender@),
                result,
                final(self)@,
            ),
    {
        if !self.minter.is_minter(&info.sender) {
            return Err(ContractError::Unauthorized {  });
        }
        match &self.withdrawal {
            Withdrawal::Idle => {},
            Withdrawal::AwaitingReply { .. } => {
                return Err(ContractError::WithdrawalPending {  });
            },
        }
        self.withdrawal = Withdrawal::AwaitingReply { token_id: None };
        let response = Response::new().add_submessage(
            SubMsg::WithdrawRewards { reply_id: REWARDS_WITHDRAW_REPLY, records_limit: 0 },
        ).add_attribute("action", "withdraw_rewards".to_owned()).add_attribute(
            "sender",
            info.sender.clone(),
        );
        assert(response@.attributes =~= withdraw_response(
            "withdraw_rewards"@,
            info.sender@,
        ).attributes);
        assert(response@.messages =~= withdraw_response(
            "withdraw_rewards"@,
            info.sender@,
        ).messages);
        Ok(response)
    }

    /// Asks for rewards to be paid out on behalf of a token; for those authorized for the
    /// token, and only while no earlier request awaits its reply.
    pub fn withdraw_token_rewards(&mut self, env: &Env, info: &MessageInfo, token_id: String) -> (result:
        Result<Response, ContractError>)
        requires
            old(self).wf(),
        ensures
            final(self).wf(),
            refines(
                old(self)@,
                old(self)@.initiate_token_withdrawal(env.block, info.sender@, token_id@),
                withdraw_response("withdraw_token_rewards"@, info.sender@),
                result,
                final(self)@,
            ),
    {
        let i = match self.find_token(&token_id) {
            Some(i) => i,
            None => {
                return Err(no_such_token());
            },
        };
        if !self.check_can_send(&env.block, i, &info.sender) {
            return Err(ContractError::Unauthorized {  });
        }
        match &self.withdrawal {
            Withdrawal::Idle => {},
            Withdrawal::AwaitingReply { .. } => {
                return Err(ContractError::WithdrawalPending {  });
            },
        }
        self.withdrawal = Withdrawal::AwaitingReply { token_id: Some(token_id) };
        let response = Response::new().add_submessage(
            SubMsg::WithdrawRewards { reply_id: REWARDS_WITHDRAW_REPLY, records_limit: 0 },
        ).add_attribute("action", "withdraw_token_rewards".to_owned()).add_attribute(
            "sender",
            info.sender.clone(),
        );
        assert(response@.attributes =~= withdraw_response(
            "withdraw_token_rewards"@,
            info.sender@,
        ).attributes);
        assert(response@.messages =~= withdraw_response(
            "withdraw_token_rewards"@,
            info.sender@,
        ).messages);
        Ok(response)
    }

    /// Offers the minter role to `minter`, without a deadline; for the minter only.
    pub fn update_minter(&mut self, info: &MessageInfo, minter: String) -> (result: Result<
        Response,
        ContractError,
    >)
        requires
            old(self).wf(),
        ensures
            final(self).wf(),
            refines(
                old(self)@,
                old(self)@.with_minter(
                    old(self)@.minter.propose_transfer(info.sender@, minter@, None),
                ),
                minter_response("update_minter"@, info.sender@),
                result,
                final(self)@,
            ),
    {
        match self.minter.propose_transfer(&info.sender, minter, None) {
            Err(e) => Err(ContractError::Ownership(e)),
            Ok(()) => {
                let response = Response::new().add_attribute(
                    "action",
                    "update_minter".to_owned(),
                ).add_attribute("sender", info.sender.clone());
                assert(response@.attributes =~= minter_response(
                    "update_minter"@,
                    info.sender@,
                ).attributes);
                Ok(response)
            },
        }
    }

    /// Takes a step of the hand-over of the minter role.
    pub fn update_ownership(&mut self, env: &Env, info: &MessageInfo, action: Action) -> (result:
        Result<Response, ContractError>)
        requires
            old(self).wf(),
        ensures
            final(self).wf(),
            refines(
                old(self)@,
                old(self)@.with_minter(ownership_step(old(self)@, env.block, info.sender@, action)),
                minter_response("update_ownership"@, info.sender@),
                result,
                final(self)@,
            ),
    {
        let step = match action {
            Action::TransferOwnership { new_owner, expiry } => self.minter.propose_transfer(
                &info.sender,
                new_owner,
                expiry,
            ),
            Action::AcceptOwnership => self.minter.accept_transfer(&env.block, &info.sender),
            Action::RenounceOwnership => self.minter.renounce(&info.sender),
        };
        match step {
            Err(e) => Err(ContractError::Ownership(e)),
            Ok(()) => {
                let response = Response::new().add_attribute(
                    "action",
                    "update_ownership".to_owned(),
                ).add_attribute("sender", info.sender.clone());
                assert(response@.attributes =~= minter_response(
                    "update_ownership"@,
                    info.sender@,
                ).attributes);
                Ok(response)
            },
        }
    }
}

/// What a step of the hand-over makes of the minter role.
pub open spec fn ownership_step(
    old: ContractView,
    block: BlockInfo,
    sender: Seq<char>,
    action: Action,
) -> Result<MinterView, OwnershipError> {
    match action {
        Action::TransferOwnership { new_owner, expiry } => old.minter.propose_transfer(
            sender,
            new_owner@,
            expiry,
        ),
        Action::AcceptOwnership => old.minter.accept_transfer(block, sender),
        Action::RenounceOwnership => old.minter.renounce(sender),
    }
}

} // verus!
