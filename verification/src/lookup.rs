//! Finding tokens, approvals and operators in the lists of a ledger, and what a find means
//! for its view.

use vstd::prelude::*;

use crate::expiration::BlockInfo;
use crate::keyed::{keys_distinct, lemma_as_map_absent, lemma_as_map_at};
use crate::model::{in_force, other_spender};
use crate::order::{
    ascending, lemma_pair_lt_irreflexive, lemma_pair_lt_total, lemma_pair_lt_transitive,
    lemma_str_lt_asymmetric, lemma_str_lt_total, lemma_str_lt_transitive, pair_less, pair_lt,
    pairs_ascending, str_less, str_lt,
};
use crate::state::{
    has_active_approval, names, operator_entries, operator_keys, spenders_distinct, token_entries,
    token_ids, Approval, ApprovalView, Cw721Contract, OperatorApproval, Token,
};

verus! {

/// Tokens in ascending order of their ids have distinct ids.
pub proof fn lemma_token_keys_distinct(tokens: Seq<Token>)
    requires
        ascending(token_ids(tokens)),
    ensures
        keys_distinct(token_entries(tokens)),
{
    let ids = token_ids(tokens);
    let entries = token_entries(tokens);
    assert forall|i: int, j: int| 0 <= i < j < entries.len() implies (#[trigger] entries[i]).0 != (
    #[trigger] entries[j]).0 by {
        assert(str_lt(ids[i], ids[j]));
        lemma_str_lt_asymmetric(ids[i], ids[j]);
    }
}

/// Operator approvals in ascending order have distinct pairs of owner and operator.
pub proof fn lemma_operator_keys_distinct(operators: Seq<OperatorApproval>)
    requires
        pairs_ascending(operator_keys(operators)),
    ensures
        keys_distinct(operator_entries(operators)),
{
    let keys = operator_keys(operators);
    let entries = operator_entries(operators);
    assert forall|i: int, j: int| 0 <= i < j < entries.len() implies (#[trigger] entries[i]).0 != (
    #[trigger] entries[j]).0 by {
        assert(pair_lt(keys[i], keys[j]));
        lemma_pair_lt_irreflexive(keys[i]);
    }
}

/// Where the token `id` stands in `tokens`, or would stand: the position, and whether the
/// token is there.
pub fn locate_token(tokens: &Vec<Token>, id: &String) -> (place: (usize, bool))
    requires
        ascending(token_ids(tokens@)),
    ensures
        place.0 <= tokens.len(),
        place.1 ==> place.0 < tokens.len() && tokens[place.0 as int].token_id@ == id@,
        !place.1 ==> forall|j: int| 0 <= j < tokens.len() ==> tokens[j].token_id@ != id@,
        forall|j: int| 0 <= j < place.0 ==> str_lt(tokens[j].token_id@, id@),
        forall|j: int|
            place.0 <= j < tokens.len() && !(place.1 && j == place.0) ==> str_lt(
                id@,
                tokens[j].token_id@,
            ),
{
    let ghost ids = token_ids(tokens@);
    let mut i: usize = 0;
    while i < tokens.len() && str_less(tokens[i].token_id.as_str(), id.as_str())
        invariant
            i <= tokens.len(),
            forall|j: int| 0 <= j < i ==> str_lt(tokens[j].token_id@, id@),
        decreases tokens.len() - i,
    {
        i += 1;
    }
    let found = i < tokens.len() && tokens[i].token_id == *id;
    proof {
        assert forall|j: int| 0 <= j < i implies tokens[j].token_id@ != id@ by {
            lemma_str_lt_asymmetric(tokens[j].token_id@, id@);
        }
        if i < tokens.len() {
            let here = tokens[i as int].token_id@;
            lemma_str_lt_total(here, id@);
            assert forall|j: int| i < j < tokens.len() implies str_lt(id@, tokens[j].token_id@) by {
                assert(str_lt(ids[i as int], ids[j]));
                if !found {
                    lemma_str_lt_transitive(id@, here, tokens[j].token_id@);
                }
            }
            assert forall|j: int| i <= j < tokens.len() && !found implies tokens[j].token_id@
                != id@ by {
                lemma_str_lt_asymmetric(id@, tokens[j].token_id@);
            }
        }
    }
    (i, found)
}

/// Where the approval of `owner` for `operator` stands in `operators`, or would stand: the
/// position, and whether the approval is there.
pub fn locate_operator(operators: &Vec<OperatorApproval>, owner: &String, operator: &String) -> (place:
    (usize, bool))
    requires
        pairs_ascending(operator_keys(operators@)),
    ensures
        place.0 <= operators.len(),
        place.1 ==> place.0 < operators.len() && operator_keys(operators@)[place.0 as int] == (
            owner@,
            operator@,
        ),
        !place.1 ==> forall|j: int|
            0 <= j < operators.len() ==> operator_keys(operators@)[j] != (owner@, operator@),
        forall|j: int|
            0 <= j < place.0 ==> pair_lt(operator_keys(operators@)[j], (owner@, operator@)),
        forall|j: int|
            place.0 <= j < operators.len() && !(place.1 && j == place.0) ==> pair_lt(
                (owner@, operator@),
                operator_keys(operators@)[j],
            ),
{
    let ghost keys = operator_keys(operators@);
    let ghost key = (owner@, operator@);
    let mut i: usize = 0;
    while i < operators.len() && pair_less(
        operators[i].owner.as_str(),
        operators[i].operator.as_str(),
        owner.as_str(),
        operator.as_str(),
    )
        invariant
            i <= operators.len(),
            keys == operator_keys(operators@),
            key == (owner@, operator@),
            forall|j: int| 0 <= j < i ==> pair_lt(keys[j], key),
        decreases operators.len() - i,
    {
        i += 1;
    }
    let found = i < operators.len() && operators[i].owner == *owner && operators[i].operator
        == *operator;
    proof {
        assert forall|j: int| 0 <= j < i implies keys[j] != key by {
            lemma_pair_lt_irreflexive(key);
        }
        if i < operators.len() {
            let here = keys[i as int];
            lemma_pair_lt_total(here, key);
            assert forall|j: int| i < j < operators.len() implies pair_lt(key, keys[j]) by {
                assert(pair_lt(keys[i as int], keys[j]));
                if !found {
                    lemma_pair_lt_transitive(key, here, keys[j]);
                }
            }
            assert forall|j: int| i <= j < operators.len() && !found implies keys[j] != key by {
                lemma_pair_lt_irreflexive(key);
            }
        }
    }
    (i, found)
}

/// Whether `approvals` holds an approval for `spender` that has not lapsed at `block`.
pub fn has_approval(approvals: &Vec<Approval>, spender: &String, block: &BlockInfo) -> (active: bool)
    ensures
        active == has_active_approval(approvals.deep_view(), spender@, *block),
{
    let ghost all = approvals.deep_view();
    let mut i: usize = 0;
    while i < approvals.len()
        invariant
            i <= approvals.len(),
            all == approvals.deep_view(),
            forall|j: int|
                0 <= j < i ==> !((#[trigger] all[j]).spender == spender@
                    && !all[j].expires.expired_at(*block)),
        decreases approvals.len() - i,
    {
        if approvals[i].spender == *spender && !approvals[i].expires.is_expired(block) {
            assert(all[i as int].spender == spender@ && !all[i as int].expires.expired_at(*block));
            return true;
        }
        i += 1;
    }
    false
}

/// The approvals among `approvals` that are not for `spender`, in their order.
pub fn without_spender(approvals: &Vec<Approval>, spender: &String) -> (kept: Vec<Approval>)
    ensures
        kept.deep_view() == approvals.deep_view().filter(other_spender(spender@)),
{
    let ghost all = approvals.deep_view();
    let ghost keep = other_spender(spender@);
    let mut kept: Vec<Approval> = Vec::new();
    let mut i: usize = 0;
    proof {
        assert(all.take(0) =~= Seq::empty());
        Seq::<ApprovalView>::empty().lemma_filter_len(keep);
        assert(kept.deep_view() =~= all.take(0).filter(keep));
    }
    while i < approvals.len()
        invariant
            i <= approvals.len(),
            all == approvals.deep_view(),
            keep == other_spender(spender@),
            kept.deep_view() == all.take(i as int).filter(keep),
        decreases approvals.len() - i,
    {
        let ghost before = kept.deep_view();
        proof {
            assert(all.take(i as int + 1) =~= all.take(i as int).push(all[i as int]));
            all.take(i as int).lemma_filter_push(all[i as int], keep);
        }
        if approvals[i].spender != *spender {
            kept.push(approvals[i].clone());
            assert(kept.deep_view() =~= before.push(all[i as int]));
        }
        i += 1;
    }
    proof {
        assert(all.take(i as int) =~= all);
    }
    kept
}

/// The approvals among `approvals` that have not lapsed at `block`, in their order.
pub fn unexpired(approvals: &Vec<Approval>, block: &BlockInfo) -> (kept: Vec<Approval>)
    ensures
        kept.deep_view() == approvals.deep_view().filter(in_force(*block)),
{
    let ghost all = approvals.deep_view();
    let ghost keep = in_force(*block);
    let mut kept: Vec<Approval> = Vec::new();
    let mut i: usize = 0;
    proof {
        assert(all.take(0) =~= Seq::empty());
        Seq::<ApprovalView>::empty().lemma_filter_len(keep);
        assert(kept.deep_view() =~= all.take(0).filter(keep));
    }
    while i < approvals.len()
        invariant
            i <= approvals.len(),
            all == approvals.deep_view(),
            keep == in_force(*block),
            kept.deep_view() == all.take(i as int).filter(keep),
        decreases approvals.len() - i,
    {
        let ghost before = kept.deep_view();
        proof {
            assert(all.take(i as int + 1) =~= all.take(i as int).push(all[i as int]));
            all.take(i as int).lemma_filter_push(all[i as int], keep);
        }
        if !approvals[i].expires.is_expired(block) {
            kept.push(approvals[i].clone());
            assert(kept.deep_view() =~= before.push(all[i as int]));
        }
        i += 1;
    }
    proof {
        assert(all.take(i as int) =~= all);
    }
    kept
}

/// A copy of a list of approvals.
pub fn clone_approvals(approvals: &Vec<Approval>) -> (copy: Vec<Approval>)
    ensures
        copy.deep_view() == approvals.deep_view(),
{
    let mut copy: Vec<Approval> = Vec::new();
    let mut i: usize = 0;
    while i < approvals.len()
        invariant
            i <= approvals.len(),
            copy.len() == i,
            forall|j: int| 0 <= j < i ==> copy[j]@ == approvals[j]@,
        decreases approvals.len() - i,
    {
        copy.push(approvals[i].clone());
        i += 1;
    }
    assert(copy.deep_view() =~= approvals.deep_view());
    copy
}

/// Leaving approvals out keeps the spenders distinct, and brings in no approval.
pub proof fn lemma_filter_spenders(approvals: Seq<ApprovalView>, keep: spec_fn(ApprovalView) -> bool)
    requires
        spenders_distinct(approvals),
    ensures
        spenders_distinct(approvals.filter(keep)),
        forall|i: int|
            0 <= i < approvals.filter(keep).len() ==> approvals.contains(
                #[trigger] approvals.filter(keep)[i],
            ) && keep(approvals.filter(keep)[i]),
    decreases approvals.len(),
{
    if approvals.len() == 0 {
        approvals.lemma_filter_len(keep);
    } else {
        let rest = approvals.drop_last();
        let last = approvals.last();
        lemma_filter_spenders(rest, keep);
        assert(approvals =~= rest.push(last));
        rest.lemma_filter_push(last, keep);
        let kept = approvals.filter(keep);
        let inner = rest.filter(keep);
        assert forall|i: int| 0 <= i < inner.len() implies approvals.contains(#[trigger] inner[i])
            && inner[i].spender != last.spender by {
            assert(rest.contains(inner[i]));
            let k = choose|k: int| 0 <= k < rest.len() && rest[k] == inner[i];
            assert(approvals[k] == inner[i]);
            assert(approvals[k].spender != approvals[approvals.len() - 1].spender);
        }
        if keep(last) {
            assert(approvals[approvals.len() - 1] == last);
            assert forall|i: int| 0 <= i < kept.len() implies approvals.contains(#[trigger] kept[i])
                && keep(kept[i]) by {
                if i < inner.len() {
                    assert(kept[i] == inner[i]);
                }
            }
            assert forall|i: int, j: int| 0 <= i < j < kept.len() implies (#[trigger] kept[i]).spender
                != (#[trigger] kept[j]).spender by {
                assert(kept[i] == inner[i]);
                if j < inner.len() {
                    assert(kept[j] == inner[j]);
                }
            }
        }
    }
}

impl Cw721Contract {
    /// The position of the token `token_id`, if the ledger holds it.
    pub fn find_token(&self, token_id: &String) -> (found: Option<usize>)
        requires
            self.wf(),
        ensures
            match found {
                Some(i) => i < self.tokens.len() && self.tokens[i as int].token_id@ == token_id@
                    && self@.tokens.dom().contains(token_id@) && self@.tokens[token_id@]
                    == self.tokens[i as int]@,
                None => !self@.tokens.dom().contains(token_id@),
            },
    {
        let (i, found) = locate_token(&self.tokens, token_id);
        proof {
            let entries = token_entries(self.tokens@);
            lemma_token_keys_distinct(self.tokens@);
            if found {
                assert(entries[i as int] == (token_id@, self.tokens[i as int]@));
                lemma_as_map_at(entries, i as int);
            } else {
                lemma_as_map_absent(entries, token_id@);
            }
        }
        if found {
            Some(i)
        } else {
            None
        }
    }

    /// The position of the approval of `owner` for `operator`, if the ledger holds one.
    pub fn find_operator(&self, owner: &String, operator: &String) -> (found: Option<usize>)
        requires
            self.wf(),
        ensures
            match found {
                Some(i) => i < self.operators.len() && self.operators[i as int].owner@ == owner@
                    && self.operators[i as int].operator@ == operator@
                    && self@.operators.dom().contains((owner@, operator@)) && self@.operators[(
                    owner@,
                    operator@,
                )] == self.operators[i as int].expires,
                None => !self@.operators.dom().contains((owner@, operator@)),
            },
    {
        let (i, found) = locate_operator(&self.operators, owner, operator);
        proof {
            let entries = operator_entries(self.operators@);
            let keys = operator_keys(self.operators@);
            lemma_operator_keys_distinct(self.operators@);
            if found {
                assert(keys[i as int] == (owner@, operator@));
                assert(entries[i as int] == ((owner@, operator@), self.operators[i as int].expires));
                lemma_as_map_at(entries, i as int);
            } else {
                assert forall|j: int| 0 <= j < entries.len() implies (#[trigger] entries[j]).0 != (
                    owner@,
                    operator@,
                ) by {
                    assert(keys[j] != (owner@, operator@));
                }
                lemma_as_map_absent(entries, (owner@, operator@));
            }
        }
        if found {
            Some(i)
        } else {
            None
        }
    }

    /// Whether the id `token_id` belonged to a token that was burnt.
    pub fn is_retired(&self, token_id: &String) -> (retired: bool)
        ensures
            retired == self@.retired.contains(token_id@),
    {
        let ghost ids = names(self.retired@);
        let mut i: usize = 0;
        while i < self.retired.len()
            invariant
                i <= self.retired.len(),
                ids == names(self.retired@),
                forall|j: int| 0 <= j < i ==> ids[j] != token_id@,
            decreases self.retired.len() - i,
        {
            if self.retired[i] == *token_id {
                assert(ids[i as int] == token_id@);
                assert(ids.contains(token_id@));
                return true;
            }
            i += 1;
        }
        assert(!ids.contains(token_id@));
        false
    }

    /// Whether `operator` holds an approval of `owner` that has not lapsed at `block`.
    pub fn has_operator(&self, owner: &String, operator: &String, block: &BlockInfo) -> (active:
        bool)
        requires
            self.wf(),
        ensures
            active == self@.has_active_operator(owner@, operator@, *block),
    {
        match self.find_operator(owner, operator) {
            Some(i) => !self.operators[i].expires.is_expired(block),
            None => false,
        }
    }

    /// Whether `sender` may transfer or burn the token at position `i`.
    pub fn check_can_send(&self, block: &BlockInfo, i: usize, sender: &String) -> (allowed: bool)
        requires
            self.wf(),
            i < self.tokens.len(),
        ensures
            allowed == self@.is_authorized(self.tokens[i as int]@, sender@, *block),
    {
        let token = &self.tokens[i];
        if token.owner == *sender {
            return true;
        }
        if has_approval(&token.approvals, sender, block) {
            return true;
        }
        self.has_operator(&token.owner, sender, block)
    }
}

} // verus!
