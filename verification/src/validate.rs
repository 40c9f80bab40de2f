//! Checking that a ledger which was put together elsewhere is well formed.

use vstd::prelude::*;

use crate::keyed::keys_distinct;
use crate::lookup::locate_token;
use crate::order::{
    ascending, lemma_pair_lt_transitive, lemma_str_lt_transitive, pair_less, pair_lt,
    pairs_ascending, str_less, str_lt,
};
use crate::royalty::valid_royalty;
use crate::state::{
    names, operator_keys, reward_entries, spenders_distinct, token_ids, Approval, Cw721Contract,
    OperatorApproval, Token, TokenReward,
};

verus! {

/// A sequence in which each element comes before the next is ascending.
proof fn lemma_adjacent_ascending(keys: Seq<Seq<char>>, i: int, j: int)
    requires
        forall|k: int| 0 <= k < keys.len() - 1 ==> str_lt(#[trigger] keys[k], keys[k + 1]),
        0 <= i < j < keys.len(),
    ensures
        str_lt(keys[i], keys[j]),
    decreases j - i,
{
    if j > i + 1 {
        lemma_adjacent_ascending(keys, i, j - 1);
        lemma_str_lt_transitive(keys[i], keys[j - 1], keys[j]);
    }
}

/// A sequence of pairs in which each comes before the next is ascending.
proof fn lemma_adjacent_pairs_ascending(keys: Seq<(Seq<char>, Seq<char>)>, i: int, j: int)
    requires
        forall|k: int| 0 <= k < keys.len() - 1 ==> pair_lt(#[trigger] keys[k], keys[k + 1]),
        0 <= i < j < keys.len(),
    ensures
        pair_lt(keys[i], keys[j]),
    decreases j - i,
{
    if j > i + 1 {
        lemma_adjacent_pairs_ascending(keys, i, j - 1);
        lemma_pair_lt_transitive(keys[i], keys[j - 1], keys[j]);
    }
}

/// Whether no string occurs twice in `list`.
pub fn all_distinct(list: &Vec<String>) -> (distinct: bool)
    ensures
        distinct == names(list@).no_duplicates(),
{
    let ghost all = names(list@);
    let mut i: usize = 0;
    while i < list.len()
        invariant
            i <= list.len(),
            all == names(list@),
            forall|a: int, b: int| 0 <= a < i && a < b < all.len() ==> all[a] != all[b],
        decreases list.len() - i,
    {
        let mut j: usize = i + 1;
        while j < list.len()
            invariant
                i < j <= list.len(),
                all == names(list@),
                forall|b: int| i < b < j ==> all[i as int] != all[b],
            decreases list.len() - j,
        {
            if list[i] == list[j] {
                assert(all[i as int] == all[j as int]);
                return false;
            }
            j += 1;
        }
        i += 1;
    }
    assert forall|a: int, b: int| 0 <= a < all.len() && 0 <= b < all.len() && a != b implies all[a]
        != all[b] by {
        if a < b {
            assert(all[a] != all[b]);
        } else {
            assert(all[b] != all[a]);
        }
    }
    true
}

/// Whether no two of `approvals` name the same spender.
pub fn distinct_spenders(approvals: &Vec<Approval>) -> (distinct: bool)
    ensures
        distinct == spenders_distinct(approvals.deep_view()),
{
    let mut spenders: Vec<String> = Vec::new();
    let mut i: usize = 0;
    while i < approvals.len()
        invariant
            i <= approvals.len(),
            spenders.len() == i,
            forall|k: int| 0 <= k < i ==> spenders[k]@ == approvals[k].spender@,
        decreases approvals.len() - i,
    {
        spenders.push(approvals[i].spender.clone());
        i += 1;
    }
    let distinct = all_distinct(&spenders);
    proof {
        let all = names(spenders@);
        let views = approvals.deep_view();
        assert forall|a: int| 0 <= a < all.len() implies all[a] == views[a].spender by {}
        if distinct {
            assert forall|a: int, b: int| 0 <= a < b < views.len() implies (
            #[trigger] views[a]).spender != (#[trigger] views[b]).spender by {
                assert(all[a] != all[b]);
            }
        } else {
            let (a, b) = choose|a: int, b: int|
                0 <= a < all.len() && 0 <= b < all.len() && a != b && all[a] == all[b];
            if a < b {
                assert(views[a].spender == views[b].spender);
            } else {
                assert(views[b].spender == views[a].spender);
            }
        }
    }
    distinct
}

/// Whether no two of `rewards` are for the same token.
pub fn distinct_rewards(rewards: &Vec<TokenReward>) -> (distinct: bool)
    ensures
        distinct == keys_distinct(reward_entries(rewards@)),
{
    let mut ids: Vec<String> = Vec::new();
    let mut i: usize = 0;
    while i < rewards.len()
        invariant
            i <= rewards.len(),
            ids.len() == i,
            forall|k: int| 0 <= k < i ==> ids[k]@ == rewards[k].token_id@,
        decreases rewards.len() - i,
    {
        ids.push(rewards[i].token_id.clone());
        i += 1;
    }
    let distinct = all_distinct(&ids);
    proof {
        let all = names(ids@);
        let entries = reward_entries(rewards@);
        assert forall|a: int| 0 <= a < all.len() implies all[a] == entries[a].0 by {}
        if distinct {
            assert forall|a: int, b: int| 0 <= a < b < entries.len() implies (
            #[trigger] entries[a]).0 != (#[trigger] entries[b]).0 by {
                assert(all[a] != all[b]);
            }
        } else {
            let (a, b) = choose|a: int, b: int|
                0 <= a < all.len() && 0 <= b < all.len() && a != b && all[a] == all[b];
            if a < b {
                assert(entries[a].0 == entries[b].0);
            } else {
                assert(entries[b].0 == entries[a].0);
            }
        }
    }
    distinct
}

/// Whether `tokens` is in ascending order of the ids.
pub fn tokens_ascending(tokens: &Vec<Token>) -> (sorted: bool)
    ensures
        sorted == ascending(token_ids(tokens@)),
{
    let ghost ids = token_ids(tokens@);
    let mut i: usize = 1;
    while i < tokens.len()
        invariant
            1 <= i,
            ids == token_ids(tokens@),
            forall|k: int| 0 <= k < i - 1 && k < ids.len() - 1 ==> str_lt(#[trigger] ids[k], ids[k + 1]),
        decreases tokens.len() - i,
    {
        if !str_less(tokens[i - 1].token_id.as_str(), tokens[i].token_id.as_str()) {
            assert(!str_lt(ids[i as int - 1], ids[i as int]));
            return false;
        }
        i += 1;
    }
    proof {
        assert forall|a: int, b: int| 0 <= a < b < ids.len() implies str_lt(
            #[trigger] ids[a],
            #[trigger] ids[b],
        ) by {
            lemma_adjacent_ascending(ids, a, b);
        }
    }
    true
}

/// Whether `operators` is in ascending order of owner, then operator.
pub fn operators_ascending(operators: &Vec<OperatorApproval>) -> (sorted: bool)
    ensures
        sorted == pairs_ascending(operator_keys(operators@)),
{
    let ghost keys = operator_keys(operators@);
    let mut i: usize = 1;
    while i < operators.len()
        invariant
            1 <= i,
            keys == operator_keys(operators@),
            forall|k: int|
                0 <= k < i - 1 && k < keys.len() - 1 ==> pair_lt(#[trigger] keys[k], keys[k + 1]),
        decreases operators.len() - i,
    {
        if !pair_less(
            operators[i - 1].owner.as_str(),
            operators[i - 1].operator.as_str(),
            operators[i].owner.as_str(),
            operators[i].operator.as_str(),
        ) {
            assert(!pair_lt(keys[i as int - 1], keys[i as int]));
            return false;
        }
        i += 1;
    }
    proof {
        assert forall|a: int, b: int| 0 <= a < b < keys.len() implies pair_lt(
            #[trigger] keys[a],
            #[trigger] keys[b],
        ) by {
            lemma_adjacent_pairs_ascending(keys, a, b);
        }
    }
    true
}

impl Token {
    /// Whether the token has an owner, at most one approval for each spender, and a royalty
    /// percentage of at most one hundred.
    pub fn is_valid(&self) -> (valid: bool)
        ensures
            valid == self@.valid(),
    {
        !self.owner.as_str().is_empty() && distinct_spenders(&self.approvals) && valid_royalty(
            &self.extension,
        )
    }
}

impl Cw721Contract {
    /// Whether every token is valid.
    fn tokens_valid(&self) -> (valid: bool)
        ensures
            valid == forall|i: int| 0 <= i < self.tokens.len() ==> (#[trigger] self.tokens[i])@.valid(),
    {
        let mut i: usize = 0;
        while i < self.tokens.len()
            invariant
                i <= self.tokens.len(),
                forall|k: int| 0 <= k < i ==> (#[trigger] self.tokens[k])@.valid(),
            decreases self.tokens.len() - i,
        {
            if !self.tokens[i].is_valid() {
                return false;
            }
            i += 1;
        }
        true
    }

    /// Whether no id of a burnt token is the id of a token.
    fn retired_unused(&self) -> (unused: bool)
        requires
            ascending(token_ids(self.tokens@)),
        ensures
            unused == forall|i: int, j: int|
                0 <= i < self.retired.len() && 0 <= j < self.tokens.len() ==> (
                #[trigger] self.retired[i])@ != (#[trigger] self.tokens[j]).token_id@,
    {
        let mut i: usize = 0;
        while i < self.retired.len()
            invariant
                i <= self.retired.len(),
                ascending(token_ids(self.tokens@)),
                forall|a: int, b: int|
                    0 <= a < i && 0 <= b < self.tokens.len() ==> (#[trigger] self.retired[a])@ != (
                    #[trigger] self.tokens[b]).token_id@,
            decreases self.retired.len() - i,
        {
            let (slot, found) = locate_token(&self.tokens, &self.retired[i]);
            if found {
                assert(self.retired[i as int]@ == self.tokens[slot as int].token_id@);
                return false;
            }
            i += 1;
        }
        true
    }

    /// Whether no token has been credited more rewards than the ledger.
    fn rewards_within_total(&self) -> (within: bool)
        ensures
            within == forall|i: int|
                0 <= i < self.token_rewards.len() ==> (#[trigger] self.token_rewards[i]).amount
                    <= self.total_rewards,
    {
        let mut i: usize = 0;
        while i < self.token_rewards.len()
            invariant
                i <= self.token_rewards.len(),
                forall|k: int|
                    0 <= k < i ==> (#[trigger] self.token_rewards[k]).amount <= self.total_rewards,
            decreases self.token_rewards.len() - i,
        {
            if self.token_rewards[i].amount > self.total_rewards {
                return false;
            }
            i += 1;
        }
        true
    }

    /// Whether the ledger is well formed. Every ledger that the entry points hand back is;
    /// one that was put together from stored parts need not be.
    pub fn is_well_formed(&self) -> (ok: bool)
        ensures
            ok == self.wf(),
    {
        if !tokens_ascending(&self.tokens) {
            return false;
        }
        if !self.tokens_valid() {
            return false;
        }
        if !operators_ascending(&self.operators) {
            return false;
        }
        if !all_distinct(&self.retired) {
            return false;
        }
        if !self.retired_unused() {
            return false;
        }
        if !distinct_rewards(&self.token_rewards) {
            return false;
        }
        if !self.rewards_within_total() {
            return false;
        }
        if self.supply.issued_count > self.supply.max_supply {
            return false;
        }
        let held: u128 = self.tokens.len() as u128 + self.retired.len() as u128;
        held == self.supply.issued_count as u128
    }
}

} // verus!
