//! Rewards: the reply to a withdrawal request, and its payout credited to the ledger.

use vstd::prelude::*;
use vstd::string::StringExecFns;

use crate::error::{StdError, StdErrorView};
use crate::keyed::{
    lemma_as_map_absent, lemma_as_map_at, lemma_as_map_insert, lemma_as_map_update,
};
use crate::order::str_lt;
use crate::response::{Response, ResponseView};
use crate::state::{reward_entries, ContractView, Cw721Contract, TokenReward, Withdrawal, WithdrawalView};

verus! {

/// The tag under which the reply to a withdrawal request arrives.
pub const REWARDS_WITHDRAW_REPLY: u64 = 1001;

/// An amount of one currency.
#[derive(Debug, PartialEq, Eq)]
pub struct Coin {
    pub denom: String,
    pub amount: u128,
}

/// What a `Coin` holds.
pub struct CoinView {
    pub denom: Seq<char>,
    pub amount: u128,
}

impl View for Coin {
    type V = CoinView;

    open spec fn view(&self) -> CoinView {
        CoinView { denom: self.denom@, amount: self.amount }
    }
}

impl DeepView for Coin {
    type V = CoinView;

    open spec fn deep_view(&self) -> CoinView {
        self@
    }
}

/// What the rewards module reports of a payout.
#[derive(Debug, PartialEq, Eq)]
pub struct WithdrawRewardsResponse {
    /// The number of reward records paid out.
    pub records_num: u64,
    /// The amounts paid out.
    pub total_rewards: Vec<Coin>,
}

/// What a `WithdrawRewardsResponse` holds.
pub struct WithdrawRewardsView {
    pub records_num: u64,
    pub total_rewards: Seq<CoinView>,
}

impl View for WithdrawRewardsResponse {
    type V = WithdrawRewardsView;

    open spec fn view(&self) -> WithdrawRewardsView {
        WithdrawRewardsView {
            records_num: self.records_num,
            total_rewards: self.total_rewards.deep_view(),
        }
    }
}

/// What a delivered message answered.
#[derive(Debug, PartialEq, Eq)]
pub struct SubMsgResponse {
    pub data: Option<Vec<u8>>,
}

/// How the delivery of a message ended.
#[derive(Debug, PartialEq, Eq)]
pub enum SubMsgResult {
    Success(SubMsgResponse),
    Failure(String),
}

/// The answer to a message that was sent with a tag.
#[derive(Debug, PartialEq, Eq)]
pub struct Reply {
    /// The tag of the message that is answered.
    pub id: u64,
    pub result: SubMsgResult,
}

/// The sum of the amounts of `coins`, whatever their currencies.
pub open spec fn total_amount(coins: Seq<CoinView>) -> nat
    decreases coins.len(),
{
    if coins.len() == 0 {
        0
    } else {
        total_amount(coins.drop_last()) + coins.last().amount as nat
    }
}

/// The sum of the amounts of those of `coins` that are in the currency `denom`.
pub open spec fn denom_total(coins: Seq<CoinView>, denom: Seq<char>) -> nat
    decreases coins.len(),
{
    if coins.len() == 0 {
        0
    } else if coins.last().denom == denom {
        denom_total(coins.drop_last(), denom) + coins.last().amount as nat
    } else {
        denom_total(coins.drop_last(), denom)
    }
}

/// `normal` holds what `coins` holds, with one coin for each currency of which `coins` holds
/// anything, in ascending order of the currencies.
pub open spec fn is_normal_form(coins: Seq<CoinView>, normal: Seq<CoinView>) -> bool {
    &&& forall|i: int, j: int|
        0 <= i < j < normal.len() ==> str_lt(
            (#[trigger] normal[i]).denom,
            (#[trigger] normal[j]).denom,
        )
    &&& forall|i: int| 0 <= i < normal.len() ==> (#[trigger] normal[i]).amount > 0
    &&& forall|denom: Seq<char>| #[trigger]
        denom_total(normal, denom) == denom_total(coins, denom)
}

/// The decimal digit for a number below ten.
pub open spec fn digit(d: nat) -> char {
    if d == 0 {
        '0'
    } else if d == 1 {
        '1'
    } else if d == 2 {
        '2'
    } else if d == 3 {
        '3'
    } else if d == 4 {
        '4'
    } else if d == 5 {
        '5'
    } else if d == 6 {
        '6'
    } else if d == 7 {
        '7'
    } else if d == 8 {
        '8'
    } else {
        '9'
    }
}

/// A number in decimal digits, without leading zeros.
pub open spec fn decimal(n: nat) -> Seq<char>
    decreases n,
{
    if n < 10 {
        seq![digit(n)]
    } else {
        decimal(n / 10).push(digit(n % 10))
    }
}

/// A coin as text: the amount in decimal digits, then the currency.
pub open spec fn coin_text(coin: CoinView) -> Seq<char> {
    decimal(coin.amount as nat) + coin.denom
}

/// The texts of `coins`, one after the other with nothing between them.
pub open spec fn coins_text(coins: Seq<CoinView>) -> Seq<char>
    decreases coins.len(),
{
    if coins.len() == 0 {
        Seq::empty()
    } else {
        coins_text(coins.drop_last()) + coin_text(coins.last())
    }
}

/// What `serde_json_wasm::from_slice` makes of a JSON text that is to hold a report of a
/// payout: the report, or the message of the decoder's error.
pub uninterp spec fn withdraw_response_json(data: Seq<u8>) -> Result<
    WithdrawRewardsView,
    Seq<char>,
>;

/// What `decoded` holds.
pub open spec fn decoded_view(decoded: Result<WithdrawRewardsResponse, String>) -> Result<
    WithdrawRewardsView,
    Seq<char>,
> {
    match decoded {
        Ok(payout) => Ok(payout@),
        Err(message) => Err(message@),
    }
}

/// Decodes the JSON text of a report of a payout.
///
/// Calls `serde_json_wasm::from_slice` for `archway_bindings`' `WithdrawRewardsResponse`.
/// The contract only names the outcome, as a function of the bytes: nothing is claimed of
/// which texts decode, or to what.
#[verifier::external_body]
fn decode_withdraw_response(data: &Vec<u8>) -> (decoded: Result<WithdrawRewardsResponse, String>)
    ensures
        decoded_view(decoded) == withdraw_response_json(data@),
{
    match serde_json_wasm::from_slice::<archway_bindings::types::rewards::WithdrawRewardsResponse>(
        data,
    ) {
        Ok(payout) => Ok(
            WithdrawRewardsResponse {
                records_num: payout.records_num,
                total_rewards: payout.total_rewards.into_iter().map(
                    |c| Coin { denom: c.denom, amount: c.amount.u128() },
                ).collect(),
            },
        ),
        Err(e) => Err(e.to_string()),
    }
}

/// Brings coins into normal form.
///
/// Calls `cw_utils::NativeBalance::normalize`, which drops the coins of amount zero, sorts
/// by currency and adds up the coins of one currency. The addition panics on overflow, so
/// the sum for each currency must fit.
#[verifier::external_body]
fn normalize_coins(coins: Vec<Coin>) -> (normal: Vec<Coin>)
    requires
        forall|denom: Seq<char>| denom_total(coins.deep_view(), denom) <= u128::MAX,
    ensures
        is_normal_form(coins.deep_view(), normal.deep_view()),
{
    let mut balance = cw_utils::NativeBalance(
        coins.into_iter().map(|c| cosmwasm_std::Coin::new(c.amount, c.denom)).collect(),
    );
    balance.normalize();
    balance.into_vec().into_iter().map(
        |c| Coin { denom: c.denom, amount: c.amount.u128() },
    ).collect()
}

/// A coin as text.
///
/// Calls `to_string` of `cosmwasm_std::Coin`, whose `Display` writes the amount and then the
/// currency.
#[verifier::external_body]
fn coin_to_string(coin: &Coin) -> (text: String)
    ensures
        text@ == coin_text(coin@),
{
    cosmwasm_std::Coin::new(coin.amount, coin.denom.clone()).to_string()
}

/// A number in decimal digits.
///
/// Calls `to_string` of `u64`.
#[verifier::external_body]
pub(crate) fn u64_to_string(n: u64) -> (text: String)
    ensures
        text@ == decimal(n as nat),
{
    n.to_string()
}

/// The sum over a prefix of `coins` is at most the sum over all of them.
proof fn lemma_total_prefix(coins: Seq<CoinView>, k: int)
    requires
        0 <= k <= coins.len(),
    ensures
        total_amount(coins.take(k)) <= total_amount(coins),
    decreases coins.len() - k,
{
    if k == coins.len() {
        assert(coins.take(k) =~= coins);
    } else {
        lemma_total_prefix(coins, k + 1);
        assert(coins.take(k + 1).drop_last() =~= coins.take(k));
    }
}

/// The sum for one currency is at most the sum over all of them.
pub proof fn lemma_denom_total_le_total(coins: Seq<CoinView>, denom: Seq<char>)
    ensures
        denom_total(coins, denom) <= total_amount(coins),
    decreases coins.len(),
{
    if coins.len() > 0 {
        lemma_denom_total_le_total(coins.drop_last(), denom);
    }
}

/// The sum of the amounts of `coins`, or `None` where it does not fit.
pub fn sum_amounts(coins: &Vec<Coin>) -> (sum: Option<u128>)
    ensures
        match sum {
            Some(total) => total == total_amount(coins.deep_view()),
            None => total_amount(coins.deep_view()) > u128::MAX,
        },
{
    let ghost all = coins.deep_view();
    let mut total: u128 = 0;
    let mut i: usize = 0;
    while i < coins.len()
        invariant
            i <= coins.len(),
            all == coins.deep_view(),
            total == total_amount(all.take(i as int)),
        decreases coins.len() - i,
    {
        proof {
            assert(all.take(i as int + 1).drop_last() =~= all.take(i as int));
            assert(all.take(i as int + 1).last() == coins[i as int]@);
            lemma_total_prefix(all, i as int + 1);
        }
        if coins[i].amount > u128::MAX - total {
            return None;
        }
        total = total + coins[i].amount;
        i += 1;
    }
    proof {
        assert(all.take(i as int) =~= all);
    }
    Some(total)
}

/// The texts of `coins`, one after the other.
fn concat_coins(coins: &Vec<Coin>) -> (text: String)
    ensures
        text@ == coins_text(coins.deep_view()),
{
    let ghost all = coins.deep_view();
    let mut text = String::new();
    let mut i: usize = 0;
    while i < coins.len()
        invariant
            i <= coins.len(),
            all == coins.deep_view(),
            text@ == coins_text(all.take(i as int)),
        decreases coins.len() - i,
    {
        proof {
            assert(all.take(i as int + 1).drop_last() =~= all.take(i as int));
            assert(all.take(i as int + 1).last() == coins[i as int]@);
        }
        let piece = coin_to_string(&coins[i]);
        text.append(piece.as_str());
        i += 1;
    }
    proof {
        assert(all.take(i as int) =~= all);
    }
    text
}

/// The position of the reward of token `id` in `rewards`, if it has one.
fn find_reward(rewards: &Vec<TokenReward>, id: &String) -> (found: Option<usize>)
    ensures
        match found {
            Some(i) => i < rewards.len() && rewards[i as int].token_id@ == id@,
            None => forall|i: int| 0 <= i < rewards.len() ==> rewards[i].token_id@ != id@,
        },
{
    let mut i: usize = 0;
    while i < rewards.len()
        invariant
            i <= rewards.len(),
            forall|j: int| 0 <= j < i ==> rewards[j].token_id@ != id@,
        decreases rewards.len() - i,
    {
        if rewards[i].token_id == *id {
            return Some(i);
        }
        i += 1;
    }
    None
}

/// What is recorded with a payout: the number of records and the coins in normal form.
pub open spec fn withdrawal_response(records_num: u64, normal: Seq<CoinView>) -> ResponseView {
    ResponseView {
        messages: Seq::empty(),
        attributes: seq![
            ("method"@, "after_rewards_withdrawn"@),
            ("records_num"@, decimal(records_num as nat)),
            ("total_rewards"@, coins_text(normal)),
        ],
    }
}

/// The token on whose behalf the awaited payout was requested, if any. A payout that
/// arrives while none is awaited is on behalf of no token.
pub open spec fn credited_token(withdrawal: WithdrawalView) -> Option<Seq<char>> {
    match withdrawal {
        WithdrawalView::Idle => None,
        WithdrawalView::AwaitingReply { token_id } => token_id,
    }
}

/// The ledger after a payout of `total` has been credited, or `Overflow` where the rewards
/// of the ledger would not fit. The payout is added to the rewards of the ledger and to
/// those of the token on whose behalf it was requested, if any, and the ledger awaits no
/// reply any more. A payout is credited whether or not the ledger awaited one.
pub open spec fn settle_outcome(old: ContractView, total: nat) -> Result<
    ContractView,
    StdErrorView,
> {
    if old.total_rewards + total > u128::MAX {
        Err(StdErrorView::Overflow)
    } else {
        Ok(
            ContractView {
                total_rewards: (old.total_rewards + total) as u128,
                token_rewards: match credited_token(old.withdrawal) {
                    None => old.token_rewards,
                    Some(id) => old.token_rewards.insert(
                        id,
                        (old.token_reward(id) + total) as u128,
                    ),
                },
                withdrawal: WithdrawalView::Idle,
                ..old
            },
        )
    }
}

/// Whether `result` and `new` are what crediting `payout` to `old` gives: on success the
/// ledger of `settle_outcome` and a record of the payout with its coins in normal form; on
/// failure the error of `settle_outcome` and the ledger as it was.
pub open spec fn settled(
    old: ContractView,
    payout: WithdrawRewardsView,
    result: Result<Response, StdError>,
    new: ContractView,
) -> bool {
    let outcome = settle_outcome(old, total_amount(payout.total_rewards));
    match result {
        Ok(response) => {
            &&& outcome == Ok::<ContractView, StdErrorView>(new)
            &&& exists|normal: Seq<CoinView>| #[trigger]
                is_normal_form(payout.total_rewards, normal) && response@ == withdrawal_response(
                    payout.records_num,
                    normal,
                )
        },
        Err(e) => outcome == Err::<ContractView, StdErrorView>(e@) && new == old,
    }
}

/// Credits a payout to the ledger and ends the wait for it, if there was one.
pub fn settle_withdrawal(contract: &mut Cw721Contract, payout: WithdrawRewardsResponse) -> (result:
    Result<Response, StdError>)
    requires
        old(contract).wf(),
    ensures
        final(contract).wf(),
        settled(old(contract)@, payout@, result, final(contract)@),
{
    let ghost before = contract@;
    let ghost coins = payout.total_rewards.deep_view();
    let credited: Option<String> = match &contract.withdrawal {
        Withdrawal::Idle => None,
        Withdrawal::AwaitingReply { token_id } => token_id.clone(),
    };
    let total = match sum_amounts(&payout.total_rewards) {
        Some(total) => total,
        None => {
            return Err(StdError::Overflow);
        },
    };
    if total > u128::MAX - contract.total_rewards {
        return Err(StdError::Overflow);
    }
    let slot = match &credited {
        Some(id) => find_reward(&contract.token_rewards, id),
        None => None,
    };
    let ghost entries = reward_entries(contract.token_rewards@);
    let earlier: u128 = match slot {
        Some(i) => contract.token_rewards[i].amount,
        None => 0,
    };
    proof {
        if let Some(id) = &credited {
            match slot {
                Some(i) => {
                    assert(entries[i as int] == (id@, earlier));
                    lemma_as_map_at(entries, i as int);
                },
                None => {
                    lemma_as_map_absent(entries, id@);
                },
            }
            assert(before.token_reward(id@) == earlier);
        }
        assert(earlier <= contract.total_rewards);
    }
    let ghost rewards_before = contract.token_rewards@;
    proof {
        assert forall|denom: Seq<char>| denom_total(coins, denom) <= u128::MAX by {
            lemma_denom_total_le_total(coins, denom);
        }
    }
    let records_num = payout.records_num;
    let normal = normalize_coins(payout.total_rewards);
    let text = concat_coins(&normal);
    contract.total_rewards = contract.total_rewards + total;
    match credited {
        Some(id) => {
            match slot {
                Some(i) => {
                    contract.token_rewards.set(i, TokenReward { token_id: id, amount: earlier + total });
                    proof {
                        lemma_as_map_update(entries, i as int, (earlier + total) as u128);
                        assert(reward_entries(contract.token_rewards@) =~= entries.update(
                            i as int,
                            (entries[i as int].0, (earlier + total) as u128),
                        ));
                    }
                },
                None => {
                    contract.token_rewards.push(TokenReward { token_id: id, amount: total });
                    proof {
                        lemma_as_map_insert(entries, entries.len() as int, (id@, total));
                        assert(reward_entries(contract.token_rewards@) =~= entries.insert(
                            entries.len() as int,
                            (id@, total),
                        ));
                    }
                },
            }
        },
        None => {},
    }
    contract.withdrawal = Withdrawal::Idle;
    proof {
        assert forall|i: int| 0 <= i < contract.token_rewards.len() implies (
        #[trigger] contract.token_rewards[i]).amount <= contract.total_rewards by {
            if i < rewards_before.len() && contract.token_rewards[i] == rewards_before[i] {
                assert(rewards_before[i].amount <= before.total_rewards);
            }
        }
    }
    let response = Response::new().add_attribute(
        "method",
        "after_rewards_withdrawn".to_owned(),
    ).add_attribute("records_num", u64_to_string(records_num)).add_attribute("total_rewards", text);
    proof {
        assert(is_normal_form(coins, normal.deep_view()));
        assert(response@.attributes =~= withdrawal_response(
            records_num,
            normal.deep_view(),
        ).attributes);
        assert(response@ == withdrawal_response(records_num, normal.deep_view()));
    }
    Ok(response)
}

/// The bytes that a reply carries, or why it carries none: the delivery failed, or the
/// answer is empty.
pub open spec fn reply_data(reply: Reply) -> Result<Seq<u8>, StdErrorView> {
    match reply.result {
        SubMsgResult::Failure(message) => Err(StdErrorView::GenericErr { msg: message@ }),
        SubMsgResult::Success(response) => match response.data {
            Some(data) => Ok(data@),
            None => Err(StdErrorView::GenericErr { msg: "Missing reply data"@ }),
        },
    }
}

/// The report of a payout that a reply carries, or why it carries none: it has no bytes, or
/// they do not decode.
pub open spec fn reply_payout(reply: Reply) -> Result<WithdrawRewardsView, StdErrorView> {
    match reply_data(reply) {
        Err(e) => Err(e),
        Ok(data) => match withdraw_response_json(data) {
            Ok(payout) => Ok(payout),
            Err(message) => Err(StdErrorView::GenericErr { msg: message }),
        },
    }
}

/// The answer of a delivery that succeeded.
pub fn parse_reply_result(reply: Reply) -> (result: Result<SubMsgResponse, StdError>)
    ensures
        match result {
            Ok(response) => reply.result == SubMsgResult::Success(response),
            Err(e) => reply.result is Failure && e@ == (StdErrorView::GenericErr {
                msg: reply.result->Failure_0@,
            }),
        },
{
    match reply.result {
        SubMsgResult::Success(response) => Ok(response),
        SubMsgResult::Failure(message) => Err(StdError::GenericErr { msg: message }),
    }
}

/// The bytes that a reply carries.
pub fn parse_reply_data(reply: Reply) -> (result: Result<Vec<u8>, StdError>)
    ensures
        match result {
            Ok(data) => reply_data(reply) == Ok::<Seq<u8>, StdErrorView>(data@),
            Err(e) => reply_data(reply) == Err::<Seq<u8>, StdErrorView>(e@),
        },
{
    match parse_reply_result(reply) {
        Err(e) => Err(e),
        Ok(response) => match response.data {
            Some(data) => Ok(data),
            None => Err(StdError::GenericErr { msg: "Missing reply data".to_owned() }),
        },
    }
}

/// Handles the reply to a withdrawal request: decodes the report of the payout and credits
/// it to the ledger. A reply that carries no report fails and leaves the ledger as it was.
pub fn after_rewards_withdrawn(contract: &mut Cw721Contract, msg: Reply) -> (result: Result<
    Response,
    StdError,
>)
    requires
        old(contract).wf(),
    ensures
        final(contract).wf(),
        match reply_payout(msg) {
            Ok(payout) => settled(old(contract)@, payout, result, final(contract)@),
            Err(e) => result is Err && result->Err_0@ == e && final(contract)@ == old(contract)@,
        },
{
    let data = match parse_reply_data(msg) {
        Ok(data) => data,
        Err(e) => {
            return Err(e);
        },
    };
    match decode_withdraw_response(&data) {
        Ok(payout) => settle_withdrawal(contract, payout),
        Err(message) => Err(StdError::GenericErr { msg: message }),
    }
}

} // verus!
