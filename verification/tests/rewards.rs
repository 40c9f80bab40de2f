use cw721_rewards::entry;
use cw721_rewards::expiration::BlockInfo;
use cw721_rewards::msg::{Env, MessageInfo, QueryResponse, TotalRewardResponse};
use cw721_rewards::response::{Attribute, Response, SubMsg};
use cw721_rewards::rewards::{
    after_rewards_withdrawn, parse_reply_data, parse_reply_result, settle_withdrawal,
    sum_amounts, Coin, SubMsgResponse, SubMsgResult, REWARDS_WITHDRAW_REPLY,
};
use cw721_rewards::state::{Deployment, Withdrawal};
use cw721_rewards::{
    ContractError, Cw721Contract, ExecuteMsg, InstantiateMsg, QueryMsg, Reply, StdError,
    WithdrawRewardsResponse,
};

const MINTER: &str = "minter";

fn env() -> Env {
    Env { block: BlockInfo { height: 7, time: 7_000_000_000 } }
}

fn from(sender: &str) -> MessageInfo {
    MessageInfo { sender: sender.to_string() }
}

fn ledger() -> Cw721Contract {
    let msg = InstantiateMsg {
        name: "SpaceShips".to_string(),
        symbol: "SPACE".to_string(),
        minter: MINTER.to_string(),
        rewards_denom: "aconst".to_string(),
    };
    entry::instantiate(Deployment::default(), env(), from(MINTER), msg).unwrap().0
}

fn awaiting() -> Cw721Contract {
    let mut contract = ledger();
    entry::execute(&mut contract, env(), from(MINTER), ExecuteMsg::WithdrawRewards {}).unwrap();
    contract
}

fn reply_with(data: &str) -> Reply {
    Reply {
        id: REWARDS_WITHDRAW_REPLY,
        result: SubMsgResult::Success(SubMsgResponse { data: Some(data.as_bytes().to_vec()) }),
    }
}

fn coin(amount: u128, denom: &str) -> Coin {
    Coin { denom: denom.to_string(), amount }
}

fn attr(key: &str, value: &str) -> Attribute {
    Attribute { key: key.to_string(), value: value.to_string() }
}

fn payout_record(records: &str, total: &str) -> Vec<Attribute> {
    vec![
        attr("method", "after_rewards_withdrawn"),
        attr("records_num", records),
        attr("total_rewards", total),
    ]
}

fn total(contract: &Cw721Contract) -> u128 {
    contract.total_arch_reward(None).total_arch_reward
}

#[test]
fn reply_tag_is_fixed() {
    assert_eq!(REWARDS_WITHDRAW_REPLY, 1001);
}

#[test]
fn withdrawal_is_requested_by_the_minter() {
    let mut contract = ledger();
    let err = entry::execute(&mut contract, env(), from("alice"), ExecuteMsg::WithdrawRewards {})
        .unwrap_err();
    assert_eq!(err, ContractError::Unauthorized {});
    assert_eq!(contract.withdrawal, Withdrawal::Idle);

    let response =
        entry::execute(&mut contract, env(), from(MINTER), ExecuteMsg::WithdrawRewards {})
            .unwrap();
    assert_eq!(
        response,
        Response {
            messages: vec![SubMsg::WithdrawRewards { reply_id: 1001, records_limit: 0 }],
            attributes: vec![attr("action", "withdraw_rewards"), attr("sender", MINTER)],
        }
    );
    assert_eq!(contract.withdrawal, Withdrawal::AwaitingReply { token_id: None });
}

#[test]
fn second_withdrawal_is_rejected_while_one_is_in_flight() {
    let mut contract = awaiting();
    let err = entry::execute(&mut contract, env(), from(MINTER), ExecuteMsg::WithdrawRewards {})
        .unwrap_err();
    assert_eq!(err, ContractError::WithdrawalPending {});
    assert_eq!(contract.withdrawal, Withdrawal::AwaitingReply { token_id: None });
    // once the reply is in, the next request goes through
    entry::reply(&mut contract, env(), reply_with(r#"{"records_num":0,"total_rewards":[]}"#))
        .unwrap();
    entry::execute(&mut contract, env(), from(MINTER), ExecuteMsg::WithdrawRewards {}).unwrap();
}

#[test]
fn reply_under_unknown_tag_is_not_found() {
    let mut contract = awaiting();
    for (id, text) in [(0u64, "0"), (7, "7"), (1000, "1000"), (1002, "1002"), (u64::MAX, "18446744073709551615")] {
        let msg = Reply {
            id,
            result: SubMsgResult::Success(SubMsgResponse {
                data: Some(br#"{"records_num":1,"total_rewards":[]}"#.to_vec()),
            }),
        };
        let err = entry::reply(&mut contract, env(), msg).unwrap_err();
        assert_eq!(err, StdError::NotFound { kind: format!("Unknown reply id: {}", text) });
    }
    assert_eq!(contract.withdrawal, Withdrawal::AwaitingReply { token_id: None });
    assert_eq!(total(&contract), 0);
}

#[test]
fn payout_in_two_currencies_is_added_up() {
    let mut contract = awaiting();
    let msg = reply_with(
        r#"{"records_num":2,"total_rewards":[{"denom":"uatom","amount":"5"},{"denom":"aarch","amount":"100"}]}"#,
    );
    let response = entry::reply(&mut contract, env(), msg).unwrap();
    assert!(response.messages.is_empty());
    assert_eq!(response.attributes, payout_record("2", "100aarch5uatom"));
    assert_eq!(total(&contract), 105);
    assert_eq!(contract.withdrawal, Withdrawal::Idle);
    assert!(contract.is_well_formed());
}

#[test]
fn payouts_accumulate() {
    let mut contract = awaiting();
    entry::reply(
        &mut contract,
        env(),
        reply_with(r#"{"records_num":1,"total_rewards":[{"denom":"aarch","amount":"40"}]}"#),
    )
    .unwrap();
    entry::execute(&mut contract, env(), from(MINTER), ExecuteMsg::WithdrawRewards {}).unwrap();
    entry::reply(
        &mut contract,
        env(),
        reply_with(r#"{"records_num":3,"total_rewards":[{"denom":"aarch","amount":"2"}]}"#),
    )
    .unwrap();
    assert_eq!(total(&contract), 42);
    let answer =
        entry::query(&contract, env(), QueryMsg::TotalArchReward { token_id: None }).unwrap();
    assert_eq!(
        answer,
        QueryResponse::TotalArchReward(TotalRewardResponse { total_arch_reward: 42 })
    );
}

#[test]
fn coins_of_one_currency_are_merged_and_sorted() {
    let mut contract = awaiting();
    let payout = WithdrawRewardsResponse {
        records_num: 18_446_744_073_709_551_615,
        total_rewards: vec![
            coin(1, "b"),
            coin(2, "a"),
            coin(3, "b"),
            coin(0, "c"),
            coin(0, "a"),
            coin(10, "B"),
            coin(7, "ab"),
        ],
    };
    let response = settle_withdrawal(&mut contract, payout).unwrap();
    assert_eq!(response.attributes, payout_record("18446744073709551615", "10B2a7ab4b"));
    assert_eq!(total(&contract), 23);
}

#[test]
fn empty_payout_is_valid() {
    let mut contract = awaiting();
    let response = entry::reply(
        &mut contract,
        env(),
        reply_with(r#"{"records_num":0,"total_rewards":[]}"#),
    )
    .unwrap();
    assert_eq!(response.attributes, payout_record("0", ""));
    assert_eq!(total(&contract), 0);
    assert_eq!(contract.withdrawal, Withdrawal::Idle);
}

#[test]
fn payout_of_zero_amounts_shows_no_coin() {
    let mut contract = awaiting();
    let payout =
        WithdrawRewardsResponse { records_num: 1, total_rewards: vec![coin(0, "aarch")] };
    let response = settle_withdrawal(&mut contract, payout).unwrap();
    assert_eq!(response.attributes, payout_record("1", ""));
    assert_eq!(total(&contract), 0);
}

#[test]
fn malformed_reply_fails_and_changes_nothing() {
    let mut contract = awaiting();
    for text in [
        "",
        "{}",
        "not json",
        r#"{"records_num":1}"#,
        r#"{"records_num":-1,"total_rewards":[]}"#,
        r#"{"records_num":1,"total_rewards":[{"denom":"aarch","amount":5}]}"#,
        r#"{"records_num":1,"total_rewards":[],"more":true}"#,
        r#"{"records_num":1,"total_rewards":[]} trailing"#,
    ] {
        let before = total(&contract);
        let err = entry::reply(&mut contract, env(), reply_with(text)).unwrap_err();
        assert!(matches!(err, StdError::GenericErr { .. }), "{}", text);
        assert_eq!(total(&contract), before);
        assert_eq!(contract.withdrawal, Withdrawal::AwaitingReply { token_id: None });
    }
}

#[test]
fn decoder_error_is_passed_on() {
    let mut contract = awaiting();
    let err = entry::reply(&mut contract, env(), reply_with("")).unwrap_err();
    let expected = serde_json_wasm::from_slice::<
        archway_bindings::types::rewards::WithdrawRewardsResponse,
    >(b"")
    .unwrap_err()
    .to_string();
    assert_eq!(err, StdError::GenericErr { msg: expected });
}

#[test]
fn reply_without_data_fails() {
    let mut contract = awaiting();
    let msg = Reply {
        id: REWARDS_WITHDRAW_REPLY,
        result: SubMsgResult::Success(SubMsgResponse { data: None }),
    };
    let err = after_rewards_withdrawn(&mut contract, msg).unwrap_err();
    assert_eq!(err, StdError::GenericErr { msg: "Missing reply data".to_string() });
    assert_eq!(contract.withdrawal, Withdrawal::AwaitingReply { token_id: None });
}

#[test]
fn failed_delivery_fails_the_reply() {
    let mut contract = awaiting();
    let msg = Reply {
        id: REWARDS_WITHDRAW_REPLY,
        result: SubMsgResult::Failure("rewards module is down".to_string()),
    };
    let err = entry::reply(&mut contract, env(), msg).unwrap_err();
    assert_eq!(err, StdError::GenericErr { msg: "rewards module is down".to_string() });
    assert_eq!(contract.withdrawal, Withdrawal::AwaitingReply { token_id: None });
}

#[test]
fn reply_parts_are_taken_apart() {
    let ok = Reply {
        id: 1,
        result: SubMsgResult::Success(SubMsgResponse { data: Some(vec![9, 8]) }),
    };
    assert_eq!(parse_reply_data(ok), Ok(vec![9, 8]));
    let empty = Reply { id: 1, result: SubMsgResult::Success(SubMsgResponse { data: None }) };
    assert_eq!(parse_reply_result(empty), Ok(SubMsgResponse { data: None }));
    let failed = Reply { id: 1, result: SubMsgResult::Failure("boom".to_string()) };
    assert_eq!(
        parse_reply_result(failed),
        Err(StdError::GenericErr { msg: "boom".to_string() })
    );
}

#[test]
fn payout_on_a_new_ledger_is_credited() {
    let mut contract = ledger();
    let response = entry::reply(
        &mut contract,
        env(),
        reply_with(
            r#"{"records_num":2,"total_rewards":[{"denom":"uarch","amount":"4"},{"denom":"aconst","amount":"3"}]}"#,
        ),
    )
    .unwrap();
    assert!(response.messages.is_empty());
    assert_eq!(response.attributes, payout_record("2", "3aconst4uarch"));
    assert_eq!(total(&contract), 7);
    assert_eq!(contract.withdrawal, Withdrawal::Idle);
    let answer =
        entry::query(&contract, env(), QueryMsg::TotalArchReward { token_id: None }).unwrap();
    assert_eq!(
        answer,
        QueryResponse::TotalArchReward(TotalRewardResponse { total_arch_reward: 7 })
    );
    assert!(contract.is_well_formed());
}

#[test]
fn payouts_in_a_row_are_all_credited() {
    let mut contract = ledger();
    let first = after_rewards_withdrawn(
        &mut contract,
        reply_with(r#"{"records_num":1,"total_rewards":[{"denom":"aconst","amount":"10"}]}"#),
    )
    .unwrap();
    assert_eq!(first.attributes, payout_record("1", "10aconst"));
    assert_eq!(total(&contract), 10);
    let second = after_rewards_withdrawn(
        &mut contract,
        reply_with(
            r#"{"records_num":2,"total_rewards":[{"denom":"uarch","amount":"4"},{"denom":"aconst","amount":"3"}]}"#,
        ),
    )
    .unwrap();
    assert_eq!(second.attributes, payout_record("2", "3aconst4uarch"));
    assert_eq!(total(&contract), 17);
}

#[test]
fn payout_is_merged_sorted_and_summed_over_all_coins() {
    let mut contract = ledger();
    let response = after_rewards_withdrawn(
        &mut contract,
        reply_with(
            r#"{"records_num":4,"total_rewards":[{"denom":"uarch","amount":"5"},{"denom":"aconst","amount":"1"},{"denom":"uarch","amount":"2"},{"denom":"zzz","amount":"0"}]}"#,
        ),
    )
    .unwrap();
    assert_eq!(response.attributes, payout_record("4", "1aconst7uarch"));
    assert_eq!(total(&contract), 8);
}

#[test]
fn empty_payout_after_a_payout_adds_nothing() {
    let mut contract = ledger();
    after_rewards_withdrawn(
        &mut contract,
        reply_with(r#"{"records_num":1,"total_rewards":[{"denom":"aconst","amount":"10"}]}"#),
    )
    .unwrap();
    let response = after_rewards_withdrawn(
        &mut contract,
        reply_with(r#"{"records_num":0,"total_rewards":[]}"#),
    )
    .unwrap();
    assert_eq!(response.attributes, payout_record("0", ""));
    assert_eq!(total(&contract), 10);
}

#[test]
fn payout_changes_nothing_but_the_rewards() {
    let mut contract = ledger();
    contract.mint(&from(MINTER), "a".to_string(), "alice".to_string(), None, None).unwrap();
    let mut expected = ledger();
    expected.mint(&from(MINTER), "a".to_string(), "alice".to_string(), None, None).unwrap();
    let payout = WithdrawRewardsResponse {
        records_num: 1,
        total_rewards: vec![coin(6, "aarch"), coin(1, "uatom")],
    };
    settle_withdrawal(&mut contract, payout).unwrap();
    expected.total_rewards = 7;
    assert_eq!(contract, expected);
    assert_eq!(contract.total_arch_reward(Some("a".to_string())).total_arch_reward, 0);
}

#[test]
fn payout_that_does_not_fit_overflows() {
    let mut contract = awaiting();
    let payout = WithdrawRewardsResponse {
        records_num: 2,
        total_rewards: vec![coin(u128::MAX, "aarch"), coin(1, "uatom")],
    };
    let err = settle_withdrawal(&mut contract, payout).unwrap_err();
    assert_eq!(err, StdError::Overflow);
    assert_eq!(contract.withdrawal, Withdrawal::AwaitingReply { token_id: None });

    let payout =
        WithdrawRewardsResponse { records_num: 1, total_rewards: vec![coin(u128::MAX, "aarch")] };
    let response = settle_withdrawal(&mut contract, payout).unwrap();
    assert_eq!(
        response.attributes,
        payout_record("1", "340282366920938463463374607431768211455aarch")
    );
    assert_eq!(total(&contract), u128::MAX);

    entry::execute(&mut contract, env(), from(MINTER), ExecuteMsg::WithdrawRewards {}).unwrap();
    let payout = WithdrawRewardsResponse { records_num: 1, total_rewards: vec![coin(1, "aarch")] };
    let err = settle_withdrawal(&mut contract, payout).unwrap_err();
    assert_eq!(err, StdError::Overflow);
    assert_eq!(total(&contract), u128::MAX);
}

#[test]
fn amounts_are_summed_across_currencies() {
    assert_eq!(sum_amounts(&vec![]), Some(0));
    assert_eq!(sum_amounts(&vec![coin(3, "a"), coin(4, "b"), coin(5, "a")]), Some(12));
    assert_eq!(sum_amounts(&vec![coin(u128::MAX - 1, "a"), coin(1, "b")]), Some(u128::MAX));
    assert_eq!(sum_amounts(&vec![coin(u128::MAX - 1, "a"), coin(1, "b"), coin(1, "b")]), None);
}

#[test]
fn token_withdrawal_credits_the_token_too() {
    let mut contract = ledger();
    for id in ["a", "b"] {
        contract
            .mint(&from(MINTER), id.to_string(), "alice".to_string(), None, None)
            .unwrap();
    }
    let ask = |id: &str| ExecuteMsg::WithdrawTokenRewards { token_id: id.to_string() };
    let err = entry::execute(&mut contract, env(), from("alice"), ask("zzz")).unwrap_err();
    assert_eq!(err, ContractError::Std(StdError::NotFound { kind: "token".to_string() }));
    let err = entry::execute(&mut contract, env(), from(MINTER), ask("a")).unwrap_err();
    assert_eq!(err, ContractError::Unauthorized {});

    let response = entry::execute(&mut contract, env(), from("alice"), ask("a")).unwrap();
    assert_eq!(
        response,
        Response {
            messages: vec![SubMsg::WithdrawRewards { reply_id: 1001, records_limit: 0 }],
            attributes: vec![attr("action", "withdraw_token_rewards"), attr("sender", "alice")],
        }
    );
    assert_eq!(contract.withdrawal, Withdrawal::AwaitingReply { token_id: Some("a".to_string()) });
    let err = entry::execute(&mut contract, env(), from("alice"), ask("b")).unwrap_err();
    assert_eq!(err, ContractError::WithdrawalPending {});

    let paid = r#"{"records_num":1,"total_rewards":[{"denom":"aarch","amount":"30"}]}"#;
    entry::reply(&mut contract, env(), reply_with(paid)).unwrap();
    entry::execute(&mut contract, env(), from("alice"), ask("a")).unwrap();
    entry::reply(&mut contract, env(), reply_with(paid)).unwrap();
    entry::execute(&mut contract, env(), from("alice"), ask("b")).unwrap();
    entry::reply(&mut contract, env(), reply_with(paid)).unwrap();
    entry::execute(&mut contract, env(), from(MINTER), ExecuteMsg::WithdrawRewards {}).unwrap();
    entry::reply(&mut contract, env(), reply_with(paid)).unwrap();

    assert_eq!(total(&contract), 120);
    assert_eq!(contract.total_arch_reward(Some("a".to_string())).total_arch_reward, 60);
    assert_eq!(contract.total_arch_reward(Some("b".to_string())).total_arch_reward, 30);
    assert_eq!(contract.total_arch_reward(Some("c".to_string())).total_arch_reward, 0);
    assert!(contract.is_well_formed());
}
