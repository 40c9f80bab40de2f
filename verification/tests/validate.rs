use cw721_rewards::entry;
use cw721_rewards::expiration::{BlockInfo, Expiration};
use cw721_rewards::msg::{Env, MessageInfo, MigrateMsg};
use cw721_rewards::state::{Approval, Deployment, OperatorApproval, TokenReward};
use cw721_rewards::validate::all_distinct;
use cw721_rewards::{Cw721Contract, InstantiateMsg, Metadata};

fn env() -> Env {
    Env { block: BlockInfo { height: 1, time: 1 } }
}

fn built() -> Cw721Contract {
    let msg = InstantiateMsg {
        name: "SpaceShips".to_string(),
        symbol: "SPACE".to_string(),
        minter: "minter".to_string(),
        rewards_denom: "aconst".to_string(),
    };
    let info = MessageInfo { sender: "minter".to_string() };
    let deployment = Deployment { max_supply: 3, burn_allowed: true };
    let mut contract = entry::instantiate(deployment, env(), info, msg).unwrap().0;
    let info = MessageInfo { sender: "minter".to_string() };
    for id in ["b", "a", "c"] {
        contract.mint(&info, id.to_string(), "alice".to_string(), None, None).unwrap();
    }
    let alice = MessageInfo { sender: "alice".to_string() };
    contract.burn(&env(), &alice, "c".to_string()).unwrap();
    contract.approve_all(&env(), &alice, "olga".to_string(), None).unwrap();
    contract.approve_all(&env(), &alice, "bert".to_string(), None).unwrap();
    contract.approve(&env(), &alice, "sam".to_string(), "a".to_string(), None).unwrap();
    contract
}

#[test]
fn ledger_built_by_commands_is_well_formed() {
    assert!(built().is_well_formed());
}

#[test]
fn tokens_out_of_order_are_detected() {
    let mut contract = built();
    contract.tokens.swap(0, 1);
    assert!(!contract.is_well_formed());
}

#[test]
fn token_listed_twice_is_detected() {
    let mut contract = built();
    contract.tokens[1].token_id = "a".to_string();
    assert!(!contract.is_well_formed());
}

#[test]
fn token_without_owner_is_detected() {
    let mut contract = built();
    contract.tokens[0].owner = String::new();
    assert!(!contract.is_well_formed());
}

#[test]
fn spender_approved_twice_is_detected() {
    let mut contract = built();
    contract.tokens[0]
        .approvals
        .push(Approval { spender: "sam".to_string(), expires: Expiration::AtHeight(3) });
    assert!(!contract.is_well_formed());
}

#[test]
fn royalty_out_of_range_is_detected() {
    let mut contract = built();
    contract.tokens[0].extension =
        Some(Metadata { royalty_percentage: Some(100), ..Metadata::default() });
    assert!(contract.is_well_formed());
    contract.tokens[0].extension =
        Some(Metadata { royalty_percentage: Some(101), ..Metadata::default() });
    assert!(!contract.is_well_formed());
}

#[test]
fn operators_out_of_order_are_detected() {
    let mut contract = built();
    contract.operators.swap(0, 1);
    assert!(!contract.is_well_formed());
    contract.operators.swap(0, 1);
    contract.operators.push(OperatorApproval {
        owner: "alice".to_string(),
        operator: "olga".to_string(),
        expires: Expiration::Never,
    });
    assert!(!contract.is_well_formed());
}

#[test]
fn burnt_id_in_use_is_detected() {
    let mut contract = built();
    contract.retired[0] = "a".to_string();
    assert!(!contract.is_well_formed());
    let mut contract = built();
    contract.retired.push("c".to_string());
    contract.supply.issued_count = 4;
    contract.supply.max_supply = 4;
    assert!(!contract.is_well_formed());
}

#[test]
fn miscounted_supply_is_detected() {
    let mut contract = built();
    contract.supply.issued_count = 2;
    assert!(!contract.is_well_formed());
    let mut contract = built();
    contract.supply.max_supply = 2;
    assert!(!contract.is_well_formed());
}

#[test]
fn reward_listed_twice_is_detected() {
    let mut contract = built();
    contract.total_rewards = 2;
    contract.token_rewards.push(TokenReward { token_id: "a".to_string(), amount: 1 });
    contract.token_rewards.push(TokenReward { token_id: "zzz".to_string(), amount: 1 });
    assert!(contract.is_well_formed());
    contract.token_rewards.push(TokenReward { token_id: "a".to_string(), amount: 2 });
    assert!(!contract.is_well_formed());
}

#[test]
fn reward_above_the_total_is_detected() {
    let mut contract = built();
    contract.total_rewards = 5;
    contract.token_rewards.push(TokenReward { token_id: "a".to_string(), amount: 5 });
    assert!(contract.is_well_formed());
    contract.token_rewards.push(TokenReward { token_id: "b".to_string(), amount: 6 });
    assert!(!contract.is_well_formed());
}

#[test]
fn distinct_strings_are_told_from_repeated_ones() {
    let list = |items: &[&str]| items.iter().map(|s| s.to_string()).collect::<Vec<String>>();
    assert!(all_distinct(&list(&[])));
    assert!(all_distinct(&list(&["a"])));
    assert!(all_distinct(&list(&["a", "b", "c", ""])));
    assert!(!all_distinct(&list(&["a", "b", "a"])));
    assert!(!all_distinct(&list(&["b", "a", "a"])));
}

#[test]
fn migrate_changes_nothing() {
    let mut contract = built();
    let response = entry::migrate(&mut contract, env(), MigrateMsg::Migrate {}).unwrap();
    assert!(response.attributes.is_empty());
    assert!(response.messages.is_empty());
    assert_eq!(contract, built());
}
