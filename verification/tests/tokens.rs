use cw721_rewards::entry;
use cw721_rewards::expiration::{BlockInfo, Expiration};
use cw721_rewards::msg::{Env, MessageInfo};
use cw721_rewards::response::{Attribute, SubMsg};
use cw721_rewards::state::{Approval, Deployment, SupplyTracker};
use cw721_rewards::{ContractError, Cw721Contract, InstantiateMsg, Metadata, StdError};

const MINTER: &str = "minter";

fn env_at(height: u64) -> Env {
    Env { block: BlockInfo { height, time: height * 1_000_000_000 } }
}

fn from(sender: &str) -> MessageInfo {
    MessageInfo { sender: sender.to_string() }
}

fn ledger(max_supply: u64, burn_allowed: bool) -> Cw721Contract {
    let msg = InstantiateMsg {
        name: "SpaceShips".to_string(),
        symbol: "SPACE".to_string(),
        minter: MINTER.to_string(),
        rewards_denom: "aconst".to_string(),
    };
    let (contract, response) =
        entry::instantiate(Deployment { max_supply, burn_allowed }, env_at(1), from(MINTER), msg)
            .unwrap();
    assert!(response.attributes.is_empty());
    assert!(response.messages.is_empty());
    contract
}

fn mint(contract: &mut Cw721Contract, id: &str, owner: &str) {
    contract.mint(&from(MINTER), id.to_string(), owner.to_string(), None, None).unwrap();
}

fn attr(key: &str, value: &str) -> Attribute {
    Attribute { key: key.to_string(), value: value.to_string() }
}

fn not_found(kind: &str) -> StdError {
    StdError::NotFound { kind: kind.to_string() }
}

#[test]
fn instantiate_with_empty_minter_fails() {
    let msg = InstantiateMsg {
        name: "n".to_string(),
        symbol: "s".to_string(),
        minter: String::new(),
        rewards_denom: "aconst".to_string(),
    };
    let err = entry::instantiate(Deployment::default(), env_at(1), from("x"), msg).unwrap_err();
    assert_eq!(err, StdError::GenericErr { msg: "Invalid input: empty address".to_string() });
}

#[test]
fn default_deployment_caps_supply_and_forbids_burning() {
    let deployment = Deployment::default();
    assert_eq!(deployment.max_supply, 10_000);
    assert!(!deployment.burn_allowed);
}

#[test]
fn mint_counts_up_to_the_supply() {
    let mut contract = ledger(2, false);
    assert_eq!(contract.num_tokens().count, 0);
    mint(&mut contract, "a", "alice");
    assert_eq!(contract.num_tokens().count, 1);
    mint(&mut contract, "b", "bob");
    assert_eq!(contract.num_tokens().count, 2);
    let err = contract
        .mint(&from(MINTER), "c".to_string(), "carol".to_string(), None, None)
        .unwrap_err();
    assert_eq!(err, ContractError::MaxSupplyExceeded {});
    assert_eq!(contract.num_tokens().count, 2);
    assert_eq!(contract.nft_info("c".to_string()).unwrap_err(), not_found("token"));
    assert!(contract.is_well_formed());
}

#[test]
fn supply_has_capacity_until_it_is_used_up() {
    let mut supply = SupplyTracker::new(2);
    assert_eq!(supply, SupplyTracker { issued_count: 0, max_supply: 2 });
    assert!(supply.has_capacity());
    assert_eq!(supply.reserve_one(), Ok(()));
    assert!(supply.has_capacity());
    assert_eq!(supply.reserve_one(), Ok(()));
    assert_eq!(supply, SupplyTracker { issued_count: 2, max_supply: 2 });
    assert!(!supply.has_capacity());
    assert_eq!(supply.reserve_one(), Err(ContractError::MaxSupplyExceeded {}));
    assert_eq!(supply, SupplyTracker { issued_count: 2, max_supply: 2 });
    assert!(!SupplyTracker::new(0).has_capacity());
    assert!(SupplyTracker { issued_count: u64::MAX - 1, max_supply: u64::MAX }.has_capacity());
}

#[test]
fn mint_with_zero_supply_fails() {
    let mut contract = ledger(0, false);
    let err = contract
        .mint(&from(MINTER), "a".to_string(), "alice".to_string(), None, None)
        .unwrap_err();
    assert_eq!(err, ContractError::MaxSupplyExceeded {});
}

#[test]
fn mint_records_what_it_did() {
    let mut contract = ledger(5, false);
    let response = contract
        .mint(&from(MINTER), "a".to_string(), "alice".to_string(), None, None)
        .unwrap();
    assert!(response.messages.is_empty());
    assert_eq!(
        response.attributes,
        vec![
            attr("action", "mint"),
            attr("minter", "minter"),
            attr("owner", "alice"),
            attr("token_id", "a"),
        ]
    );
}

#[test]
fn mint_same_id_twice_is_claimed() {
    let mut contract = ledger(5, false);
    mint(&mut contract, "a", "alice");
    let err = contract
        .mint(&from(MINTER), "a".to_string(), "bob".to_string(), None, None)
        .unwrap_err();
    assert_eq!(err, ContractError::Claimed {});
    let answer = contract.owner_of(&env_at(1), "a".to_string(), true).unwrap();
    assert_eq!(answer.owner, "alice");
    assert_eq!(contract.num_tokens().count, 1);
}

#[test]
fn mint_by_other_than_minter_is_unauthorized() {
    let mut contract = ledger(5, false);
    let err = contract
        .mint(&from("alice"), "a".to_string(), "alice".to_string(), None, None)
        .unwrap_err();
    assert_eq!(err, ContractError::Unauthorized {});
    assert_eq!(contract.num_tokens().count, 0);
}

#[test]
fn mint_with_empty_owner_fails() {
    let mut contract = ledger(5, false);
    let err =
        contract.mint(&from(MINTER), "a".to_string(), String::new(), None, None).unwrap_err();
    assert_eq!(
        err,
        ContractError::Std(StdError::GenericErr {
            msg: "Invalid input: empty address".to_string()
        })
    );
}

#[test]
fn mint_with_royalty_above_hundred_creates_nothing() {
    let mut contract = ledger(5, false);
    let extension = Some(Metadata { royalty_percentage: Some(101), ..Metadata::default() });
    // the royalty is looked at before the sender
    let err = contract
        .mint(&from("stranger"), "a".to_string(), "alice".to_string(), None, extension)
        .unwrap_err();
    assert_eq!(err, ContractError::InvalidRoyaltyPercentage);
    assert_eq!(contract.num_tokens().count, 0);
    assert_eq!(contract.nft_info("a".to_string()).unwrap_err(), not_found("token"));
    assert!(contract.all_tokens(None, None).tokens.is_empty());
}

#[test]
fn mint_with_royalty_of_hundred_is_accepted() {
    let mut contract = ledger(5, false);
    let extension = Some(Metadata { royalty_percentage: Some(100), ..Metadata::default() });
    contract.mint(&from(MINTER), "a".to_string(), "alice".to_string(), None, extension).unwrap();
    let due = contract.query_royalties_info("a".to_string(), 77).unwrap();
    assert_eq!(due.royalty_amount, 77);
    assert_eq!(due.address, "");
}

#[test]
fn transfer_clears_approvals() {
    let mut contract = ledger(5, false);
    mint(&mut contract, "a", "alice");
    contract
        .approve(&env_at(1), &from("alice"), "sam".to_string(), "a".to_string(), None)
        .unwrap();
    let shown = contract.approval(&env_at(1), "a".to_string(), "sam".to_string(), false).unwrap();
    assert_eq!(
        shown.approval,
        Approval { spender: "sam".to_string(), expires: Expiration::Never }
    );

    let response = contract
        .transfer_nft(&env_at(1), &from("alice"), "xavier".to_string(), "a".to_string())
        .unwrap();
    assert_eq!(
        response.attributes,
        vec![
            attr("action", "transfer_nft"),
            attr("sender", "alice"),
            attr("recipient", "xavier"),
            attr("token_id", "a"),
        ]
    );

    let err =
        contract.approval(&env_at(1), "a".to_string(), "sam".to_string(), true).unwrap_err();
    assert_eq!(err, not_found("Approval not found"));
    let answer = contract.owner_of(&env_at(1), "a".to_string(), true).unwrap();
    assert_eq!(answer.owner, "xavier");
    assert!(answer.approvals.is_empty());
    // the approval went with the transfer: the spender cannot move the token
    let err = contract
        .transfer_nft(&env_at(1), &from("sam"), "sam".to_string(), "a".to_string())
        .unwrap_err();
    assert_eq!(err, ContractError::Unauthorized {});
}

#[test]
fn transfer_needs_a_right() {
    let mut contract = ledger(5, false);
    mint(&mut contract, "a", "alice");
    let err = contract
        .transfer_nft(&env_at(1), &from("mallory"), "mallory".to_string(), "a".to_string())
        .unwrap_err();
    assert_eq!(err, ContractError::Unauthorized {});
    // not even the minter has one
    let err = contract
        .transfer_nft(&env_at(1), &from(MINTER), "mallory".to_string(), "a".to_string())
        .unwrap_err();
    assert_eq!(err, ContractError::Unauthorized {});
    assert_eq!(contract.owner_of(&env_at(1), "a".to_string(), true).unwrap().owner, "alice");
}

#[test]
fn transfer_of_unknown_token_is_not_found() {
    let mut contract = ledger(5, false);
    let err = contract
        .transfer_nft(&env_at(1), &from("alice"), "bob".to_string(), "nope".to_string())
        .unwrap_err();
    assert_eq!(err, ContractError::Std(not_found("token")));
}

#[test]
fn transfer_to_empty_recipient_fails() {
    let mut contract = ledger(5, false);
    mint(&mut contract, "a", "alice");
    let err = contract
        .transfer_nft(&env_at(1), &from("alice"), String::new(), "a".to_string())
        .unwrap_err();
    assert_eq!(
        err,
        ContractError::Std(StdError::GenericErr {
            msg: "Invalid input: empty address".to_string()
        })
    );
    assert_eq!(contract.owner_of(&env_at(1), "a".to_string(), true).unwrap().owner, "alice");
}

#[test]
fn approved_spender_transfers() {
    let mut contract = ledger(5, false);
    mint(&mut contract, "a", "alice");
    contract
        .approve(
            &env_at(1),
            &from("alice"),
            "sam".to_string(),
            "a".to_string(),
            Some(Expiration::AtHeight(10)),
        )
        .unwrap();
    contract.transfer_nft(&env_at(9), &from("sam"), "bob".to_string(), "a".to_string()).unwrap();
    assert_eq!(contract.owner_of(&env_at(9), "a".to_string(), true).unwrap().owner, "bob");
}

#[test]
fn operator_transfers_every_token_of_the_owner() {
    let mut contract = ledger(5, false);
    mint(&mut contract, "a", "alice");
    mint(&mut contract, "b", "alice");
    mint(&mut contract, "c", "carol");
    let response =
        contract.approve_all(&env_at(1), &from("alice"), "olga".to_string(), None).unwrap();
    assert_eq!(
        response.attributes,
        vec![attr("action", "approve_all"), attr("sender", "alice"), attr("operator", "olga")]
    );
    contract.transfer_nft(&env_at(1), &from("olga"), "bob".to_string(), "a".to_string()).unwrap();
    contract.transfer_nft(&env_at(1), &from("olga"), "bob".to_string(), "b".to_string()).unwrap();
    let err = contract
        .transfer_nft(&env_at(1), &from("olga"), "bob".to_string(), "c".to_string())
        .unwrap_err();
    assert_eq!(err, ContractError::Unauthorized {});
    // the tokens are bob's now, and olga is not his operator
    let err = contract
        .transfer_nft(&env_at(1), &from("olga"), "olga".to_string(), "a".to_string())
        .unwrap_err();
    assert_eq!(err, ContractError::Unauthorized {});
    assert!(contract.is_well_formed());
}

#[test]
fn approve_with_past_expiration_fails() {
    let mut contract = ledger(5, false);
    mint(&mut contract, "a", "alice");
    for expires in [
        Expiration::AtHeight(5),
        Expiration::AtHeight(4),
        Expiration::AtTime(5_000_000_000),
        Expiration::AtTime(1),
    ] {
        let err = contract
            .approve(&env_at(5), &from("alice"), "sam".to_string(), "a".to_string(), Some(expires))
            .unwrap_err();
        assert_eq!(err, ContractError::Expired {});
    }
    assert!(contract.approvals(&env_at(5), "a".to_string(), true).unwrap().approvals.is_empty());
    let err =
        contract.approve_all(&env_at(5), &from("alice"), "olga".to_string(), Some(Expiration::AtHeight(5))).unwrap_err();
    assert_eq!(err, ContractError::Expired {});
}

#[test]
fn approval_is_inert_once_lapsed() {
    let mut contract = ledger(5, false);
    mint(&mut contract, "a", "alice");
    let expires = Expiration::AtHeight(10);
    contract
        .approve(&env_at(5), &from("alice"), "sam".to_string(), "a".to_string(), Some(expires))
        .unwrap();
    // at height 10 the approval has lapsed
    let err = contract
        .transfer_nft(&env_at(10), &from("sam"), "sam".to_string(), "a".to_string())
        .unwrap_err();
    assert_eq!(err, ContractError::Unauthorized {});
    // it can still be seen by those who ask for lapsed approvals
    let all = contract.approvals(&env_at(10), "a".to_string(), true).unwrap();
    assert_eq!(all.approvals, vec![Approval { spender: "sam".to_string(), expires }]);
    let current = contract.approvals(&env_at(10), "a".to_string(), false).unwrap();
    assert!(current.approvals.is_empty());
    let err =
        contract.approval(&env_at(10), "a".to_string(), "sam".to_string(), false).unwrap_err();
    assert_eq!(err, not_found("Approval not found"));
    // and cannot be revoked, there being nothing in force
    let err = contract
        .revoke(&env_at(10), &from("alice"), "sam".to_string(), "a".to_string())
        .unwrap_err();
    assert_eq!(err, ContractError::ApprovalNotFound { spender: "sam".to_string() });
    // one block earlier it still counts
    contract.transfer_nft(&env_at(9), &from("sam"), "sam".to_string(), "a".to_string()).unwrap();
}

#[test]
fn approve_replaces_the_approval_of_the_spender() {
    let mut contract = ledger(5, false);
    mint(&mut contract, "a", "alice");
    let env = env_at(1);
    contract
        .approve(&env, &from("alice"), "sam".to_string(), "a".to_string(), Some(Expiration::AtHeight(10)))
        .unwrap();
    contract.approve(&env, &from("alice"), "tom".to_string(), "a".to_string(), None).unwrap();
    contract
        .approve(&env, &from("alice"), "sam".to_string(), "a".to_string(), Some(Expiration::AtHeight(20)))
        .unwrap();
    let answer = contract.approvals(&env, "a".to_string(), false).unwrap();
    assert_eq!(
        answer.approvals,
        vec![
            Approval { spender: "tom".to_string(), expires: Expiration::Never },
            Approval { spender: "sam".to_string(), expires: Expiration::AtHeight(20) },
        ]
    );
    assert!(contract.is_well_formed());
}

#[test]
fn approve_is_for_the_owner_only() {
    let mut contract = ledger(5, false);
    mint(&mut contract, "a", "alice");
    contract.approve_all(&env_at(1), &from("alice"), "olga".to_string(), None).unwrap();
    for sender in ["mallory", "olga", MINTER] {
        let err = contract
            .approve(&env_at(1), &from(sender), "sam".to_string(), "a".to_string(), None)
            .unwrap_err();
        assert_eq!(err, ContractError::Unauthorized {});
    }
    let err = contract
        .approve(&env_at(1), &from("alice"), "sam".to_string(), "zzz".to_string(), None)
        .unwrap_err();
    assert_eq!(err, ContractError::Std(not_found("token")));
}

#[test]
fn revoke_takes_the_approval_back() {
    let mut contract = ledger(5, false);
    mint(&mut contract, "a", "alice");
    let env = env_at(1);
    contract.approve(&env, &from("alice"), "sam".to_string(), "a".to_string(), None).unwrap();
    contract.approve(&env, &from("alice"), "tom".to_string(), "a".to_string(), None).unwrap();
    let err =
        contract.revoke(&env, &from("sam"), "sam".to_string(), "a".to_string()).unwrap_err();
    assert_eq!(err, ContractError::Unauthorized {});
    let response =
        contract.revoke(&env, &from("alice"), "sam".to_string(), "a".to_string()).unwrap();
    assert_eq!(
        response.attributes,
        vec![
            attr("action", "revoke"),
            attr("sender", "alice"),
            attr("spender", "sam"),
            attr("token_id", "a"),
        ]
    );
    let answer = contract.approvals(&env, "a".to_string(), true).unwrap();
    assert_eq!(
        answer.approvals,
        vec![Approval { spender: "tom".to_string(), expires: Expiration::Never }]
    );
    let err =
        contract.revoke(&env, &from("alice"), "sam".to_string(), "a".to_string()).unwrap_err();
    assert_eq!(err, ContractError::ApprovalNotFound { spender: "sam".to_string() });
    let err = contract
        .transfer_nft(&env, &from("sam"), "sam".to_string(), "a".to_string())
        .unwrap_err();
    assert_eq!(err, ContractError::Unauthorized {});
}

#[test]
fn operators_are_listed_in_order_and_by_page() {
    let mut contract = ledger(5, false);
    let env = env_at(5);
    for (owner, operator, expires) in [
        ("alice", "zed", None),
        ("bob", "amy", None),
        ("alice", "amy", Some(Expiration::AtHeight(8))),
        ("alice", "max", Some(Expiration::AtHeight(6))),
        ("al", "zzz", None),
    ] {
        contract.approve_all(&env, &from(owner), operator.to_string(), expires).unwrap();
    }
    assert!(contract.is_well_formed());
    let spenders = |contract: &Cw721Contract,
                    env: &Env,
                    lapsed_too: bool,
                    after: Option<&str>,
                    limit: Option<u32>| {
        contract
            .operators(env, "alice".to_string(), lapsed_too, after.map(str::to_string), limit)
            .operators
            .into_iter()
            .map(|a| a.spender)
            .collect::<Vec<String>>()
    };
    assert_eq!(spenders(&contract, &env, false, None, None), vec!["amy", "max", "zed"]);
    assert_eq!(spenders(&contract, &env, false, Some("amy"), None), vec!["max", "zed"]);
    assert_eq!(spenders(&contract, &env, false, Some("b"), Some(1)), vec!["max"]);
    assert_eq!(spenders(&contract, &env, false, None, Some(0)), Vec::<String>::new());
    // at height 6 the approval of max has lapsed
    assert_eq!(spenders(&contract, &env_at(6), false, None, None), vec!["amy", "zed"]);
    assert_eq!(spenders(&contract, &env_at(6), true, None, None), vec!["amy", "max", "zed"]);

    let answer =
        contract.operator(&env, "alice".to_string(), "max".to_string(), false).unwrap();
    assert_eq!(
        answer.approval,
        Approval { spender: "max".to_string(), expires: Expiration::AtHeight(6) }
    );
    let err = contract
        .operator(&env_at(6), "alice".to_string(), "max".to_string(), false)
        .unwrap_err();
    assert_eq!(err, not_found("Approval not found"));
    assert!(contract.operator(&env_at(6), "alice".to_string(), "max".to_string(), true).is_ok());
    let err =
        contract.operator(&env, "bob".to_string(), "max".to_string(), true).unwrap_err();
    assert_eq!(err, not_found("Approval not found"));
}

#[test]
fn approve_all_replaces_and_revoke_all_removes() {
    let mut contract = ledger(5, false);
    mint(&mut contract, "a", "alice");
    let env = env_at(5);
    contract
        .approve_all(&env, &from("alice"), "olga".to_string(), Some(Expiration::AtHeight(6)))
        .unwrap();
    contract
        .approve_all(&env, &from("alice"), "olga".to_string(), Some(Expiration::AtHeight(9)))
        .unwrap();
    let listed = contract.operators(&env, "alice".to_string(), true, None, None).operators;
    assert_eq!(
        listed,
        vec![Approval { spender: "olga".to_string(), expires: Expiration::AtHeight(9) }]
    );
    // still in force at height 8 thanks to the replacement
    let err = contract.revoke_all(&env_at(9), &from("alice"), "olga".to_string()).unwrap_err();
    assert_eq!(err, ContractError::ApprovalNotFound { spender: "olga".to_string() });
    let err = contract.revoke_all(&env, &from("alice"), "nobody".to_string()).unwrap_err();
    assert_eq!(err, ContractError::ApprovalNotFound { spender: "nobody".to_string() });
    let response = contract.revoke_all(&env_at(8), &from("alice"), "olga".to_string()).unwrap();
    assert_eq!(
        response.attributes,
        vec![attr("action", "revoke_all"), attr("sender", "alice"), attr("operator", "olga")]
    );
    assert!(contract.operators(&env, "alice".to_string(), true, None, None).operators.is_empty());
    let err = contract
        .transfer_nft(&env, &from("olga"), "olga".to_string(), "a".to_string())
        .unwrap_err();
    assert_eq!(err, ContractError::Unauthorized {});
}

#[test]
fn burn_is_refused_where_the_deployment_forbids_it() {
    let mut contract = ledger(5, false);
    mint(&mut contract, "a", "alice");
    let err = contract.burn(&env_at(1), &from("alice"), "a".to_string()).unwrap_err();
    assert_eq!(err, ContractError::BurnNotAllowed {});
    // also for a token that does not exist
    let err = contract.burn(&env_at(1), &from("alice"), "zzz".to_string()).unwrap_err();
    assert_eq!(err, ContractError::BurnNotAllowed {});
    assert!(contract.nft_info("a".to_string()).is_ok());
}

#[test]
fn burn_removes_the_token_and_retires_its_id() {
    let mut contract = ledger(2, true);
    mint(&mut contract, "a", "alice");
    let err = contract.burn(&env_at(1), &from("mallory"), "a".to_string()).unwrap_err();
    assert_eq!(err, ContractError::Unauthorized {});
    let err = contract.burn(&env_at(1), &from("alice"), "b".to_string()).unwrap_err();
    assert_eq!(err, ContractError::Std(not_found("token")));

    let response = contract.burn(&env_at(1), &from("alice"), "a".to_string()).unwrap();
    assert_eq!(
        response.attributes,
        vec![attr("action", "burn"), attr("sender", "alice"), attr("token_id", "a")]
    );
    assert_eq!(contract.nft_info("a".to_string()).unwrap_err(), not_found("token"));
    assert!(contract.all_tokens(None, None).tokens.is_empty());
    // a burnt token still counts as issued, and its id is not given out again
    assert_eq!(contract.num_tokens().count, 1);
    let err = contract
        .mint(&from(MINTER), "a".to_string(), "alice".to_string(), None, None)
        .unwrap_err();
    assert_eq!(err, ContractError::Claimed {});
    mint(&mut contract, "b", "bob");
    let err = contract
        .mint(&from(MINTER), "c".to_string(), "carol".to_string(), None, None)
        .unwrap_err();
    assert_eq!(err, ContractError::MaxSupplyExceeded {});
    assert!(contract.is_well_formed());
}

#[test]
fn send_leaves_a_notice_for_the_receiving_contract() {
    let mut contract = ledger(5, false);
    mint(&mut contract, "a", "alice");
    let response = contract
        .send_nft(&env_at(1), &from("alice"), "market".to_string(), "a".to_string(), vec![1, 2, 3])
        .unwrap();
    assert_eq!(
        response.messages,
        vec![SubMsg::ReceiveNft {
            contract: "market".to_string(),
            sender: "alice".to_string(),
            token_id: "a".to_string(),
            msg: vec![1, 2, 3],
        }]
    );
    assert_eq!(
        response.attributes,
        vec![
            attr("action", "send_nft"),
            attr("sender", "alice"),
            attr("recipient", "market"),
            attr("token_id", "a"),
        ]
    );
    assert_eq!(contract.owner_of(&env_at(1), "a".to_string(), true).unwrap().owner, "market");
    let err = contract
        .send_nft(&env_at(1), &from("alice"), "market".to_string(), "a".to_string(), vec![])
        .unwrap_err();
    assert_eq!(err, ContractError::Unauthorized {});
}

#[test]
fn tokens_are_listed_in_ascending_order_of_their_ids() {
    let mut contract = ledger(10, false);
    for (id, owner) in
        [("pear", "bob"), ("apple", "alice"), ("fig", "alice"), ("app", "bob"), ("Zoo", "alice")]
    {
        mint(&mut contract, id, owner);
    }
    assert!(contract.is_well_formed());
    let page = |after: Option<&str>, limit: Option<u32>| {
        contract.all_tokens(after.map(str::to_string), limit).tokens
    };
    assert_eq!(page(None, None), vec!["Zoo", "app", "apple", "fig", "pear"]);
    assert_eq!(page(Some("app"), None), vec!["apple", "fig", "pear"]);
    assert_eq!(page(Some("b"), Some(1)), vec!["fig"]);
    assert_eq!(page(Some("pear"), None), Vec::<String>::new());
    assert_eq!(page(None, Some(2)), vec!["Zoo", "app"]);
    assert_eq!(page(None, Some(0)), Vec::<String>::new());

    let owned = |owner: &str, after: Option<&str>, limit: Option<u32>| {
        contract.tokens(owner.to_string(), after.map(str::to_string), limit).tokens
    };
    assert_eq!(owned("alice", None, None), vec!["Zoo", "apple", "fig"]);
    assert_eq!(owned("alice", Some("Zoo"), Some(1)), vec!["apple"]);
    assert_eq!(owned("bob", None, None), vec!["app", "pear"]);
    assert_eq!(owned("carol", None, None), Vec::<String>::new());
}

#[test]
fn pages_have_a_default_and_a_largest_size() {
    let mut contract = ledger(2000, false);
    for i in 0..1005 {
        mint(&mut contract, &format!("{:04}", i), "alice");
    }
    assert_eq!(contract.all_tokens(None, None).tokens.len(), 10);
    assert_eq!(contract.all_tokens(None, Some(11)).tokens.len(), 11);
    assert_eq!(contract.all_tokens(None, Some(999)).tokens.len(), 999);
    assert_eq!(contract.all_tokens(None, Some(1000)).tokens.len(), 1000);
    assert_eq!(contract.all_tokens(None, Some(5000)).tokens.len(), 1000);
    assert_eq!(contract.tokens("alice".to_string(), None, Some(u32::MAX)).tokens.len(), 1000);
    let last = contract.all_tokens(Some("0999".to_string()), Some(5000)).tokens;
    assert_eq!(last, vec!["1000", "1001", "1002", "1003", "1004"]);
}

#[test]
fn token_info_is_what_was_minted() {
    let mut contract = ledger(5, false);
    let extension = Some(Metadata {
        name: Some("Enterprise".to_string()),
        royalty_percentage: Some(7),
        ..Metadata::default()
    });
    contract
        .mint(
            &from(MINTER),
            "a".to_string(),
            "alice".to_string(),
            Some("ipfs://a".to_string()),
            extension.clone(),
        )
        .unwrap();
    contract.approve(&env_at(1), &from("alice"), "sam".to_string(), "a".to_string(), None).unwrap();
    let all = contract.all_nft_info(&env_at(1), "a".to_string(), false).unwrap();
    assert_eq!(all.access.owner, "alice");
    assert_eq!(
        all.access.approvals,
        vec![Approval { spender: "sam".to_string(), expires: Expiration::Never }]
    );
    assert_eq!(all.info.token_uri, Some("ipfs://a".to_string()));
    assert_eq!(all.info.extension, extension);
    let err = contract.all_nft_info(&env_at(1), "b".to_string(), false).unwrap_err();
    assert_eq!(err, not_found("token"));
    let info = contract.contract_info();
    assert_eq!(info.name, "SpaceShips");
    assert_eq!(info.symbol, "SPACE");
    assert_eq!(contract.minter().minter, Some(MINTER.to_string()));
}

#[test]
fn expiration_lapses_when_the_block_reaches_it() {
    let block = BlockInfo { height: 10, time: 500 };
    assert!(Expiration::AtHeight(10).is_expired(&block));
    assert!(Expiration::AtHeight(9).is_expired(&block));
    assert!(!Expiration::AtHeight(11).is_expired(&block));
    assert!(Expiration::AtTime(500).is_expired(&block));
    assert!(Expiration::AtTime(0).is_expired(&block));
    assert!(!Expiration::AtTime(501).is_expired(&block));
    assert!(!Expiration::AtTime(u64::MAX).is_expired(&BlockInfo { height: 0, time: u64::MAX - 1 }));
    assert!(Expiration::AtTime(u64::MAX).is_expired(&BlockInfo { height: 0, time: u64::MAX }));
    assert!(!Expiration::Never.is_expired(&BlockInfo { height: u64::MAX, time: u64::MAX }));
}
