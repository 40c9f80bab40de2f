use cw721_rewards::entry;
use cw721_rewards::expiration::BlockInfo;
use cw721_rewards::msg::{
    CheckRoyaltiesResponse, Cw2981QueryMsg, Env, MessageInfo, RoyaltiesInfoResponse,
};
use cw721_rewards::royalty::{royalty_amount, valid_royalty};
use cw721_rewards::state::Deployment;
use cw721_rewards::{Cw721Contract, InstantiateMsg, Metadata, StdError};

fn ledger() -> Cw721Contract {
    let msg = InstantiateMsg {
        name: "SpaceShips".to_string(),
        symbol: "SPACE".to_string(),
        minter: "minter".to_string(),
        rewards_denom: "aconst".to_string(),
    };
    let env = Env { block: BlockInfo { height: 1, time: 1 } };
    let info = MessageInfo { sender: "minter".to_string() };
    entry::instantiate(Deployment::default(), env, info, msg).unwrap().0
}

fn mint(contract: &mut Cw721Contract, id: &str, extension: Option<Metadata>) {
    let info = MessageInfo { sender: "minter".to_string() };
    contract.mint(&info, id.to_string(), "alice".to_string(), None, extension).unwrap();
}

#[test]
fn royalty_is_rounded_down() {
    assert_eq!(royalty_amount(43, 4), 1);
    assert_eq!(royalty_amount(100, 10), 10);
    assert_eq!(royalty_amount(0, 100), 0);
    assert_eq!(royalty_amount(1_000_000, 0), 0);
    assert_eq!(royalty_amount(99, 1), 0);
    assert_eq!(royalty_amount(100, 1), 1);
    assert_eq!(royalty_amount(199, 1), 1);
    assert_eq!(royalty_amount(199, 50), 99);
    assert_eq!(royalty_amount(1, 99), 0);
    assert_eq!(royalty_amount(1, 100), 1);
    assert_eq!(royalty_amount(12345678901234567890123456789, 37), 4567901193456790119345679011);
}

#[test]
fn royalty_on_the_largest_price_does_not_overflow() {
    assert_eq!(royalty_amount(u128::MAX, 100), u128::MAX);
    assert_eq!(royalty_amount(u128::MAX - 1, 100), u128::MAX - 1);
    assert_eq!(royalty_amount(u128::MAX, 99), 336879543251729078828740861357450529340);
    assert_eq!(royalty_amount(u128::MAX, 50), 170141183460469231731687303715884105727);
    assert_eq!(royalty_amount(u128::MAX, 1), 3402823669209384634633746074317682114);
    assert_eq!(royalty_amount(u128::MAX, 0), 0);
}

#[test]
fn royalty_percentage_is_valid_up_to_hundred() {
    let with = |p: Option<u64>| Some(Metadata { royalty_percentage: p, ..Metadata::default() });
    assert!(valid_royalty(&None));
    assert!(valid_royalty(&with(None)));
    assert!(valid_royalty(&with(Some(0))));
    assert!(valid_royalty(&with(Some(100))));
    assert!(!valid_royalty(&with(Some(101))));
    assert!(!valid_royalty(&with(Some(u64::MAX))));
}

#[test]
fn token_without_percentage_owes_nothing_to_no_one() {
    let mut contract = ledger();
    mint(&mut contract, "bare", None);
    mint(&mut contract, "plain", Some(Metadata::default()));
    mint(
        &mut contract,
        "payee-only",
        Some(Metadata {
            royalty_payment_address: Some("alice".to_string()),
            ..Metadata::default()
        }),
    );
    for id in ["bare", "plain", "payee-only"] {
        let due = contract.query_royalties_info(id.to_string(), 1_000).unwrap();
        assert_eq!(due, RoyaltiesInfoResponse { address: String::new(), royalty_amount: 0 });
    }
    let err = contract.query_royalties_info("missing".to_string(), 1_000).unwrap_err();
    assert_eq!(err, StdError::NotFound { kind: "token".to_string() });
}

#[test]
fn token_with_percentage_owes_its_share() {
    let mut contract = ledger();
    mint(
        &mut contract,
        "a",
        Some(Metadata {
            royalty_percentage: Some(15),
            royalty_payment_address: Some("artist".to_string()),
            ..Metadata::default()
        }),
    );
    mint(
        &mut contract,
        "b",
        Some(Metadata { royalty_percentage: Some(15), ..Metadata::default() }),
    );
    let due = contract.query_royalties_info("a".to_string(), 1_999).unwrap();
    assert_eq!(due, RoyaltiesInfoResponse { address: "artist".to_string(), royalty_amount: 299 });
    let due = contract.query_royalties_info("b".to_string(), 1_999).unwrap();
    assert_eq!(due, RoyaltiesInfoResponse { address: String::new(), royalty_amount: 299 });
}

#[test]
fn royalties_are_known_and_asked_for_by_default() {
    assert_eq!(ledger().check_royalties(), CheckRoyaltiesResponse { royalty_payments: true });
    assert_eq!(Cw2981QueryMsg::default(), Cw2981QueryMsg::CheckRoyalties {});
}
