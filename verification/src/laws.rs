//! What follows from the rules for every ledger.

use vstd::prelude::*;

use crate::entry::execute_outcome;
use crate::error::{ContractErrorView, OwnershipError};
use crate::expiration::{BlockInfo, Expiration};
use crate::keyed::{lemma_as_map_at, lemma_as_map_key, lemma_as_map_len, slot};
use crate::lookup::{
    lemma_filter_spenders, lemma_operator_keys_distinct, lemma_token_keys_distinct,
};
use crate::metadata::MetadataView;
use crate::model::{expiry_or_never, other_spender};
use crate::msg::ExecuteMsg;
use crate::order::{ascending, pairs_ascending};
use crate::query::{approval_shown, shows_at, token_views};
use crate::rewards::{credited_token, settle_outcome};
use crate::state::{
    has_active_approval, names, operator_entries, operator_keys, reward_entries,
    royalty_in_range, token_entries, token_ids, ApprovalView, ContractView, Cw721Contract, MinterView, SupplyTracker, TokenView,
    WithdrawalView,
};

verus! {

/// The view of a well-formed ledger is valid.
pub proof fn law_view_valid(contract: Cw721Contract)
    requires
        contract.wf(),
    ensures
        contract@.valid(),
{
    let entries = token_entries(contract.tokens@);
    let gone = names(contract.retired@);
    lemma_token_keys_distinct(contract.tokens@);
    lemma_as_map_len(entries);
    gone.unique_seq_to_set();
    vstd::seq_lib::seq_to_set_is_finite(gone);
    assert forall|id: Seq<char>| #[trigger]
        contract@.tokens.dom().contains(id) implies contract@.tokens[id].token_id == id
        && contract@.tokens[id].valid() by {
        lemma_as_map_key(entries, id);
        let i = slot(entries, id);
        assert(entries[i] == (contract.tokens[i].token_id@, contract.tokens[i]@));
        assert(contract.tokens[i]@.valid());
    }
    let rewards = reward_entries(contract.token_rewards@);
    assert forall|id: Seq<char>| #[trigger]
        contract@.token_rewards.dom().contains(id) implies contract@.token_rewards[id]
        <= contract@.total_rewards by {
        lemma_as_map_key(rewards, id);
        let i = slot(rewards, id);
        assert(rewards[i] == (contract.token_rewards[i].token_id@, contract.token_rewards[i].amount));
    }
    assert forall|id: Seq<char>|
        !(contract@.tokens.dom().contains(id) && contract@.retired.contains(id)) by {
        if contract@.tokens.dom().contains(id) && contract@.retired.contains(id) {
            lemma_as_map_key(entries, id);
            let i = slot(entries, id);
            let j = choose|j: int| 0 <= j < gone.len() && gone[j] == id;
            assert(contract.retired[j]@ != contract.tokens[i].token_id@);
        }
    }
}

/// The tokens of a well-formed ledger are listed in ascending order of their ids, and the
/// listing holds the tokens of the view, each of them once.
pub proof fn law_tokens_listed_in_order(contract: Cw721Contract)
    requires
        contract.wf(),
    ensures
        ascending(token_ids(contract.tokens@)),
        token_views(contract.tokens@).len() == contract@.tokens.dom().len(),
        forall|i: int|
            0 <= i < contract.tokens.len() ==> {
                let token = #[trigger] token_views(contract.tokens@)[i];
                contract@.tokens.dom().contains(token.token_id) && contract@.tokens[token.token_id]
                    == token
            },
        forall|id: Seq<char>| #[trigger]
            contract@.tokens.dom().contains(id) ==> exists|i: int|
                0 <= i < contract.tokens.len() && #[trigger] token_ids(contract.tokens@)[i] == id,
{
    let entries = token_entries(contract.tokens@);
    lemma_token_keys_distinct(contract.tokens@);
    lemma_as_map_len(entries);
    assert forall|i: int| 0 <= i < contract.tokens.len() implies {
        let token = #[trigger] token_views(contract.tokens@)[i];
        contract@.tokens.dom().contains(token.token_id) && contract@.tokens[token.token_id]
            == token
    } by {
        lemma_as_map_at(entries, i);
    }
    assert forall|id: Seq<char>| #[trigger] contract@.tokens.dom().contains(id) implies exists|
        i: int,
    |
        0 <= i < contract.tokens.len() && #[trigger] token_ids(contract.tokens@)[i] == id by {
        lemma_as_map_key(entries, id);
        let i = slot(entries, id);
        assert(token_ids(contract.tokens@)[i] == id);
    }
}

/// The operator approvals of a well-formed ledger are listed in ascending order of owner,
/// then operator, and the listing holds the approvals of the view, each of them once.
pub proof fn law_operators_listed_in_order(contract: Cw721Contract)
    requires
        contract.wf(),
    ensures
        pairs_ascending(operator_keys(contract.operators@)),
        operator_entries(contract.operators@).len() == contract@.operators.dom().len(),
        forall|i: int|
            0 <= i < contract.operators.len() ==> {
                let entry = #[trigger] operator_entries(contract.operators@)[i];
                contract@.operators.dom().contains(entry.0) && contract@.operators[entry.0]
                    == entry.1
            },
        forall|key: (Seq<char>, Seq<char>)| #[trigger]
            contract@.operators.dom().contains(key) ==> exists|i: int|
                0 <= i < contract.operators.len() && #[trigger] operator_keys(
                    contract.operators@,
                )[i] == key,
{
    let entries = operator_entries(contract.operators@);
    lemma_operator_keys_distinct(contract.operators@);
    lemma_as_map_len(entries);
    assert forall|i: int| 0 <= i < contract.operators.len() implies {
        let entry = #[trigger] operator_entries(contract.operators@)[i];
        contract@.operators.dom().contains(entry.0) && contract@.operators[entry.0] == entry.1
    } by {
        lemma_as_map_at(entries, i);
    }
    assert forall|key: (Seq<char>, Seq<char>)| #[trigger]
        contract@.operators.dom().contains(key) implies exists|i: int|
        0 <= i < contract.operators.len() && #[trigger] operator_keys(contract.operators@)[i]
            == key by {
        lemma_as_map_key(entries, key);
        let i = slot(entries, key);
        assert(operator_keys(contract.operators@)[i] == key);
    }
}

/// No command changes what the ledger was created with or what was credited to it, takes
/// back an issued token or frees the id of a burnt one; and none but the steps of the
/// hand-over touches the minter role.
pub proof fn law_commands_keep_the_rest(
    ledger: ContractView,
    block: BlockInfo,
    sender: Seq<char>,
    msg: ExecuteMsg,
)
    ensures
        match execute_outcome(ledger, block, sender, msg) {
            Ok(next) => {
                &&& next.name == ledger.name
                &&& next.symbol == ledger.symbol
                &&& next.rewards_denom == ledger.rewards_denom
                &&& next.burn_allowed == ledger.burn_allowed
                &&& next.version == ledger.version
                &&& next.supply.max_supply == ledger.supply.max_supply
                &&& next.supply.issued_count >= ledger.supply.issued_count
                &&& next.total_rewards == ledger.total_rewards
                &&& next.token_rewards == ledger.token_rewards
                &&& ledger.retired.subset_of(next.retired)
                &&& !(msg is UpdateMinter || msg is UpdateOwnership) ==> next.minter
                    == ledger.minter
            },
            Err(_) => true,
        },
{
}

/// A payout changes the rewards and ends the wait for it, and nothing else. It is
/// credited whether or not it was awaited, and fails only where a sum does not fit.
pub proof fn law_payout_keeps_the_rest(ledger: ContractView, total: nat)
    requires
        ledger.valid(),
    ensures
        match settle_outcome(ledger, total) {
            Ok(next) => {
                &&& next.total_rewards == ledger.total_rewards + total
                &&& next.withdrawal == WithdrawalView::Idle
                &&& next.valid()
                &&& next == (ContractView {
                    total_rewards: next.total_rewards,
                    token_rewards: next.token_rewards,
                    withdrawal: next.withdrawal,
                    ..ledger
                })
                &&& forall|id: Seq<char>|
                    next.token_reward(id) == if ledger.withdrawal
                        == (WithdrawalView::AwaitingReply { token_id: Some(id) }) {
                        ledger.token_reward(id) + total
                    } else {
                        ledger.token_reward(id) as int
                    }
            },
            Err(_) => true,
        },
{
}

/// A payout is credited, awaited or not, wherever the rewards of the ledger still fit
/// with it: they grow by it, those of the token on whose behalf it was requested too, and
/// the rest of the ledger stays as it was. On a ledger that awaits none, only the rewards of
/// the ledger grow.
pub proof fn law_payout_that_fits_is_credited(ledger: ContractView, total: nat)
    requires
        ledger.valid(),
        ledger.total_rewards + total <= u128::MAX,
    ensures
        ({
            let outcome = settle_outcome(ledger, total);
            let next = outcome->Ok_0;
            &&& outcome is Ok
            &&& next.valid()
            &&& next.total_rewards == ledger.total_rewards + total
            &&& credited_token(ledger.withdrawal) is Some ==> next.token_reward(
                credited_token(ledger.withdrawal)->0,
            ) == ledger.token_reward(credited_token(ledger.withdrawal)->0) + total
            &&& next.withdrawal == WithdrawalView::Idle
            &&& next.tokens == ledger.tokens
            &&& next.retired == ledger.retired
            &&& next.operators == ledger.operators
            &&& next.minter == ledger.minter
            &&& next.supply == ledger.supply
            &&& ledger.withdrawal == WithdrawalView::Idle ==> next == (ContractView {
                total_rewards: (ledger.total_rewards + total) as u128,
                ..ledger
            })
        }),
{
}

/// The minter's mint of an id that was never issued, to an owner, with a valid royalty and
/// supply left, succeeds: one more token is issued, the token is stored as it was given,
/// with no approvals, and every other token and the rest of the ledger stay as they were.
pub proof fn law_mint_succeeds(
    ledger: ContractView,
    sender: Seq<char>,
    token_id: Seq<char>,
    owner: Seq<char>,
    token_uri: Option<Seq<char>>,
    extension: Option<MetadataView>,
)
    requires
        ledger.valid(),
        ledger.minter.is_minter(sender),
        royalty_in_range(extension),
        owner.len() > 0,
        !ledger.tokens.dom().contains(token_id),
        !ledger.retired.contains(token_id),
        ledger.supply.issued_count < ledger.supply.max_supply,
    ensures
        ({
            let outcome = ledger.mint(sender, token_id, owner, token_uri, extension);
            let next = outcome->Ok_0;
            &&& outcome is Ok
            &&& next.valid()
            &&& next.supply == (SupplyTracker {
                issued_count: (ledger.supply.issued_count + 1) as u64,
                max_supply: ledger.supply.max_supply,
            })
            &&& next.tokens.dom().contains(token_id)
            &&& next.tokens[token_id] == (TokenView {
                token_id,
                owner,
                approvals: Seq::empty(),
                token_uri,
                extension,
            })
            &&& forall|other: Seq<char>|
                other != token_id ==> (next.tokens.dom().contains(other)
                    <==> ledger.tokens.dom().contains(other)) && (ledger.tokens.dom().contains(
                    other,
                ) ==> next.tokens[other] == ledger.tokens[other])
            &&& next == (ContractView { tokens: next.tokens, supply: next.supply, ..ledger })
        }),
{
    let next = ledger.mint(sender, token_id, owner, token_uri, extension)->Ok_0;
    assert(next.tokens.dom() =~= ledger.tokens.dom().insert(token_id));
}

/// With the supply used up, the minter's mint of an id that was never issued, to an owner
/// and with a valid royalty, fails for want of supply.
pub proof fn law_mint_beyond_supply_fails(
    ledger: ContractView,
    sender: Seq<char>,
    token_id: Seq<char>,
    owner: Seq<char>,
    token_uri: Option<Seq<char>>,
    extension: Option<MetadataView>,
)
    requires
        ledger.valid(),
        ledger.minter.is_minter(sender),
        royalty_in_range(extension),
        owner.len() > 0,
        !ledger.tokens.dom().contains(token_id),
        !ledger.retired.contains(token_id),
        ledger.supply.issued_count == ledger.supply.max_supply,
    ensures
        ledger.mint(sender, token_id, owner, token_uri, extension) == Err::<
            ContractView,
            ContractErrorView,
        >(ContractErrorView::MaxSupplyExceeded),
{
}

/// A transfer by someone authorized, to a recipient, succeeds: the token passes to the
/// recipient and keeps no approval, not even the sender's own; its address and metadata,
/// every other token and the rest of the ledger stay as they were.
pub proof fn law_transfer_succeeds(
    ledger: ContractView,
    block: BlockInfo,
    sender: Seq<char>,
    recipient: Seq<char>,
    token_id: Seq<char>,
)
    requires
        ledger.valid(),
        ledger.tokens.dom().contains(token_id),
        ledger.is_authorized(ledger.tokens[token_id], sender, block),
        recipient.len() > 0,
    ensures
        ({
            let outcome = ledger.transfer(block, sender, recipient, token_id);
            let next = outcome->Ok_0;
            &&& outcome is Ok
            &&& next.valid()
            &&& next.tokens.dom() == ledger.tokens.dom()
            &&& next.tokens[token_id] == (TokenView {
                owner: recipient,
                approvals: Seq::empty(),
                ..ledger.tokens[token_id]
            })
            &&& forall|other: Seq<char>|
                other != token_id && ledger.tokens.dom().contains(other) ==> next.tokens[other]
                    == ledger.tokens[other]
            &&& next == (ContractView { tokens: next.tokens, ..ledger })
        }),
{
    let next = ledger.transfer(block, sender, recipient, token_id)->Ok_0;
    assert(next.tokens.dom() =~= ledger.tokens.dom());
}

/// After the hand-over the one who took the role mints, and the one who gave it away does
/// not: a mint of an id that was never issued, to an owner, with a valid royalty and supply
/// left, succeeds for the new minter and is refused to the old one.
pub proof fn law_new_minter_mints(
    ledger: ContractView,
    sender: Seq<char>,
    candidate: Seq<char>,
    expiry: Option<Expiration>,
    block: BlockInfo,
    token_id: Seq<char>,
    owner: Seq<char>,
    token_uri: Option<Seq<char>>,
    extension: Option<MetadataView>,
)
    requires
        ledger.valid(),
        sender != candidate,
        ledger.minter.propose_transfer(sender, candidate, expiry) is Ok,
        ledger.minter.propose_transfer(sender, candidate, expiry)->Ok_0.accept_transfer(
            block,
            candidate,
        ) is Ok,
        royalty_in_range(extension),
        owner.len() > 0,
        !ledger.tokens.dom().contains(token_id),
        !ledger.retired.contains(token_id),
        ledger.supply.issued_count < ledger.supply.max_supply,
    ensures
        ({
            let offered = ledger.minter.propose_transfer(sender, candidate, expiry)->Ok_0;
            let accepted = offered.accept_transfer(block, candidate)->Ok_0;
            let next = ContractView { minter: accepted, ..ledger };
            &&& next.mint(sender, token_id, owner, token_uri, extension) == Err::<
                ContractView,
                ContractErrorView,
            >(ContractErrorView::Unauthorized)
            &&& next.mint(candidate, token_id, owner, token_uri, extension) is Ok
            &&& next.mint(candidate, token_id, owner, token_uri, extension)->Ok_0.tokens[token_id].owner
                == owner
        }),
{
}

/// The id of a burnt token is not issued again: the token is gone, its id is kept, and
/// every mint of it fails.
pub proof fn law_burnt_id_not_reused(
    ledger: ContractView,
    block: BlockInfo,
    sender: Seq<char>,
    token_id: Seq<char>,
    again_sender: Seq<char>,
    again_owner: Seq<char>,
    again_uri: Option<Seq<char>>,
    again_extension: Option<MetadataView>,
)
    requires
        ledger.burn(block, sender, token_id) is Ok,
    ensures
        ({
            let next = ledger.burn(block, sender, token_id)->Ok_0;
            let again = next.mint(again_sender, token_id, again_owner, again_uri, again_extension);
            &&& ledger.burn_allowed
            &&& !next.tokens.dom().contains(token_id)
            &&& next.retired.contains(token_id)
            &&& next.supply == ledger.supply
            &&& again is Err
            &&& royalty_in_range(again_extension) && next.minter.is_minter(again_sender)
                && again_owner.len() > 0 ==> again == Err::<ContractView, ContractErrorView>(
                ContractErrorView::Claimed,
            )
        }),
{
}

/// Every command leaves a valid ledger valid: in particular never more tokens issued than
/// the supply, no id in use twice and none in use again after its token was burnt.
pub proof fn law_commands_keep_validity(
    ledger: ContractView,
    block: BlockInfo,
    sender: Seq<char>,
    msg: ExecuteMsg,
)
    requires
        ledger.valid(),
    ensures
        match execute_outcome(ledger, block, sender, msg) {
            Ok(next) => next.valid(),
            Err(_) => true,
        },
{
    match execute_outcome(ledger, block, sender, msg) {
        Err(_) => {},
        Ok(next) => {
            match msg {
                ExecuteMsg::Approve { spender, token_id, expires } => {
                    let token = ledger.tokens[token_id@];
                    lemma_filter_spenders(token.approvals, other_spender(spender@));
                    let kept = token.approvals.filter(other_spender(spender@));
                    let now = next.tokens[token_id@].approvals;
                    assert(now == kept.push(
                        ApprovalView { spender: spender@, expires: expiry_or_never(expires) },
                    ));
                    assert forall|i: int, j: int| 0 <= i < j < now.len() implies (
                    #[trigger] now[i]).spender != (#[trigger] now[j]).spender by {
                        assert(now[i] == kept[i]);
                        if j < kept.len() {
                            assert(now[j] == kept[j]);
                        }
                    }
                    assert(next.tokens.dom() =~= ledger.tokens.dom());
                },
                ExecuteMsg::Revoke { spender, token_id } => {
                    let token = ledger.tokens[token_id@];
                    lemma_filter_spenders(token.approvals, other_spender(spender@));
                    assert(next.tokens.dom() =~= ledger.tokens.dom());
                },
                ExecuteMsg::TransferNft { recipient, token_id } => {
                    assert(next.tokens.dom() =~= ledger.tokens.dom());
                },
                ExecuteMsg::SendNft { contract, token_id, msg } => {
                    assert(next.tokens.dom() =~= ledger.tokens.dom());
                },
                ExecuteMsg::Mint { token_id, owner, token_uri, extension } => {},
                ExecuteMsg::Burn { token_id } => {},
                _ => {},
            }
        },
    }
}

/// A mint that succeeds issues exactly one token and stays within the supply. Once the
/// supply is used up, a mint that nothing else stands against fails for want of supply.
pub proof fn law_mint_counts(
    ledger: ContractView,
    sender: Seq<char>,
    token_id: Seq<char>,
    owner: Seq<char>,
    token_uri: Option<Seq<char>>,
    extension: Option<MetadataView>,
)
    requires
        ledger.valid(),
    ensures
        match ledger.mint(sender, token_id, owner, token_uri, extension) {
            Ok(next) => {
                &&& next.supply.issued_count == ledger.supply.issued_count + 1
                &&& next.supply.issued_count <= next.supply.max_supply
                &&& next.supply.max_supply == ledger.supply.max_supply
            },
            Err(_) => true,
        },
        ({
            &&& ledger.supply.issued_count == ledger.supply.max_supply
            &&& royalty_in_range(extension)
            &&& ledger.minter.is_minter(sender)
            &&& owner.len() > 0
            &&& !ledger.tokens.dom().contains(token_id)
            &&& !ledger.retired.contains(token_id)
        }) ==> ledger.mint(sender, token_id, owner, token_uri, extension) == Err::<
            ContractView,
            ContractErrorView,
        >(ContractErrorView::MaxSupplyExceeded),
{
}

/// After a token has been minted, a mint of the same id fails and leaves the token with
/// its owner: as `Claimed`, where it is the minter who asks, for a valid royalty and an owner.
pub proof fn law_second_mint_claimed(
    ledger: ContractView,
    sender: Seq<char>,
    token_id: Seq<char>,
    owner: Seq<char>,
    token_uri: Option<Seq<char>>,
    extension: Option<MetadataView>,
    again_sender: Seq<char>,
    again_owner: Seq<char>,
    again_uri: Option<Seq<char>>,
    again_extension: Option<MetadataView>,
)
    requires
        ledger.valid(),
        ledger.mint(sender, token_id, owner, token_uri, extension) is Ok,
    ensures
        ({
            let next = ledger.mint(sender, token_id, owner, token_uri, extension)->Ok_0;
            let again = next.mint(again_sender, token_id, again_owner, again_uri, again_extension);
            &&& next.tokens.dom().contains(token_id)
            &&& next.tokens[token_id].owner == owner
            &&& again is Err
            &&& royalty_in_range(again_extension) && next.minter.is_minter(again_sender)
                && again_owner.len() > 0 ==> again == Err::<ContractView, ContractErrorView>(
                ContractErrorView::Claimed,
            )
        }),
{
}

/// A royalty percentage above one hundred is refused at mint, whoever asks.
pub proof fn law_royalty_above_hundred_refused(
    ledger: ContractView,
    sender: Seq<char>,
    token_id: Seq<char>,
    owner: Seq<char>,
    token_uri: Option<Seq<char>>,
    metadata: MetadataView,
)
    requires
        metadata.royalty_percentage is Some,
        metadata.royalty_percentage->0 > 100,
    ensures
        ledger.mint(sender, token_id, owner, token_uri, Some(metadata)) == Err::<
            ContractView,
            ContractErrorView,
        >(ContractErrorView::InvalidRoyaltyPercentage),
{
}

/// A transfer leaves no approval on the token: whoever is asked about afterwards, at
/// whatever block and lapsed approvals included, has none.
pub proof fn law_transfer_clears_approvals(
    ledger: ContractView,
    block: BlockInfo,
    sender: Seq<char>,
    recipient: Seq<char>,
    token_id: Seq<char>,
    spender: Seq<char>,
    later: BlockInfo,
    include_expired: bool,
)
    requires
        ledger.valid(),
        ledger.transfer(block, sender, recipient, token_id) is Ok,
    ensures
        ({
            let next = ledger.transfer(block, sender, recipient, token_id)->Ok_0;
            &&& next.tokens.dom().contains(token_id)
            &&& next.tokens[token_id].owner == recipient
            &&& next.tokens[token_id].approvals == Seq::<ApprovalView>::empty()
            &&& approval_shown(next.tokens[token_id].approvals, spender, include_expired, later)
                is None
            &&& !has_active_approval(next.tokens[token_id].approvals, spender, later)
        }),
{
}

/// An approval whose expiration has lapsed already is refused.
pub proof fn law_lapsed_approval_refused(
    ledger: ContractView,
    block: BlockInfo,
    sender: Seq<char>,
    spender: Seq<char>,
    token_id: Seq<char>,
    expires: Expiration,
)
    requires
        ledger.tokens.dom().contains(token_id),
        ledger.tokens[token_id].owner == sender,
        expires.expired_at(block),
    ensures
        ledger.approve(block, sender, spender, token_id, Some(expires)) == Err::<
            ContractView,
            ContractErrorView,
        >(ContractErrorView::Expired),
{
}

/// An approval counts until its expiration and no longer: once granted, it authorizes the
/// spender at every block at which it has not lapsed; at a block at which it has, the
/// spender is authorized only as owner or operator, though the approval can still be seen.
pub proof fn law_approval_lapses(
    ledger: ContractView,
    block: BlockInfo,
    sender: Seq<char>,
    spender: Seq<char>,
    token_id: Seq<char>,
    expires: Option<Expiration>,
    later: BlockInfo,
)
    requires
        ledger.valid(),
        ledger.approve(block, sender, spender, token_id, expires) is Ok,
    ensures
        ({
            let next = ledger.approve(block, sender, spender, token_id, expires)->Ok_0;
            let token = next.tokens[token_id];
            let granted = ApprovalView { spender, expires: expiry_or_never(expires) };
            &&& next.tokens.dom().contains(token_id)
            &&& approval_shown(token.approvals, spender, true, later) == Some(granted)
            &&& has_active_approval(token.approvals, spender, later)
                <==> !granted.expires.expired_at(later)
            &&& !granted.expires.expired_at(later) ==> next.is_authorized(token, spender, later)
            &&& granted.expires.expired_at(later) ==> (next.is_authorized(token, spender, later)
                <==> spender == token.owner || next.has_active_operator(
                token.owner,
                spender,
                later,
            ))
        }),
{
    let next = ledger.approve(block, sender, spender, token_id, expires)->Ok_0;
    let earlier = ledger.tokens[token_id].approvals;
    let kept = earlier.filter(other_spender(spender));
    let granted = ApprovalView { spender, expires: expiry_or_never(expires) };
    let now = next.tokens[token_id].approvals;
    lemma_filter_spenders(earlier, other_spender(spender));
    assert(now == kept.push(granted));
    let last = now.len() - 1;
    assert(now[last] == granted);
    assert forall|i: int| 0 <= i < now.len() && (#[trigger] now[i]).spender == spender implies i
        == last by {
        if i < last {
            assert(now[i] == kept[i]);
            assert(other_spender(spender)(kept[i]));
        }
    }
    assert(shows_at(now, last, spender, true, later));
    let shown = choose|i: int| shows_at(now, i, spender, true, later);
    assert(now[shown].spender == spender);
    if !granted.expires.expired_at(later) {
        assert(now[last].spender == spender && !now[last].expires.expired_at(later));
    }
}

/// While a withdrawal awaits its reply no other can be requested: the minter is told so,
/// and whoever else asks is refused as before.
pub proof fn law_one_withdrawal_in_flight(ledger: ContractView, sender: Seq<char>, again: Seq<char>)
    requires
        ledger.initiate_withdrawal(sender) is Ok,
    ensures
        ({
            let next = ledger.initiate_withdrawal(sender)->Ok_0;
            &&& ledger.withdrawal == WithdrawalView::Idle
            &&& next.withdrawal == (WithdrawalView::AwaitingReply { token_id: None })
            &&& next.initiate_withdrawal(again) is Err
            &&& next.minter.is_minter(again) ==> next.initiate_withdrawal(again) == Err::<
                ContractView,
                ContractErrorView,
            >(ContractErrorView::WithdrawalPending)
        }),
{
}

/// Once the minter has offered the role to `candidate`, no one else can accept it, and
/// `candidate` can, unless the offer has lapsed. After that `candidate` is the minter, and
/// whoever was the minter before mints no more.
pub proof fn law_minter_handover(
    ledger: ContractView,
    sender: Seq<char>,
    candidate: Seq<char>,
    expiry: Option<Expiration>,
    block: BlockInfo,
    other: Seq<char>,
    token_id: Seq<char>,
    owner: Seq<char>,
    token_uri: Option<Seq<char>>,
    extension: Option<MetadataView>,
)
    requires
        ledger.minter.propose_transfer(sender, candidate, expiry) is Ok,
    ensures
        ({
            let offered = ledger.minter.propose_transfer(sender, candidate, expiry)->Ok_0;
            let lapsed = expiry is Some && expiry->0.expired_at(block);
            &&& ledger.minter.is_minter(sender)
            &&& offered.is_minter(sender)
            &&& other != candidate ==> offered.accept_transfer(block, other) == Err::<
                MinterView,
                OwnershipError,
            >(OwnershipError::NotPendingOwner)
            &&& lapsed ==> offered.accept_transfer(block, candidate) == Err::<
                MinterView,
                OwnershipError,
            >(OwnershipError::TransferExpired)
            &&& !lapsed ==> {
                let accepted = offered.accept_transfer(block, candidate);
                &&& accepted == Ok::<MinterView, OwnershipError>(
                    MinterView {
                        owner: Some(candidate),
                        pending_owner: None,
                        pending_expiry: None,
                    },
                )
                &&& sender != candidate && royalty_in_range(extension) ==> (ContractView {
                    minter: accepted->Ok_0,
                    ..ledger
                }).mint(sender, token_id, owner, token_uri, extension) == Err::<
                    ContractView,
                    ContractErrorView,
                >(ContractErrorView::Unauthorized)
            }
        }),
{
}

/// Once the role has been renounced there is no minter: no one mints, and the role can
/// neither be offered nor renounced again.
pub proof fn law_renounced_for_good(
    ledger: ContractView,
    sender: Seq<char>,
    anyone: Seq<char>,
    token_id: Seq<char>,
    owner: Seq<char>,
    token_uri: Option<Seq<char>>,
    extension: Option<MetadataView>,
)
    requires
        ledger.minter.renounce(sender) is Ok,
    ensures
        ({
            let vacant = ledger.minter.renounce(sender)->Ok_0;
            let next = ContractView { minter: vacant, ..ledger };
            &&& vacant.owner is None
            &&& vacant.propose_transfer(anyone, owner, None) == Err::<MinterView, OwnershipError>(
                OwnershipError::NoOwner,
            )
            &&& vacant.renounce(anyone) == Err::<MinterView, OwnershipError>(
                OwnershipError::NoOwner,
            )
            &&& royalty_in_range(extension) ==> next.mint(
                anyone,
                token_id,
                owner,
                token_uri,
                extension,
            ) == Err::<ContractView, ContractErrorView>(ContractErrorView::Unauthorized)
        }),
{
}

} // verus!
