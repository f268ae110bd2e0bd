use cw721_sellable::context::{Context, ContractInfo};
use cw721_sellable::contract::{execute, Outcome};
use cw721_sellable::error::ContractError;
use cw721_sellable::guard::{
    check_can_send, check_ticket_state, get_ticket_id, validate_locked_ticket,
};
use cw721_sellable::ledger::{Ledger, MintMsg};
use cw721_sellable::msg::{BaseExecuteMsg, Cw721SellableExecuteMsg};
use cw721_sellable::state::{
    Approval, BlockInfo, Env, Expiration, MessageInfo, Metadata, TokenInfo,
};

const HEIGHT: u64 = 12_345;
const TIME: u64 = 1_571_797_419_879_305_533;

fn env() -> Env {
    Env { block: BlockInfo { height: HEIGHT, time: TIME, chain_id: "test".to_string() } }
}

fn info(sender: &str) -> MessageInfo {
    MessageInfo { sender: sender.to_string(), funds: vec![] }
}

fn token(owner: &str, approvals: Vec<Approval>, extension: Option<Metadata>) -> TokenInfo {
    TokenInfo { owner: owner.to_string(), approvals, token_uri: None, extension }
}

fn plain() -> Option<Metadata> {
    Some(Metadata::default())
}

fn approval(spender: &str, expires: Expiration) -> Approval {
    Approval { spender: spender.to_string(), expires }
}

fn ledger_with(id: &str, record: TokenInfo) -> Ledger {
    let mut ledger = Ledger::new("Tickets".to_string(), "TICK".to_string(), "minter".to_string());
    ledger.save(id.to_string(), record);
    ledger
}

fn verdict(ledger: &Ledger, sender: &str, id: &str) -> Result<(), ContractError> {
    check_can_send(ledger, &env(), &info(sender), &id.to_string())
}

#[test]
fn expiration_is_reached_at_the_named_height() {
    let block = env().block;
    assert!(Expiration::AtHeight(HEIGHT).is_expired(&block));
    assert!(Expiration::AtHeight(HEIGHT - 1).is_expired(&block));
    assert!(!Expiration::AtHeight(HEIGHT + 1).is_expired(&block));
}

#[test]
fn expiration_is_reached_at_the_named_time() {
    let block = env().block;
    assert!(Expiration::AtTime(TIME).is_expired(&block));
    assert!(Expiration::AtTime(TIME - 1).is_expired(&block));
    assert!(!Expiration::AtTime(TIME + 1).is_expired(&block));
    assert!(!Expiration::AtTime(u64::MAX).is_expired(&block));
}

#[test]
fn expiration_never_is_never_reached() {
    let block = BlockInfo { height: u64::MAX, time: u64::MAX, chain_id: String::new() };
    assert!(!Expiration::Never.is_expired(&block));
}

#[test]
fn height_and_time_are_not_mixed_up() {
    let block = BlockInfo { height: 10, time: 1_000, chain_id: String::new() };
    assert!(!Expiration::AtHeight(500).is_expired(&block));
    assert!(Expiration::AtTime(500).is_expired(&block));
}

#[test]
fn owner_may_send() {
    let ledger = ledger_with("t", token("owner", vec![], plain()));
    assert_eq!(verdict(&ledger, "owner", "t"), Ok(()));
}

#[test]
fn stranger_is_unauthorized() {
    let ledger = ledger_with("t", token("owner", vec![], plain()));
    assert_eq!(verdict(&ledger, "stranger", "t"), Err(ContractError::Unauthorized));
}

#[test]
fn unknown_token_is_not_found() {
    let ledger = ledger_with("t", token("owner", vec![], plain()));
    assert_eq!(verdict(&ledger, "owner", "u"), Err(ContractError::NotFound));
}

#[test]
fn token_without_metadata_is_refused_even_to_its_owner() {
    let ledger = ledger_with("t", token("owner", vec![], None));
    assert_eq!(verdict(&ledger, "owner", "t"), Err(ContractError::NoMetadataPresent));
}

#[test]
fn locked_token_is_refused_even_to_its_owner() {
    let meta = Metadata { locked: true, ..Metadata::default() };
    let ledger = ledger_with("t", token("owner", vec![], Some(meta)));
    assert_eq!(verdict(&ledger, "owner", "t"), Err(ContractError::TicketLocked));
    assert_eq!(verdict(&ledger, "stranger", "t"), Err(ContractError::TicketLocked));
}

#[test]
fn redeemed_is_reported_before_locked() {
    let meta = Metadata { locked: true, redeemed: true, ..Metadata::default() };
    let ledger = ledger_with("t", token("owner", vec![], Some(meta)));
    assert_eq!(verdict(&ledger, "owner", "t"), Err(ContractError::TicketRedeemed));
    let meta = Metadata { locked: false, redeemed: true, ..Metadata::default() };
    assert_eq!(check_ticket_state(&Some(meta)), Err(ContractError::TicketRedeemed));
}

#[test]
fn ticket_state_of_each_kind() {
    assert_eq!(check_ticket_state(&None), Err(ContractError::NoMetadataPresent));
    assert_eq!(check_ticket_state(&plain()), Ok(()));
    let locked = Metadata { locked: true, ..Metadata::default() };
    assert_eq!(check_ticket_state(&Some(locked)), Err(ContractError::TicketLocked));
}

#[test]
fn live_approval_may_send() {
    let approvals = vec![
        approval("other", Expiration::Never),
        approval("spender", Expiration::AtHeight(HEIGHT + 1)),
    ];
    let ledger = ledger_with("t", token("owner", approvals, plain()));
    assert_eq!(verdict(&ledger, "spender", "t"), Ok(()));
    assert_eq!(verdict(&ledger, "other", "t"), Ok(()));
    assert_eq!(verdict(&ledger, "third", "t"), Err(ContractError::Unauthorized));
}

#[test]
fn expired_approval_may_not_send() {
    let approvals = vec![approval("spender", Expiration::AtHeight(HEIGHT))];
    let ledger = ledger_with("t", token("owner", approvals, plain()));
    assert_eq!(verdict(&ledger, "spender", "t"), Err(ContractError::Unauthorized));

    let approvals = vec![approval("spender", Expiration::AtTime(TIME))];
    let ledger = ledger_with("t", token("owner", approvals, plain()));
    assert_eq!(verdict(&ledger, "spender", "t"), Err(ContractError::Unauthorized));
}

#[test]
fn second_approval_counts_when_the_first_has_expired() {
    let approvals = vec![
        approval("spender", Expiration::AtHeight(1)),
        approval("spender", Expiration::AtTime(TIME + 1)),
    ];
    let ledger = ledger_with("t", token("owner", approvals, plain()));
    assert_eq!(verdict(&ledger, "spender", "t"), Ok(()));
}

#[test]
fn live_operator_may_send() {
    let mut ledger = ledger_with("t", token("owner", vec![], plain()));
    ledger.set_operator("owner".to_string(), "agent".to_string(), Expiration::Never);
    assert_eq!(verdict(&ledger, "agent", "t"), Ok(()));
    assert_eq!(verdict(&ledger, "other", "t"), Err(ContractError::Unauthorized));
}

#[test]
fn operator_of_another_owner_may_not_send() {
    let mut ledger = ledger_with("t", token("owner", vec![], plain()));
    ledger.set_operator("someone".to_string(), "agent".to_string(), Expiration::Never);
    assert_eq!(verdict(&ledger, "agent", "t"), Err(ContractError::Unauthorized));
}

#[test]
fn expired_operator_may_not_send() {
    let mut ledger = ledger_with("t", token("owner", vec![], plain()));
    ledger.set_operator("owner".to_string(), "agent".to_string(), Expiration::AtHeight(HEIGHT));
    assert_eq!(verdict(&ledger, "agent", "t"), Err(ContractError::Unauthorized));
}

#[test]
fn latest_operator_grant_counts() {
    let mut ledger = ledger_with("t", token("owner", vec![], plain()));
    ledger.set_operator("owner".to_string(), "agent".to_string(), Expiration::Never);
    ledger.set_operator("owner".to_string(), "agent".to_string(), Expiration::AtHeight(1));
    assert_eq!(ledger.operator("owner", "agent"), Some(Expiration::AtHeight(1)));
    assert_eq!(verdict(&ledger, "agent", "t"), Err(ContractError::Unauthorized));
    ledger.set_operator("owner".to_string(), "agent".to_string(), Expiration::AtTime(TIME + 5));
    assert_eq!(verdict(&ledger, "agent", "t"), Ok(()));
    assert_eq!(ledger.operator("owner", "nobody"), None);
    assert_eq!(ledger.operator("agent", "owner"), None);
}

#[test]
fn ticket_id_of_each_message() {
    let id = "ticket".to_string();
    let transfer =
        BaseExecuteMsg::TransferNft { recipient: "r".to_string(), token_id: id.clone() };
    let send =
        BaseExecuteMsg::SendNft { contract: "c".to_string(), token_id: id.clone(), msg: vec![] };
    let approve =
        BaseExecuteMsg::Approve { spender: "s".to_string(), token_id: id.clone(), expires: None };
    let revoke = BaseExecuteMsg::Revoke { spender: "s".to_string(), token_id: id.clone() };
    assert_eq!(get_ticket_id(&transfer), Some(id.clone()));
    assert_eq!(get_ticket_id(&send), Some(id.clone()));
    assert_eq!(get_ticket_id(&approve), Some(id.clone()));
    assert_eq!(get_ticket_id(&revoke), Some(id.clone()));

    let approve_all = BaseExecuteMsg::ApproveAll { operator: "o".to_string(), expires: None };
    let revoke_all = BaseExecuteMsg::RevokeAll { operator: "o".to_string() };
    let burn = BaseExecuteMsg::Burn { token_id: id.clone() };
    let mint = BaseExecuteMsg::Mint(MintMsg {
        token_id: id.clone(),
        owner: "o".to_string(),
        token_uri: None,
        extension: None,
    });
    assert_eq!(get_ticket_id(&approve_all), None);
    assert_eq!(get_ticket_id(&revoke_all), None);
    assert_eq!(get_ticket_id(&burn), None);
    assert_eq!(get_ticket_id(&mint), None);
}

#[test]
fn screening_passes_messages_without_a_ticket() {
    let meta = Metadata { locked: true, ..Metadata::default() };
    let ledger = ledger_with("t", token("owner", vec![], Some(meta)));
    let approve_all = BaseExecuteMsg::ApproveAll { operator: "o".to_string(), expires: None };
    assert_eq!(validate_locked_ticket(&ledger, &approve_all), Ok(()));
    let burn = BaseExecuteMsg::Burn { token_id: "t".to_string() };
    assert_eq!(validate_locked_ticket(&ledger, &burn), Ok(()));
}

#[test]
fn screening_stops_approvals_of_locked_and_redeemed_tickets() {
    let locked = Metadata { locked: true, ..Metadata::default() };
    let redeemed = Metadata { locked: true, redeemed: true, ..Metadata::default() };
    let mut ledger = ledger_with("locked", token("owner", vec![], Some(locked)));
    ledger.save("redeemed".to_string(), token("owner", vec![], Some(redeemed)));
    ledger.save("bare".to_string(), token("owner", vec![], None));
    ledger.save("free".to_string(), token("owner", vec![], plain()));

    let approve = |id: &str| BaseExecuteMsg::Approve {
        spender: "s".to_string(),
        token_id: id.to_string(),
        expires: Some(Expiration::Never),
    };
    let revoke =
        |id: &str| BaseExecuteMsg::Revoke { spender: "s".to_string(), token_id: id.to_string() };
    assert_eq!(
        validate_locked_ticket(&ledger, &approve("locked")),
        Err(ContractError::TicketLocked)
    );
    assert_eq!(
        validate_locked_ticket(&ledger, &revoke("redeemed")),
        Err(ContractError::TicketRedeemed)
    );
    assert_eq!(
        validate_locked_ticket(&ledger, &approve("bare")),
        Err(ContractError::NoMetadataPresent)
    );
    assert_eq!(validate_locked_ticket(&ledger, &approve("gone")), Err(ContractError::NotFound));
    assert_eq!(validate_locked_ticket(&ledger, &revoke("free")), Ok(()));
}

#[test]
fn screening_does_not_ask_who_sends() {
    // The token ledger itself decides on the sender's right.
    let mut ledger = ledger_with("free", token("owner", vec![], plain()));
    let transfer = BaseExecuteMsg::TransferNft {
        recipient: "stranger".to_string(),
        token_id: "free".to_string(),
    };
    let outcome = execute(
        &mut ledger,
        &env(),
        &info("stranger"),
        Cw721SellableExecuteMsg::BaseMsg(transfer),
        0,
    );
    let expected = BaseExecuteMsg::TransferNft {
        recipient: "stranger".to_string(),
        token_id: "free".to_string(),
    };
    assert_eq!(outcome, Ok(Outcome::Forward(expected)));
    assert_eq!(ledger.load("free").unwrap().owner, "owner");
}

#[test]
fn host_runs_in_the_mock_block() {
    let context =
        Context::new(ContractInfo { name: "N".into(), symbol: "S".into() }, "creator", None);
    assert_eq!(context.env.block.height, 12_345);
    assert_eq!(context.env.block.time, 1_571_797_419_879_305_533);
    assert_eq!(context.env.block.chain_id, "cosmos-testnet-14002");
    assert_eq!(context.ledger.minter(), "creator");
    assert_eq!(context.ledger.name(), "N");
    assert_eq!(context.ledger.symbol(), "S");
    assert_eq!(context.ledger.token_count(), 0);
    assert!(context.balances.is_empty());
}

#[test]
fn host_forwards_what_its_ledger_cannot_do() {
    let mut context = Context::default();
    let burn = BaseExecuteMsg::Burn { token_id: "t".to_string() };
    let outcome = context.execute(info("creator"), Cw721SellableExecuteMsg::BaseMsg(burn));
    assert_eq!(outcome, Ok(Outcome::Forward(BaseExecuteMsg::Burn { token_id: "t".to_string() })));
}
