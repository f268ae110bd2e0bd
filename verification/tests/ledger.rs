use cw721_sellable::context::{Context, ContractInfo};
use cw721_sellable::contract::{amount_paid, instantiate, Outcome, TICKET_URI};
use cw721_sellable::error::ContractError;
use cw721_sellable::ledger::{Ledger, MintMsg};
use cw721_sellable::msg::{
    Attribute, BankMsg, BaseExecuteMsg, BaseInstantiateMsg, ContractMetadata,
    Cw721SellableExecuteMsg, Cw721SellableQueryMsg, InstantiateMsg, Response, Sponsor, DENOM_NAME,
};
use cw721_sellable::numeral::decimal_string;
use cw721_sellable::order::{id_before, same_id};
use cw721_sellable::state::{BlockInfo, Coin, Env, MessageInfo, Metadata, TokenInfo, Trait};

fn env() -> Env {
    Env { block: BlockInfo { height: 1, time: 1, chain_id: "test".to_string() } }
}

fn info(sender: &str) -> MessageInfo {
    MessageInfo { sender: sender.to_string(), funds: vec![] }
}

fn record(owner: &str) -> TokenInfo {
    TokenInfo {
        owner: owner.to_string(),
        approvals: vec![],
        token_uri: None,
        extension: Some(Metadata::default()),
    }
}

fn ids(ledger: &Ledger) -> Vec<String> {
    (0..ledger.token_count()).map(|i| ledger.token_id(i).clone()).collect()
}

fn mint_msg(id: &str, owner: &str) -> MintMsg {
    MintMsg {
        token_id: id.to_string(),
        owner: owner.to_string(),
        token_uri: Some("uri".to_string()),
        extension: Some(Metadata { name: Some(id.to_string()), ..Metadata::default() }),
    }
}

#[test]
fn ids_are_ordered_by_their_bytes() {
    assert!(id_before("a", "b"));
    assert!(!id_before("b", "a"));
    assert!(!id_before("a", "a"));
    assert!(id_before("", "a"));
    assert!(!id_before("a", ""));
    assert!(!id_before("", ""));
    assert!(id_before("ab", "abc"));
    assert!(!id_before("abc", "ab"));
    assert!(id_before("Z", "a"));
    assert!(id_before("10", "2"));
    assert!(id_before("Burnt_Event#1", "Burnt_Locked#1"));
    assert!(id_before("z", "\u{e9}"));
    assert!(id_before("\u{e9}", "\u{4e2d}"));
    assert!(id_before("\u{ffff}", "\u{10000}"));
}

#[test]
fn ids_are_the_same_when_their_text_is() {
    assert!(same_id("", ""));
    assert!(same_id("Voyager", "Voyager"));
    assert!(!same_id("Voyager", "Voyagez"));
    assert!(!same_id("Voyager", "Voyage"));
    assert!(!same_id("a", "A"));
    assert!(same_id("\u{4e2d}\u{6587}", "\u{4e2d}\u{6587}"));
}

#[test]
fn numbers_are_written_in_decimal() {
    assert_eq!(decimal_string(0), "0");
    assert_eq!(decimal_string(7), "7");
    assert_eq!(decimal_string(9), "9");
    assert_eq!(decimal_string(10), "10");
    assert_eq!(decimal_string(101), "101");
    assert_eq!(decimal_string(1234567890), "1234567890");
    assert_eq!(decimal_string(u64::MAX), "18446744073709551615");
}

#[test]
fn new_ledger_is_empty() {
    let ledger = Ledger::new("Name".to_string(), "SYM".to_string(), "minter".to_string());
    assert_eq!(ledger.name(), "Name");
    assert_eq!(ledger.symbol(), "SYM");
    assert_eq!(ledger.minter(), "minter");
    assert_eq!(ledger.token_count(), 0);
    assert!(ledger.load("anything").is_none());
    assert_eq!(ledger.position("anything"), None);
    assert_eq!(ledger.first_after("anything"), 0);
    assert_eq!(ledger.operator("a", "b"), None);
}

#[test]
fn save_keeps_the_tokens_in_order() {
    let mut ledger = Ledger::new("N".to_string(), "S".to_string(), "minter".to_string());
    for id in ["m", "c", "x", "a", "mm", "b"] {
        ledger.save(id.to_string(), record(id));
    }
    assert_eq!(ids(&ledger), vec!["a", "b", "c", "m", "mm", "x"]);
    for (i, id) in ["a", "b", "c", "m", "mm", "x"].iter().enumerate() {
        assert_eq!(ledger.position(id), Some(i));
        assert_eq!(ledger.token_info(i).owner, *id);
        assert_eq!(ledger.load(id).unwrap().owner, *id);
    }
    assert_eq!(ledger.position("d"), None);
}

#[test]
fn save_replaces_the_record_of_a_known_id() {
    let mut ledger = Ledger::new("N".to_string(), "S".to_string(), "minter".to_string());
    ledger.save("a".to_string(), record("first"));
    ledger.save("b".to_string(), record("other"));
    ledger.save("a".to_string(), record("second"));
    assert_eq!(ledger.token_count(), 2);
    assert_eq!(ledger.load("a").unwrap().owner, "second");
    assert_eq!(ledger.load("b").unwrap().owner, "other");
}

#[test]
fn first_after_is_exclusive() {
    let mut ledger = Ledger::new("N".to_string(), "S".to_string(), "minter".to_string());
    for id in ["b", "d", "f"] {
        ledger.save(id.to_string(), record(id));
    }
    assert_eq!(ledger.first_after(""), 0);
    assert_eq!(ledger.first_after("a"), 0);
    assert_eq!(ledger.first_after("b"), 1);
    assert_eq!(ledger.first_after("c"), 1);
    assert_eq!(ledger.first_after("d"), 2);
    assert_eq!(ledger.first_after("f"), 3);
    assert_eq!(ledger.first_after("z"), 3);
}

#[test]
fn only_the_minter_mints() {
    let mut ledger = Ledger::new("N".to_string(), "S".to_string(), "minter".to_string());
    assert_eq!(ledger.mint("owner", mint_msg("t", "owner")), Err(ContractError::Unauthorized));
    assert_eq!(ledger.token_count(), 0);
    assert_eq!(ledger.mint("minter", mint_msg("t", "owner")), Ok(()));
    assert_eq!(ledger.token_count(), 1);
    let minted = ledger.load("t").unwrap();
    assert_eq!(minted.owner, "owner");
    assert!(minted.approvals.is_empty());
    assert_eq!(minted.token_uri, Some("uri".to_string()));
    assert_eq!(
        minted.extension,
        Some(Metadata { name: Some("t".to_string()), ..Metadata::default() })
    );
}

#[test]
fn an_id_is_minted_once() {
    let mut ledger = Ledger::new("N".to_string(), "S".to_string(), "minter".to_string());
    assert_eq!(ledger.mint("minter", mint_msg("t", "first")), Ok(()));
    assert_eq!(ledger.mint("minter", mint_msg("t", "second")), Err(ContractError::Claimed));
    assert_eq!(ledger.token_count(), 1);
    assert_eq!(ledger.load("t").unwrap().owner, "first");
    // Who may not mint at all is told so, whatever the id.
    assert_eq!(ledger.mint("other", mint_msg("t", "second")), Err(ContractError::Unauthorized));
}

#[test]
fn host_mints_for_the_minter_only() {
    let mut context = Context::default();
    let mint = |id: &str| Cw721SellableExecuteMsg::BaseMsg(BaseExecuteMsg::Mint(mint_msg(id, "o")));
    assert_eq!(context.execute(info("owner"), mint("t")), Err(ContractError::Unauthorized));
    assert_eq!(context.execute(info("creator"), mint("t")), Ok(Outcome::Done(Response::new())));
    assert_eq!(context.execute(info("creator"), mint("t")), Err(ContractError::Claimed));
    assert_eq!(context.ledger.token_count(), 1);
}

#[test]
fn default_metadata_is_blank() {
    let meta = Metadata::default();
    assert_eq!(meta.image, None);
    assert_eq!(meta.image_data, None);
    assert_eq!(meta.external_url, None);
    assert_eq!(meta.description, None);
    assert_eq!(meta.name, None);
    assert_eq!(meta.attributes, None);
    assert_eq!(meta.background_color, None);
    assert_eq!(meta.animation_url, None);
    assert_eq!(meta.youtube_url, None);
    assert_eq!(meta.royalty_percentage, None);
    assert_eq!(meta.royalty_payment_address, None);
    assert_eq!(meta.list_price, None);
    assert!(!meta.locked);
    assert!(!meta.redeemed);
}

#[test]
fn clones_are_equal_to_what_they_copy() {
    let meta = Metadata {
        image: Some("i".to_string()),
        attributes: Some(vec![
            Trait { display_type: None, trait_type: "kind".to_string(), value: "v".to_string() },
            Trait {
                display_type: Some("d".to_string()),
                trait_type: "k".to_string(),
                value: "w".to_string(),
            },
        ]),
        royalty_percentage: Some(5),
        list_price: Some(9),
        locked: true,
        ..Metadata::default()
    };
    assert_eq!(meta.clone(), meta);
    let token = TokenInfo {
        owner: "o".to_string(),
        approvals: vec![cw721_sellable::state::Approval {
            spender: "s".to_string(),
            expires: cw721_sellable::state::Expiration::AtTime(3),
        }],
        token_uri: Some("u".to_string()),
        extension: Some(meta),
    };
    assert_eq!(token.clone(), token);
    let message = MessageInfo { sender: "s".to_string(), funds: vec![Coin::new(3, "x")] };
    assert_eq!(message.clone(), message);
    let sponsor = Sponsor { id: "1".to_string(), name: "n".to_string() };
    assert_eq!(sponsor.clone(), sponsor);
    assert_eq!(env().clone(), env());
}

#[test]
fn default_contract_metadata_asks_for_nothing() {
    let meta = ContractMetadata::default();
    assert_eq!(meta.description, "");
    assert_eq!(meta.token_uri, None);
    assert_eq!(meta.initial_price, 0);
    assert_eq!(meta.royalty, 0);
    assert_eq!(meta.num_of_tickets, 0);
    assert!(meta.sponsors.is_empty());
}

#[test]
fn coin_and_response_builders() {
    let coin = Coin::new(30, "uturnt");
    assert_eq!(coin.amount, 30);
    assert_eq!(coin.denom, "uturnt");
    assert_eq!(DENOM_NAME, "uturnt");

    let empty = Response::new();
    assert!(empty.attributes.is_empty());
    assert!(empty.messages.is_empty());
    assert_eq!(Response::default(), Response::new());

    let response = Response::new()
        .add_attribute("method", "buy")
        .add_message(BankMsg::Send { to_address: "seller".to_string(), amount: vec![coin] })
        .add_attribute("k", "v");
    assert_eq!(
        response.attributes,
        vec![
            Attribute { key: "method".to_string(), value: "buy".to_string() },
            Attribute { key: "k".to_string(), value: "v".to_string() },
        ]
    );
    assert_eq!(
        response.messages,
        vec![BankMsg::Send {
            to_address: "seller".to_string(),
            amount: vec![Coin::new(30, "uturnt")]
        }]
    );
}

#[test]
fn amount_paid_is_that_of_the_first_coin_in_the_currency() {
    assert_eq!(amount_paid(&vec![]), 0);
    assert_eq!(amount_paid(&vec![Coin::new(5, "other")]), 0);
    assert_eq!(amount_paid(&vec![Coin::new(5, "other"), Coin::new(7, DENOM_NAME)]), 7);
    assert_eq!(amount_paid(&vec![Coin::new(7, DENOM_NAME), Coin::new(9, DENOM_NAME)]), 7);
    assert_eq!(amount_paid(&vec![Coin::new(u128::MAX, DENOM_NAME)]), u128::MAX);
}

#[test]
fn bank_balance_is_that_of_the_last_account_of_the_name() {
    let balances = vec![
        ("a".to_string(), vec![Coin::new(1, DENOM_NAME)]),
        ("b".to_string(), vec![Coin::new(2, "other"), Coin::new(3, DENOM_NAME)]),
        ("a".to_string(), vec![Coin::new(4, DENOM_NAME)]),
        ("c".to_string(), vec![Coin::new(5, "other")]),
    ];
    let context =
        Context::new(ContractInfo { name: "N".into(), symbol: "S".into() }, "m", Some(balances));
    assert_eq!(context.balance("a"), 4);
    assert_eq!(context.balance("b"), 3);
    assert_eq!(context.balance("c"), 0);
    assert_eq!(context.balance("d"), 0);
}

#[test]
fn setup_mints_and_offers_the_tickets() {
    let msg = InstantiateMsg {
        name: "Burnt Ticketing".to_string(),
        symbol: "BRNT".to_string(),
        minter: "creator".to_string(),
        contract_metadata: ContractMetadata {
            description: "Ticketing for the Burnt event".to_string(),
            num_of_tickets: 12,
            initial_price: 20,
            royalty: 3,
            ..ContractMetadata::default()
        },
    };
    let (ledger, response) = instantiate(&env(), &info("creator"), msg);
    assert_eq!(response, Response::new());
    assert_eq!(ledger.name(), "Burnt Ticketing");
    assert_eq!(ledger.symbol(), "BRNT");
    assert_eq!(ledger.minter(), "creator");
    assert_eq!(
        ids(&ledger),
        vec!["1", "10", "11", "12", "2", "3", "4", "5", "6", "7", "8", "9"]
    );
    for i in 0..ledger.token_count() {
        let ticket = ledger.token_info(i);
        assert_eq!(
            *ticket,
            TokenInfo {
                owner: "creator".to_string(),
                approvals: vec![],
                token_uri: Some(TICKET_URI.to_string()),
                extension: Some(Metadata {
                    description: Some("Ticketing for the Burnt event".to_string()),
                    name: Some("Burnt Ticketing".to_string()),
                    royalty_percentage: Some(3),
                    list_price: Some(20),
                    ..Metadata::default()
                }),
            }
        );
    }
}

#[test]
fn setup_with_price_zero_offers_nothing() {
    let msg = InstantiateMsg {
        name: "N".to_string(),
        symbol: "S".to_string(),
        minter: "creator".to_string(),
        contract_metadata: ContractMetadata { num_of_tickets: 3, ..ContractMetadata::default() },
    };
    let (ledger, _) = instantiate(&env(), &info("creator"), msg);
    assert_eq!(ledger.token_count(), 3);
    for i in 0..3 {
        assert_eq!(ledger.token_info(i).extension.as_ref().unwrap().list_price, None);
    }
}

#[test]
fn setup_without_tickets_is_open_to_anyone() {
    let msg = InstantiateMsg {
        name: "N".to_string(),
        symbol: "S".to_string(),
        minter: "creator".to_string(),
        contract_metadata: ContractMetadata::default(),
    };
    let (ledger, _) = instantiate(&env(), &info("someone"), msg);
    assert_eq!(ledger.token_count(), 0);
    assert_eq!(ledger.minter(), "creator");
}

#[test]
fn messages_unwrap_to_what_they_carry() {
    let base = BaseExecuteMsg::RevokeAll { operator: "o".to_string() };
    let msg = Cw721SellableExecuteMsg::BaseMsg(base);
    assert_eq!(msg.into_base(), BaseExecuteMsg::RevokeAll { operator: "o".to_string() });

    let question = cw2981_royalties::msg::Cw2981QueryMsg::RoyaltyInfo {
        token_id: "t".to_string(),
        sale_price: cosmwasm_std::Uint128::new(100),
    };
    let msg = Cw721SellableQueryMsg::Cw2981Query(question.clone());
    assert_eq!(msg.into_royalty_query(), question);

    let setup = InstantiateMsg {
        name: "N".to_string(),
        symbol: "S".to_string(),
        minter: "creator".to_string(),
        contract_metadata: ContractMetadata::default(),
    };
    assert_eq!(
        BaseInstantiateMsg::from(setup),
        BaseInstantiateMsg {
            name: "N".to_string(),
            symbol: "S".to_string(),
            minter: "creator".to_string()
        }
    );
}
