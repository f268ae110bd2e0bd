use cw721_sellable::contract::{instantiate, query, QueryResponse};
use cw721_sellable::execute::{try_list, try_redeem};
use cw721_sellable::ledger::Ledger;
use cw721_sellable::msg::{ContractMetadata, Cw721SellableQueryMsg, InstantiateMsg};
use cw721_sellable::query::{listed_tokens, DEFAULT_LIMIT, MAX_LIMIT};
use cw721_sellable::state::{BlockInfo, Env, MessageInfo, Metadata, TokenInfo};

fn env() -> Env {
    Env { block: BlockInfo { height: 1, time: 1, chain_id: "test".to_string() } }
}

fn info(sender: &str) -> MessageInfo {
    MessageInfo { sender: sender.to_string(), funds: vec![] }
}

fn record(price: Option<u64>) -> TokenInfo {
    TokenInfo {
        owner: "owner".to_string(),
        approvals: vec![],
        token_uri: None,
        extension: Some(Metadata { list_price: price, ..Metadata::default() }),
    }
}

fn ledger(tokens: Vec<(&str, Option<u64>)>) -> Ledger {
    let mut ledger = Ledger::new("N".to_string(), "S".to_string(), "minter".to_string());
    for (id, price) in tokens {
        ledger.save(id.to_string(), record(price));
    }
    ledger
}

fn page(ledger: &Ledger, start_after: Option<&str>, limit: Option<u32>) -> Vec<String> {
    listed_tokens(ledger, start_after.map(|s| s.to_string()), limit)
        .tokens
        .into_iter()
        .map(|(id, _)| id)
        .collect()
}

fn tickets(count: u64) -> Ledger {
    let msg = InstantiateMsg {
        name: "N".to_string(),
        symbol: "S".to_string(),
        minter: "minter".to_string(),
        contract_metadata: ContractMetadata {
            num_of_tickets: count,
            initial_price: 1,
            ..ContractMetadata::default()
        },
    };
    instantiate(&env(), &info("minter"), msg).0
}

#[test]
fn only_listed_tokens_are_shown() {
    let mut ledger = ledger(vec![("a", Some(3)), ("b", None), ("c", Some(0)), ("d", Some(1))]);
    ledger.save(
        "e".to_string(),
        TokenInfo { owner: "o".to_string(), approvals: vec![], token_uri: None, extension: None },
    );
    let shown = listed_tokens(&ledger, None, None);
    assert_eq!(
        shown.tokens,
        vec![("a".to_string(), record(Some(3))), ("d".to_string(), record(Some(1)))]
    );
}

#[test]
fn listing_then_query_shows_the_token_at_its_price() {
    let mut ledger = ledger(vec![("a", None), ("b", None)]);
    assert!(page(&ledger, None, None).is_empty());
    try_list(&mut ledger, &env(), &info("owner"), vec![("b".to_string(), 42)]).unwrap();
    let shown = listed_tokens(&ledger, None, None);
    assert_eq!(shown.tokens, vec![("b".to_string(), record(Some(42)))]);
    try_list(&mut ledger, &env(), &info("owner"), vec![("b".to_string(), 0)]).unwrap();
    assert!(page(&ledger, None, None).is_empty());
}

#[test]
fn redeemed_ticket_is_no_longer_shown() {
    let mut ledger = ledger(vec![("a", Some(3)), ("b", Some(4))]);
    try_redeem(&mut ledger, &info("minter"), "owner".to_string(), &"a".to_string()).unwrap();
    assert_eq!(page(&ledger, None, None), vec!["b"]);
}

#[test]
fn cursor_is_exclusive() {
    let ledger = ledger(vec![("a", Some(1)), ("b", Some(1)), ("c", Some(1)), ("d", None)]);
    assert_eq!(page(&ledger, None, None), vec!["a", "b", "c"]);
    assert_eq!(page(&ledger, Some(""), None), vec!["a", "b", "c"]);
    assert_eq!(page(&ledger, Some("a"), None), vec!["b", "c"]);
    assert_eq!(page(&ledger, Some("aa"), None), vec!["b", "c"]);
    assert_eq!(page(&ledger, Some("b"), None), vec!["c"]);
    assert!(page(&ledger, Some("c"), None).is_empty());
    assert!(page(&ledger, Some("z"), None).is_empty());
}

#[test]
fn limit_cuts_the_page() {
    let ledger = ledger(vec![("a", Some(1)), ("b", None), ("c", Some(1)), ("d", Some(1))]);
    assert!(page(&ledger, None, Some(0)).is_empty());
    assert_eq!(page(&ledger, None, Some(1)), vec!["a"]);
    assert_eq!(page(&ledger, None, Some(2)), vec!["a", "c"]);
    assert_eq!(page(&ledger, None, Some(3)), vec!["a", "c", "d"]);
    assert_eq!(page(&ledger, None, Some(4)), vec!["a", "c", "d"]);
    assert_eq!(page(&ledger, Some("a"), Some(1)), vec!["c"]);
}

#[test]
fn pages_join_without_gaps_or_repeats() {
    let ledger = ledger(vec![
        ("Bullock", Some(30)),
        ("Defiant", None),
        ("Enterprise", Some(31)),
        ("Reliant", Some(7)),
        ("Voyager", Some(2)),
    ]);
    let first = page(&ledger, None, Some(1));
    assert_eq!(first, vec!["Bullock"]);
    let rest = page(&ledger, Some(first.last().unwrap()), None);
    assert_eq!(rest, vec!["Enterprise", "Reliant", "Voyager"]);

    let mut walked: Vec<String> = vec![];
    let mut cursor: Option<String> = None;
    loop {
        let next = page(&ledger, cursor.as_deref(), Some(2));
        if next.is_empty() {
            break;
        }
        cursor = next.last().cloned();
        walked.extend(next);
    }
    assert_eq!(walked, page(&ledger, None, None));
    assert_eq!(walked, vec!["Bullock", "Enterprise", "Reliant", "Voyager"]);
}

#[test]
fn page_holds_500_by_default() {
    assert_eq!(DEFAULT_LIMIT, 500);
    let ledger = tickets(501);
    assert_eq!(page(&ledger, None, None).len(), 500);
    assert_eq!(page(&ledger, None, Some(501)).len(), 501);
    let first = page(&ledger, None, None);
    let rest = page(&ledger, Some(first.last().unwrap()), None);
    assert_eq!(rest.len(), 1);
    assert_eq!(rest[0], "99");
}

#[test]
fn page_never_holds_more_than_10000() {
    assert_eq!(MAX_LIMIT, 10000);
    let ledger = tickets(10_001);
    assert_eq!(ledger.token_count(), 10_001);
    assert_eq!(page(&ledger, None, Some(10_000)).len(), 10_000);
    assert_eq!(page(&ledger, None, Some(10_001)).len(), 10_000);
    assert_eq!(page(&ledger, None, Some(u32::MAX)).len(), 10_000);
}

#[test]
fn questions_reach_their_answers() {
    let ledger = ledger(vec![("a", Some(1)), ("b", Some(2))]);
    let msg = Cw721SellableQueryMsg::ListedTokens { start_after: Some("a".into()), limit: Some(5) };
    match query(&ledger, &env(), msg) {
        QueryResponse::ListedTokens(shown) => {
            assert_eq!(shown.tokens, vec![("b".to_string(), record(Some(2)))])
        }
        other => panic!("expected a page, not {:?}", other),
    }
    let question = cw2981_royalties::msg::Cw2981QueryMsg::CheckRoyalties {};
    let msg = Cw721SellableQueryMsg::Cw2981Query(question.clone());
    assert_eq!(query(&ledger, &env(), msg), QueryResponse::Forward(question));
}
