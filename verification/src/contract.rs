//! The entry points of the contract: setting it up, carrying out a message,
//! and answering a question.

use vstd::prelude::*;
use crate::error::ContractError;
use crate::execute::{
    asked, buy_result, list_result, listings_view, offer, redeem_result, refused_at, try_buy,
    try_list, try_redeem,
};
use crate::guard::{screened, validate_locked_ticket};
use crate::ledger::{has_token, lemma_same_ids, minted, with_price, Ledger, LedgerView, MintMsg};
use crate::msg::{
    BaseExecuteMsg, BaseInstantiateMsg, Cw721SellableExecuteMsg, Cw721SellableQueryMsg,
    InstantiateMsg, Response, ResponseView, DENOM_NAME,
};
use crate::numeral::{decimal, decimal_string, lemma_decimal_injective};
use crate::query::{listed_page, listed_tokens, ListedTokensResponse};
use crate::state::{
    blank_metadata, coins_view, opt_text, Coin, CoinView, Env, MessageInfo, Metadata,
    MetadataView, TokenInfoView,
};

verus! {

/// Where the description of every ticket minted at setup is found.
pub const TICKET_URI: &'static str = "https://starships.example.com/Starship/Enterprise.json";

/// What the host does next with a message that was accepted.
#[derive(Debug, PartialEq, Eq)]
pub enum Outcome {
    /// The message was carried out; this is the answer.
    Done(Response),
    /// The message is for the token ledger itself and may go on to it.
    Forward(BaseExecuteMsg),
}

/// What the host does with a question.
#[derive(Debug, PartialEq)]
pub enum QueryResponse {
    /// The answer to a question about the tokens on offer.
    ListedTokens(ListedTokensResponse),
    /// The question is about royalties and goes on to the token ledger.
    Forward(cw2981_royalties::msg::Cw2981QueryMsg),
}

impl Cw721SellableExecuteMsg {
    /// The message for the token ledger that this one wraps.
    pub fn into_base(self) -> (r: BaseExecuteMsg)
        requires
            self is BaseMsg,
        ensures
            r == self->BaseMsg_0,
    {
        match self {
            Cw721SellableExecuteMsg::BaseMsg(msg) => msg,
            _ => vstd::pervasive::unreached(),
        }
    }
}

impl Cw721SellableQueryMsg {
    /// The question about royalties that this one wraps.
    pub fn into_royalty_query(self) -> (r: cw2981_royalties::msg::Cw2981QueryMsg)
        requires
            self is Cw2981Query,
        ensures
            r == self->Cw2981Query_0,
    {
        match self {
            Cw721SellableQueryMsg::Cw2981Query(msg) => msg,
            _ => vstd::pervasive::unreached(),
        }
    }
}

impl From<InstantiateMsg> for BaseInstantiateMsg {
    /// Keeps what the token ledger needs and drops what is said of the
    /// collection as a whole.
    fn from(msg: InstantiateMsg) -> (r: BaseInstantiateMsg) {
        BaseInstantiateMsg { name: msg.name, symbol: msg.symbol, minter: msg.minter }
    }
}

impl vstd::std_specs::convert::FromSpecImpl<InstantiateMsg> for BaseInstantiateMsg {
    open spec fn obeys_from_spec() -> bool {
        true
    }

    open spec fn from_spec(msg: InstantiateMsg) -> BaseInstantiateMsg {
        BaseInstantiateMsg { name: msg.name, symbol: msg.symbol, minter: msg.minter }
    }
}

/// The amount of the payment currency among `funds`, read from place `i` on:
/// that of the first coin in that currency, and 0 where there is none.
pub open spec fn paid_from(funds: Seq<CoinView>, i: int) -> u128
    decreases funds.len() - i,
{
    if i < 0 || i >= funds.len() {
        0
    } else if funds[i].denom == DENOM_NAME@ {
        funds[i].amount
    } else {
        paid_from(funds, i + 1)
    }
}

/// The highest price that a buyer accepts: the limit named in the message,
/// or else the amount of the payment currency sent along, as far as a price
/// can go.
pub open spec fn ceiling(limit: Option<u64>, funds: Seq<CoinView>) -> u64 {
    match limit {
        Some(limit) => limit,
        None => if paid_from(funds, 0) > u64::MAX {
            u64::MAX
        } else {
            paid_from(funds, 0) as u64
        },
    }
}

/// What a buyer has to pay with: its balance where the message names a
/// limit, and else what it sent along, which is then in the contract's
/// custody.
pub open spec fn funds_at_hand(limit: Option<u64>, funds: Seq<CoinView>, balance: u128) -> u128 {
    match limit {
        Some(_) => balance,
        None => paid_from(funds, 0),
    }
}

/// The answer, or the error, of a message that was not sent on.
pub open spec fn answer(r: Result<Outcome, ContractError>) -> Option<
    Result<Response, ContractError>,
> {
    match r {
        Ok(Outcome::Done(response)) => Some(Ok(response)),
        Ok(Outcome::Forward(_)) => None,
        Err(e) => Some(Err(e)),
    }
}

/// How the result of a message and the ledger after it follow from the
/// ledger before it. A message of the marketplace is carried out. A message
/// for the token ledger is screened and sent on, and changes nothing here.
pub open spec fn execute_result(
    before: LedgerView,
    after: LedgerView,
    env: Env,
    info: MessageInfo,
    msg: Cw721SellableExecuteMsg,
    balance: u128,
    r: Result<Outcome, ContractError>,
) -> bool {
    match msg {
        Cw721SellableExecuteMsg::BaseMsg(base) => after == before && match r {
            Ok(Outcome::Forward(sent)) => sent == base && screened(before, base) is Ok,
            Ok(Outcome::Done(_)) => false,
            Err(e) => screened(before, base) == Err::<(), ContractError>(e),
        },
        Cw721SellableExecuteMsg::List { listings } => answer(r) is Some && list_result(
            before,
            after,
            env.block.height,
            env.block.time,
            info.sender@,
            listings_view(listings@),
            answer(r).unwrap(),
        ),
        Cw721SellableExecuteMsg::Buy { limit } => answer(r) is Some && buy_result(
            before,
            after,
            info.sender@,
            ceiling(limit, coins_view(info.funds@)),
            funds_at_hand(limit, coins_view(info.funds@), balance),
            answer(r).unwrap(),
        ),
        Cw721SellableExecuteMsg::RedeemTicket { address, ticket_id } => answer(r) is Some
            && redeem_result(before, after, info.sender@, address@, ticket_id@, answer(r).unwrap()),
    }
}

/// The amount of the payment currency among `funds`.
pub fn amount_paid(funds: &Vec<Coin>) -> (r: u128)
    ensures
        r == paid_from(coins_view(funds@), 0),
{
    let mut i: usize = 0;
    while i < funds.len()
        invariant
            i <= funds.len(),
            paid_from(coins_view(funds@), 0) == paid_from(coins_view(funds@), i as int),
        decreases funds.len() - i,
    {
        if crate::order::same_id(funds[i].denom.as_str(), DENOM_NAME) {
            return funds[i].amount;
        }
        i = i + 1;
    }
    0
}

/// Carries out a message for the sender of `info`, whose balance in the
/// payment currency is `balance`. The balance counts only for a purchase
/// with a limit; a purchase without one is paid from what was sent along.
pub fn execute(
    ledger: &mut Ledger,
    env: &Env,
    info: &MessageInfo,
    msg: Cw721SellableExecuteMsg,
    balance: u128,
) -> (r: Result<Outcome, ContractError>)
    requires
        old(ledger)@.wf(),
    ensures
        final(ledger)@.wf(),
        execute_result(old(ledger)@, final(ledger)@, *env, *info, msg, balance, r),
{
    match msg {
        Cw721SellableExecuteMsg::List { listings } => {
            match try_list(ledger, env, info, listings) {
                Ok(response) => Ok(Outcome::Done(response)),
                Err(e) => Err(e),
            }
        },
        Cw721SellableExecuteMsg::Buy { limit } => {
            let (limit, at_hand) = match limit {
                Some(limit) => (limit, balance),
                None => {
                    let paid = amount_paid(&info.funds);
                    if paid > u64::MAX as u128 {
                        (u64::MAX, paid)
                    } else {
                        (paid as u64, paid)
                    }
                },
            };
            match try_buy(ledger, info, limit, at_hand) {
                Ok(response) => Ok(Outcome::Done(response)),
                Err(e) => Err(e),
            }
        },
        Cw721SellableExecuteMsg::RedeemTicket { address, ticket_id } => {
            match try_redeem(ledger, info, address, &ticket_id) {
                Ok(response) => Ok(Outcome::Done(response)),
                Err(e) => Err(e),
            }
        },
        Cw721SellableExecuteMsg::BaseMsg(base) => {
            match validate_locked_ticket(ledger, &base) {
                Ok(_) => Ok(Outcome::Forward(base)),
                Err(e) => Err(e),
            }
        },
    }
}

/// Answers a question: one about the tokens on offer from the ledger, while
/// one about royalties goes on to the token ledger.
pub fn query(ledger: &Ledger, env: &Env, msg: Cw721SellableQueryMsg) -> (r: QueryResponse)
    requires
        ledger@.wf(),
    ensures
        match msg {
            Cw721SellableQueryMsg::ListedTokens { start_after, limit } => r matches QueryResponse::ListedTokens(
                page,
            ) && page@ == listed_page(ledger@.tokens, opt_text(start_after), limit),
            Cw721SellableQueryMsg::Cw2981Query(question) => r matches QueryResponse::Forward(sent)
                && sent == question,
        },
{
    match msg {
        Cw721SellableQueryMsg::ListedTokens { start_after, limit } => QueryResponse::ListedTokens(
            listed_tokens(ledger, start_after, limit),
        ),
        Cw721SellableQueryMsg::Cw2981Query(question) => QueryResponse::Forward(question),
    }
}

/// The record of a ticket as setup mints it, before it is offered.
pub open spec fn fresh_ticket(msg: InstantiateMsg) -> TokenInfoView {
    minted(
        msg.minter@,
        Some(TICKET_URI@),
        Some(
            MetadataView {
                description: Some(msg.contract_metadata.description@),
                name: Some(msg.name@),
                royalty_percentage: Some(msg.contract_metadata.royalty),
                ..blank_metadata()
            },
        ),
    )
}

/// The record of a ticket after setup: owned by the minter, and offered at
/// the initial price unless that is 0.
pub open spec fn ticket(msg: InstantiateMsg) -> TokenInfoView {
    with_price(fresh_ticket(msg), offer(msg.contract_metadata.initial_price))
}

/// Listings that all name the same price leave every token that one of them
/// names at that price.
proof fn lemma_asked_uniform(
    current: Option<u64>,
    id: Seq<char>,
    listings: Seq<(Seq<char>, u64)>,
    price: u64,
)
    requires
        forall|j: int| 0 <= j < listings.len() ==> (#[trigger] listings[j]).1 == price,
        exists|j: int| 0 <= j < listings.len() && (#[trigger] listings[j]).0 == id,
    ensures
        asked(current, id, listings) == offer(price),
    decreases listings.len(),
{
    if listings.last().0 != id {
        let j = choose|j: int| 0 <= j < listings.len() && (#[trigger] listings[j]).0 == id;
        assert(listings.drop_last()[j].0 == id);
        lemma_asked_uniform(current, id, listings.drop_last(), price);
    }
}

/// Sets the contract up for the sender of `info`: a ledger under the name,
/// symbol and minter of `msg`, with as many tickets as `msg` asks for. The
/// tickets have the ids 1, 2, and so on, belong to the minter, and are
/// offered at the initial price unless that is 0. Only the minter can have
/// tickets minted.
pub fn instantiate(env: &Env, info: &MessageInfo, msg: InstantiateMsg) -> (r: (Ledger, Response))
    requires
        msg.contract_metadata.num_of_tickets > 0 ==> info.sender@ == msg.minter@,
    ensures
        r.0@.wf(),
        r.0@.name == msg.name@,
        r.0@.symbol == msg.symbol@,
        r.0@.minter == msg.minter@,
        r.0@.operators.len() == 0,
        r.0@.tokens.len() == msg.contract_metadata.num_of_tickets,
        forall|n: nat|
            1 <= n <= msg.contract_metadata.num_of_tickets ==> r.0@.token(#[trigger] decimal(n))
                == Some(ticket(msg)),
        forall|id: Seq<char>|
            has_token(r.0@.tokens, id) ==> exists|n: nat|
                1 <= n <= msg.contract_metadata.num_of_tickets && id == #[trigger] decimal(n),
        r.1@ == (ResponseView { attributes: Seq::empty(), messages: Seq::empty() }),
{
    let count = msg.contract_metadata.num_of_tickets;
    let price = msg.contract_metadata.initial_price;
    let mut ledger = Ledger::new(msg.name.clone(), msg.symbol.clone(), msg.minter.clone());
    let ghost blank = ledger@;
    let mut listings: Vec<(String, u64)> = Vec::new();
    let mut n: u64 = 0;
    while n < count
        invariant
            n <= count,
            count == msg.contract_metadata.num_of_tickets,
            price == msg.contract_metadata.initial_price,
            count > 0 ==> info.sender@ == msg.minter@,
            ledger@.wf(),
            ledger@.with_tokens(Seq::empty()) == blank,
            blank.minter == msg.minter@,
            ledger@.tokens.len() == n,
            forall|m: nat| 1 <= m <= n ==> ledger@.token(#[trigger] decimal(m)) == Some(
                fresh_ticket(msg),
            ),
            forall|id: Seq<char>|
                has_token(ledger@.tokens, id) ==> exists|m: nat|
                    1 <= m <= n && id == #[trigger] decimal(m),
            listings.len() == n,
            forall|j: int|
                0 <= j < n ==> (#[trigger] listings_view(listings@)[j]) == (
                    decimal((j + 1) as nat),
                    price,
                ),
        decreases count - n,
    {
        n = n + 1;
        let ghost before = ledger@;
        let ghost listed_before = listings_view(listings@);
        let token_id = decimal_string(n);
        let mint_msg = MintMsg {
            token_id: token_id.clone(),
            owner: msg.minter.clone(),
            token_uri: Some(TICKET_URI.to_owned()),
            extension: Some(
                Metadata {
                    image: None,
                    image_data: None,
                    external_url: None,
                    description: Some(msg.contract_metadata.description.clone()),
                    name: Some(msg.name.clone()),
                    attributes: None,
                    background_color: None,
                    animation_url: None,
                    youtube_url: None,
                    royalty_percentage: Some(msg.contract_metadata.royalty),
                    royalty_payment_address: None,
                    list_price: None,
                    locked: false,
                    redeemed: false,
                },
            ),
        };
        proof {
            if has_token(before.tokens, token_id@) {
                let m = choose|m: nat| 1 <= m <= n - 1 && token_id@ == #[trigger] decimal(m);
                lemma_decimal_injective(m, n as nat);
            }
        }
        // The sender is the minter and the id is new, so this is granted.
        let _ = ledger.mint(info.sender.as_str(), mint_msg);
        listings.push((token_id, price));
        proof {
            assert forall|id: Seq<char>| has_token(ledger@.tokens, id) implies exists|m: nat|
                1 <= m <= n && id == #[trigger] decimal(m) by {
                if id != decimal(n as nat) {
                    assert(ledger@.token(id) == before.token(id));
                    assert(has_token(before.tokens, id));
                }
            }
            assert forall|j: int| 0 <= j < n implies (#[trigger] listings_view(listings@)[j]) == (
                decimal((j + 1) as nat),
                price,
            ) by {
                if j < n - 1 {
                    assert(listings_view(listings@)[j] == listed_before[j]);
                }
            }
        }
    }
    let ghost minted_all = ledger@;
    let ghost entries = listings_view(listings@);
    let ghost height = env.block.height;
    let ghost time = env.block.time;
    proof {
        assert forall|k: int| !refused_at(minted_all, height, time, info.sender@, entries, k) by {}
    }
    // The tickets are the sender's own and open, so the guard accepts all.
    let _ = try_list(&mut ledger, env, info, listings);
    proof {
        let after = ledger@.tokens;
        lemma_same_ids(minted_all.tokens, after);
        assert forall|m: nat| 1 <= m <= count implies ledger@.token(#[trigger] decimal(m)) == Some(
            ticket(msg),
        ) by {
            assert(entries[m - 1].0 == decimal(m));
            lemma_asked_uniform(None, decimal(m), entries, price);
        }
    }
    (ledger, Response::new())
}

} // verus!
