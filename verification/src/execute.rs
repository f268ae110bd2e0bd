//! The three operations of the marketplace: listing tokens, buying the
//! cheapest one, and redeeming a ticket.

use vstd::prelude::*;
use crate::error::ContractError;
use crate::guard::{can_send, check_can_send, check_ticket_state, ticket_state};
use crate::ledger::{
    has_token, lemma_one_place, lemma_same_ids, position_of, redeemed, sold_to, sorted,
    with_price, Ledger, LedgerView,
};
use crate::msg::{method_response, payment, BankMsg, Response, ResponseView, DENOM_NAME};
use crate::order::{id_le, lemma_id_lt_asymmetric, same_id};
use crate::state::{Coin, Env, MessageInfo, TokenInfoView};

verus! {

/// A token is for sale when it carries metadata, is not redeemed and has a
/// positive asking price.
pub open spec fn for_sale(t: TokenInfoView) -> bool {
    match t.extension {
        Some(m) => !m.redeemed && m.list_price is Some && m.list_price.unwrap() > 0,
        None => false,
    }
}

/// The asking price of a token that is for sale.
pub open spec fn asking_price(t: TokenInfoView) -> u64 {
    t.extension.unwrap().list_price.unwrap()
}

/// Whether something is for sale.
pub open spec fn anything_for_sale(tokens: Seq<(Seq<char>, TokenInfoView)>) -> bool {
    exists|j: int| 0 <= j < tokens.len() && for_sale((#[trigger] tokens[j]).1)
}

/// The offer in place `w` is not worse than the one in place `j`: it is
/// cheaper, or as cheap and not filed under a later id.
pub open spec fn beats(tokens: Seq<(Seq<char>, TokenInfoView)>, w: int, j: int) -> bool {
    asking_price(tokens[w].1) < asking_price(tokens[j].1) || (asking_price(tokens[w].1)
        == asking_price(tokens[j].1) && id_le(tokens[w].0, tokens[j].0))
}

/// The token in place `w` is the one a buyer gets: it is for sale, no token
/// for sale is cheaper, and of those as cheap it has the smallest id.
pub open spec fn cheapest(tokens: Seq<(Seq<char>, TokenInfoView)>, w: int) -> bool {
    &&& 0 <= w < tokens.len()
    &&& for_sale(tokens[w].1)
    &&& forall|j: int|
        0 <= j < tokens.len() && for_sale((#[trigger] tokens[j]).1) ==> beats(tokens, w, j)
}

/// The place of the token a buyer gets.
pub open spec fn best_offer(tokens: Seq<(Seq<char>, TokenInfoView)>) -> int {
    choose|w: int| cheapest(tokens, w)
}

/// A purchase: the ledger after it, and who is paid how much for which
/// token.
pub struct Sale {
    pub ledger: LedgerView,
    pub seller: Seq<char>,
    pub token_id: Seq<char>,
    pub price: u64,
}

/// What becomes of a purchase by `buyer`, who accepts any price up to
/// `limit` and has `balance` units of the payment currency.
pub open spec fn buy_outcome(ledger: LedgerView, buyer: Seq<char>, limit: u64, balance: u128)
    -> Result<Sale, ContractError> {
    if balance < limit {
        Err(ContractError::Unauthorized)
    } else if !anything_for_sale(ledger.tokens) {
        Err(ContractError::NoListedTokensError)
    } else {
        let w = best_offer(ledger.tokens);
        let price = asking_price(ledger.tokens[w].1);
        if price > limit {
            Err(ContractError::LimitBelowLowestOffer { limit, lowest_price: price })
        } else {
            Ok(
                Sale {
                    ledger: ledger.with_record(w, sold_to(ledger.tokens[w].1, buyer)),
                    seller: ledger.tokens[w].1.owner,
                    token_id: ledger.tokens[w].0,
                    price,
                },
            )
        }
    }
}

/// What the host is told after a purchase: the method, and the order to pay
/// the seller the price of the token.
pub open spec fn sale_response(seller: Seq<char>, price: u64) -> ResponseView {
    ResponseView { attributes: seq![("method"@, "buy"@)], messages: seq![payment(seller, price)] }
}

/// How the result of a purchase and the ledger after it follow from the
/// ledger before it: a failure changes nothing.
pub open spec fn buy_result(
    before: LedgerView,
    after: LedgerView,
    buyer: Seq<char>,
    limit: u64,
    balance: u128,
    r: Result<Response, ContractError>,
) -> bool {
    match (buy_outcome(before, buyer, limit, balance), r) {
        (Ok(sale), Ok(response)) => after == sale.ledger && response@ == sale_response(
            sale.seller,
            sale.price,
        ),
        (Err(expected), Err(e)) => e == expected && after == before,
        _ => false,
    }
}

/// In an ordered file at most one token is the cheapest.
pub proof fn lemma_cheapest_unique(tokens: Seq<(Seq<char>, TokenInfoView)>, a: int, b: int)
    requires
        sorted(tokens),
        cheapest(tokens, a),
        cheapest(tokens, b),
    ensures
        a == b,
{
    if tokens[a].0 != tokens[b].0 {
        lemma_id_lt_asymmetric(tokens[a].0, tokens[b].0);
    }
    lemma_one_place(tokens, a, b);
}

/// Among the first `n` tokens of an ordered file, where one of them is for
/// sale, one is not worse than any other that is for sale.
proof fn lemma_cheapest_among(tokens: Seq<(Seq<char>, TokenInfoView)>, n: int) -> (w: int)
    requires
        sorted(tokens),
        0 <= n <= tokens.len(),
        exists|j: int| 0 <= j < n && for_sale((#[trigger] tokens[j]).1),
    ensures
        0 <= w < n,
        for_sale(tokens[w].1),
        forall|j: int| 0 <= j < n && for_sale((#[trigger] tokens[j]).1) ==> beats(tokens, w, j),
    decreases n,
{
    let last = n - 1;
    if exists|j: int| 0 <= j < last && for_sale((#[trigger] tokens[j]).1) {
        let w = lemma_cheapest_among(tokens, last);
        if for_sale(tokens[last].1) && asking_price(tokens[last].1) < asking_price(tokens[w].1) {
            last
        } else {
            w
        }
    } else {
        last
    }
}

/// Where something is for sale in an ordered file, the token that a buyer
/// gets is the cheapest.
pub proof fn lemma_cheapest_exists(tokens: Seq<(Seq<char>, TokenInfoView)>)
    requires
        sorted(tokens),
        anything_for_sale(tokens),
    ensures
        cheapest(tokens, best_offer(tokens)),
{
    let w = lemma_cheapest_among(tokens, tokens.len() as int);
    assert(cheapest(tokens, w));
}

/// A purchase as the buyer sees it: which token it got, and whom the
/// contract pays how much for it.
#[derive(Debug, PartialEq, Eq)]
pub struct Purchase {
    pub seller: String,
    pub token_id: String,
    pub price: u64,
}

/// How a purchase and the ledger after it follow from the ledger before it:
/// a failure changes nothing.
pub open spec fn purchase_result(
    before: LedgerView,
    after: LedgerView,
    buyer: Seq<char>,
    limit: u64,
    balance: u128,
    r: Result<Purchase, ContractError>,
) -> bool {
    match (buy_outcome(before, buyer, limit, balance), r) {
        (Ok(sale), Ok(purchase)) => {
            &&& after == sale.ledger
            &&& purchase.seller@ == sale.seller
            &&& purchase.token_id@ == sale.token_id
            &&& purchase.price == sale.price
        },
        (Err(expected), Err(e)) => e == expected && after == before,
        _ => false,
    }
}

/// Buys the cheapest token on offer for `buyer`, who accepts any price up
/// to `limit` and has `balance` units of the payment currency. Of the
/// cheapest tokens the one with the smallest id is taken. It changes hands
/// and leaves the market.
pub fn buy(ledger: &mut Ledger, buyer: &str, limit: u64, balance: u128) -> (r: Result<
    Purchase,
    ContractError,
>)
    requires
        old(ledger)@.wf(),
    ensures
        final(ledger)@.wf(),
        purchase_result(old(ledger)@, final(ledger)@, buyer@, limit, balance, r),
{
    if balance < limit as u128 {
        return Err(ContractError::Unauthorized);
    }
    let ghost tokens = ledger@.tokens;
    let n = ledger.token_count();
    let mut best: Option<(usize, u64)> = None;
    let mut i: usize = 0;
    while i < n
        invariant
            i <= n,
            n == tokens.len(),
            ledger@ == old(ledger)@,
            tokens == ledger@.tokens,
            sorted(tokens),
            match best {
                None => forall|j: int| 0 <= j < i ==> !for_sale((#[trigger] tokens[j]).1),
                Some((w, p)) => {
                    &&& w < i
                    &&& for_sale(tokens[w as int].1)
                    &&& p == asking_price(tokens[w as int].1)
                    &&& forall|j: int|
                        0 <= j < i && for_sale((#[trigger] tokens[j]).1) ==> beats(
                            tokens,
                            w as int,
                            j,
                        )
                },
            },
        decreases n - i,
    {
        let token = ledger.token_info(i);
        match &token.extension {
            Some(meta) => {
                if !meta.redeemed {
                    match meta.list_price {
                        Some(price) => {
                            if price > 0 {
                                match best {
                                    Some((w, lowest)) => {
                                        if price < lowest {
                                            best = Some((i, price));
                                        }
                                    },
                                    None => {
                                        best = Some((i, price));
                                    },
                                }
                            }
                        },
                        None => {},
                    }
                }
            },
            None => {},
        }
        i = i + 1;
    }
    match best {
        None => Err(ContractError::NoListedTokensError),
        Some((w, price)) => {
            proof {
                assert(cheapest(tokens, w as int));
                lemma_cheapest_unique(tokens, w as int, best_offer(tokens));
            }
            if price > limit {
                Err(ContractError::LimitBelowLowestOffer { limit, lowest_price: price })
            } else {
                let seller = ledger.token_info(w).owner.clone();
                let token_id = ledger.token_id(w).clone();
                ledger.sell(w, buyer.to_owned());
                Ok(Purchase { seller, token_id, price })
            }
        },
    }
}

/// Buys the cheapest token on offer for the sender of `info`, who accepts
/// any price up to `limit` and has `balance` units of the payment currency.
/// The token changes hands and leaves the market, and the answer orders the
/// payment of its price, not of the limit, to the seller.
pub fn try_buy(ledger: &mut Ledger, info: &MessageInfo, limit: u64, balance: u128) -> (r: Result<
    Response,
    ContractError,
>)
    requires
        old(ledger)@.wf(),
    ensures
        final(ledger)@.wf(),
        buy_result(old(ledger)@, final(ledger)@, info.sender@, limit, balance, r),
{
    match buy(ledger, info.sender.as_str(), limit, balance) {
        Err(e) => Err(e),
        Ok(purchase) => {
            let ghost seller = purchase.seller@;
            let price = purchase.price;
            let amount = vec![Coin::new(price as u128, DENOM_NAME)];
            let pay = BankMsg::Send { to_address: purchase.seller, amount };
            assert(pay@ == payment(seller, price)) by {
                assert(crate::state::coins_view(amount@) =~= seq![amount@[0]@]);
            }
            let response = Response::new().add_attribute("method", "buy").add_message(pay);
            Ok(response)
        },
    }
}

/// What becomes of the redemption of `ticket_id`, which the caller says
/// belongs to `address`. Only the minter redeems, only a ticket that is on
/// file and does belong to `address`, and only one that carries metadata and
/// is neither redeemed nor locked.
pub open spec fn redeem_outcome(
    ledger: LedgerView,
    caller: Seq<char>,
    address: Seq<char>,
    ticket_id: Seq<char>,
) -> Result<LedgerView, ContractError> {
    if caller != ledger.minter {
        Err(ContractError::Unauthorized)
    } else {
        match ledger.token(ticket_id) {
            None => Err(ContractError::NotFound),
            Some(ticket) => if ticket.owner != address {
                Err(ContractError::Unauthorized)
            } else {
                match ticket_state(ticket.extension) {
                    Err(e) => Err(e),
                    Ok(_) => Ok(
                        ledger.with_record(position_of(ledger.tokens, ticket_id), redeemed(ticket)),
                    ),
                }
            },
        }
    }
}

/// How the result of a redemption and the ledger after it follow from the
/// ledger before it: a failure changes nothing.
pub open spec fn redeem_result(
    before: LedgerView,
    after: LedgerView,
    caller: Seq<char>,
    address: Seq<char>,
    ticket_id: Seq<char>,
    r: Result<Response, ContractError>,
) -> bool {
    match (redeem_outcome(before, caller, address, ticket_id), r) {
        (Ok(expected), Ok(response)) => after == expected && response@ == method_response(
            "redeem"@,
        ),
        (Err(expected), Err(e)) => e == expected && after == before,
        _ => false,
    }
}

/// Redeems the ticket `ticket_id` of `address` for the minter: the ticket is
/// from then on redeemed and locked, and no longer for sale.
pub fn try_redeem(ledger: &mut Ledger, info: &MessageInfo, address: String, ticket_id: &String) -> (r:
    Result<Response, ContractError>)
    requires
        old(ledger)@.wf(),
    ensures
        final(ledger)@.wf(),
        redeem_result(old(ledger)@, final(ledger)@, info.sender@, address@, ticket_id@, r),
{
    if !same_id(info.sender.as_str(), ledger.minter().as_str()) {
        return Err(ContractError::Unauthorized);
    }
    let place = match ledger.position(ticket_id.as_str()) {
        Some(place) => place,
        None => {
            return Err(ContractError::NotFound);
        },
    };
    let ticket = ledger.token_info(place);
    if !same_id(ticket.owner.as_str(), address.as_str()) {
        return Err(ContractError::Unauthorized);
    }
    match check_ticket_state(&ticket.extension) {
        Err(e) => {
            return Err(e);
        },
        Ok(_) => {},
    }
    ledger.redeem(place);
    Ok(Response::new().add_attribute("method", "redeem"))
}

/// The listings as pairs of an id and a price.
pub open spec fn listings_view(v: Seq<(String, u64)>) -> Seq<(Seq<char>, u64)> {
    Seq::new(v.len(), |i: int| (v[i].0@, v[i].1))
}

/// The asking price that a listing at `price` sets: none for the price 0,
/// which withdraws the offer.
pub open spec fn offer(price: u64) -> Option<u64> {
    if price > 0 {
        Some(price)
    } else {
        None
    }
}

/// The asking price of the token `id` after the listings: the one set by the
/// last listing that names it, and `current` where none does.
pub open spec fn asked(current: Option<u64>, id: Seq<char>, listings: Seq<(Seq<char>, u64)>)
    -> Option<u64>
    decreases listings.len(),
{
    if listings.len() == 0 {
        current
    } else if listings.last().0 == id {
        offer(listings.last().1)
    } else {
        asked(current, id, listings.drop_last())
    }
}

/// The asking price that a record carries.
pub open spec fn list_price_of(t: TokenInfoView) -> Option<u64> {
    match t.extension {
        Some(m) => m.list_price,
        None => None,
    }
}

/// The tokens after the listings: each with the asking price that the
/// listings leave it, and otherwise as before.
pub open spec fn relisted(
    tokens: Seq<(Seq<char>, TokenInfoView)>,
    listings: Seq<(Seq<char>, u64)>,
) -> Seq<(Seq<char>, TokenInfoView)> {
    Seq::new(
        tokens.len(),
        |i: int|
            (
                tokens[i].0,
                with_price(tokens[i].1, asked(list_price_of(tokens[i].1), tokens[i].0, listings)),
            ),
    )
}

/// The listing in place `k` is the first that the guard refuses.
pub open spec fn refused_at(
    ledger: LedgerView,
    height: u64,
    time: u64,
    caller: Seq<char>,
    listings: Seq<(Seq<char>, u64)>,
    k: int,
) -> bool {
    &&& 0 <= k < listings.len()
    &&& can_send(ledger, height, time, caller, listings[k].0) is Err
    &&& forall|j: int|
        0 <= j < k ==> can_send(ledger, height, time, caller, (#[trigger] listings[j]).0) is Ok
}

/// What becomes of a batch of listings by `caller`: where the guard refuses
/// one of them, the error of the first that it refuses, and no change; else
/// the ledger with every listing applied in the order given.
pub open spec fn list_outcome(
    ledger: LedgerView,
    height: u64,
    time: u64,
    caller: Seq<char>,
    listings: Seq<(Seq<char>, u64)>,
) -> Result<LedgerView, ContractError> {
    if exists|k: int| refused_at(ledger, height, time, caller, listings, k) {
        let k = choose|k: int| refused_at(ledger, height, time, caller, listings, k);
        Err(can_send(ledger, height, time, caller, listings[k].0)->Err_0)
    } else {
        Ok(ledger.with_tokens(relisted(ledger.tokens, listings)))
    }
}

/// How the result of a batch of listings and the ledger after it follow from
/// the ledger before it: a failure changes nothing.
pub open spec fn list_result(
    before: LedgerView,
    after: LedgerView,
    height: u64,
    time: u64,
    caller: Seq<char>,
    listings: Seq<(Seq<char>, u64)>,
    r: Result<Response, ContractError>,
) -> bool {
    match (list_outcome(before, height, time, caller, listings), r) {
        (Ok(expected), Ok(response)) => after == expected && response@ == method_response(
            "list"@,
        ),
        (Err(expected), Err(e)) => e == expected && after == before,
        _ => false,
    }
}

/// Lists the named tokens for the sender of `info`, each at the price given
/// with it, or withdraws the offer where the price is 0. Every listing is
/// checked before any is applied: the first that the guard refuses fails the
/// whole batch with its error.
pub fn try_list(ledger: &mut Ledger, env: &Env, info: &MessageInfo, listings: Vec<(String, u64)>) -> (r:
    Result<Response, ContractError>)
    requires
        old(ledger)@.wf(),
    ensures
        final(ledger)@.wf(),
        list_result(
            old(ledger)@,
            final(ledger)@,
            env.block.height,
            env.block.time,
            info.sender@,
            listings_view(listings@),
            r,
        ),
{
    let ghost before = ledger@;
    let ghost entries = listings_view(listings@);
    let ghost height = env.block.height;
    let ghost time = env.block.time;
    let ghost caller = info.sender@;
    let mut k: usize = 0;
    while k < listings.len()
        invariant
            k <= listings.len(),
            ledger@ == before,
            before.wf(),
            entries == listings_view(listings@),
            height == env.block.height,
            time == env.block.time,
            caller == info.sender@,
            forall|j: int|
                0 <= j < k ==> can_send(before, height, time, caller, (#[trigger] entries[j]).0)
                    is Ok,
        decreases listings.len() - k,
    {
        match check_can_send(ledger, env, info, &listings[k].0) {
            Err(e) => {
                proof {
                    assert(refused_at(before, height, time, caller, entries, k as int));
                }
                return Err(e);
            },
            Ok(_) => {},
        }
        k = k + 1;
    }
    proof {
        assert forall|c: int| !refused_at(before, height, time, caller, entries, c) by {}
        assert(relisted(before.tokens, entries.take(0)) =~= before.tokens);
    }
    let mut k: usize = 0;
    while k < listings.len()
        invariant
            k <= listings.len(),
            before.wf(),
            entries == listings_view(listings@),
            ledger@ == before.with_tokens(relisted(before.tokens, entries.take(k as int))),
            forall|j: int|
                0 <= j < entries.len() ==> has_token(before.tokens, (#[trigger] entries[j]).0),
        decreases listings.len() - k,
    {
        proof {
            lemma_same_ids(before.tokens, ledger@.tokens);
        }
        let price = listings[k].1;
        let asking = if price > 0 {
            Some(price)
        } else {
            None
        };
        match ledger.position(listings[k].0.as_str()) {
            Some(place) => {
                ledger.set_list_price(place, asking);
                proof {
                    let id = entries[k as int].0;
                    let next = entries.take(k + 1);
                    assert(next.drop_last() =~= entries.take(k as int));
                    assert forall|m: int| 0 <= m < before.tokens.len() && m != place implies
                        before.tokens[m].0 != id by {
                        if before.tokens[m].0 == id {
                            lemma_one_place(before.tokens, m, place as int);
                        }
                    }
                    assert(ledger@.tokens =~= relisted(before.tokens, next));
                }
            },
            None => {},
        }
        k = k + 1;
    }
    assert(entries.take(k as int) =~= entries);
    Ok(Response::new().add_attribute("method", "list"))
}

} // verus!
