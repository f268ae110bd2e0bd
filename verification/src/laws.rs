//! What holds of the marketplace whatever the ledger and the call.

use vstd::prelude::*;
use crate::error::ContractError;
use crate::execute::{
    anything_for_sale, asked, asking_price, best_offer, buy_outcome, buy_result, for_sale,
    lemma_cheapest_exists, list_outcome, offer, redeem_outcome, refused_at, relisted, Sale,
};
use crate::guard::can_send;
use crate::ledger::{
    lemma_found_in_place, lemma_one_place, lemma_same_ids, position_of, redeemed, sorted,
    with_price, LedgerView,
};
use crate::msg::Response;
use crate::order::id_le;
use crate::query::{
    first_of, lemma_on_offer_members, lemma_on_offer_resumes, lemma_on_offer_sorted, listed,
    listed_page, on_offer, page_size,
};
use crate::state::TokenInfoView;

verus! {

/// The record is that of a redeemed ticket.
pub open spec fn is_redeemed(t: TokenInfoView) -> bool {
    match t.extension {
        Some(m) => m.redeemed,
        None => false,
    }
}

/// Every redeemed ticket on file is locked and has no asking price.
pub open spec fn redeemed_are_closed(ledger: LedgerView) -> bool {
    forall|i: int|
        0 <= i < ledger.tokens.len() && is_redeemed((#[trigger] ledger.tokens[i]).1) ==> {
            &&& ledger.tokens[i].1.extension.unwrap().locked
            &&& ledger.tokens[i].1.extension.unwrap().list_price is None
        }
}

/// Listing one token at a positive price puts it among the tokens on offer,
/// at that price, and listing it at the price 0 takes it from them. Nothing
/// else about the token changes.
pub proof fn law_listing_toggles(
    before: LedgerView,
    height: u64,
    time: u64,
    caller: Seq<char>,
    id: Seq<char>,
    price: u64,
)
    requires
        before.wf(),
        list_outcome(before, height, time, caller, seq![(id, price)]) is Ok,
    ensures
        ({
            let after = list_outcome(before, height, time, caller, seq![(id, price)])->Ok_0;
            let all = on_offer(after.tokens, None);
            &&& after.wf()
            &&& before.token(id) is Some
            &&& after.token(id) == Some(with_price(before.token(id).unwrap(), offer(price)))
            &&& price > 0 ==> all.contains((id, after.token(id).unwrap())) && after.token(
                id,
            ).unwrap().extension.unwrap().list_price == Some(price)
            &&& price == 0 ==> forall|e: (Seq<char>, TokenInfoView)|
                all.contains(e) ==> e.0 != id
            &&& forall|limit: Option<u32>|
                all.len() <= page_size(limit) ==> #[trigger] listed_page(after.tokens, None, limit)
                    == all
        }),
{
    let listings = seq![(id, price)];
    let after = list_outcome(before, height, time, caller, listings)->Ok_0;
    assert(!refused_at(before, height, time, caller, listings, 0));
    lemma_same_ids(before.tokens, after.tokens);
    lemma_on_offer_members(after.tokens, None);
}

/// A buyer whose balance is below the ceiling is refused as unauthorized,
/// and the ledger stays as it was.
pub proof fn law_buy_needs_funds(ledger: LedgerView, buyer: Seq<char>, limit: u64, balance: u128)
    requires
        balance < limit,
    ensures
        buy_outcome(ledger, buyer, limit, balance) == Err::<Sale, ContractError>(
            ContractError::Unauthorized,
        ),
        forall|after: LedgerView, r: Result<Response, ContractError>|
            #[trigger] buy_result(ledger, after, buyer, limit, balance, r) ==> after == ledger && r
                == Err::<Response, ContractError>(ContractError::Unauthorized),
{
}

/// A purchase takes the cheapest token on offer, at its asking price: no
/// token for sale costs less, none as cheap has a smaller id, the price is
/// within the ceiling, and the seller is who owned the token.
pub proof fn law_buy_takes_cheapest(ledger: LedgerView, buyer: Seq<char>, limit: u64, balance: u128)
    requires
        ledger.wf(),
        buy_outcome(ledger, buyer, limit, balance) is Ok,
    ensures
        ({
            let sale = buy_outcome(ledger, buyer, limit, balance)->Ok_0;
            &&& sale.ledger.wf()
            &&& sale.price <= limit
            &&& sale.price <= balance
            &&& sale.price > 0
            &&& ledger.token(sale.token_id) is Some
            &&& for_sale(ledger.token(sale.token_id).unwrap())
            &&& sale.price == asking_price(ledger.token(sale.token_id).unwrap())
            &&& sale.seller == ledger.token(sale.token_id).unwrap().owner
            &&& forall|j: int|
                0 <= j < ledger.tokens.len() && for_sale((#[trigger] ledger.tokens[j]).1) ==> {
                    &&& sale.price <= asking_price(ledger.tokens[j].1)
                    &&& sale.price == asking_price(ledger.tokens[j].1) ==> id_le(
                        sale.token_id,
                        ledger.tokens[j].0,
                    )
                }
            &&& sale.ledger.token(sale.token_id).unwrap().owner == buyer
            &&& !for_sale(sale.ledger.token(sale.token_id).unwrap())
            &&& forall|other: Seq<char>|
                other != sale.token_id ==> sale.ledger.token(other) == ledger.token(other)
        }),
{
    let sale = buy_outcome(ledger, buyer, limit, balance)->Ok_0;
    lemma_cheapest_exists(ledger.tokens);
    lemma_found_in_place(ledger.tokens, best_offer(ledger.tokens));
    lemma_same_ids(ledger.tokens, sale.ledger.tokens);
}

/// A ceiling below the cheapest offer is refused, and the refusal names the
/// ceiling and the price of the cheapest offer.
pub proof fn law_ceiling_rejects(ledger: LedgerView, buyer: Seq<char>, limit: u64, balance: u128)
    requires
        ledger.wf(),
        balance >= limit,
        anything_for_sale(ledger.tokens),
        forall|j: int|
            0 <= j < ledger.tokens.len() && for_sale((#[trigger] ledger.tokens[j]).1)
                ==> asking_price(ledger.tokens[j].1) > limit,
    ensures
        buy_outcome(ledger, buyer, limit, balance) matches Err(
            ContractError::LimitBelowLowestOffer { limit: named, lowest_price },
        ) && named == limit && lowest_price > limit && forall|j: int|
            0 <= j < ledger.tokens.len() && for_sale((#[trigger] ledger.tokens[j]).1)
                ==> lowest_price <= asking_price(ledger.tokens[j].1),
        forall|after: LedgerView, r: Result<Response, ContractError>|
            #[trigger] buy_result(ledger, after, buyer, limit, balance, r) ==> after == ledger && r
                is Err,
{
    lemma_cheapest_exists(ledger.tokens);
}

/// A token that is locked but not redeemed cannot be listed, whoever asks:
/// the guard refuses it as locked, and so does a batch of listings in which
/// it is the first that the guard refuses.
pub proof fn law_lock_blocks_listing(
    ledger: LedgerView,
    height: u64,
    time: u64,
    caller: Seq<char>,
    listings: Seq<(Seq<char>, u64)>,
    k: int,
)
    requires
        ledger.wf(),
        0 <= k < listings.len(),
        ledger.token(listings[k].0) is Some,
        ledger.token(listings[k].0).unwrap().extension is Some,
        ledger.token(listings[k].0).unwrap().extension.unwrap().locked,
        !ledger.token(listings[k].0).unwrap().extension.unwrap().redeemed,
    ensures
        can_send(ledger, height, time, caller, listings[k].0) == Err::<(), ContractError>(
            ContractError::TicketLocked,
        ),
        list_outcome(ledger, height, time, caller, listings) is Err,
        (forall|j: int|
            0 <= j < k ==> can_send(ledger, height, time, caller, (#[trigger] listings[j]).0)
                is Ok) ==> list_outcome(ledger, height, time, caller, listings) == Err::<
            LedgerView,
            ContractError,
        >(ContractError::TicketLocked),
{
    lemma_batch_fails(ledger, height, time, caller, listings, k);
}

/// A batch of listings of which the guard refuses one fails, and with the
/// error of that one where the guard accepts all before it.
pub proof fn lemma_batch_fails(
    ledger: LedgerView,
    height: u64,
    time: u64,
    caller: Seq<char>,
    listings: Seq<(Seq<char>, u64)>,
    k: int,
)
    requires
        0 <= k < listings.len(),
        can_send(ledger, height, time, caller, listings[k].0) is Err,
    ensures
        list_outcome(ledger, height, time, caller, listings) is Err,
        (forall|j: int|
            0 <= j < k ==> can_send(ledger, height, time, caller, (#[trigger] listings[j]).0)
                is Ok) ==> list_outcome(ledger, height, time, caller, listings) == Err::<
            LedgerView,
            ContractError,
        >(can_send(ledger, height, time, caller, listings[k].0)->Err_0),
{
    lemma_first_refusal(ledger, height, time, caller, listings, k);
}

/// Where the guard refuses the listing in place `k`, there is a first that
/// it refuses, in place `k` or before.
proof fn lemma_first_refusal(
    ledger: LedgerView,
    height: u64,
    time: u64,
    caller: Seq<char>,
    listings: Seq<(Seq<char>, u64)>,
    k: int,
) -> (first: int)
    requires
        0 <= k < listings.len(),
        can_send(ledger, height, time, caller, listings[k].0) is Err,
    ensures
        0 <= first <= k,
        refused_at(ledger, height, time, caller, listings, first),
    decreases k,
{
    if exists|j: int|
        0 <= j < k && can_send(ledger, height, time, caller, (#[trigger] listings[j]).0) is Err {
        let j = choose|j: int|
            0 <= j < k && can_send(ledger, height, time, caller, (#[trigger] listings[j]).0)
                is Err;
        lemma_first_refusal(ledger, height, time, caller, listings, j)
    } else {
        k
    }
}

/// Redeeming a ticket takes it off the market for good: it is then redeemed
/// and locked and has no asking price, it is not on offer and not for sale,
/// and the guard refuses every change of it as redeemed, whoever asks.
pub proof fn law_redeem_delists(
    before: LedgerView,
    caller: Seq<char>,
    address: Seq<char>,
    ticket_id: Seq<char>,
)
    requires
        before.wf(),
        redeem_outcome(before, caller, address, ticket_id) is Ok,
    ensures
        ({
            let after = redeem_outcome(before, caller, address, ticket_id)->Ok_0;
            &&& after.wf()
            &&& before.token(ticket_id) is Some
            &&& after.token(ticket_id) == Some(redeemed(before.token(ticket_id).unwrap()))
            &&& after.token(ticket_id).unwrap().extension is Some
            &&& after.token(ticket_id).unwrap().extension.unwrap().list_price is None
            &&& after.token(ticket_id).unwrap().extension.unwrap().locked
            &&& after.token(ticket_id).unwrap().extension.unwrap().redeemed
            &&& !for_sale(after.token(ticket_id).unwrap())
            &&& forall|start_after: Option<Seq<char>>, e: (Seq<char>, TokenInfoView)|
                #[trigger] on_offer(after.tokens, start_after).contains(e) ==> e.0 != ticket_id
            &&& forall|height: u64, time: u64, anyone: Seq<char>|
                #[trigger] can_send(after, height, time, anyone, ticket_id) == Err::<
                    (),
                    ContractError,
                >(ContractError::TicketRedeemed)
            &&& forall|other: Seq<char>|
                other != ticket_id ==> after.token(other) == before.token(other)
        }),
{
    let after = redeem_outcome(before, caller, address, ticket_id)->Ok_0;
    let i = position_of(before.tokens, ticket_id);
    lemma_same_ids(before.tokens, after.tokens);
    assert forall|start_after: Option<Seq<char>>, e: (Seq<char>, TokenInfoView)| #[trigger]
        on_offer(after.tokens, start_after).contains(e) implies e.0 != ticket_id by {
        lemma_on_offer_members(after.tokens, start_after);
        if e.0 == ticket_id {
            let k = choose|k: int| 0 <= k < after.tokens.len() && after.tokens[k] == e;
            lemma_one_place(after.tokens, k, i);
        }
    }
}

/// No batch of listings that names a redeemed ticket succeeds; where the
/// guard accepts all listings before it, the batch fails as redeemed.
pub proof fn law_redeemed_not_listed(
    ledger: LedgerView,
    height: u64,
    time: u64,
    caller: Seq<char>,
    listings: Seq<(Seq<char>, u64)>,
    k: int,
)
    requires
        ledger.wf(),
        0 <= k < listings.len(),
        ledger.token(listings[k].0) is Some,
        is_redeemed(ledger.token(listings[k].0).unwrap()),
    ensures
        list_outcome(ledger, height, time, caller, listings) is Err,
        (forall|j: int|
            0 <= j < k ==> can_send(ledger, height, time, caller, (#[trigger] listings[j]).0)
                is Ok) ==> list_outcome(ledger, height, time, caller, listings) == Err::<
            LedgerView,
            ContractError,
        >(ContractError::TicketRedeemed),
{
    lemma_batch_fails(ledger, height, time, caller, listings, k);
}

/// No purchase takes a redeemed ticket, or changes it.
pub proof fn law_redeemed_not_bought(
    ledger: LedgerView,
    buyer: Seq<char>,
    limit: u64,
    balance: u128,
    ticket_id: Seq<char>,
)
    requires
        ledger.wf(),
        ledger.token(ticket_id) is Some,
        is_redeemed(ledger.token(ticket_id).unwrap()),
        buy_outcome(ledger, buyer, limit, balance) is Ok,
    ensures
        buy_outcome(ledger, buyer, limit, balance)->Ok_0.token_id != ticket_id,
        buy_outcome(ledger, buyer, limit, balance)->Ok_0.ledger.token(ticket_id) == ledger.token(
            ticket_id,
        ),
{
    law_buy_takes_cheapest(ledger, buyer, limit, balance);
}

/// A redeemed ticket is not redeemed again: the minter who names its owner
/// is refused as redeemed.
pub proof fn law_redeemed_not_redeemed(
    ledger: LedgerView,
    caller: Seq<char>,
    address: Seq<char>,
    ticket_id: Seq<char>,
)
    requires
        ledger.token(ticket_id) is Some,
        is_redeemed(ledger.token(ticket_id).unwrap()),
    ensures
        redeem_outcome(ledger, caller, address, ticket_id) is Err,
        caller == ledger.minter && address == ledger.token(ticket_id).unwrap().owner
            ==> redeem_outcome(ledger, caller, address, ticket_id) == Err::<
            LedgerView,
            ContractError,
        >(ContractError::TicketRedeemed),
{
}

/// Only the minter redeems, and only a ticket whose owner it names: anyone
/// else is refused as unauthorized, and so is the minter who names another
/// account than the owner of a ticket on file.
pub proof fn law_redeem_authorization(
    ledger: LedgerView,
    caller: Seq<char>,
    address: Seq<char>,
    ticket_id: Seq<char>,
)
    ensures
        caller != ledger.minter ==> redeem_outcome(ledger, caller, address, ticket_id) == Err::<
            LedgerView,
            ContractError,
        >(ContractError::Unauthorized),
        caller == ledger.minter && ledger.token(ticket_id) is Some && ledger.token(
            ticket_id,
        ).unwrap().owner != address ==> redeem_outcome(ledger, caller, address, ticket_id)
            == Err::<LedgerView, ContractError>(ContractError::Unauthorized),
{
}

/// Two pages in a row hold what one page of both sizes would: the second
/// page, asked for with the last id of the first as its cursor, goes on where
/// the first stopped, with no token left out and none repeated, and the
/// tokens come in ascending order of their ids.
pub proof fn law_pages_join(
    tokens: Seq<(Seq<char>, TokenInfoView)>,
    start_after: Option<Seq<char>>,
    limit: Option<u32>,
    next_limit: Option<u32>,
)
    requires
        sorted(tokens),
        listed_page(tokens, start_after, limit).len() > 0,
    ensures
        ({
            let first = listed_page(tokens, start_after, limit);
            let second = listed_page(tokens, Some(first.last().0), next_limit);
            let all = on_offer(tokens, start_after);
            &&& first + second == first_of(all, page_size(limit) + page_size(next_limit))
            &&& all.len() <= page_size(limit) + page_size(next_limit) ==> first + second == all
            &&& sorted(all)
            &&& forall|e: (Seq<char>, TokenInfoView)|
                #[trigger] all.contains(e) <==> tokens.contains(e) && listed(e.1)
                    && crate::query::behind(start_after, e.0)
        }),
{
    let first = listed_page(tokens, start_after, limit);
    lemma_on_offer_resumes(tokens, start_after, first.len() as int);
    lemma_on_offer_sorted(tokens, start_after);
    lemma_on_offer_members(tokens, start_after);
}

/// Listing, buying and redeeming keep the ledger in order, keep every id in
/// its place, and keep every redeemed ticket locked and without a price.
pub proof fn law_operations_preserve(
    before: LedgerView,
    height: u64,
    time: u64,
    caller: Seq<char>,
    listings: Seq<(Seq<char>, u64)>,
    limit: u64,
    balance: u128,
    address: Seq<char>,
    ticket_id: Seq<char>,
)
    requires
        before.wf(),
        redeemed_are_closed(before),
    ensures
        list_outcome(before, height, time, caller, listings) matches Ok(after) ==> after.wf()
            && redeemed_are_closed(after) && same_ids(before, after),
        buy_outcome(before, caller, limit, balance) matches Ok(sale) ==> sale.ledger.wf()
            && redeemed_are_closed(sale.ledger) && same_ids(before, sale.ledger),
        redeem_outcome(before, caller, address, ticket_id) matches Ok(after) ==> after.wf()
            && redeemed_are_closed(after) && same_ids(before, after),
{
    if list_outcome(before, height, time, caller, listings) is Ok {
        let after = list_outcome(before, height, time, caller, listings)->Ok_0;
        assert forall|i: int|
            0 <= i < after.tokens.len() && is_redeemed((#[trigger] after.tokens[i]).1) implies {
            &&& after.tokens[i].1.extension.unwrap().locked
            &&& after.tokens[i].1.extension.unwrap().list_price is None
        } by {
            lemma_redeemed_keeps_price(before, height, time, caller, listings, i);
        }
    }
    if buy_outcome(before, caller, limit, balance) is Ok {
        let sale = buy_outcome(before, caller, limit, balance)->Ok_0;
        lemma_cheapest_exists(before.tokens);
        assert forall|i: int|
            0 <= i < sale.ledger.tokens.len() && is_redeemed(
                (#[trigger] sale.ledger.tokens[i]).1,
            ) implies {
            &&& sale.ledger.tokens[i].1.extension.unwrap().locked
            &&& sale.ledger.tokens[i].1.extension.unwrap().list_price is None
        } by {}
    }
}

/// The two ledgers file the same ids in the same places.
pub open spec fn same_ids(before: LedgerView, after: LedgerView) -> bool {
    &&& after.tokens.len() == before.tokens.len()
    &&& forall|i: int|
        0 <= i < before.tokens.len() ==> (#[trigger] after.tokens[i]).0 == before.tokens[i].0
}

/// A batch of listings that succeeds names no redeemed ticket, and so leaves
/// the price of each as it was.
proof fn lemma_redeemed_keeps_price(
    before: LedgerView,
    height: u64,
    time: u64,
    caller: Seq<char>,
    listings: Seq<(Seq<char>, u64)>,
    i: int,
)
    requires
        before.wf(),
        0 <= i < before.tokens.len(),
        is_redeemed(before.tokens[i].1),
        list_outcome(before, height, time, caller, listings) is Ok,
    ensures
        relisted(before.tokens, listings)[i] == before.tokens[i],
{
    let id = before.tokens[i].0;
    lemma_found_in_place(before.tokens, i);
    assert forall|k: int| 0 <= k < listings.len() implies (#[trigger] listings[k]).0 != id by {
        if listings[k].0 == id {
            lemma_batch_fails(before, height, time, caller, listings, k);
        }
    }
    lemma_unnamed_keeps_price(crate::execute::list_price_of(before.tokens[i].1), id, listings);
}

/// Listings that do not name a token leave its price as it was.
proof fn lemma_unnamed_keeps_price(
    current: Option<u64>,
    id: Seq<char>,
    listings: Seq<(Seq<char>, u64)>,
)
    requires
        forall|k: int| 0 <= k < listings.len() ==> (#[trigger] listings[k]).0 != id,
    ensures
        asked(current, id, listings) == current,
    decreases listings.len(),
{
    if listings.len() > 0 {
        lemma_unnamed_keeps_price(current, id, listings.drop_last());
    }
}

/// What becomes of one listing: the guard decides, and where it accepts,
/// the token gets the asking price that the listing sets.
pub open spec fn list_one(
    ledger: LedgerView,
    height: u64,
    time: u64,
    caller: Seq<char>,
    id: Seq<char>,
    price: u64,
) -> Result<LedgerView, ContractError> {
    match can_send(ledger, height, time, caller, id) {
        Err(e) => Err(e),
        Ok(_) => {
            let place = position_of(ledger.tokens, id);
            Ok(ledger.with_record(place, with_price(ledger.tokens[place].1, offer(price))))
        },
    }
}

/// What becomes of a batch of listings that are taken one after the other,
/// each on the ledger that the one before it left, until one fails.
pub open spec fn list_in_turn(
    ledger: LedgerView,
    height: u64,
    time: u64,
    caller: Seq<char>,
    listings: Seq<(Seq<char>, u64)>,
) -> Result<LedgerView, ContractError>
    decreases listings.len(),
{
    if listings.len() == 0 {
        Ok(ledger)
    } else {
        match list_in_turn(ledger, height, time, caller, listings.drop_last()) {
            Err(e) => Err(e),
            Ok(so_far) => list_one(
                so_far,
                height,
                time,
                caller,
                listings.last().0,
                listings.last().1,
            ),
        }
    }
}

/// A batch of listings comes to what its listings come to when they are
/// taken one after the other: the first that fails ends the batch with its
/// error, and else every one has been applied in its turn.
pub proof fn law_batch_is_taken_in_turn(
    ledger: LedgerView,
    height: u64,
    time: u64,
    caller: Seq<char>,
    listings: Seq<(Seq<char>, u64)>,
)
    requires
        ledger.wf(),
    ensures
        list_outcome(ledger, height, time, caller, listings) == list_in_turn(
            ledger,
            height,
            time,
            caller,
            listings,
        ),
    decreases listings.len(),
{
    if listings.len() == 0 {
        assert(relisted(ledger.tokens, listings) =~= ledger.tokens);
    } else {
        let head = listings.drop_last();
        let id = listings.last().0;
        let price = listings.last().1;
        let k = listings.len() - 1;
        law_batch_is_taken_in_turn(ledger, height, time, caller, head);
        if exists|c: int| refused_at(ledger, height, time, caller, head, c) {
            let c = choose|c: int| refused_at(ledger, height, time, caller, head, c);
            lemma_batch_fails(ledger, height, time, caller, listings, c);
            assert forall|j: int| 0 <= j < c implies can_send(
                ledger,
                height,
                time,
                caller,
                (#[trigger] listings[j]).0,
            ) is Ok by {
                assert(head[j] == listings[j]);
            }
        } else {
            let so_far = ledger.with_tokens(relisted(ledger.tokens, head));
            lemma_same_ids(ledger.tokens, so_far.tokens);
            assert forall|j: int| 0 <= j < k implies can_send(
                ledger,
                height,
                time,
                caller,
                (#[trigger] listings[j]).0,
            ) is Ok by {
                if can_send(ledger, height, time, caller, head[j].0) is Err {
                    lemma_first_refusal(ledger, height, time, caller, head, j);
                }
            }
            if can_send(ledger, height, time, caller, id) is Err {
                lemma_batch_fails(ledger, height, time, caller, listings, k);
            } else {
                let place = position_of(ledger.tokens, id);
                assert forall|m: int| 0 <= m < ledger.tokens.len() && m != place implies
                    ledger.tokens[m].0 != id by {
                    if ledger.tokens[m].0 == id {
                        lemma_one_place(ledger.tokens, m, place);
                    }
                }
                assert(relisted(ledger.tokens, listings) =~= so_far.tokens.update(
                    place,
                    (so_far.tokens[place].0, with_price(so_far.tokens[place].1, offer(price))),
                ));
            }
        }
    }
}

} // verus!
