//! The paginated view of the tokens that are on offer.

use vstd::prelude::*;
use crate::ledger::{sorted, tokens_view, Ledger};
use crate::order::{id_lt, lemma_id_lt_transitive};
use crate::state::{TokenInfo, TokenInfoView};

verus! {

/// How many tokens a page holds when the caller names no limit.
pub const DEFAULT_LIMIT: u32 = 500;

/// How many tokens a page holds at most, whatever the caller asks for.
pub const MAX_LIMIT: u32 = 10000;

/// One page of the tokens on offer, in ascending order of their ids. Where
/// there may be more, ask again with the last id of this page as the cursor.
#[derive(Debug, PartialEq, Eq)]
pub struct ListedTokensResponse {
    pub tokens: Vec<(String, TokenInfo)>,
}

impl View for ListedTokensResponse {
    type V = Seq<(Seq<char>, TokenInfoView)>;

    open spec fn view(&self) -> Seq<(Seq<char>, TokenInfoView)> {
        tokens_view(self.tokens@)
    }
}

/// A token is listed when it carries an asking price, and that is positive.
pub open spec fn listed(t: TokenInfoView) -> bool {
    match t.extension {
        Some(m) => m.list_price is Some && m.list_price.unwrap() > 0,
        None => false,
    }
}

/// Whether `id` lies behind the cursor: strictly after it, or anywhere when
/// there is no cursor.
pub open spec fn behind(start_after: Option<Seq<char>>, id: Seq<char>) -> bool {
    match start_after {
        Some(start) => id_lt(start, id),
        None => true,
    }
}

/// The test that a token passes to be shown: listed, and behind the cursor.
pub open spec fn shown(start_after: Option<Seq<char>>) -> spec_fn((Seq<char>, TokenInfoView)) -> bool {
    |e: (Seq<char>, TokenInfoView)| listed(e.1) && behind(start_after, e.0)
}

/// Every listed token behind the cursor, in the order of the file.
pub open spec fn on_offer(
    tokens: Seq<(Seq<char>, TokenInfoView)>,
    start_after: Option<Seq<char>>,
) -> Seq<(Seq<char>, TokenInfoView)> {
    tokens.filter(shown(start_after))
}

/// The size of a page: the limit asked for, 500 where none is, and never
/// more than 10000.
pub open spec fn page_size(limit: Option<u32>) -> nat {
    let asked = match limit {
        Some(n) => n,
        None => DEFAULT_LIMIT,
    };
    if asked <= MAX_LIMIT {
        asked as nat
    } else {
        MAX_LIMIT as nat
    }
}

/// The first `size` of the sequence, or all of it where it has fewer.
pub open spec fn first_of(s: Seq<(Seq<char>, TokenInfoView)>, size: nat) -> Seq<
    (Seq<char>, TokenInfoView),
> {
    if size <= s.len() {
        s.take(size as int)
    } else {
        s
    }
}

/// The page that a query returns: the first listed tokens behind the cursor,
/// as many as the page holds.
pub open spec fn listed_page(
    tokens: Seq<(Seq<char>, TokenInfoView)>,
    start_after: Option<Seq<char>>,
    limit: Option<u32>,
) -> Seq<(Seq<char>, TokenInfoView)> {
    first_of(on_offer(tokens, start_after), page_size(limit))
}

/// What one more token at the end of the file adds to the tokens on offer.
pub proof fn lemma_on_offer_push(
    tokens: Seq<(Seq<char>, TokenInfoView)>,
    e: (Seq<char>, TokenInfoView),
    start_after: Option<Seq<char>>,
)
    ensures
        on_offer(tokens.push(e), start_after) == if listed(e.1) && behind(start_after, e.0) {
            on_offer(tokens, start_after).push(e)
        } else {
            on_offer(tokens, start_after)
        },
{
    reveal(Seq::filter);
    assert(tokens.push(e).drop_last() =~= tokens);
}

/// Of a file in which no token is behind the cursor, nothing is shown.
pub proof fn lemma_none_behind(
    tokens: Seq<(Seq<char>, TokenInfoView)>,
    start_after: Option<Seq<char>>,
)
    requires
        forall|j: int| 0 <= j < tokens.len() ==> !behind(start_after, (#[trigger] tokens[j]).0),
    ensures
        on_offer(tokens, start_after) == Seq::<(Seq<char>, TokenInfoView)>::empty(),
    decreases tokens.len(),
{
    reveal(Seq::filter);
    if tokens.len() > 0 {
        lemma_none_behind(tokens.drop_last(), start_after);
    }
}

/// The tokens on offer are exactly the tokens on file that are listed and
/// lie behind the cursor.
pub proof fn lemma_on_offer_members(
    tokens: Seq<(Seq<char>, TokenInfoView)>,
    start_after: Option<Seq<char>>,
)
    ensures
        forall|e: (Seq<char>, TokenInfoView)|
            #[trigger] on_offer(tokens, start_after).contains(e) <==> tokens.contains(e) && listed(
                e.1,
            ) && behind(start_after, e.0),
    decreases tokens.len(),
{
    if tokens.len() == 0 {
        lemma_none_behind(tokens, start_after);
    } else {
        let rest = tokens.drop_last();
        let last = tokens.last();
        lemma_on_offer_members(rest, start_after);
        lemma_on_offer_push(rest, last, start_after);
        assert(rest.push(last) =~= tokens);
        let shown_rest = on_offer(rest, start_after);
        let shown_all = on_offer(tokens, start_after);
        assert forall|e: (Seq<char>, TokenInfoView)| #[trigger]
            shown_all.contains(e) <==> tokens.contains(e) && listed(e.1) && behind(
                start_after,
                e.0,
            ) by {
            if shown_all.contains(e) {
                let i = choose|i: int| 0 <= i < shown_all.len() && shown_all[i] == e;
                if i < shown_rest.len() {
                    assert(shown_rest[i] == e);
                    assert(shown_rest.contains(e));
                    let j = choose|j: int| 0 <= j < rest.len() && rest[j] == e;
                    assert(tokens[j] == e);
                } else {
                    assert(e == last);
                    assert(tokens[tokens.len() - 1] == e);
                }
            }
            if tokens.contains(e) && listed(e.1) && behind(start_after, e.0) {
                let j = choose|j: int| 0 <= j < tokens.len() && tokens[j] == e;
                if j < rest.len() {
                    assert(rest[j] == e);
                    assert(rest.contains(e));
                    assert(shown_rest.contains(e));
                    let i = choose|i: int| 0 <= i < shown_rest.len() && shown_rest[i] == e;
                    assert(shown_all[i] == e);
                } else {
                    assert(shown_all[shown_all.len() - 1] == e);
                }
            }
        }
    }
}

/// An ordered file without its last token is in order.
proof fn lemma_front_sorted(tokens: Seq<(Seq<char>, TokenInfoView)>)
    requires
        sorted(tokens),
        tokens.len() > 0,
    ensures
        sorted(tokens.drop_last()),
{
    assert forall|i: int, j: int| 0 <= i < j < tokens.drop_last().len() implies id_lt(
        #[trigger] tokens.drop_last()[i].0,
        #[trigger] tokens.drop_last()[j].0,
    ) by {
        assert(id_lt(tokens[i].0, tokens[j].0));
    }
}

/// The tokens on offer come in ascending order of their ids, so that none
/// comes twice.
pub proof fn lemma_on_offer_sorted(
    tokens: Seq<(Seq<char>, TokenInfoView)>,
    start_after: Option<Seq<char>>,
)
    requires
        sorted(tokens),
    ensures
        sorted(on_offer(tokens, start_after)),
    decreases tokens.len(),
{
    if tokens.len() == 0 {
        lemma_none_behind(tokens, start_after);
    } else {
        let rest = tokens.drop_last();
        let last = tokens.last();
        lemma_front_sorted(tokens);
        lemma_on_offer_sorted(rest, start_after);
        lemma_on_offer_members(rest, start_after);
        lemma_on_offer_push(rest, last, start_after);
        assert(rest.push(last) =~= tokens);
        let shown_rest = on_offer(rest, start_after);
        let shown_all = on_offer(tokens, start_after);
        assert forall|i: int, j: int| 0 <= i < j < shown_all.len() implies id_lt(
            #[trigger] shown_all[i].0,
            #[trigger] shown_all[j].0,
        ) by {
            if j < shown_rest.len() {
                assert(id_lt(shown_rest[i].0, shown_rest[j].0));
            } else {
                assert(shown_all[j] == last);
                assert(shown_rest.contains(shown_rest[i]));
                let k = choose|k: int| 0 <= k < rest.len() && rest[k] == shown_rest[i];
                assert(id_lt(tokens[k].0, tokens[tokens.len() - 1].0));
            }
        }
    }
}

/// With the id of a token on offer as the cursor, the tokens on offer are
/// those that followed that token.
pub proof fn lemma_on_offer_resumes(
    tokens: Seq<(Seq<char>, TokenInfoView)>,
    start_after: Option<Seq<char>>,
    m: int,
)
    requires
        sorted(tokens),
        0 < m <= on_offer(tokens, start_after).len(),
    ensures
        on_offer(tokens, Some(on_offer(tokens, start_after)[m - 1].0)) == on_offer(
            tokens,
            start_after,
        ).skip(m),
    decreases tokens.len(),
{
    if tokens.len() == 0 {
        lemma_none_behind(tokens, start_after);
    } else {
        let rest = tokens.drop_last();
        let last = tokens.last();
        lemma_front_sorted(tokens);
        lemma_on_offer_push(rest, last, start_after);
        assert(rest.push(last) =~= tokens);
        let shown_rest = on_offer(rest, start_after);
        let shown_all = on_offer(tokens, start_after);
        let cursor = shown_all[m - 1].0;
        lemma_on_offer_push(rest, last, Some(cursor));
        if m <= shown_rest.len() {
            lemma_on_offer_resumes(rest, start_after, m);
            lemma_on_offer_members(rest, start_after);
            assert(shown_rest.contains(shown_rest[m - 1]));
            let k = choose|k: int| 0 <= k < rest.len() && rest[k] == shown_rest[m - 1];
            assert(id_lt(tokens[k].0, tokens[tokens.len() - 1].0));
            assert(behind(Some(cursor), last.0));
            if start_after is Some {
                lemma_id_lt_transitive(start_after.unwrap(), cursor, last.0);
            }
            assert(behind(start_after, last.0));
            assert(shown_all.skip(m) =~= if listed(last.1) {
                shown_rest.skip(m).push(last)
            } else {
                shown_rest.skip(m)
            });
        } else {
            assert(cursor == last.0);
            crate::order::lemma_id_lt_irreflexive(cursor);
            assert forall|j: int| 0 <= j < rest.len() implies !behind(
                Some(cursor),
                (#[trigger] rest[j]).0,
            ) by {
                assert(id_lt(tokens[j].0, tokens[tokens.len() - 1].0));
                crate::order::lemma_id_lt_asymmetric(rest[j].0, cursor);
            }
            lemma_none_behind(rest, Some(cursor));
            assert(shown_all.skip(m) =~= Seq::empty());
        }
    }
}

/// Returns the tokens on offer whose ids come after `start_after`, in
/// ascending order of their ids: at most `limit` of them, 500 where no limit
/// is given, and never more than 10000.
pub fn listed_tokens(ledger: &Ledger, start_after: Option<String>, limit: Option<u32>) -> (r:
    ListedTokensResponse)
    requires
        ledger@.wf(),
    ensures
        r@ == listed_page(ledger@.tokens, crate::state::opt_text(start_after), limit),
{
    let asked = match limit {
        Some(n) => n,
        None => DEFAULT_LIMIT,
    };
    let size: usize = if asked <= MAX_LIMIT {
        asked as usize
    } else {
        MAX_LIMIT as usize
    };
    let ghost tokens = ledger@.tokens;
    let ghost cursor = crate::state::opt_text(start_after);
    let n = ledger.token_count();
    let first = match &start_after {
        Some(start) => ledger.first_after(start.as_str()),
        None => 0,
    };
    let mut out: Vec<(String, TokenInfo)> = Vec::new();
    let mut i: usize = first;
    proof {
        lemma_none_behind(tokens.take(first as int), cursor);
    }
    while i < n && out.len() < size
        invariant
            first <= i <= n,
            n == tokens.len(),
            tokens == ledger@.tokens,
            out.len() <= size,
            tokens_view(out@) == on_offer(tokens.take(i as int), cursor),
            forall|j: int| first <= j < n ==> behind(cursor, (#[trigger] tokens[j]).0),
        decreases n - i,
    {
        let token = ledger.token_info(i);
        let is_listed = match &token.extension {
            Some(meta) => match meta.list_price {
                Some(price) => price > 0,
                None => false,
            },
            None => false,
        };
        proof {
            lemma_on_offer_push(tokens.take(i as int), tokens[i as int], cursor);
            assert(tokens.take(i as int).push(tokens[i as int]) =~= tokens.take(i + 1));
        }
        if is_listed {
            out.push((ledger.token_id(i).clone(), token.clone()));
        }
        i = i + 1;
    }
    proof {
        let head = tokens.take(i as int);
        let tail = tokens.skip(i as int);
        assert(tokens =~= head + tail);
        Seq::filter_distributes_over_add(head, tail, shown(cursor));
        let all = on_offer(tokens, cursor);
        assert(all == tokens_view(out@) + on_offer(tail, cursor));
        if i == n {
            assert(tail =~= Seq::empty());
            lemma_none_behind(tail, cursor);
            assert(all =~= tokens_view(out@));
            if size <= all.len() {
                assert(all.take(size as int) =~= all);
            }
        } else {
            assert(all.take(size as int) =~= tokens_view(out@));
        }
    }
    ListedTokensResponse { tokens: out }
}

} // verus!
