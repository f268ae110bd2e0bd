//! The token ledger: every token record, filed under its id in ascending
//! order, the blanket grants that owners gave to operators, and the minter.

use vstd::prelude::*;
use crate::error::ContractError;
use crate::order::{
    id_before, id_lt, lemma_id_lt_irreflexive, lemma_id_lt_total, lemma_id_lt_transitive,
    same_id,
};
use crate::state::{Expiration, Metadata, MetadataView, TokenInfo, TokenInfoView};

verus! {

/// The right of `operator` to move every token of `owner` until it expires.
#[derive(Debug, PartialEq, Eq)]
pub struct OperatorGrant {
    pub owner: String,
    pub operator: String,
    pub expires: Expiration,
}

/// An operator grant as a value.
pub struct OperatorGrantView {
    pub owner: Seq<char>,
    pub operator: Seq<char>,
    pub expires: Expiration,
}

impl View for OperatorGrant {
    type V = OperatorGrantView;

    open spec fn view(&self) -> OperatorGrantView {
        OperatorGrantView { owner: self.owner@, operator: self.operator@, expires: self.expires }
    }
}

/// A request to create a token.
#[derive(Debug, PartialEq, Eq)]
pub struct MintMsg {
    pub token_id: String,
    pub owner: String,
    pub token_uri: Option<String>,
    pub extension: Option<Metadata>,
}

/// The ledger. Its tokens are kept in ascending order of their ids, and no
/// two of them share an id.
#[derive(Debug)]
pub struct Ledger {
    name: String,
    symbol: String,
    minter: String,
    tokens: Vec<(String, TokenInfo)>,
    operators: Vec<OperatorGrant>,
}

/// What a ledger holds: the tokens in the order in which a scan meets them,
/// and the operator grants in the order in which they were given.
pub struct LedgerView {
    pub name: Seq<char>,
    pub symbol: Seq<char>,
    pub minter: Seq<char>,
    pub tokens: Seq<(Seq<char>, TokenInfoView)>,
    pub operators: Seq<OperatorGrantView>,
}

/// The ids ascend strictly, so that none occurs twice.
pub open spec fn sorted(tokens: Seq<(Seq<char>, TokenInfoView)>) -> bool {
    forall|i: int, j: int|
        0 <= i < j < tokens.len() ==> id_lt(#[trigger] tokens[i].0, #[trigger] tokens[j].0)
}

/// Whether a token of this id is on file.
pub open spec fn has_token(tokens: Seq<(Seq<char>, TokenInfoView)>, id: Seq<char>) -> bool {
    exists|i: int| 0 <= i < tokens.len() && #[trigger] tokens[i].0 == id
}

/// Where the token of this id is filed, if it is.
pub open spec fn position_of(tokens: Seq<(Seq<char>, TokenInfoView)>, id: Seq<char>) -> int {
    choose|i: int| 0 <= i < tokens.len() && #[trigger] tokens[i].0 == id
}

/// The record filed under this id.
pub open spec fn token_of(tokens: Seq<(Seq<char>, TokenInfoView)>, id: Seq<char>) -> Option<
    TokenInfoView,
> {
    if has_token(tokens, id) {
        Some(tokens[position_of(tokens, id)].1)
    } else {
        None
    }
}

/// The latest grant that `owner` gave to `operator`, if there is one.
pub open spec fn grant_of(
    operators: Seq<OperatorGrantView>,
    owner: Seq<char>,
    operator: Seq<char>,
) -> Option<Expiration>
    decreases operators.len(),
{
    if operators.len() == 0 {
        None
    } else if operators.last().owner == owner && operators.last().operator == operator {
        Some(operators.last().expires)
    } else {
        grant_of(operators.drop_last(), owner, operator)
    }
}

/// The record with another asking price. A record without metadata has no
/// price to change.
pub open spec fn with_price(t: TokenInfoView, price: Option<u64>) -> TokenInfoView {
    TokenInfoView {
        extension: match t.extension {
            Some(m) => Some(MetadataView { list_price: price, ..m }),
            None => None,
        },
        ..t
    }
}

/// The record after its sale to `buyer`: a new owner, and no longer for sale.
pub open spec fn sold_to(t: TokenInfoView, buyer: Seq<char>) -> TokenInfoView {
    TokenInfoView { owner: buyer, ..with_price(t, None) }
}

/// The record after redemption: redeemed, locked and no longer for sale.
pub open spec fn redeemed(t: TokenInfoView) -> TokenInfoView {
    TokenInfoView {
        extension: match t.extension {
            Some(m) => Some(MetadataView { list_price: None, locked: true, redeemed: true, ..m }),
            None => None,
        },
        ..t
    }
}

/// The record with which a token starts.
pub open spec fn minted(
    owner: Seq<char>,
    token_uri: Option<Seq<char>>,
    extension: Option<MetadataView>,
) -> TokenInfoView {
    TokenInfoView { owner, approvals: Seq::empty(), token_uri, extension }
}

impl LedgerView {
    /// The tokens are in order.
    pub open spec fn wf(self) -> bool {
        sorted(self.tokens)
    }

    /// The record filed under `id`.
    pub open spec fn token(self, id: Seq<char>) -> Option<TokenInfoView> {
        token_of(self.tokens, id)
    }

    /// The latest grant that `owner` gave to `operator`.
    pub open spec fn operator(self, owner: Seq<char>, operator: Seq<char>) -> Option<Expiration> {
        grant_of(self.operators, owner, operator)
    }

    /// The same ledger with other tokens.
    pub open spec fn with_tokens(self, tokens: Seq<(Seq<char>, TokenInfoView)>) -> LedgerView {
        LedgerView { tokens, ..self }
    }

    /// The same ledger with another record in place `i`, under the same id.
    pub open spec fn with_record(self, i: int, t: TokenInfoView) -> LedgerView {
        self.with_tokens(self.tokens.update(i, (self.tokens[i].0, t)))
    }
}

/// In an ordered file an id is found in one place only.
pub proof fn lemma_one_place(tokens: Seq<(Seq<char>, TokenInfoView)>, i: int, j: int)
    requires
        sorted(tokens),
        0 <= i < tokens.len(),
        0 <= j < tokens.len(),
        tokens[i].0 == tokens[j].0,
    ensures
        i == j,
{
    lemma_id_lt_irreflexive(tokens[i].0);
}

/// In an ordered file the token in place `i` is the one found under its id.
pub proof fn lemma_found_in_place(tokens: Seq<(Seq<char>, TokenInfoView)>, i: int)
    requires
        sorted(tokens),
        0 <= i < tokens.len(),
    ensures
        has_token(tokens, tokens[i].0),
        position_of(tokens, tokens[i].0) == i,
        token_of(tokens, tokens[i].0) == Some(tokens[i].1),
{
    lemma_one_place(tokens, i, position_of(tokens, tokens[i].0));
}

/// A change of records that keeps every id keeps the order, and each id is
/// still found in its place.
pub proof fn lemma_same_ids(
    before: Seq<(Seq<char>, TokenInfoView)>,
    after: Seq<(Seq<char>, TokenInfoView)>,
)
    requires
        sorted(before),
        before.len() == after.len(),
        forall|i: int| 0 <= i < before.len() ==> (#[trigger] after[i]).0 == before[i].0,
    ensures
        sorted(after),
        forall|id: Seq<char>| has_token(after, id) == has_token(before, id),
        forall|id: Seq<char>|
            has_token(before, id) ==> position_of(after, id) == position_of(before, id),
{
    assert forall|id: Seq<char>| has_token(after, id) == has_token(before, id) by {
        if has_token(before, id) {
            assert(after[position_of(before, id)].0 == id);
        }
    }
    assert forall|id: Seq<char>| has_token(before, id) implies position_of(after, id)
        == position_of(before, id) by {
        lemma_one_place(after, position_of(before, id), position_of(after, id));
    }
}

/// The views of the tokens on file.
pub open spec fn tokens_view(v: Seq<(String, TokenInfo)>) -> Seq<(Seq<char>, TokenInfoView)> {
    Seq::new(v.len(), |i: int| (v[i].0@, v[i].1@))
}

/// The views of the grants on file.
pub open spec fn grants_view(v: Seq<OperatorGrant>) -> Seq<OperatorGrantView> {
    Seq::new(v.len(), |i: int| v[i]@)
}

impl View for Ledger {
    type V = LedgerView;

    closed spec fn view(&self) -> LedgerView {
        LedgerView {
            name: self.name@,
            symbol: self.symbol@,
            minter: self.minter@,
            tokens: tokens_view(self.tokens@),
            operators: grants_view(self.operators@),
        }
    }
}

impl Ledger {
    /// A ledger without tokens or grants.
    pub fn new(name: String, symbol: String, minter: String) -> (r: Ledger)
        ensures
            r@ == (LedgerView {
                name: name@,
                symbol: symbol@,
                minter: minter@,
                tokens: Seq::empty(),
                operators: Seq::empty(),
            }),
            r@.wf(),
    {
        let r = Ledger { name, symbol, minter, tokens: Vec::new(), operators: Vec::new() };
        assert(r@.tokens =~= Seq::empty());
        assert(r@.operators =~= Seq::empty());
        r
    }

    /// The name of the collection.
    pub fn name(&self) -> (r: &String)
        ensures
            r@ == self@.name,
    {
        &self.name
    }

    /// The symbol of the collection.
    pub fn symbol(&self) -> (r: &String)
        ensures
            r@ == self@.symbol,
    {
        &self.symbol
    }

    /// The only account that mints tokens and redeems tickets.
    pub fn minter(&self) -> (r: &String)
        ensures
            r@ == self@.minter,
    {
        &self.minter
    }

    /// How many tokens are on file.
    pub fn token_count(&self) -> (r: usize)
        ensures
            r == self@.tokens.len(),
    {
        self.tokens.len()
    }

    /// The id of the token in place `i` of the ascending scan.
    pub fn token_id(&self, i: usize) -> (r: &String)
        requires
            i < self@.tokens.len(),
        ensures
            r@ == self@.tokens[i as int].0,
    {
        &self.tokens[i].0
    }

    /// The record of the token in place `i` of the ascending scan.
    pub fn token_info(&self, i: usize) -> (r: &TokenInfo)
        requires
            i < self@.tokens.len(),
        ensures
            r@ == self@.tokens[i as int].1,
    {
        &self.tokens[i].1
    }

    /// The place of the token of this id.
    pub fn position(&self, id: &str) -> (r: Option<usize>)
        requires
            self@.wf(),
        ensures
            r is Some == has_token(self@.tokens, id@),
            r is Some ==> r.unwrap() == position_of(self@.tokens, id@),
    {
        let mut i: usize = 0;
        while i < self.tokens.len()
            invariant
                self@.wf(),
                i <= self.tokens.len(),
                forall|j: int| 0 <= j < i ==> (#[trigger] self@.tokens[j]).0 != id@,
            decreases self.tokens.len() - i,
        {
            if same_id(self.tokens[i].0.as_str(), id) {
                proof {
                    lemma_found_in_place(self@.tokens, i as int);
                }
                return Some(i);
            }
            i = i + 1;
        }
        None
    }

    /// The record of the token of this id.
    pub fn load(&self, id: &str) -> (r: Option<&TokenInfo>)
        requires
            self@.wf(),
        ensures
            r is Some == self@.token(id@) is Some,
            r is Some ==> r.unwrap()@ == self@.token(id@).unwrap(),
    {
        match self.position(id) {
            Some(i) => Some(&self.tokens[i].1),
            None => None,
        }
    }

    /// The place of the first token whose id comes after `start`; the number
    /// of tokens where none does.
    pub fn first_after(&self, start: &str) -> (r: usize)
        requires
            self@.wf(),
        ensures
            r <= self@.tokens.len(),
            forall|j: int| 0 <= j < r ==> !id_lt(start@, (#[trigger] self@.tokens[j]).0),
            forall|j: int|
                r <= j < self@.tokens.len() ==> id_lt(start@, (#[trigger] self@.tokens[j]).0),
    {
        let mut i: usize = 0;
        while i < self.tokens.len() && !id_before(start, self.tokens[i].0.as_str())
            invariant
                self@.wf(),
                i <= self.tokens.len(),
                forall|j: int| 0 <= j < i ==> !id_lt(start@, (#[trigger] self@.tokens[j]).0),
            decreases self.tokens.len() - i,
        {
            i = i + 1;
        }
        proof {
            assert forall|j: int| i <= j < self@.tokens.len() implies id_lt(
                start@,
                (#[trigger] self@.tokens[j]).0,
            ) by {
                if i < j {
                    lemma_id_lt_transitive(start@, self@.tokens[i as int].0, self@.tokens[j].0);
                }
            }
        }
        i
    }

    /// The latest grant that `owner` gave to `operator`.
    pub fn operator(&self, owner: &str, operator: &str) -> (r: Option<Expiration>)
        ensures
            r == self@.operator(owner@, operator@),
    {
        let mut i: usize = self.operators.len();
        assert(self@.operators.take(i as int) =~= self@.operators);
        while i > 0
            invariant
                i <= self.operators.len(),
                self@.operator(owner@, operator@) == grant_of(
                    self@.operators.take(i as int),
                    owner@,
                    operator@,
                ),
            decreases i,
        {
            let g = &self.operators[i - 1];
            assert(self@.operators.take(i as int).drop_last() =~= self@.operators.take(i - 1));
            if same_id(g.owner.as_str(), owner) && same_id(g.operator.as_str(), operator) {
                return Some(g.expires);
            }
            i = i - 1;
        }
        None
    }

    /// Records that `owner` lets `operator` move all its tokens until
    /// `expires`. This takes the place of any earlier grant between the two.
    pub fn set_operator(&mut self, owner: String, operator: String, expires: Expiration)
        ensures
            final(self)@ == (LedgerView {
                operators: old(self)@.operators.push(
                    OperatorGrantView { owner: owner@, operator: operator@, expires },
                ),
                ..old(self)@
            }),
            final(self)@.operator(owner@, operator@) == Some(expires),
            forall|o: Seq<char>, p: Seq<char>|
                !(o == owner@ && p == operator@) ==> final(self)@.operator(o, p) == old(
                    self,
                )@.operator(o, p),
    {
        let ghost before = self@.operators;
        let ghost g = OperatorGrantView { owner: owner@, operator: operator@, expires };
        self.operators.push(OperatorGrant { owner, operator, expires });
        proof {
            assert(self@.operators =~= before.push(g));
            assert(before.push(g).drop_last() =~= before);
        }
    }

    /// Files `info` under `id`, in place of the record that was there, or as
    /// a new token in the place that the order gives it.
    pub fn save(&mut self, id: String, info: TokenInfo)
        requires
            old(self)@.wf(),
        ensures
            final(self)@.wf(),
            final(self)@.with_tokens(old(self)@.tokens) == old(self)@,
            final(self)@.token(id@) == Some(info@),
            forall|other: Seq<char>|
                other != id@ ==> final(self)@.token(other) == old(self)@.token(other),
            final(self)@.tokens.len() == old(self)@.tokens.len() + (if has_token(
                old(self)@.tokens,
                id@,
            ) {
                0int
            } else {
                1int
            }),
    {
        let ghost before = self@.tokens;
        let mut i: usize = 0;
        while i < self.tokens.len() && id_before(self.tokens[i].0.as_str(), id.as_str())
            invariant
                i <= self.tokens.len(),
                self@.tokens == before,
                forall|j: int| 0 <= j < i ==> id_lt((#[trigger] before[j]).0, id@),
            decreases self.tokens.len() - i,
        {
            i = i + 1;
        }
        if i < self.tokens.len() && same_id(self.tokens[i].0.as_str(), id.as_str()) {
            self.tokens[i].1 = info;
            proof {
                let after = self@.tokens;
                lemma_same_ids(before, after);
                lemma_found_in_place(after, i as int);
            }
        } else {
            proof {
                lemma_id_lt_irreflexive(id@);
                assert forall|j: int| i <= j < before.len() implies id_lt(
                    id@,
                    (#[trigger] before[j]).0,
                ) by {
                    lemma_id_lt_total(before[i as int].0, id@);
                    if i < j {
                        lemma_id_lt_transitive(id@, before[i as int].0, before[j].0);
                    }
                }
            }
            let ghost entry = (id@, info@);
            self.tokens.insert(i, (id, info));
            proof {
                let after = self@.tokens;
                assert(after =~= before.insert(i as int, entry));
                assert forall|a: int, b: int| 0 <= a < b < after.len() implies id_lt(
                    #[trigger] after[a].0,
                    #[trigger] after[b].0,
                ) by {}
                lemma_found_in_place(after, i as int);
                assert forall|other: Seq<char>| other != id@ implies token_of(after, other)
                    == token_of(before, other) by {
                    if has_token(before, other) {
                        let k = position_of(before, other);
                        lemma_found_in_place(after, if k < i { k } else { k + 1 });
                    }
                }
            }
        }
    }

    /// Creates a token for the minter. Refused as `Unauthorized` when
    /// `sender` is not the minter, else as `Claimed` when the id is taken.
    pub fn mint(&mut self, sender: &str, msg: MintMsg) -> (r: Result<(), ContractError>)
        requires
            old(self)@.wf(),
        ensures
            final(self)@.wf(),
            mint_result(old(self)@, final(self)@, sender@, msg, r),
    {
        if !same_id(sender, self.minter.as_str()) {
            return Err(ContractError::Unauthorized);
        }
        if self.position(msg.token_id.as_str()).is_some() {
            return Err(ContractError::Claimed);
        }
        let info = TokenInfo {
            owner: msg.owner,
            approvals: Vec::new(),
            token_uri: msg.token_uri,
            extension: msg.extension,
        };
        assert(info@.approvals =~= Seq::empty());
        self.save(msg.token_id, info);
        Ok(())
    }

    /// Sets the asking price of the token in place `i`.
    pub(crate) fn set_list_price(&mut self, i: usize, price: Option<u64>)
        requires
            i < old(self)@.tokens.len(),
        ensures
            final(self)@ == old(self)@.with_record(
                i as int,
                with_price(old(self)@.tokens[i as int].1, price),
            ),
    {
        match &mut self.tokens[i].1.extension {
            Some(m) => {
                m.list_price = price;
            },
            None => {},
        }
        assert(self@.tokens =~= old(self)@.tokens.update(
            i as int,
            (old(self)@.tokens[i as int].0, with_price(old(self)@.tokens[i as int].1, price)),
        ));
    }

    /// Hands the token in place `i` to `buyer` and takes it off the market.
    pub(crate) fn sell(&mut self, i: usize, buyer: String)
        requires
            i < old(self)@.tokens.len(),
        ensures
            final(self)@ == old(self)@.with_record(
                i as int,
                sold_to(old(self)@.tokens[i as int].1, buyer@),
            ),
    {
        match &mut self.tokens[i].1.extension {
            Some(m) => {
                m.list_price = None;
            },
            None => {},
        }
        self.tokens[i].1.owner = buyer;
        assert(self@.tokens =~= old(self)@.tokens.update(
            i as int,
            (old(self)@.tokens[i as int].0, sold_to(old(self)@.tokens[i as int].1, buyer@)),
        ));
    }

    /// Marks the token in place `i` as redeemed, locks it and takes it off
    /// the market.
    pub(crate) fn redeem(&mut self, i: usize)
        requires
            i < old(self)@.tokens.len(),
        ensures
            final(self)@ == old(self)@.with_record(
                i as int,
                redeemed(old(self)@.tokens[i as int].1),
            ),
    {
        match &mut self.tokens[i].1.extension {
            Some(m) => {
                m.list_price = None;
                m.locked = true;
                m.redeemed = true;
            },
            None => {},
        }
        assert(self@.tokens =~= old(self)@.tokens.update(
            i as int,
            (old(self)@.tokens[i as int].0, redeemed(old(self)@.tokens[i as int].1)),
        ));
    }
}

/// How the result of a request to mint and the ledger after it follow from
/// the ledger before it: a refusal changes nothing, and a grant files the new
/// record under its id and leaves every other token as it was.
pub open spec fn mint_result(
    before: LedgerView,
    after: LedgerView,
    sender: Seq<char>,
    msg: MintMsg,
    r: Result<(), ContractError>,
) -> bool {
    &&& r == mint_outcome(before, sender, msg)
    &&& r is Err ==> after == before
    &&& r is Ok ==> {
        &&& after.with_tokens(before.tokens) == before
        &&& after.tokens.len() == before.tokens.len() + 1
        &&& after.token(msg.token_id@) == Some(
            minted(
                msg.owner@,
                crate::state::opt_text(msg.token_uri),
                crate::state::opt_meta(msg.extension),
            ),
        )
        &&& forall|other: Seq<char>|
            other != msg.token_id@ ==> after.token(other) == before.token(other)
    }
}

/// Whether a request to mint is granted: only to the minter, and only for an
/// id that is free.
pub open spec fn mint_outcome(ledger: LedgerView, sender: Seq<char>, msg: MintMsg) -> Result<
    (),
    ContractError,
> {
    if sender != ledger.minter {
        Err(ContractError::Unauthorized)
    } else if has_token(ledger.tokens, msg.token_id@) {
        Err(ContractError::Claimed)
    } else {
        Ok(())
    }
}

} // verus!
