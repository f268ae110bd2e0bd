//! The messages that the contract takes and the answers it gives.

use vstd::prelude::*;
use crate::ledger::MintMsg;
use crate::state::{coins_view, Coin, CoinView, Expiration};

verus! {

/// The currency in which tokens are paid.
pub const DENOM_NAME: &'static str = "uturnt";

/// Declares `cw2981_royalties::msg::Cw2981QueryMsg`, a question about
/// royalties. The library never looks into one: it hands it on as it came.
#[verifier::external_type_specification]
#[verifier::external_body]
pub struct ExCw2981QueryMsg(cw2981_royalties::msg::Cw2981QueryMsg);

/// A sponsor of the collection.
#[derive(Debug, PartialEq, Eq)]
pub struct Sponsor {
    pub id: String,
    pub name: String,
}

impl Clone for Sponsor {
    fn clone(&self) -> (r: Self)
        ensures
            r.id@ == self.id@,
            r.name@ == self.name@,
    {
        Sponsor { id: self.id.clone(), name: self.name.clone() }
    }
}

/// What is said of the collection as a whole when it is set up.
#[derive(Debug, PartialEq, Eq)]
pub struct ContractMetadata {
    pub description: String,
    pub token_uri: Option<String>,
    /// The price at which each ticket is first offered; 0 offers none.
    pub initial_price: u64,
    pub royalty: u64,
    /// How many tickets are minted at setup.
    pub num_of_tickets: u64,
    pub sponsors: Vec<Sponsor>,
}

impl Default for ContractMetadata {
    fn default() -> (r: Self)
        ensures
            r.description@.len() == 0,
            r.token_uri is None,
            r.initial_price == 0,
            r.royalty == 0,
            r.num_of_tickets == 0,
            r.sponsors@.len() == 0,
    {
        ContractMetadata {
            description: String::new(),
            token_uri: None,
            initial_price: 0,
            royalty: 0,
            num_of_tickets: 0,
            sponsors: Vec::new(),
        }
    }
}

/// The message that sets the contract up.
#[derive(Debug, PartialEq, Eq)]
pub struct InstantiateMsg {
    /// Name of the collection.
    pub name: String,
    /// Symbol of the collection.
    pub symbol: String,
    /// The only account that may mint tokens and redeem tickets.
    pub minter: String,
    pub contract_metadata: ContractMetadata,
}

/// What the token ledger itself needs to be set up.
#[derive(Debug, PartialEq, Eq)]
pub struct BaseInstantiateMsg {
    pub name: String,
    pub symbol: String,
    pub minter: String,
}

/// A message for the token ledger itself.
#[derive(Debug, PartialEq, Eq)]
pub enum BaseExecuteMsg {
    /// Moves a token to another account.
    TransferNft { recipient: String, token_id: String },
    /// Moves a token to a contract and has it act on `msg`.
    SendNft { contract: String, token_id: String, msg: Vec<u8> },
    /// Lets `spender` move the token.
    Approve { spender: String, token_id: String, expires: Option<Expiration> },
    /// Takes that right back.
    Revoke { spender: String, token_id: String },
    /// Lets `operator` move every token of the sender.
    ApproveAll { operator: String, expires: Option<Expiration> },
    /// Takes that right back.
    RevokeAll { operator: String },
    /// Creates a token.
    Mint(MintMsg),
    /// Destroys a token.
    Burn { token_id: String },
}

/// A message for the contract.
#[derive(Debug, PartialEq, Eq)]
pub enum Cw721SellableExecuteMsg {
    /// A message for the token ledger itself.
    BaseMsg(BaseExecuteMsg),
    /// Offers each named token at the price given with it; the price 0
    /// withdraws the offer.
    List { listings: Vec<(String, u64)> },
    /// Buys the cheapest token on offer. The ceiling is `limit`, or, where
    /// none is given, the amount of the payment currency sent along.
    Buy { limit: Option<u64> },
    /// Marks the ticket of `address` as redeemed.
    RedeemTicket { address: String, ticket_id: String },
}

/// The message that the contract carries out.
pub type ExecuteMsg = Cw721SellableExecuteMsg;

/// A question for the contract.
#[derive(Debug, PartialEq)]
pub enum Cw721SellableQueryMsg {
    /// Asks for the tokens on offer, in ascending order of their ids, after
    /// `start_after` and at most `limit` of them.
    ListedTokens { start_after: Option<String>, limit: Option<u32> },
    /// A question about royalties, which the token ledger answers.
    Cw2981Query(cw2981_royalties::msg::Cw2981QueryMsg),
}

/// A key and a value that describe what a call did.
#[derive(Debug, PartialEq, Eq)]
pub struct Attribute {
    pub key: String,
    pub value: String,
}

/// An order to the bank.
#[derive(Debug, PartialEq, Eq)]
pub enum BankMsg {
    /// Pays `amount` out of the contract's custody to `to_address`.
    Send { to_address: String, amount: Vec<Coin> },
}

/// An order to the bank as a value.
pub enum BankMsgView {
    Send { to_address: Seq<char>, amount: Seq<CoinView> },
}

/// What a call that succeeded hands back to the host.
#[derive(Debug, PartialEq, Eq)]
pub struct Response {
    pub attributes: Vec<Attribute>,
    pub messages: Vec<BankMsg>,
}

/// An answer as a value: its attributes as pairs of key and value, and its
/// orders to the bank.
pub struct ResponseView {
    pub attributes: Seq<(Seq<char>, Seq<char>)>,
    pub messages: Seq<BankMsgView>,
}

impl View for Attribute {
    type V = (Seq<char>, Seq<char>);

    open spec fn view(&self) -> (Seq<char>, Seq<char>) {
        (self.key@, self.value@)
    }
}

impl View for BankMsg {
    type V = BankMsgView;

    open spec fn view(&self) -> BankMsgView {
        match *self {
            BankMsg::Send { to_address, amount } => BankMsgView::Send {
                to_address: to_address@,
                amount: coins_view(amount@),
            },
        }
    }
}

impl View for Response {
    type V = ResponseView;

    open spec fn view(&self) -> ResponseView {
        ResponseView {
            attributes: Seq::new(self.attributes@.len(), |i: int| self.attributes@[i]@),
            messages: Seq::new(self.messages@.len(), |i: int| self.messages@[i]@),
        }
    }
}

/// The answer that tells the host which method ran, and nothing else.
pub open spec fn method_response(method: Seq<char>) -> ResponseView {
    ResponseView { attributes: seq![("method"@, method)], messages: Seq::empty() }
}

/// The order to pay `price` units of the payment currency to `seller`.
pub open spec fn payment(seller: Seq<char>, price: u64) -> BankMsgView {
    BankMsgView::Send {
        to_address: seller,
        amount: seq![CoinView { denom: DENOM_NAME@, amount: price as u128 }],
    }
}

impl Response {
    /// An answer without attributes or messages.
    pub fn new() -> (r: Response)
        ensures
            r@ == (ResponseView { attributes: Seq::empty(), messages: Seq::empty() }),
    {
        let r = Response { attributes: Vec::new(), messages: Vec::new() };
        assert(r@.attributes =~= Seq::empty());
        assert(r@.messages =~= Seq::empty());
        r
    }

    /// The same answer with one more attribute.
    pub fn add_attribute(self, key: &str, value: &str) -> (r: Response)
        ensures
            r@ == (ResponseView { attributes: self@.attributes.push((key@, value@)), ..self@ }),
    {
        let mut r = self;
        r.attributes.push(Attribute { key: key.to_owned(), value: value.to_owned() });
        assert(r@.attributes =~= self@.attributes.push((key@, value@)));
        r
    }

    /// The same answer with one more order to the bank.
    pub fn add_message(self, msg: BankMsg) -> (r: Response)
        ensures
            r@ == (ResponseView { messages: self@.messages.push(msg@), ..self@ }),
    {
        let mut r = self;
        let ghost m = msg@;
        r.messages.push(msg);
        assert(r@.messages =~= self@.messages.push(m));
        r
    }
}

impl Default for Response {
    fn default() -> (r: Response)
        ensures
            r@ == (ResponseView { attributes: Seq::empty(), messages: Seq::empty() }),
    {
        Response::new()
    }
}

} // verus!
