//! A host in memory: a ledger, the block in which calls run and the bank
//! balances of the accounts, for running the contract without a chain.

use vstd::prelude::*;
use crate::contract::{
    execute, execute_result, paid_from, query, amount_paid, Outcome, QueryResponse,
};
use crate::error::ContractError;
use crate::ledger::{mint_result, Ledger, LedgerView};
use crate::msg::{
    BaseExecuteMsg, Cw721SellableExecuteMsg, Cw721SellableQueryMsg, Response, ResponseView,
};
use crate::order::same_id;
use crate::query::listed_page;
use crate::state::{coins_view, opt_text, BlockInfo, Coin, CoinView, Env, MessageInfo};

verus! {

/// The name and the symbol of a collection.
#[derive(Debug, PartialEq, Eq)]
pub struct ContractInfo {
    pub name: String,
    pub symbol: String,
}

/// The host: the ledger of the contract, the block in which every call
/// runs, and what each account has in the bank.
#[derive(Debug)]
pub struct Context {
    pub ledger: Ledger,
    pub env: Env,
    pub balances: Vec<(String, Vec<Coin>)>,
}

/// The accounts of the bank, each with its coins.
pub open spec fn balances_view(v: Seq<(String, Vec<Coin>)>) -> Seq<(Seq<char>, Seq<CoinView>)> {
    Seq::new(v.len(), |i: int| (v[i].0@, coins_view(v[i].1@)))
}

/// The coins of `address`: those of the last account of that name, and none
/// where the bank knows no such account.
pub open spec fn coins_of(balances: Seq<(Seq<char>, Seq<CoinView>)>, address: Seq<char>) -> Seq<
    CoinView,
>
    decreases balances.len(),
{
    if balances.len() == 0 {
        Seq::empty()
    } else if balances.last().0 == address {
        balances.last().1
    } else {
        coins_of(balances.drop_last(), address)
    }
}

/// What `address` has in the bank in the payment currency.
pub open spec fn balance_of(balances: Seq<(Seq<char>, Seq<CoinView>)>, address: Seq<char>) -> u128 {
    paid_from(coins_of(balances, address), 0)
}

/// Takes the block of `cosmwasm_std::testing::mock_env`. Trusted: its
/// height is 12345, its time 1571797419879305533 nanoseconds and its chain
/// `cosmos-testnet-14002`, the constants that the function is written with.
#[verifier::external_body]
fn mock_env() -> (r: Env)
    ensures
        r.block.height == 12_345,
        r.block.time == 1_571_797_419_879_305_533,
        r.block.chain_id@ == "cosmos-testnet-14002"@,
{
    let env = cosmwasm_std::testing::mock_env();
    Env {
        block: BlockInfo {
            height: env.block.height,
            time: env.block.time.nanos(),
            chain_id: env.block.chain_id,
        },
    }
}

impl Context {
    /// A host with an empty ledger under the given name and symbol, of which
    /// `creator` is the minter, and with the given bank balances.
    pub fn new(contract_info: ContractInfo, creator: &str, balances: Option<
        Vec<(String, Vec<Coin>)>,
    >) -> (r: Context)
        ensures
            r.ledger@.wf(),
            r.ledger@ == (LedgerView {
                name: contract_info.name@,
                symbol: contract_info.symbol@,
                minter: creator@,
                tokens: Seq::empty(),
                operators: Seq::empty(),
            }),
            r.env.block.height == 12_345,
            r.env.block.time == 1_571_797_419_879_305_533,
            r.env.block.chain_id@ == "cosmos-testnet-14002"@,
            match balances {
                Some(given) => r.balances == given,
                None => r.balances@.len() == 0,
            },
    {
        let ledger = Ledger::new(contract_info.name, contract_info.symbol, creator.to_owned());
        let balances = match balances {
            Some(given) => given,
            None => Vec::new(),
        };
        Context { ledger, env: mock_env(), balances }
    }

    /// What `address` has in the bank in the payment currency.
    pub fn balance(&self, address: &str) -> (r: u128)
        ensures
            r == balance_of(balances_view(self.balances@), address@),
    {
        let ghost all = balances_view(self.balances@);
        let mut i: usize = self.balances.len();
        assert(all.take(i as int) =~= all);
        while i > 0
            invariant
                i <= self.balances.len(),
                all == balances_view(self.balances@),
                coins_of(all, address@) == coins_of(all.take(i as int), address@),
            decreases i,
        {
            let account = &self.balances[i - 1];
            assert(all.take(i as int).drop_last() =~= all.take(i - 1));
            if same_id(account.0.as_str(), address) {
                return amount_paid(&account.1);
            }
            i = i - 1;
        }
        0
    }

    /// Carries out a message for the sender of `info`. A request to mint,
    /// which the contract sends on to the token ledger, is carried out on the
    /// ledger of this host; any other message that the contract sends on is
    /// handed to the caller.
    pub fn execute(&mut self, info: MessageInfo, msg: Cw721SellableExecuteMsg) -> (r: Result<
        Outcome,
        ContractError,
    >)
        requires
            old(self).ledger@.wf(),
        ensures
            final(self).ledger@.wf(),
            final(self).env == old(self).env,
            final(self).balances == old(self).balances,
            match msg {
                Cw721SellableExecuteMsg::BaseMsg(BaseExecuteMsg::Mint(mint)) => match r {
                    Ok(Outcome::Done(response)) => response@ == (ResponseView {
                        attributes: Seq::empty(),
                        messages: Seq::empty(),
                    }) && mint_result(
                        old(self).ledger@,
                        final(self).ledger@,
                        info.sender@,
                        mint,
                        Ok(()),
                    ),
                    Ok(Outcome::Forward(_)) => false,
                    Err(e) => mint_result(
                        old(self).ledger@,
                        final(self).ledger@,
                        info.sender@,
                        mint,
                        Err(e),
                    ),
                },
                _ => execute_result(
                    old(self).ledger@,
                    final(self).ledger@,
                    old(self).env,
                    info,
                    msg,
                    balance_of(balances_view(old(self).balances@), info.sender@),
                    r,
                ),
            },
    {
        let balance = self.balance(info.sender.as_str());
        match execute(&mut self.ledger, &self.env, &info, msg, balance) {
            Ok(Outcome::Forward(BaseExecuteMsg::Mint(mint))) => {
                match self.ledger.mint(info.sender.as_str(), mint) {
                    Ok(_) => Ok(Outcome::Done(Response::new())),
                    Err(e) => Err(e),
                }
            },
            other => other,
        }
    }

    /// Answers a question.
    pub fn query(&self, msg: Cw721SellableQueryMsg) -> (r: QueryResponse)
        requires
            self.ledger@.wf(),
        ensures
            match msg {
                Cw721SellableQueryMsg::ListedTokens { start_after, limit } => r matches QueryResponse::ListedTokens(
                    page,
                ) && page@ == listed_page(self.ledger@.tokens, opt_text(start_after), limit),
                Cw721SellableQueryMsg::Cw2981Query(question) => r matches QueryResponse::Forward(
                    sent,
                ) && sent == question,
            },
    {
        query(&self.ledger, &self.env, msg)
    }
}

impl Default for Context {
    /// A host for the collection `SpaceShips`, with `creator` as its minter
    /// and an empty bank.
    fn default() -> (r: Context)
        ensures
            r.ledger@.wf(),
            r.ledger@ == (LedgerView {
                name: "SpaceShips"@,
                symbol: "SPACE"@,
                minter: "creator"@,
                tokens: Seq::empty(),
                operators: Seq::empty(),
            }),
            r.env.block.height == 12_345,
            r.env.block.time == 1_571_797_419_879_305_533,
            r.env.block.chain_id@ == "cosmos-testnet-14002"@,
            r.balances@.len() == 0,
    {
        Context::new(
            ContractInfo { name: "SpaceShips".to_owned(), symbol: "SPACE".to_owned() },
            "creator",
            None,
        )
    }
}

} // verus!
