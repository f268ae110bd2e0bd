//! The authorization guard: who may change a token, and in which state a
//! token can be changed at all.

use vstd::prelude::*;
use crate::error::ContractError;
use crate::ledger::{Ledger, LedgerView};
use crate::msg::BaseExecuteMsg;
use crate::order::same_id;
use crate::state::{
    Approval, ApprovalView, Env, MessageInfo, Metadata, MetadataView, TokenInfoView,
    approvals_view, opt_meta,
};

verus! {

/// Whether a token in this state can be listed, moved or approved: it
/// carries metadata and is neither redeemed nor locked. A redeemed ticket is
/// reported as redeemed, though it is locked as well.
pub open spec fn ticket_state(extension: Option<MetadataView>) -> Result<(), ContractError> {
    match extension {
        None => Err(ContractError::NoMetadataPresent),
        Some(m) => if m.redeemed {
            Err(ContractError::TicketRedeemed)
        } else if m.locked {
            Err(ContractError::TicketLocked)
        } else {
            Ok(())
        },
    }
}

/// Whether one of the approvals names `caller` and has not run out.
pub open spec fn approved(
    approvals: Seq<ApprovalView>,
    caller: Seq<char>,
    height: u64,
    time: u64,
) -> bool {
    exists|k: int|
        0 <= k < approvals.len() && (#[trigger] approvals[k]).spender == caller
            && !approvals[k].expires.expired_at(height, time)
}

/// Whether `caller` has the right to move the token: as its owner, by an
/// approval for this token, or as an operator of its owner.
pub open spec fn may_send(
    ledger: LedgerView,
    height: u64,
    time: u64,
    caller: Seq<char>,
    token: TokenInfoView,
) -> bool {
    ||| caller == token.owner
    ||| approved(token.approvals, caller, height, time)
    ||| match ledger.operator(token.owner, caller) {
        Some(expires) => !expires.expired_at(height, time),
        None => false,
    }
}

/// The guard's verdict on `caller` changing the token `id` in a block of the
/// given height and time. The first of these that applies decides: the token
/// is unknown; it is in a state that forbids the change; the caller has the
/// right; the caller has not.
pub open spec fn can_send(
    ledger: LedgerView,
    height: u64,
    time: u64,
    caller: Seq<char>,
    id: Seq<char>,
) -> Result<(), ContractError> {
    match ledger.token(id) {
        None => Err(ContractError::NotFound),
        Some(token) => match ticket_state(token.extension) {
            Err(e) => Err(e),
            Ok(_) => if may_send(ledger, height, time, caller, token) {
                Ok(())
            } else {
                Err(ContractError::Unauthorized)
            },
        },
    }
}

/// The token that a message for the ledger would move or put under an
/// approval.
pub open spec fn ticket_id_of(msg: BaseExecuteMsg) -> Option<Seq<char>> {
    match msg {
        BaseExecuteMsg::TransferNft { token_id, .. } => Some(token_id@),
        BaseExecuteMsg::SendNft { token_id, .. } => Some(token_id@),
        BaseExecuteMsg::Approve { token_id, .. } => Some(token_id@),
        BaseExecuteMsg::Revoke { token_id, .. } => Some(token_id@),
        _ => None,
    }
}

/// Whether a message for the ledger may go on to it: one that names no token
/// may; one that names a token may if the token is known and its state
/// permits a change.
pub open spec fn screened(ledger: LedgerView, msg: BaseExecuteMsg) -> Result<(), ContractError> {
    match ticket_id_of(msg) {
        None => Ok(()),
        Some(id) => match ledger.token(id) {
            None => Err(ContractError::NotFound),
            Some(token) => ticket_state(token.extension),
        },
    }
}

/// Tells whether a token in this state can be listed, moved or approved.
pub fn check_ticket_state(extension: &Option<Metadata>) -> (r: Result<(), ContractError>)
    ensures
        r == ticket_state(opt_meta(*extension)),
{
    match extension {
        None => Err(ContractError::NoMetadataPresent),
        Some(m) => {
            if m.redeemed {
                Err(ContractError::TicketRedeemed)
            } else if m.locked {
                Err(ContractError::TicketLocked)
            } else {
                Ok(())
            }
        },
    }
}

/// Tells whether one of the approvals names `caller` and has not run out.
fn has_approval(approvals: &Vec<Approval>, caller: &str, env: &Env) -> (r: bool)
    ensures
        r == approved(approvals_view(approvals@), caller@, env.block.height, env.block.time),
{
    let mut k: usize = 0;
    while k < approvals.len()
        invariant
            k <= approvals.len(),
            forall|j: int|
                0 <= j < k ==> !((#[trigger] approvals_view(approvals@)[j]).spender == caller@
                    && !approvals_view(approvals@)[j].expires.expired_at(
                    env.block.height,
                    env.block.time,
                )),
        decreases approvals.len() - k,
    {
        let a = &approvals[k];
        assert(approvals_view(approvals@)[k as int] == a@);
        if same_id(a.spender.as_str(), caller) && !a.expires.is_expired(&env.block) {
            return true;
        }
        k = k + 1;
    }
    false
}

/// Decides whether the sender of `info` may change the token `token_id`.
pub fn check_can_send(ledger: &Ledger, env: &Env, info: &MessageInfo, token_id: &String) -> (r:
    Result<(), ContractError>)
    requires
        ledger@.wf(),
    ensures
        r == can_send(ledger@, env.block.height, env.block.time, info.sender@, token_id@),
{
    let token = match ledger.load(token_id.as_str()) {
        Some(token) => token,
        None => {
            return Err(ContractError::NotFound);
        },
    };
    match check_ticket_state(&token.extension) {
        Err(e) => {
            return Err(e);
        },
        Ok(_) => {},
    }
    if same_id(token.owner.as_str(), info.sender.as_str()) {
        return Ok(());
    }
    if has_approval(&token.approvals, info.sender.as_str(), env) {
        return Ok(());
    }
    match ledger.operator(token.owner.as_str(), info.sender.as_str()) {
        Some(expires) => {
            if !expires.is_expired(&env.block) {
                Ok(())
            } else {
                Err(ContractError::Unauthorized)
            }
        },
        None => Err(ContractError::Unauthorized),
    }
}

/// The id of the token that a message for the ledger would move or put
/// under an approval.
pub fn get_ticket_id(msg: &BaseExecuteMsg) -> (r: Option<String>)
    ensures
        r is Some == ticket_id_of(*msg) is Some,
        r is Some ==> r.unwrap()@ == ticket_id_of(*msg).unwrap(),
{
    match msg {
        BaseExecuteMsg::TransferNft { token_id, .. } => Some(token_id.clone()),
        BaseExecuteMsg::SendNft { token_id, .. } => Some(token_id.clone()),
        BaseExecuteMsg::Approve { token_id, .. } => Some(token_id.clone()),
        BaseExecuteMsg::Revoke { token_id, .. } => Some(token_id.clone()),
        _ => None,
    }
}

/// Screens a message for the ledger before it goes on: a token that is
/// locked or redeemed is neither moved nor put under an approval.
pub fn validate_locked_ticket(ledger: &Ledger, msg: &BaseExecuteMsg) -> (r: Result<
    (),
    ContractError,
>)
    requires
        ledger@.wf(),
    ensures
        r == screened(ledger@, *msg),
{
    match get_ticket_id(msg) {
        Some(ticket_id) => {
            match ledger.load(ticket_id.as_str()) {
                Some(ticket) => check_ticket_state(&ticket.extension),
                None => Err(ContractError::NotFound),
            }
        },
        None => Ok(()),
    }
}

} // verus!
