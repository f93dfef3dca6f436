//! Disconnecting: the slot is emptied first, and the handle that it held is
//! closed afterwards, outside the slot.

use crate::model::{Outcome, OutcomeView};
use crate::state::MqttClientState;
use vstd::prelude::*;

verus! {

/// Why a disconnect failed.
#[derive(Debug, Clone, PartialEq, Eq)]
pub enum DisconnectError {
    /// The connection could not be asked to close; holds the reason.
    CloseFailed(String),
}

/// The mathematical value of a [`DisconnectError`].
pub enum DisconnectFault {
    CloseFailed(Seq<char>),
}

impl View for DisconnectError {
    type V = DisconnectFault;

    open spec fn view(&self) -> DisconnectFault {
        match self {
            DisconnectError::CloseFailed(reason) => DisconnectFault::CloseFailed(reason@),
        }
    }
}

/// The text that reports `fault` to a caller.
pub open spec fn disconnect_fault_text(fault: DisconnectFault) -> Seq<char> {
    match fault {
        DisconnectFault::CloseFailed(reason) => "Disconnect failed: "@ + reason,
    }
}

/// What the driver of a disconnect is to do.
#[derive(Debug)]
pub enum DisconnectAction<H> {
    /// Ask this handle's connection to close, and report how that went.
    Close(H),
    /// Return this result to the caller of the disconnect.
    Finish(Result<(), DisconnectError>),
}

/// The result of a disconnect whose request to close went as `outcome` says.
pub open spec fn close_result(outcome: OutcomeView) -> Result<(), DisconnectFault> {
    match outcome {
        OutcomeView::Done => Ok(()),
        OutcomeView::Failed(reason) => Err(DisconnectFault::CloseFailed(reason)),
    }
}

/// The result of a whole disconnect on a slot that held `slot`, where the
/// request to close, if one was made, went as `outcome` says. There is
/// nothing to close on an empty slot, and nothing to fail.
pub open spec fn disconnect_result<H>(slot: Option<H>, outcome: OutcomeView) -> Result<
    (),
    DisconnectFault,
> {
    match slot {
        Some(_) => close_result(outcome),
        None => Ok(()),
    }
}

impl DisconnectError {
    /// The text that reports this error to a caller.
    pub fn message(&self) -> (text: String)
        ensures
            text@ == disconnect_fault_text(self@),
    {
        match self {
            DisconnectError::CloseFailed(reason) => {
                let mut text = "Disconnect failed: ".to_owned();
                text.append(reason.as_str());
                text
            },
        }
    }
}

/// Begins a disconnect: empties the slot, and says what is left to do. The
/// slot is empty afterwards whether or not the handle can be closed.
pub fn disconnect<H>(state: &mut MqttClientState<H>) -> (action: DisconnectAction<H>)
    ensures
        final(state)@ is None,
        match old(state)@ {
            Some(handle) => action == DisconnectAction::Close(handle),
            None => action == DisconnectAction::<H>::Finish(Ok(())),
        },
{
    match state.take() {
        Some(handle) => DisconnectAction::Close(handle),
        None => DisconnectAction::Finish(Ok(())),
    }
}

/// Ends a disconnect whose request to close went as `outcome` says.
pub fn closed(outcome: Outcome) -> (result: Result<(), DisconnectError>)
    ensures
        match close_result(outcome@) {
            Ok(()) => result is Ok,
            Err(fault) => result matches Err(error) && error@ == fault,
        },
{
    match outcome {
        Outcome::Done => Ok(()),
        Outcome::Failed(reason) => Err(DisconnectError::CloseFailed(reason)),
    }
}

} // verus!
