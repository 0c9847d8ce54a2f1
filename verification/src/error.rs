//! The failures a request can end in.

use vstd::prelude::*;

verus! {

/// Why a request was turned down.
#[derive(Clone, Debug, PartialEq)]
pub enum ContractError {
    /// A failure of the host's storage, encoding or queries, carried through
    /// untouched.
    Std { msg: String },
    /// The caller is not on the list that guards the operation.
    Unauthorized { list_type: String },
    /// The operation is not legal at the current time.
    InvalidPeriod { period_type: String },
    /// No proposal has this id.
    InvalidProposal { id: u32 },
}

/// The mathematical model of a [`ContractError`].
pub enum ErrorView {
    Std { msg: Seq<char> },
    Unauthorized { list_type: Seq<char> },
    InvalidPeriod { period_type: Seq<char> },
    InvalidProposal { id: u32 },
}

impl View for ContractError {
    type V = ErrorView;

    open spec fn view(&self) -> ErrorView {
        match *self {
            ContractError::Std { msg } => ErrorView::Std { msg: msg@ },
            ContractError::Unauthorized { list_type } => ErrorView::Unauthorized {
                list_type: list_type@,
            },
            ContractError::InvalidPeriod { period_type } => ErrorView::InvalidPeriod {
                period_type: period_type@,
            },
            ContractError::InvalidProposal { id } => ErrorView::InvalidProposal { id },
        }
    }
}

} // verus!
