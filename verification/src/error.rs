//! What an operation of the escrow can fail with.

use vstd::prelude::*;
use crate::response::Response;
use crate::response::ResponseView;

verus! {

/// `StdError` of cosmwasm_std: a failure of the host, of its encoder or of
/// the asset registry. The escrow hands such a failure on as it came and
/// never looks inside.
#[verifier::external_type_specification]
#[verifier::external_body]
pub struct ExStdError(cosmwasm_std::StdError);

/// What is wrong with the funds that came with a request.
#[derive(Debug, PartialEq, Eq)]
pub enum PaymentError {
    MissingDenom(String),
    ExtraDenom(String),
    MultipleDenoms {  },
    NoFunds {  },
    NonPayable {  },
}

/// The model of a [`PaymentError`].
pub enum PaymentErrorView {
    MissingDenom(Seq<char>),
    ExtraDenom(Seq<char>),
    MultipleDenoms,
    NoFunds,
    NonPayable,
}

impl View for PaymentError {
    type V = PaymentErrorView;

    open spec fn view(&self) -> PaymentErrorView {
        match self {
            PaymentError::MissingDenom(d) => PaymentErrorView::MissingDenom(d@),
            PaymentError::ExtraDenom(d) => PaymentErrorView::ExtraDenom(d@),
            PaymentError::MultipleDenoms {  } => PaymentErrorView::MultipleDenoms,
            PaymentError::NoFunds {  } => PaymentErrorView::NoFunds,
            PaymentError::NonPayable {  } => PaymentErrorView::NonPayable,
        }
    }
}

/// The failures of the escrow's operations.
#[derive(Debug, PartialEq)]
pub enum ContractError {
    Std(cosmwasm_std::StdError),
    Unauthorized {  },
    InvalidPrice {  },
    TradeNotConfirmed {  },
    AlreadyConfirmedFees {  },
    PaymentAmountMismatch {  },
    MissingListingFee {  },
    EmergencyBreakActivated {  },
    ParameterMissing {  },
    UnauthorizedOwner {  },
    TradePaymentError(PaymentError),
    /// A trade is already kept under the key.
    TradeAlreadyExists {  },
    /// No trade is kept under the key.
    TradeNotFound {  },
    /// Both a buyer and a seller were named where one of them is asked for.
    AmbiguousParty {  },
    /// An amount does not fit in 128 bits, or a fee is larger than the price
    /// it is taken from.
    Overflow {  },
}

/// The model of a [`ContractError`].
pub enum ContractErrorView {
    Std(cosmwasm_std::StdError),
    Unauthorized,
    InvalidPrice,
    TradeNotConfirmed,
    AlreadyConfirmedFees,
    PaymentAmountMismatch,
    MissingListingFee,
    EmergencyBreakActivated,
    ParameterMissing,
    UnauthorizedOwner,
    TradePaymentError(PaymentErrorView),
    TradeAlreadyExists,
    TradeNotFound,
    AmbiguousParty,
    Overflow,
}

impl View for ContractError {
    type V = ContractErrorView;

    open spec fn view(&self) -> ContractErrorView {
        match self {
            ContractError::Std(e) => ContractErrorView::Std(*e),
            ContractError::Unauthorized {  } => ContractErrorView::Unauthorized,
            ContractError::InvalidPrice {  } => ContractErrorView::InvalidPrice,
            ContractError::TradeNotConfirmed {  } => ContractErrorView::TradeNotConfirmed,
            ContractError::AlreadyConfirmedFees {  } => ContractErrorView::AlreadyConfirmedFees,
            ContractError::PaymentAmountMismatch {  } => ContractErrorView::PaymentAmountMismatch,
            ContractError::MissingListingFee {  } => ContractErrorView::MissingListingFee,
            ContractError::EmergencyBreakActivated {  } => ContractErrorView::EmergencyBreakActivated,
            ContractError::ParameterMissing {  } => ContractErrorView::ParameterMissing,
            ContractError::UnauthorizedOwner {  } => ContractErrorView::UnauthorizedOwner,
            ContractError::TradePaymentError(e) => ContractErrorView::TradePaymentError(e@),
            ContractError::TradeAlreadyExists {  } => ContractErrorView::TradeAlreadyExists,
            ContractError::TradeNotFound {  } => ContractErrorView::TradeNotFound,
            ContractError::AmbiguousParty {  } => ContractErrorView::AmbiguousParty,
            ContractError::Overflow {  } => ContractErrorView::Overflow,
        }
    }
}

/// The kinds of failure that a caller tells apart.
#[derive(Clone, Copy, Debug, PartialEq, Eq, Structural)]
pub enum ErrorKind {
    /// The caller lacks the role that the operation asks for.
    Unauthorized,
    /// A denomination, a price, a parameter or an amount is not acceptable.
    InvalidInput,
    /// The funds sent differ from the exact amount owed.
    PaymentMismatch,
    /// The trade is not in the state that the operation asks for.
    StateConflict,
    /// All operations are halted.
    HaltedOperation,
    /// The host or the asset registry failed.
    UpstreamFailure,
}

impl ContractErrorView {
    /// The kind that a failure belongs to.
    pub open spec fn kind(self) -> ErrorKind {
        match self {
            ContractErrorView::Std(_) => ErrorKind::UpstreamFailure,
            ContractErrorView::Unauthorized => ErrorKind::Unauthorized,
            ContractErrorView::UnauthorizedOwner => ErrorKind::Unauthorized,
            ContractErrorView::InvalidPrice => ErrorKind::InvalidInput,
            ContractErrorView::ParameterMissing => ErrorKind::InvalidInput,
            ContractErrorView::AmbiguousParty => ErrorKind::InvalidInput,
            ContractErrorView::Overflow => ErrorKind::InvalidInput,
            ContractErrorView::PaymentAmountMismatch => ErrorKind::PaymentMismatch,
            ContractErrorView::MissingListingFee => ErrorKind::PaymentMismatch,
            ContractErrorView::TradePaymentError(_) => ErrorKind::PaymentMismatch,
            ContractErrorView::TradeNotConfirmed => ErrorKind::StateConflict,
            ContractErrorView::AlreadyConfirmedFees => ErrorKind::StateConflict,
            ContractErrorView::TradeAlreadyExists => ErrorKind::StateConflict,
            ContractErrorView::TradeNotFound => ErrorKind::StateConflict,
            ContractErrorView::EmergencyBreakActivated => ErrorKind::HaltedOperation,
        }
    }
}

impl ContractError {
    /// The kind that this failure belongs to.
    pub fn kind(&self) -> (kind: ErrorKind)
        ensures
            kind == self@.kind(),
    {
        match self {
            ContractError::Std(_) => ErrorKind::UpstreamFailure,
            ContractError::Unauthorized {  }
            | ContractError::UnauthorizedOwner {  } => ErrorKind::Unauthorized,
            ContractError::InvalidPrice {  }
            | ContractError::ParameterMissing {  }
            | ContractError::AmbiguousParty {  }
            | ContractError::Overflow {  } => ErrorKind::InvalidInput,
            ContractError::PaymentAmountMismatch {  }
            | ContractError::MissingListingFee {  }
            | ContractError::TradePaymentError(_) => ErrorKind::PaymentMismatch,
            ContractError::TradeNotConfirmed {  }
            | ContractError::AlreadyConfirmedFees {  }
            | ContractError::TradeAlreadyExists {  }
            | ContractError::TradeNotFound {  } => ErrorKind::StateConflict,
            ContractError::EmergencyBreakActivated {  } => ErrorKind::HaltedOperation,
        }
    }
}

/// `r` is the failure whose model is `e`.
pub open spec fn fails_with<T>(r: Result<T, ContractError>, e: ContractErrorView) -> bool {
    match r {
        Ok(_) => false,
        Err(f) => f@ == e,
    }
}

/// `r` is the success whose answer has the model `v`.
pub open spec fn succeeds_with(r: Result<Response, ContractError>, v: ResponseView) -> bool {
    match r {
        Ok(res) => res@ == v,
        Err(_) => false,
    }
}

} // verus!
