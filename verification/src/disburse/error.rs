//! What an operation on the payee schedule can fail with.

use vstd::prelude::*;

verus! {

/// The failures of the operations on the payee schedule.
#[derive(Clone, Copy, Debug, PartialEq, Eq, Structural)]
pub enum ContractError {
    /// The sender lacks the role that the operation asks for.
    Unauthorized {  },
    /// The shares of the schedule do not add up to exactly one.
    InvalidPercentPaid {  },
    /// A payee's part of the amount does not fit in 128 bits.
    Overflow {  },
}

} // verus!
