//! The error of a query or a subscription.

use vstd::prelude::*;

verus! {

/// Why a query or a subscription was refused.
#[derive(Clone, Copy, Debug, PartialEq, Eq, Structural)]
pub enum HealthError {
    /// The name was never registered.
    NotFound,
}

} // verus!
