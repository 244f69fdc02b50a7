//! The error taxonomy. Every operation aborts fail-fast with one of these
//! kinds and leaves the whole state untouched.

use vstd::prelude::*;

verus! {

/// Why an operation was refused. Callers inspect the kind; `message` gives
/// the human-readable text.
#[derive(Clone, Copy, Debug, PartialEq, Eq, Structural)]
pub enum Error {
    /// `initialize` was called while an admin is already recorded.
    AlreadyInitialized,
    /// An admin-only action was attempted before any admin was recorded.
    NotInitialized,
    /// The caller failed the host's authorization check, or is not the
    /// principal the action is reserved for.
    Unauthorized,
    /// A creation parameter or an investment amount is out of range.
    InvalidParameter,
    /// No project or investment exists under the given key.
    NotFound,
    /// The project was paused by the admin.
    InactiveProject,
    /// The project already reached its funding goal.
    AlreadyFunded,
    /// The contribution is smaller than the project's minimum investment.
    BelowMinimum,
    /// The contribution would push funding past the goal.
    ExceedsGoal,
    /// The project has not reached its funding goal yet.
    NotYetFunded,
    /// The investor's entitlement is already fully claimed.
    NoReturnsAvailable,
    /// The project's duration has not elapsed since the first contribution.
    DurationNotComplete,
}

impl Error {
    /// The human-readable message for this error kind.
    pub fn message(&self) -> (r: &'static str)
        ensures r@ =~= self.spec_message(),
    {
        match self {
            Error::AlreadyInitialized => "contract already initialized",
            Error::NotInitialized => "contract not initialized",
            Error::Unauthorized => "caller is not authorized",
            Error::InvalidParameter => "invalid parameter",
            Error::NotFound => "no record under this key",
            Error::InactiveProject => "project is not active",
            Error::AlreadyFunded => "project already funded",
            Error::BelowMinimum => "amount below minimum investment",
            Error::ExceedsGoal => "investment exceeds funding goal",
            Error::NotYetFunded => "project not yet funded",
            Error::NoReturnsAvailable => "no returns available",
            Error::DurationNotComplete => "project duration not completed",
        }
    }

    pub open spec fn spec_message(self) -> Seq<char> {
        match self {
            Error::AlreadyInitialized => "contract already initialized"@,
            Error::NotInitialized => "contract not initialized"@,
            Error::Unauthorized => "caller is not authorized"@,
            Error::InvalidParameter => "invalid parameter"@,
            Error::NotFound => "no record under this key"@,
            Error::InactiveProject => "project is not active"@,
            Error::AlreadyFunded => "project already funded"@,
            Error::BelowMinimum => "amount below minimum investment"@,
            Error::ExceedsGoal => "investment exceeds funding goal"@,
            Error::NotYetFunded => "project not yet funded"@,
            Error::NoReturnsAvailable => "no returns available"@,
            Error::DurationNotComplete => "project duration not completed"@,
        }
    }
}

} // verus!
