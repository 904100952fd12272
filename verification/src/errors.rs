use vstd::prelude::*;

verus! {

/// Why an operation was refused. Every error is detected before any state
/// mutation, so a failed operation leaves all registries exactly as they were.
#[derive(Clone, Copy, Debug, PartialEq, Eq, Structural)]
pub enum TokenError {
    /// The deployment's identity registry already exists.
    AlreadyInitialized,
    /// The caller lacks the role (or the delegation) the operation demands.
    Unauthorized,
    /// No token of that name is registered.
    UnknownToken,
    /// A token of that name is already registered.
    DuplicateToken,
    /// The amount of a mint or burn must be positive.
    InvalidAmount,
    /// The debited balance is smaller than the amount.
    InsufficientBalance,
}

} // verus!
