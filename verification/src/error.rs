use vstd::prelude::*;

verus! {

/// The closed set of failures a mutating registry operation can report.
///
/// Every error is terminal: the operation leaves the state untouched and the
/// caller can match on the exact kind.
#[derive(Clone, Copy, Debug, PartialEq, Eq, Structural)]
pub enum ContractError {
    /// The caller is not the registry owner.
    Unauthorized,
    /// An entry with the candidate's identity is already in the list.
    AlreadyAdded,
    /// No entry with the requested identity is in the list.
    NotExist,
}

} // verus!
