use vstd::prelude::*;

verus! {

/// The error taxonomy of the engine. Every rejected operation reports one of
/// these and leaves the state it was applied to unchanged.
#[derive(Debug, Clone, Copy, PartialEq, Eq, Structural)]
pub enum GameError {
    /// A card id outside [1, 52].
    InvalidCardId,
    /// A declaration number outside [13, 20].
    InvalidDeclarationNumber,
    /// The aide card lies in no hand and not in the open reserve.
    AideNotFound,
    /// After role assignment no player holds the Napoleon role.
    NapoleonNotEstablished,
    /// A second declaration on a round that already has one.
    AlreadyDeclared,
    /// A score or winner query on a round without a declaration.
    RoundNotDeclared,
    /// A score or winner query on a round with no resolved trick.
    RoundNotStarted,
    /// A trick resolved before all five plays are in.
    IncompleteTrick,
    /// A capture folded for a player whose role was never assigned.
    RoleNotSet,
}

} // verus!
