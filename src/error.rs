use vstd::prelude::*;

verus! {

/// Every way an operation on a lottery can be rejected.
#[derive(Clone, Copy, Debug, PartialEq, Eq, Structural)]
pub enum LotteryError {
    /// A required signature is missing, or the signer is not the recorded authority.
    NotAuthorized,
    /// The record was already written by an earlier initialization.
    AlreadyInitialized,
    /// The record storage holds no initialized lottery.
    NotInitialized,
    /// The ticket list is full.
    CapacityExceeded,
    /// The paying account holds less than the amount to move.
    InsufficientFunds,
    /// A draw was requested while no ticket has been sold.
    NoPlayers,
    /// The account named as winner is not the holder of the drawn ticket.
    InvalidWinner,
    /// The record storage is not owned by this program.
    IncorrectProgramId,
    /// The record storage has the wrong size or holds malformed bytes.
    InvalidAccountData,
    /// The request payload is not a known operation.
    InvalidInstructionData,
    /// The request names fewer accounts than the operation needs.
    NotEnoughAccountKeys,
    /// A balance would exceed the largest representable amount.
    ArithmeticOverflow,
}

} // verus!
