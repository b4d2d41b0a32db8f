//! Error taxonomy of the turnstile core.

use vstd::prelude::*;

verus! {

/// Everything the instruction-processing core can reject.
///
/// The codec errors (`UnknownInstruction`, `InvalidPayload`, `CorruptState`)
/// come from decoding instruction payloads and persisted state bytes;
/// `MissingAccount` from an instruction handed fewer accounts than its fixed
/// list declares; `DerivationExhausted` from the authority bump search
/// finding no off-curve candidate, which is fatal and never retried.
#[derive(Clone, Copy, Debug, PartialEq, Eq, Structural)]
pub enum TurnstileError {
    /// The instruction discriminant is not one the program knows.
    UnknownInstruction,
    /// The instruction payload is malformed: a boolean byte other than 0/1,
    /// or trailing bytes after a complete instruction.
    InvalidPayload,
    /// The persisted state bytes have the wrong length or a malformed field.
    CorruptState,
    /// The fixed account list for the instruction is shorter than declared.
    MissingAccount,
    /// No off-curve derivation candidate exists for the seed.
    DerivationExhausted,
}

/// Failures of the collaborating ledger and token programs, surfaced by the
/// ledger model when it applies a handler's sub-calls.
#[derive(Clone, Copy, Debug, PartialEq, Eq, Structural)]
pub enum LedgerError {
    /// Account creation targeted an address that already exists.
    AccountInUse,
    /// A native-balance debit exceeds the payer's balance.
    InsufficientFunds,
    /// A credit would overflow a 64-bit balance.
    BalanceOverflow,
    /// Mint initialization targeted an already-initialized mint.
    MintAlreadyInitialized,
    /// A token operation named a mint the ledger does not know.
    UnknownMint,
    /// The presented mint authority is not the mint's configured authority.
    AuthorityMismatch,
    /// A token operation named a token account the ledger does not know.
    UnknownTokenAccount,
    /// The token account belongs to a different mint than the one named.
    MintMismatch,
    /// The presented owner does not own the token account.
    OwnerMismatch,
    /// A burn exceeds the token account's balance.
    InsufficientTokens,
}

} // verus!
