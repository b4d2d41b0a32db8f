//! An on-ledger turnstile: a barrier whose lock state lives in a ledger account
//! and is paid for with a fungible token that the program itself controls
//! through a deterministically derived, keyless authority.
//!
//! The crate verifies the instruction-processing core: the byte codecs for
//! the persisted state and the instruction payloads, the bump-search that
//! derives the program's mint authority, the dispatcher, and the per-handler
//! account contracts. The surrounding ledger runtime, the token program and
//! the system program are collaborators: handlers describe the sub-calls to
//! make as plain `Invocation` values, and a small ledger model applies them
//! atomically so that their combined effect can be stated and tested.

pub mod bytes;
pub mod error;
pub mod state;
pub mod instruction;
pub mod authority;
pub mod processor;
pub mod ledger;
