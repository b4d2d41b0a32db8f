//! The persisted turnstile state and its fixed-layout byte codec.
//!
//! The state is the sole source of truth for the barrier's lock flag and is
//! stored in a dedicated ledger account as exactly
//! `[locked: 1 byte][mint: 32 bytes][treasury: 32 bytes]` (65 bytes, no
//! padding, fixed field order). Reading rejects any buffer whose length is
//! not exactly 65 or whose lock byte is not 0 or 1.

use vstd::prelude::*;
use crate::bytes::{append_bytes, copy_range};
use crate::error::TurnstileError;

verus! {

/// Byte length of a ledger address.
pub const ADDRESS_LEN: usize = 32;

/// Exact byte length of the encoded state.
pub const SERIALIZED_SIZE: usize = 65;

/// A 32-byte ledger address holds this shape.
pub open spec fn is_address(a: Seq<u8>) -> bool {
    a.len() == ADDRESS_LEN
}

/// Mathematical model of the persisted state.
#[verifier::ext_equal]
pub struct StateModel {
    pub locked: bool,
    pub mint: Seq<u8>,
    pub treasury: Seq<u8>,
}

impl StateModel {
    /// Both stored addresses have the ledger's fixed width.
    pub open spec fn wf(self) -> bool {
        is_address(self.mint) && is_address(self.treasury)
    }
}

/// The persisted turnstile state.
///
/// `locked` is the barrier flag (true = closed); `mint` identifies the token
/// this turnstile accepts; `treasury` receives the payment collected on
/// exchange.
#[derive(Debug, Clone, PartialEq, Eq)]
pub struct State {
    pub locked: bool,
    pub mint: Vec<u8>,
    pub treasury: Vec<u8>,
}

impl View for State {
    type V = StateModel;

    open spec fn view(&self) -> StateModel {
        StateModel { locked: self.locked, mint: self.mint@, treasury: self.treasury@ }
    }
}

impl State {
    /// The stored addresses have the ledger's fixed width.
    pub open spec fn wf(self) -> bool {
        self@.wf()
    }
}

/// The canonical encoding of a state: one lock byte, then the two addresses.
pub open spec fn spec_write_state(m: StateModel) -> Seq<u8> {
    seq![if m.locked { 1u8 } else { 0u8 }] + m.mint + m.treasury
}

/// The canonical decoding: rejects any length other than 65 and any lock
/// byte other than 0 or 1 with `CorruptState`.
pub open spec fn spec_read_state(b: Seq<u8>) -> Result<StateModel, TurnstileError> {
    if b.len() != SERIALIZED_SIZE {
        Err(TurnstileError::CorruptState)
    } else if b[0] == 0u8 || b[0] == 1u8 {
        Ok(StateModel {
            locked: b[0] == 1u8,
            mint: b.subrange(1, 33),
            treasury: b.subrange(33, 65),
        })
    } else {
        Err(TurnstileError::CorruptState)
    }
}

impl State {
    /// Encodes the state into its fixed 65-byte layout.
    pub fn write(&self) -> (r: Vec<u8>)
        requires
            self.wf(),
        ensures
            r@ == spec_write_state(self@),
            r@.len() == SERIALIZED_SIZE,
    {
        let mut out: Vec<u8> = Vec::new();
        out.push(if self.locked { 1 } else { 0 });
        append_bytes(&mut out, &self.mint);
        append_bytes(&mut out, &self.treasury);
        proof {
            assert(out@ =~= spec_write_state(self@));
        }
        out
    }

    /// Decodes a 65-byte buffer; any other shape fails with `CorruptState`.
    pub fn read(bytes: &Vec<u8>) -> (r: Result<State, TurnstileError>)
        ensures
            match r {
                Ok(s) => spec_read_state(bytes@) == Ok::<StateModel, TurnstileError>(s@) && s.wf(),
                Err(e) => spec_read_state(bytes@) == Err::<StateModel, TurnstileError>(e),
            },
    {
        if bytes.len() != SERIALIZED_SIZE {
            return Err(TurnstileError::CorruptState);
        }
        let lock_byte = bytes[0];
        if lock_byte > 1 {
            return Err(TurnstileError::CorruptState);
        }
        let mint = copy_range(bytes, 1, 33);
        let treasury = copy_range(bytes, 33, 65);
        let s = State { locked: lock_byte == 1, mint, treasury };
        proof {
            assert(spec_read_state(bytes@) == Ok::<StateModel, TurnstileError>(s@));
        }
        Ok(s)
    }
}

/// Law: reading an encoded state gives the state back unchanged.
pub proof fn lemma_state_round_trip(m: StateModel)
    requires
        m.wf(),
    ensures
        spec_read_state(spec_write_state(m)) == Ok::<StateModel, TurnstileError>(m),
{
    let b = spec_write_state(m);
    assert(b.len() == SERIALIZED_SIZE);
    assert(b.subrange(1, 33) =~= m.mint);
    assert(b.subrange(33, 65) =~= m.treasury);
    assert(spec_read_state(b) matches Ok(m2) && m2 =~= m);
}

/// Law: encoding a successfully read state reproduces the buffer exactly,
/// so a write that does not change the fields does not change the bytes.
pub proof fn lemma_state_write_read_inverse(b: Seq<u8>)
    requires
        spec_read_state(b) is Ok,
    ensures
        spec_read_state(b) matches Ok(m) && spec_write_state(m) == b,
{
    let m = spec_read_state(b)->Ok_0;
    assert(spec_write_state(m) =~= b);
}

} // verus!
