//! The turnstile's instruction set, its wire codec, and client builders.
//!
//! The wire format is a tagged union with a one-byte discriminant and no
//! padding: `0` is `Initialize` followed by one boolean byte, `1` is
//! `Exchange`, `2` is `Push`, `3` is `Coin`, the last three with no payload.
//! Decoding is strict: an unknown discriminant, a boolean byte other than
//! 0/1, or any trailing byte is rejected, so no two distinct instructions
//! share an encoding and no encoding is silently truncated.
//!
//! The builders assemble complete call descriptions — program id, the fixed
//! ordered account list with signer/writable flags, and the encoded payload
//! — as plain values that a client hands to the ledger runtime.

use vstd::prelude::*;
use crate::authority::{find_program_address, spec_find};
use crate::bytes::copy_bytes;
use crate::error::TurnstileError;
use crate::state::is_address;

verus! {

/// The four operations of the turnstile.
#[derive(Clone, Copy, Debug, PartialEq, Eq, Structural)]
pub enum TurnstileInstruction {
    /// One-time setup: create and fund the state and mint accounts, set the
    /// derived authority as mint authority, and write the initial state.
    Initialize { init_state: bool },
    /// Pay the fixed price in native currency, receive tokens.
    Exchange,
    /// Pass through the barrier: lock it again.
    Push,
    /// Insert a token: burn it and unlock the barrier.
    Coin,
}

/// The canonical encoding: discriminant byte, then the payload, no padding.
pub open spec fn spec_encode_instruction(i: TurnstileInstruction) -> Seq<u8> {
    match i {
        TurnstileInstruction::Initialize { init_state } =>
            seq![0u8, if init_state { 1u8 } else { 0u8 }],
        TurnstileInstruction::Exchange => seq![1u8],
        TurnstileInstruction::Push => seq![2u8],
        TurnstileInstruction::Coin => seq![3u8],
    }
}

/// The canonical decoding. An empty buffer or a discriminant above 3 fails
/// with `UnknownInstruction`; a boolean byte other than 0/1 or any trailing
/// byte fails with `InvalidPayload`.
pub open spec fn spec_decode_instruction(b: Seq<u8>)
    -> Result<TurnstileInstruction, TurnstileError>
{
    if b.len() == 0 {
        Err(TurnstileError::UnknownInstruction)
    } else if b[0] == 0u8 {
        if b.len() != 2 {
            Err(TurnstileError::InvalidPayload)
        } else if b[1] == 0u8 || b[1] == 1u8 {
            Ok(TurnstileInstruction::Initialize { init_state: b[1] == 1u8 })
        } else {
            Err(TurnstileError::InvalidPayload)
        }
    } else if b[0] == 1u8 || b[0] == 2u8 || b[0] == 3u8 {
        if b.len() != 1 {
            Err(TurnstileError::InvalidPayload)
        } else if b[0] == 1u8 {
            Ok(TurnstileInstruction::Exchange)
        } else if b[0] == 2u8 {
            Ok(TurnstileInstruction::Push)
        } else {
            Ok(TurnstileInstruction::Coin)
        }
    } else {
        Err(TurnstileError::UnknownInstruction)
    }
}

impl TurnstileInstruction {
    /// Encodes the instruction into its wire bytes.
    pub fn encode(&self) -> (r: Vec<u8>)
        ensures
            r@ == spec_encode_instruction(*self),
    {
        let mut out: Vec<u8> = Vec::new();
        match self {
            TurnstileInstruction::Initialize { init_state } => {
                out.push(0);
                out.push(if *init_state { 1 } else { 0 });
            },
            TurnstileInstruction::Exchange => {
                out.push(1);
            },
            TurnstileInstruction::Push => {
                out.push(2);
            },
            TurnstileInstruction::Coin => {
                out.push(3);
            },
        }
        proof {
            assert(out@ =~= spec_encode_instruction(*self));
        }
        out
    }

    /// Decodes wire bytes; strict about discriminants, payloads and length.
    pub fn decode(bytes: &Vec<u8>) -> (r: Result<TurnstileInstruction, TurnstileError>)
        ensures
            r == spec_decode_instruction(bytes@),
    {
        if bytes.len() == 0 {
            return Err(TurnstileError::UnknownInstruction);
        }
        let tag = bytes[0];
        if tag == 0 {
            if bytes.len() != 2 {
                return Err(TurnstileError::InvalidPayload);
            }
            let flag = bytes[1];
            if flag > 1 {
                return Err(TurnstileError::InvalidPayload);
            }
            Ok(TurnstileInstruction::Initialize { init_state: flag == 1 })
        } else if tag <= 3 {
            if bytes.len() != 1 {
                return Err(TurnstileError::InvalidPayload);
            }
            if tag == 1 {
                Ok(TurnstileInstruction::Exchange)
            } else if tag == 2 {
                Ok(TurnstileInstruction::Push)
            } else {
                Ok(TurnstileInstruction::Coin)
            }
        } else {
            Err(TurnstileError::UnknownInstruction)
        }
    }
}

/// Law: decoding an encoded instruction gives the instruction back.
pub proof fn lemma_instruction_round_trip(x: TurnstileInstruction)
    ensures
        spec_decode_instruction(spec_encode_instruction(x))
            == Ok::<TurnstileInstruction, TurnstileError>(x),
{
}

/// Law: decoding succeeds exactly on the image of the encoder, so every
/// buffer with an unknown discriminant, a malformed boolean byte or
/// trailing bytes is rejected, and accepted buffers decode uniquely.
pub proof fn lemma_decode_exact(b: Seq<u8>)
    ensures
        spec_decode_instruction(b) is Ok
            <==> exists|x: TurnstileInstruction| spec_encode_instruction(x) == b,
        spec_decode_instruction(b) matches Ok(x) ==> spec_encode_instruction(x) == b,
{
    if spec_decode_instruction(b) is Ok {
        let x = spec_decode_instruction(b)->Ok_0;
        assert(spec_encode_instruction(x) =~= b);
    }
    if exists|x: TurnstileInstruction| spec_encode_instruction(x) == b {
        let x = choose|x: TurnstileInstruction| spec_encode_instruction(x) == b;
        lemma_instruction_round_trip(x);
    }
}

/// One entry of an instruction's ordered account list, as the model sees it.
#[verifier::ext_equal]
pub struct AccountMetaModel {
    pub pubkey: Seq<u8>,
    pub is_signer: bool,
    pub is_writable: bool,
}

/// One entry of an instruction's ordered account list: the account's
/// address, whether it must sign, and whether it may be written.
#[derive(Debug, Clone, PartialEq, Eq)]
pub struct AccountMeta {
    pub pubkey: Vec<u8>,
    pub is_signer: bool,
    pub is_writable: bool,
}

impl View for AccountMeta {
    type V = AccountMetaModel;

    open spec fn view(&self) -> AccountMetaModel {
        AccountMetaModel {
            pubkey: self.pubkey@,
            is_signer: self.is_signer,
            is_writable: self.is_writable,
        }
    }
}

/// Model of a complete call description.
#[verifier::ext_equal]
pub struct InstructionModel {
    pub program_id: Seq<u8>,
    pub accounts: Seq<AccountMetaModel>,
    pub data: Seq<u8>,
}

/// A complete call description a client hands to the ledger runtime: the
/// program to invoke, its fixed ordered account list, and the payload.
#[derive(Debug, Clone, PartialEq, Eq)]
pub struct Instruction {
    pub program_id: Vec<u8>,
    pub accounts: Vec<AccountMeta>,
    pub data: Vec<u8>,
}

/// The account list as a sequence of models.
pub open spec fn metas_view(s: Seq<AccountMeta>) -> Seq<AccountMetaModel> {
    s.map_values(|m: AccountMeta| m@)
}

impl View for Instruction {
    type V = InstructionModel;

    open spec fn view(&self) -> InstructionModel {
        InstructionModel {
            program_id: self.program_id@,
            accounts: metas_view(self.accounts@),
            data: self.data@,
        }
    }
}

/// Shorthand for one model account entry.
pub open spec fn spec_meta(pubkey: Seq<u8>, is_signer: bool, is_writable: bool)
    -> AccountMetaModel
{
    AccountMetaModel { pubkey, is_signer, is_writable }
}

fn meta(pubkey: &Vec<u8>, is_signer: bool, is_writable: bool) -> (r: AccountMeta)
    ensures
        r@ == spec_meta(pubkey@, is_signer, is_writable),
{
    AccountMeta { pubkey: copy_bytes(pubkey), is_signer, is_writable }
}

/// The system program's fixed address: 32 zero bytes.
pub open spec fn spec_system_program_id() -> Seq<u8> {
    Seq::new(32, |i: int| 0u8)
}

/// The system program's fixed address.
pub fn system_program_id() -> (r: Vec<u8>)
    ensures
        r@ == spec_system_program_id(),
        is_address(r@),
{
    let mut out: Vec<u8> = Vec::new();
    let mut i: usize = 0;
    while i < 32
        invariant
            i <= 32,
            out@ =~= Seq::new(i as nat, |j: int| 0u8),
        decreases 32 - i,
    {
        out.push(0);
        i = i + 1;
    }
    proof {
        assert(out@ =~= spec_system_program_id());
    }
    out
}

/// The token program's fixed, published address.
pub open spec fn spec_token_program_id() -> Seq<u8> {
    seq![6u8, 221u8, 246u8, 225u8, 215u8, 101u8, 161u8, 147u8, 217u8, 203u8, 225u8, 70u8,
        206u8, 235u8, 121u8, 172u8, 28u8, 180u8, 133u8, 237u8, 95u8, 91u8, 55u8, 145u8,
        58u8, 140u8, 245u8, 133u8, 126u8, 255u8, 0u8, 169u8]
}

/// The token program's fixed, published address, as bytes.
pub fn token_program_id() -> (r: Vec<u8>)
    ensures
        r@ == spec_token_program_id(),
        is_address(r@),
{
    let out: Vec<u8> = vec![6, 221, 246, 225, 215, 101, 161, 147, 217, 203, 225, 70,
        206, 235, 121, 172, 28, 180, 133, 237, 95, 91, 55, 145,
        58, 140, 245, 133, 126, 255, 0, 169];
    proof {
        assert(out@ =~= spec_token_program_id());
    }
    out
}

/// The rent sysvar's fixed, published address.
pub open spec fn spec_rent_sysvar_id() -> Seq<u8> {
    seq![6u8, 167u8, 213u8, 23u8, 25u8, 44u8, 92u8, 81u8, 33u8, 140u8, 201u8, 76u8,
        61u8, 74u8, 241u8, 127u8, 88u8, 218u8, 238u8, 8u8, 155u8, 161u8, 253u8, 68u8,
        227u8, 219u8, 217u8, 138u8, 0u8, 0u8, 0u8, 0u8]
}

/// The rent sysvar's fixed, published address, as bytes.
pub fn rent_sysvar_id() -> (r: Vec<u8>)
    ensures
        r@ == spec_rent_sysvar_id(),
        is_address(r@),
{
    let out: Vec<u8> = vec![6, 167, 213, 23, 25, 44, 92, 81, 33, 140, 201, 76,
        61, 74, 241, 127, 88, 218, 238, 8, 155, 161, 253, 68,
        227, 219, 217, 138, 0, 0, 0, 0];
    proof {
        assert(out@ =~= spec_rent_sysvar_id());
    }
    out
}

/// The call description that `initialize` builds.
pub open spec fn spec_initialize_instruction(
    turnstile_program: Seq<u8>,
    state: Seq<u8>,
    initializer: Seq<u8>,
    mint: Seq<u8>,
    treasury: Seq<u8>,
    init_state: bool,
) -> InstructionModel {
    InstructionModel {
        program_id: turnstile_program,
        accounts: seq![
            spec_meta(state, true, true),
            spec_meta(initializer, true, true),
            spec_meta(mint, true, true),
            spec_meta(treasury, false, false),
            spec_meta(spec_rent_sysvar_id(), false, false),
            spec_meta(spec_system_program_id(), false, false),
            spec_meta(spec_token_program_id(), false, false),
        ],
        data: spec_encode_instruction(TurnstileInstruction::Initialize { init_state }),
    }
}

/// Builds the one-time setup call: the state, initializer and mint accounts
/// sign and are written; the treasury, the rent sysvar and the two
/// collaborating programs are read-only.
pub fn initialize(
    turnstile_program: &Vec<u8>,
    state: &Vec<u8>,
    initializer: &Vec<u8>,
    mint: &Vec<u8>,
    treasury: &Vec<u8>,
    init_state: bool,
) -> (r: Instruction)
    ensures
        r@ == spec_initialize_instruction(
            turnstile_program@, state@, initializer@, mint@, treasury@, init_state),
{
    let mut accounts: Vec<AccountMeta> = Vec::new();
    accounts.push(meta(state, true, true));
    accounts.push(meta(initializer, true, true));
    accounts.push(meta(mint, true, true));
    accounts.push(meta(treasury, false, false));
    accounts.push(meta(&rent_sysvar_id(), false, false));
    accounts.push(meta(&system_program_id(), false, false));
    accounts.push(meta(&token_program_id(), false, false));
    let r = Instruction {
        program_id: copy_bytes(turnstile_program),
        accounts,
        data: TurnstileInstruction::Initialize { init_state }.encode(),
    };
    proof {
        assert(r@.accounts =~= spec_initialize_instruction(
            turnstile_program@, state@, initializer@, mint@, treasury@, init_state).accounts);
        assert(r@ =~~= spec_initialize_instruction(
            turnstile_program@, state@, initializer@, mint@, treasury@, init_state));
    }
    r
}

/// The call description that `exchange` builds, or the derivation failure.
pub open spec fn spec_exchange_instruction(
    turnstile_program: Seq<u8>,
    user_wallet: Seq<u8>,
    treasury: Seq<u8>,
    user_token_account: Seq<u8>,
    mint: Seq<u8>,
) -> Result<InstructionModel, TurnstileError> {
    match spec_find(mint, turnstile_program) {
        Ok(p) => Ok(InstructionModel {
            program_id: turnstile_program,
            accounts: seq![
                spec_meta(user_wallet, true, true),
                spec_meta(treasury, false, true),
                spec_meta(user_token_account, false, true),
                spec_meta(mint, false, true),
                spec_meta(p.0, false, false),
                spec_meta(spec_system_program_id(), false, false),
                spec_meta(spec_token_program_id(), false, false),
            ],
            data: spec_encode_instruction(TurnstileInstruction::Exchange),
        }),
        Err(e) => Err(e),
    }
}

/// Builds the exchange call: the user's wallet signs and pays; the mint
/// authority entry is the address derived from the mint under the
/// turnstile program. Fails only if the authority derivation is exhausted.
pub fn exchange(
    turnstile_program: &Vec<u8>,
    user_wallet: &Vec<u8>,
    treasury: &Vec<u8>,
    user_token_account: &Vec<u8>,
    mint: &Vec<u8>,
) -> (r: Result<Instruction, TurnstileError>)
    requires
        is_address(turnstile_program@),
        is_address(mint@),
    ensures
        match r {
            Ok(ins) => spec_exchange_instruction(
                turnstile_program@, user_wallet@, treasury@, user_token_account@, mint@)
                == Ok::<InstructionModel, TurnstileError>(ins@),
            Err(e) => spec_exchange_instruction(
                turnstile_program@, user_wallet@, treasury@, user_token_account@, mint@)
                == Err::<InstructionModel, TurnstileError>(e),
        },
{
    let (authority, _bump) = match find_program_address(mint, turnstile_program) {
        Ok(p) => p,
        Err(e) => {
            return Err(e);
        },
    };
    let mut accounts: Vec<AccountMeta> = Vec::new();
    accounts.push(meta(user_wallet, true, true));
    accounts.push(meta(treasury, false, true));
    accounts.push(meta(user_token_account, false, true));
    accounts.push(meta(mint, false, true));
    accounts.push(meta(&authority, false, false));
    accounts.push(meta(&system_program_id(), false, false));
    accounts.push(meta(&token_program_id(), false, false));
    let r = Instruction {
        program_id: copy_bytes(turnstile_program),
        accounts,
        data: TurnstileInstruction::Exchange.encode(),
    };
    proof {
        let expected = spec_exchange_instruction(
            turnstile_program@, user_wallet@, treasury@, user_token_account@, mint@)->Ok_0;
        assert(r@.accounts =~= expected.accounts);
        assert(r@ =~~= expected);
    }
    Ok(r)
}

/// The call description that `coin` builds.
pub open spec fn spec_coin_instruction(
    turnstile_program: Seq<u8>,
    user_token_account: Seq<u8>,
    mint: Seq<u8>,
    user_wallet: Seq<u8>,
    state: Seq<u8>,
) -> InstructionModel {
    InstructionModel {
        program_id: turnstile_program,
        accounts: seq![
            spec_meta(user_token_account, false, true),
            spec_meta(mint, false, true),
            spec_meta(user_wallet, true, true),
            spec_meta(state, false, true),
            spec_meta(spec_token_program_id(), false, false),
        ],
        data: spec_encode_instruction(TurnstileInstruction::Coin),
    }
}

/// Builds the coin call: the user's wallet signs the burn of its tokens,
/// and the state account is written to unlock the barrier.
pub fn coin(
    turnstile_program: &Vec<u8>,
    user_token_account: &Vec<u8>,
    mint: &Vec<u8>,
    user_wallet: &Vec<u8>,
    state: &Vec<u8>,
) -> (r: Instruction)
    ensures
        r@ == spec_coin_instruction(
            turnstile_program@, user_token_account@, mint@, user_wallet@, state@),
{
    let mut accounts: Vec<AccountMeta> = Vec::new();
    accounts.push(meta(user_token_account, false, true));
    accounts.push(meta(mint, false, true));
    accounts.push(meta(user_wallet, true, true));
    accounts.push(meta(state, false, true));
    accounts.push(meta(&token_program_id(), false, false));
    let r = Instruction {
        program_id: copy_bytes(turnstile_program),
        accounts,
        data: TurnstileInstruction::Coin.encode(),
    };
    proof {
        assert(r@.accounts =~= spec_coin_instruction(
            turnstile_program@, user_token_account@, mint@, user_wallet@, state@).accounts);
        assert(r@ =~~= spec_coin_instruction(
            turnstile_program@, user_token_account@, mint@, user_wallet@, state@));
    }
    r
}

/// The call description that `push` builds.
pub open spec fn spec_push_instruction(turnstile_program: Seq<u8>, state: Seq<u8>)
    -> InstructionModel
{
    InstructionModel {
        program_id: turnstile_program,
        accounts: seq![spec_meta(state, false, true)],
        data: spec_encode_instruction(TurnstileInstruction::Push),
    }
}

/// Builds the push call: only the state account, written, no signer.
pub fn push(turnstile_program: &Vec<u8>, state: &Vec<u8>) -> (r: Instruction)
    ensures
        r@ == spec_push_instruction(turnstile_program@, state@),
{
    let mut accounts: Vec<AccountMeta> = Vec::new();
    accounts.push(meta(state, false, true));
    let r = Instruction {
        program_id: copy_bytes(turnstile_program),
        accounts,
        data: TurnstileInstruction::Push.encode(),
    };
    proof {
        assert(r@.accounts =~= spec_push_instruction(turnstile_program@, state@).accounts);
        assert(r@ =~~= spec_push_instruction(turnstile_program@, state@));
    }
    r
}

} // verus!
