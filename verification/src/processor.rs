//! The dispatcher and the four instruction handlers.
//!
//! A handler never talks to the outside world itself: it checks its fixed
//! account list, derives what it needs, and returns `Effects` — the exact
//! ordered sub-calls to hand to the collaborating system and token programs
//! and, where the instruction mutates the barrier, the exact new state bytes.
//! The ledger runtime (or the in-crate ledger model) performs the sub-calls
//! as one atomic unit. Handler errors propagate unchanged through the
//! dispatcher, and a decode failure invokes no handler.

use vstd::prelude::*;
use crate::authority::{find_program_address, spec_find};
use crate::bytes::copy_bytes;
use crate::error::TurnstileError;
use crate::instruction::{spec_decode_instruction, spec_token_program_id, token_program_id,
    TurnstileInstruction};
use crate::state::{is_address, spec_read_state, spec_write_state, State, StateModel,
    SERIALIZED_SIZE};

verus! {

/// Price of one exchange, in the native currency's base units.
pub const PRICE_LAMPORTS: u64 = 1_000_000_000;

/// Tokens minted per exchange and burned per coin.
pub const TOKEN_AMOUNT: u64 = 5;

/// Byte size of the token program's mint account record.
pub const MINT_ACCOUNT_SIZE: u64 = 82;

/// Model of one sub-call to a collaborating program.
#[verifier::ext_equal]
pub enum InvocationModel {
    CreateAccount { funder: Seq<u8>, new_account: Seq<u8>, lamports: u64, space: u64, owner: Seq<u8> },
    InitializeMint { mint: Seq<u8>, authority: Seq<u8>, decimals: u8 },
    Transfer { from: Seq<u8>, to: Seq<u8>, lamports: u64 },
    MintTo { mint: Seq<u8>, destination: Seq<u8>, authority: Seq<u8>, amount: u64,
        authority_seed: Seq<u8>, authority_bump: u8 },
    Burn { token_account: Seq<u8>, mint: Seq<u8>, owner: Seq<u8>, amount: u64 },
}

/// One sub-call to a collaborating program, as plain values.
///
/// `CreateAccount` and `Transfer` go to the system program; the others go
/// to the token program. A `MintTo` carries the seed and bump with which
/// the runtime is asked to treat the derived authority as a signer.
#[derive(Debug, Clone, PartialEq, Eq)]
pub enum Invocation {
    CreateAccount { funder: Vec<u8>, new_account: Vec<u8>, lamports: u64, space: u64, owner: Vec<u8> },
    InitializeMint { mint: Vec<u8>, authority: Vec<u8>, decimals: u8 },
    Transfer { from: Vec<u8>, to: Vec<u8>, lamports: u64 },
    MintTo { mint: Vec<u8>, destination: Vec<u8>, authority: Vec<u8>, amount: u64,
        authority_seed: Vec<u8>, authority_bump: u8 },
    Burn { token_account: Vec<u8>, mint: Vec<u8>, owner: Vec<u8>, amount: u64 },
}

impl View for Invocation {
    type V = InvocationModel;

    open spec fn view(&self) -> InvocationModel {
        match self {
            Invocation::CreateAccount { funder, new_account, lamports, space, owner } =>
                InvocationModel::CreateAccount {
                    funder: funder@, new_account: new_account@, lamports: *lamports,
                    space: *space, owner: owner@,
                },
            Invocation::InitializeMint { mint, authority, decimals } =>
                InvocationModel::InitializeMint {
                    mint: mint@, authority: authority@, decimals: *decimals,
                },
            Invocation::Transfer { from, to, lamports } =>
                InvocationModel::Transfer { from: from@, to: to@, lamports: *lamports },
            Invocation::MintTo { mint, destination, authority, amount, authority_seed,
                authority_bump } =>
                InvocationModel::MintTo {
                    mint: mint@, destination: destination@, authority: authority@,
                    amount: *amount, authority_seed: authority_seed@,
                    authority_bump: *authority_bump,
                },
            Invocation::Burn { token_account, mint, owner, amount } =>
                InvocationModel::Burn {
                    token_account: token_account@, mint: mint@, owner: owner@, amount: *amount,
                },
        }
    }
}

/// A sequence of sub-calls as the model sees it.
pub open spec fn invocations_view(s: Seq<Invocation>) -> Seq<InvocationModel> {
    s.map_values(|i: Invocation| i@)
}

/// Model of a handler's outcome.
#[verifier::ext_equal]
pub struct EffectsModel {
    pub invocations: Seq<InvocationModel>,
    pub new_state_data: Option<Seq<u8>>,
}

/// A handler's outcome: the ordered sub-calls to perform atomically, and
/// the new contents of the state account where the instruction writes it.
#[derive(Debug, Clone, PartialEq, Eq)]
pub struct Effects {
    pub invocations: Vec<Invocation>,
    pub new_state_data: Option<Vec<u8>>,
}

impl View for Effects {
    type V = EffectsModel;

    open spec fn view(&self) -> EffectsModel {
        EffectsModel {
            invocations: invocations_view(self.invocations@),
            new_state_data: match self.new_state_data {
                Some(ref d) => Some(d@),
                None => None,
            },
        }
    }
}

/// The account list as a sequence of plain addresses.
pub open spec fn keys_view(s: Seq<Vec<u8>>) -> Seq<Seq<u8>> {
    s.map_values(|v: Vec<u8>| v@)
}

/// Every entry of the account list is a 32-byte address.
pub open spec fn accounts_wf(accounts: Seq<Seq<u8>>) -> bool {
    forall|i: int| 0 <= i < accounts.len() ==> is_address(#[trigger] accounts[i])
}

/// What `initialize` does with account list
/// `[state, initializer, mint, treasury, rent sysvar]`: create the state
/// account sized to the codec's fixed width and owned by this program,
/// create the mint account owned by the token program, configure the mint
/// with the derived authority and 0 decimals, and write the initial state.
pub open spec fn spec_initialize(
    program_id: Seq<u8>,
    accounts: Seq<Seq<u8>>,
    init_state: bool,
    rent_state_lamports: u64,
    rent_mint_lamports: u64,
) -> Result<EffectsModel, TurnstileError> {
    if accounts.len() < 5 {
        Err(TurnstileError::MissingAccount)
    } else {
        match spec_find(accounts[2], program_id) {
            Err(e) => Err(e),
            Ok(p) => Ok(EffectsModel {
                invocations: seq![
                    InvocationModel::CreateAccount {
                        funder: accounts[1],
                        new_account: accounts[0],
                        lamports: rent_state_lamports,
                        space: SERIALIZED_SIZE as u64,
                        owner: program_id,
                    },
                    InvocationModel::CreateAccount {
                        funder: accounts[1],
                        new_account: accounts[2],
                        lamports: rent_mint_lamports,
                        space: MINT_ACCOUNT_SIZE,
                        owner: spec_token_program_id(),
                    },
                    InvocationModel::InitializeMint {
                        mint: accounts[2],
                        authority: p.0,
                        decimals: 0,
                    },
                ],
                new_state_data: Some(spec_write_state(StateModel {
                    locked: init_state,
                    mint: accounts[2],
                    treasury: accounts[3],
                })),
            }),
        }
    }
}

/// One-time setup. The caller supplies the storage-exemption balances for
/// the two created accounts, which the ledger runtime quotes.
pub fn initialize(
    program_id: &Vec<u8>,
    accounts: &Vec<Vec<u8>>,
    init_state: bool,
    rent_state_lamports: u64,
    rent_mint_lamports: u64,
) -> (r: Result<Effects, TurnstileError>)
    requires
        is_address(program_id@),
        accounts_wf(keys_view(accounts@)),
    ensures
        match r {
            Ok(eff) => spec_initialize(
                program_id@, keys_view(accounts@), init_state,
                rent_state_lamports, rent_mint_lamports)
                == Ok::<EffectsModel, TurnstileError>(eff@),
            Err(e) => spec_initialize(
                program_id@, keys_view(accounts@), init_state,
                rent_state_lamports, rent_mint_lamports)
                == Err::<EffectsModel, TurnstileError>(e),
        },
{
    if accounts.len() < 5 {
        return Err(TurnstileError::MissingAccount);
    }
    proof {
        assert(is_address(keys_view(accounts@)[2]));
        assert(is_address(keys_view(accounts@)[1]));
        assert(is_address(keys_view(accounts@)[0]));
        assert(is_address(keys_view(accounts@)[3]));
    }
    let (authority, _bump) = match find_program_address(&accounts[2], program_id) {
        Ok(p) => p,
        Err(e) => {
            return Err(e);
        },
    };
    let mut invocations: Vec<Invocation> = Vec::new();
    invocations.push(Invocation::CreateAccount {
        funder: copy_bytes(&accounts[1]),
        new_account: copy_bytes(&accounts[0]),
        lamports: rent_state_lamports,
        space: SERIALIZED_SIZE as u64,
        owner: copy_bytes(program_id),
    });
    invocations.push(Invocation::CreateAccount {
        funder: copy_bytes(&accounts[1]),
        new_account: copy_bytes(&accounts[2]),
        lamports: rent_mint_lamports,
        space: MINT_ACCOUNT_SIZE,
        owner: token_program_id(),
    });
    invocations.push(Invocation::InitializeMint {
        mint: copy_bytes(&accounts[2]),
        authority,
        decimals: 0,
    });
    let initial = State {
        locked: init_state,
        mint: copy_bytes(&accounts[2]),
        treasury: copy_bytes(&accounts[3]),
    };
    let eff = Effects { invocations, new_state_data: Some(initial.write()) };
    proof {
        let expected = spec_initialize(
            program_id@, keys_view(accounts@), init_state,
            rent_state_lamports, rent_mint_lamports)->Ok_0;
        assert(eff@.invocations =~= expected.invocations);
        assert(eff@ =~~= expected);
    }
    Ok(eff)
}

/// What `exchange` does with account list
/// `[user wallet, treasury, user token account, mint, mint authority]`:
/// transfer the fixed price from the user's wallet to the treasury, then
/// mint the fixed token amount to the user's token account, signed with
/// the authority derived from the mint.
pub open spec fn spec_exchange(program_id: Seq<u8>, accounts: Seq<Seq<u8>>)
    -> Result<EffectsModel, TurnstileError>
{
    if accounts.len() < 5 {
        Err(TurnstileError::MissingAccount)
    } else {
        match spec_find(accounts[3], program_id) {
            Err(e) => Err(e),
            Ok(p) => Ok(EffectsModel {
                invocations: seq![
                    InvocationModel::Transfer {
                        from: accounts[0],
                        to: accounts[1],
                        lamports: PRICE_LAMPORTS,
                    },
                    InvocationModel::MintTo {
                        mint: accounts[3],
                        destination: accounts[2],
                        authority: p.0,
                        amount: TOKEN_AMOUNT,
                        authority_seed: accounts[3],
                        authority_bump: p.1,
                    },
                ],
                new_state_data: None,
            }),
        }
    }
}

/// Pay the fixed price, receive the fixed token amount. Never reads or
/// writes the barrier's lock flag.
pub fn exchange(program_id: &Vec<u8>, accounts: &Vec<Vec<u8>>)
    -> (r: Result<Effects, TurnstileError>)
    requires
        is_address(program_id@),
        accounts_wf(keys_view(accounts@)),
    ensures
        match r {
            Ok(eff) => spec_exchange(program_id@, keys_view(accounts@))
                == Ok::<EffectsModel, TurnstileError>(eff@),
            Err(e) => spec_exchange(program_id@, keys_view(accounts@))
                == Err::<EffectsModel, TurnstileError>(e),
        },
{
    if accounts.len() < 5 {
        return Err(TurnstileError::MissingAccount);
    }
    proof {
        assert(is_address(keys_view(accounts@)[3]));
        assert(is_address(keys_view(accounts@)[0]));
    }
    let (authority, bump) = match find_program_address(&accounts[3], program_id) {
        Ok(p) => p,
        Err(e) => {
            return Err(e);
        },
    };
    let mut invocations: Vec<Invocation> = Vec::new();
    invocations.push(Invocation::Transfer {
        from: copy_bytes(&accounts[0]),
        to: copy_bytes(&accounts[1]),
        lamports: PRICE_LAMPORTS,
    });
    invocations.push(Invocation::MintTo {
        mint: copy_bytes(&accounts[3]),
        destination: copy_bytes(&accounts[2]),
        authority,
        amount: TOKEN_AMOUNT,
        authority_seed: copy_bytes(&accounts[3]),
        authority_bump: bump,
    });
    let eff = Effects { invocations, new_state_data: None };
    proof {
        let expected = spec_exchange(program_id@, keys_view(accounts@))->Ok_0;
        assert(eff@.invocations =~= expected.invocations);
        assert(eff@ =~~= expected);
    }
    Ok(eff)
}

/// What `coin` does with account list
/// `[user token account, mint, user wallet, state]` and the state
/// account's current bytes: burn the fixed token amount from the user's
/// token account and unlock the barrier, leaving mint and treasury unchanged.
pub open spec fn spec_coin(accounts: Seq<Seq<u8>>, state_data: Seq<u8>)
    -> Result<EffectsModel, TurnstileError>
{
    if accounts.len() < 4 {
        Err(TurnstileError::MissingAccount)
    } else {
        match spec_read_state(state_data) {
            Err(e) => Err(e),
            Ok(m) => Ok(EffectsModel {
                invocations: seq![
                    InvocationModel::Burn {
                        token_account: accounts[0],
                        mint: accounts[1],
                        owner: accounts[2],
                        amount: TOKEN_AMOUNT,
                    },
                ],
                new_state_data: Some(spec_write_state(StateModel { locked: false, ..m })),
            }),
        }
    }
}

/// Insert a token: burn it from the user's token account and open the barrier.
pub fn coin(accounts: &Vec<Vec<u8>>, state_data: &Vec<u8>)
    -> (r: Result<Effects, TurnstileError>)
    ensures
        match r {
            Ok(eff) => spec_coin(keys_view(accounts@), state_data@)
                == Ok::<EffectsModel, TurnstileError>(eff@),
            Err(e) => spec_coin(keys_view(accounts@), state_data@)
                == Err::<EffectsModel, TurnstileError>(e),
        },
{
    if accounts.len() < 4 {
        return Err(TurnstileError::MissingAccount);
    }
    let current = match State::read(state_data) {
        Ok(s) => s,
        Err(e) => {
            return Err(e);
        },
    };
    let mut invocations: Vec<Invocation> = Vec::new();
    invocations.push(Invocation::Burn {
        token_account: copy_bytes(&accounts[0]),
        mint: copy_bytes(&accounts[1]),
        owner: copy_bytes(&accounts[2]),
        amount: TOKEN_AMOUNT,
    });
    let unlocked = State { locked: false, mint: current.mint, treasury: current.treasury };
    let eff = Effects { invocations, new_state_data: Some(unlocked.write()) };
    proof {
        let expected = spec_coin(keys_view(accounts@), state_data@)->Ok_0;
        assert(unlocked@ =~= (StateModel { locked: false, ..spec_read_state(state_data@)->Ok_0 }));
        assert(eff@.invocations =~= expected.invocations);
        assert(eff@ =~~= expected);
    }
    Ok(eff)
}

/// What `push` does with account list `[state]` and the state account's
/// current bytes: lock the barrier unconditionally, no sub-calls.
pub open spec fn spec_push(accounts: Seq<Seq<u8>>, state_data: Seq<u8>)
    -> Result<EffectsModel, TurnstileError>
{
    if accounts.len() < 1 {
        Err(TurnstileError::MissingAccount)
    } else {
        match spec_read_state(state_data) {
            Err(e) => Err(e),
            Ok(m) => Ok(EffectsModel {
                invocations: Seq::empty(),
                new_state_data: Some(spec_write_state(StateModel { locked: true, ..m })),
            }),
        }
    }
}

/// Pass through the barrier, locking it again. Idempotent when already locked.
pub fn push(accounts: &Vec<Vec<u8>>, state_data: &Vec<u8>)
    -> (r: Result<Effects, TurnstileError>)
    ensures
        match r {
            Ok(eff) => spec_push(keys_view(accounts@), state_data@)
                == Ok::<EffectsModel, TurnstileError>(eff@),
            Err(e) => spec_push(keys_view(accounts@), state_data@)
                == Err::<EffectsModel, TurnstileError>(e),
        },
{
    if accounts.len() < 1 {
        return Err(TurnstileError::MissingAccount);
    }
    let current = match State::read(state_data) {
        Ok(s) => s,
        Err(e) => {
            return Err(e);
        },
    };
    let locked = State { locked: true, mint: current.mint, treasury: current.treasury };
    let eff = Effects { invocations: Vec::new(), new_state_data: Some(locked.write()) };
    proof {
        let expected = spec_push(keys_view(accounts@), state_data@)->Ok_0;
        assert(locked@ =~= (StateModel { locked: true, ..spec_read_state(state_data@)->Ok_0 }));
        assert(eff@.invocations =~= expected.invocations);
        assert(eff@ =~~= expected);
    }
    Ok(eff)
}

/// What the dispatcher does: decode, then route to exactly one handler.
/// A decode failure propagates unchanged and invokes no handler; a handler
/// outcome propagates unchanged.
pub open spec fn spec_process(
    program_id: Seq<u8>,
    accounts: Seq<Seq<u8>>,
    state_data: Seq<u8>,
    rent_state_lamports: u64,
    rent_mint_lamports: u64,
    instruction_data: Seq<u8>,
) -> Result<EffectsModel, TurnstileError> {
    match spec_decode_instruction(instruction_data) {
        Err(e) => Err(e),
        Ok(ins) => match ins {
            TurnstileInstruction::Initialize { init_state } => spec_initialize(
                program_id, accounts, init_state, rent_state_lamports, rent_mint_lamports),
            TurnstileInstruction::Exchange => spec_exchange(program_id, accounts),
            TurnstileInstruction::Push => spec_push(accounts, state_data),
            TurnstileInstruction::Coin => spec_coin(accounts, state_data),
        },
    }
}

/// Law: `Push` on an already-locked barrier is a no-op: it performs no
/// sub-calls and writes back exactly the bytes that were already stored.
pub proof fn lemma_push_noop_when_locked(accounts: Seq<Seq<u8>>, state_data: Seq<u8>)
    requires
        accounts.len() >= 1,
        spec_read_state(state_data) matches Ok(m) && m.locked,
    ensures
        spec_push(accounts, state_data) matches Ok(eff)
            && eff.new_state_data == Some(state_data)
            && eff.invocations == Seq::<InvocationModel>::empty(),
{
    let m = spec_read_state(state_data)->Ok_0;
    assert((StateModel { locked: true, ..m }) =~= m);
    crate::state::lemma_state_write_read_inverse(state_data);
}

/// Law: the barrier's lock flag walks the turnstile cycle. From an
/// uninitialized barrier, `Initialize` with `init_state` true leaves it
/// locked; a subsequent `Coin` leaves it unlocked; a subsequent `Push`
/// locks it again. The stored mint and treasury never change after setup.
pub proof fn lemma_turnstile_cycle(
    program_id: Seq<u8>,
    init_accounts: Seq<Seq<u8>>,
    coin_accounts: Seq<Seq<u8>>,
    push_accounts: Seq<Seq<u8>>,
    rent_state_lamports: u64,
    rent_mint_lamports: u64,
)
    requires
        init_accounts.len() >= 5,
        coin_accounts.len() >= 4,
        push_accounts.len() >= 1,
        accounts_wf(init_accounts),
        spec_initialize(
            program_id, init_accounts, true, rent_state_lamports, rent_mint_lamports) is Ok,
    ensures
        ({
            &&& spec_initialize(
                program_id, init_accounts, true, rent_state_lamports, rent_mint_lamports)
                matches Ok(e0)
            &&& e0.new_state_data matches Some(d0)
            &&& spec_read_state(d0) matches Ok(m0)
            &&& m0.locked
            &&& m0.mint == init_accounts[2]
            &&& m0.treasury == init_accounts[3]
            &&& spec_coin(coin_accounts, d0) matches Ok(e1)
            &&& e1.new_state_data matches Some(d1)
            &&& spec_read_state(d1) matches Ok(m1)
            &&& !m1.locked
            &&& m1.mint == m0.mint
            &&& m1.treasury == m0.treasury
            &&& spec_push(push_accounts, d1) matches Ok(e2)
            &&& e2.new_state_data matches Some(d2)
            &&& spec_read_state(d2) matches Ok(m2)
            &&& m2.locked
            &&& m2.mint == m0.mint
            &&& m2.treasury == m0.treasury
        }),
{
    let m_init = StateModel {
        locked: true,
        mint: init_accounts[2],
        treasury: init_accounts[3],
    };
    assert(is_address(init_accounts[2]));
    assert(is_address(init_accounts[3]));
    crate::state::lemma_state_round_trip(m_init);
    let m_coin = StateModel { locked: false, ..m_init };
    crate::state::lemma_state_round_trip(m_coin);
    let m_push = StateModel { locked: true, ..m_coin };
    crate::state::lemma_state_round_trip(m_push);
}

/// The dispatcher. `state_data` is the state account's current contents
/// (ignored by `Initialize` and `Exchange`); the two rent arguments are the
/// runtime's storage-exemption quotes for the accounts `Initialize`
/// creates (ignored by the other instructions).
pub fn process_instruction(
    program_id: &Vec<u8>,
    accounts: &Vec<Vec<u8>>,
    state_data: &Vec<u8>,
    rent_state_lamports: u64,
    rent_mint_lamports: u64,
    instruction_data: &Vec<u8>,
) -> (r: Result<Effects, TurnstileError>)
    requires
        is_address(program_id@),
        accounts_wf(keys_view(accounts@)),
    ensures
        match r {
            Ok(eff) => spec_process(
                program_id@, keys_view(accounts@), state_data@,
                rent_state_lamports, rent_mint_lamports, instruction_data@)
                == Ok::<EffectsModel, TurnstileError>(eff@),
            Err(e) => spec_process(
                program_id@, keys_view(accounts@), state_data@,
                rent_state_lamports, rent_mint_lamports, instruction_data@)
                == Err::<EffectsModel, TurnstileError>(e),
        },
{
    let instruction = match TurnstileInstruction::decode(instruction_data) {
        Ok(ins) => ins,
        Err(e) => {
            return Err(e);
        },
    };
    match instruction {
        TurnstileInstruction::Initialize { init_state } => initialize(
            program_id, accounts, init_state, rent_state_lamports, rent_mint_lamports),
        TurnstileInstruction::Exchange => exchange(program_id, accounts),
        TurnstileInstruction::Push => push(accounts, state_data),
        TurnstileInstruction::Coin => coin(accounts, state_data),
    }
}

} // verus!
