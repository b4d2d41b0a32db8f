use solana_program::program_pack::Pack;
use turnstile::authority::find_program_address;
use turnstile::error::TurnstileError;
use turnstile::instruction;
use turnstile::instruction::TurnstileInstruction;
use turnstile::processor::{self, Invocation, MINT_ACCOUNT_SIZE, PRICE_LAMPORTS, TOKEN_AMOUNT};
use turnstile::state::{State, SERIALIZED_SIZE};

fn addr(b: u8) -> Vec<u8> {
    vec![b; 32]
}

#[test]
fn known_program_ids_match_published_values() {
    assert_eq!(
        instruction::token_program_id(),
        spl_token::id().to_bytes().to_vec()
    );
    assert_eq!(
        instruction::system_program_id(),
        solana_program::system_program::ID.to_bytes().to_vec()
    );
    assert_eq!(
        instruction::rent_sysvar_id(),
        solana_program::sysvar::rent::ID.to_bytes().to_vec()
    );
}

#[test]
fn fixed_sizes_match_collaborators() {
    assert_eq!(MINT_ACCOUNT_SIZE as usize, spl_token::state::Mint::LEN);
    assert_eq!(
        PRICE_LAMPORTS,
        solana_program::native_token::sol_to_lamports(1.0)
    );
}

#[test]
fn initialize_effects_are_exact() {
    let program_id = addr(1);
    let accounts = vec![addr(2), addr(3), addr(4), addr(5), instruction::rent_sysvar_id()];
    let eff = processor::initialize(&program_id, &accounts, true, 1000, 2000).unwrap();
    let (authority, _bump) = find_program_address(&addr(4), &program_id).unwrap();
    assert_eq!(eff.invocations.len(), 3);
    assert_eq!(
        eff.invocations[0],
        Invocation::CreateAccount {
            funder: addr(3),
            new_account: addr(2),
            lamports: 1000,
            space: SERIALIZED_SIZE as u64,
            owner: addr(1),
        }
    );
    assert_eq!(
        eff.invocations[1],
        Invocation::CreateAccount {
            funder: addr(3),
            new_account: addr(4),
            lamports: 2000,
            space: MINT_ACCOUNT_SIZE,
            owner: instruction::token_program_id(),
        }
    );
    assert_eq!(
        eff.invocations[2],
        Invocation::InitializeMint { mint: addr(4), authority, decimals: 0 }
    );
    let state_data = eff.new_state_data.unwrap();
    let state = State::read(&state_data).unwrap();
    assert_eq!(state, State { locked: true, mint: addr(4), treasury: addr(5) });
}

#[test]
fn exchange_effects_are_exact() {
    let program_id = addr(1);
    let (authority, bump) = find_program_address(&addr(14), &program_id).unwrap();
    let accounts = vec![addr(11), addr(12), addr(13), addr(14), authority.clone()];
    let eff = processor::exchange(&program_id, &accounts).unwrap();
    assert_eq!(eff.invocations.len(), 2);
    assert_eq!(
        eff.invocations[0],
        Invocation::Transfer { from: addr(11), to: addr(12), lamports: PRICE_LAMPORTS }
    );
    assert_eq!(
        eff.invocations[1],
        Invocation::MintTo {
            mint: addr(14),
            destination: addr(13),
            authority,
            amount: TOKEN_AMOUNT,
            authority_seed: addr(14),
            authority_bump: bump,
        }
    );
    assert!(eff.new_state_data.is_none());
}

#[test]
fn coin_effects_are_exact() {
    let accounts = vec![addr(21), addr(22), addr(23), addr(24)];
    let stored = State { locked: true, mint: addr(22), treasury: addr(30) };
    let eff = processor::coin(&accounts, &stored.write()).unwrap();
    assert_eq!(eff.invocations.len(), 1);
    assert_eq!(
        eff.invocations[0],
        Invocation::Burn {
            token_account: addr(21),
            mint: addr(22),
            owner: addr(23),
            amount: TOKEN_AMOUNT,
        }
    );
    let new_state = State::read(&eff.new_state_data.unwrap()).unwrap();
    assert_eq!(new_state, State { locked: false, mint: addr(22), treasury: addr(30) });
}

#[test]
fn push_effects_are_exact() {
    let accounts = vec![addr(31)];
    let stored = State { locked: false, mint: addr(32), treasury: addr(33) };
    let eff = processor::push(&accounts, &stored.write()).unwrap();
    assert!(eff.invocations.is_empty());
    let new_state = State::read(&eff.new_state_data.unwrap()).unwrap();
    assert_eq!(new_state, State { locked: true, mint: addr(32), treasury: addr(33) });
}

#[test]
fn push_on_locked_state_keeps_bytes() {
    let stored = State { locked: true, mint: addr(32), treasury: addr(33) };
    let bytes = stored.write();
    let eff = processor::push(&vec![addr(31)], &bytes).unwrap();
    assert_eq!(eff.new_state_data.unwrap(), bytes);
}

#[test]
fn handlers_reject_short_account_lists() {
    let program_id = addr(1);
    let four = vec![addr(2), addr(3), addr(4), addr(5)];
    assert_eq!(
        processor::initialize(&program_id, &four, true, 0, 0),
        Err(TurnstileError::MissingAccount)
    );
    assert_eq!(
        processor::exchange(&program_id, &four),
        Err(TurnstileError::MissingAccount)
    );
    let three = vec![addr(2), addr(3), addr(4)];
    assert_eq!(
        processor::coin(&three, &vec![0; 65]),
        Err(TurnstileError::MissingAccount)
    );
    assert_eq!(
        processor::push(&Vec::new(), &vec![0; 65]),
        Err(TurnstileError::MissingAccount)
    );
}

#[test]
fn coin_and_push_reject_corrupt_state() {
    let accounts = vec![addr(2), addr(3), addr(4), addr(5)];
    assert_eq!(
        processor::coin(&accounts, &vec![0; 10]),
        Err(TurnstileError::CorruptState)
    );
    let mut bad = vec![0; 65];
    bad[0] = 9;
    assert_eq!(
        processor::push(&vec![addr(2)], &bad),
        Err(TurnstileError::CorruptState)
    );
}

#[test]
fn dispatcher_routes_and_propagates() {
    let program_id = addr(1);
    let accounts = vec![addr(2), addr(3), addr(4), addr(5), instruction::rent_sysvar_id()];
    let empty_state: Vec<u8> = Vec::new();

    let decode_err = processor::process_instruction(
        &program_id, &accounts, &empty_state, 0, 0, &vec![7]);
    assert_eq!(decode_err, Err(TurnstileError::UnknownInstruction));

    let init = processor::process_instruction(
        &program_id, &accounts, &empty_state, 10, 20,
        &TurnstileInstruction::Initialize { init_state: false }.encode());
    assert_eq!(init, processor::initialize(&program_id, &accounts, false, 10, 20));

    let exchange = processor::process_instruction(
        &program_id, &accounts, &empty_state, 0, 0,
        &TurnstileInstruction::Exchange.encode());
    assert_eq!(exchange, processor::exchange(&program_id, &accounts));

    let stored = State { locked: true, mint: addr(4), treasury: addr(5) }.write();
    let coin = processor::process_instruction(
        &program_id, &accounts, &stored, 0, 0, &TurnstileInstruction::Coin.encode());
    assert_eq!(coin, processor::coin(&accounts, &stored));

    let push = processor::process_instruction(
        &program_id, &accounts, &stored, 0, 0, &TurnstileInstruction::Push.encode());
    assert_eq!(push, processor::push(&accounts, &stored));
}

#[test]
fn initialize_builder_is_exact() {
    let ins = instruction::initialize(&addr(1), &addr(2), &addr(3), &addr(4), &addr(5), true);
    assert_eq!(ins.program_id, addr(1));
    assert_eq!(ins.data, vec![0, 1]);
    assert_eq!(ins.accounts.len(), 7);
    let expect = [
        (addr(2), true, true),
        (addr(3), true, true),
        (addr(4), true, true),
        (addr(5), false, false),
        (instruction::rent_sysvar_id(), false, false),
        (instruction::system_program_id(), false, false),
        (instruction::token_program_id(), false, false),
    ];
    for (meta, (key, signer, writable)) in ins.accounts.iter().zip(expect.iter()) {
        assert_eq!(&meta.pubkey, key);
        assert_eq!(meta.is_signer, *signer);
        assert_eq!(meta.is_writable, *writable);
    }
}

#[test]
fn exchange_builder_uses_derived_authority() {
    let program_id = addr(1);
    let mint = addr(5);
    let ins = instruction::exchange(&program_id, &addr(2), &addr(3), &addr(4), &mint).unwrap();
    assert_eq!(ins.data, vec![1]);
    assert_eq!(ins.accounts.len(), 7);
    let (authority, _bump) = find_program_address(&mint, &program_id).unwrap();
    assert_eq!(ins.accounts[4].pubkey, authority);
    assert!(!ins.accounts[4].is_signer);
    assert!(ins.accounts[0].is_signer);
    assert!(ins.accounts[0].is_writable);
}

#[test]
fn coin_and_push_builders_are_exact() {
    let ins = instruction::coin(&addr(1), &addr(2), &addr(3), &addr(4), &addr(5));
    assert_eq!(ins.data, vec![3]);
    assert_eq!(ins.accounts.len(), 5);
    assert_eq!(ins.accounts[2].pubkey, addr(4));
    assert!(ins.accounts[2].is_signer);
    assert_eq!(ins.accounts[4].pubkey, instruction::token_program_id());

    let push = instruction::push(&addr(1), &addr(9));
    assert_eq!(push.data, vec![2]);
    assert_eq!(push.accounts.len(), 1);
    assert_eq!(push.accounts[0].pubkey, addr(9));
    assert!(push.accounts[0].is_writable);
    assert!(!push.accounts[0].is_signer);
}
