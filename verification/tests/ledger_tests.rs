use turnstile::authority::find_program_address;
use turnstile::error::LedgerError;
use turnstile::instruction::{rent_sysvar_id, TurnstileInstruction};
use turnstile::ledger::Ledger;
use turnstile::processor::{process_instruction, Invocation, PRICE_LAMPORTS, TOKEN_AMOUNT};
use turnstile::state::State;

fn addr(b: u8) -> Vec<u8> {
    vec![b; 32]
}

const TEN_SOL: u64 = 10_000_000_000;

struct Fixture {
    program_id: Vec<u8>,
    state_key: Vec<u8>,
    initializer: Vec<u8>,
    mint: Vec<u8>,
    treasury: Vec<u8>,
    user_wallet: Vec<u8>,
    user_token_account: Vec<u8>,
    ledger: Ledger,
}

fn setup() -> Fixture {
    let mut ledger = Ledger::new();
    let fixture = Fixture {
        program_id: addr(1),
        state_key: addr(21),
        initializer: addr(42),
        mint: addr(23),
        treasury: addr(22),
        user_wallet: addr(99),
        user_token_account: addr(98),
        ledger: Ledger::new(),
    };
    assert!(ledger.fund_account(&fixture.initializer, TEN_SOL));
    assert!(ledger.fund_account(&fixture.user_wallet, TEN_SOL));
    assert!(ledger.add_token_account(
        &fixture.user_token_account, &fixture.mint, &fixture.user_wallet, 0));
    Fixture { ledger, ..fixture }
}

fn run_initialize(fx: &mut Fixture, init_state: bool) -> Vec<u8> {
    let accounts = vec![
        fx.state_key.clone(),
        fx.initializer.clone(),
        fx.mint.clone(),
        fx.treasury.clone(),
        rent_sysvar_id(),
    ];
    let eff = process_instruction(
        &fx.program_id, &accounts, &Vec::new(), 1_000_000, 2_000_000,
        &TurnstileInstruction::Initialize { init_state }.encode(),
    ).unwrap();
    fx.ledger.apply_all(&eff.invocations).unwrap();
    eff.new_state_data.unwrap()
}

fn run_exchange(fx: &mut Fixture) -> Result<(), LedgerError> {
    let (authority, _bump) = find_program_address(&fx.mint, &fx.program_id).unwrap();
    let accounts = vec![
        fx.user_wallet.clone(),
        fx.treasury.clone(),
        fx.user_token_account.clone(),
        fx.mint.clone(),
        authority,
    ];
    let eff = process_instruction(
        &fx.program_id, &accounts, &Vec::new(), 0, 0,
        &TurnstileInstruction::Exchange.encode(),
    ).unwrap();
    fx.ledger.apply_all(&eff.invocations)
}

fn run_coin(fx: &mut Fixture, state_data: &Vec<u8>) -> Vec<u8> {
    let accounts = vec![
        fx.user_token_account.clone(),
        fx.mint.clone(),
        fx.user_wallet.clone(),
        fx.state_key.clone(),
    ];
    let eff = process_instruction(
        &fx.program_id, &accounts, state_data, 0, 0,
        &TurnstileInstruction::Coin.encode(),
    ).unwrap();
    fx.ledger.apply_all(&eff.invocations).unwrap();
    eff.new_state_data.unwrap()
}

fn run_push(fx: &mut Fixture, state_data: &Vec<u8>) -> Vec<u8> {
    let accounts = vec![fx.state_key.clone()];
    let eff = process_instruction(
        &fx.program_id, &accounts, state_data, 0, 0,
        &TurnstileInstruction::Push.encode(),
    ).unwrap();
    fx.ledger.apply_all(&eff.invocations).unwrap();
    eff.new_state_data.unwrap()
}

#[test]
fn scenario_lock_cycle_bytes() {
    let mut fx = setup();
    let d0 = run_initialize(&mut fx, true);
    assert_eq!(d0[0], 1);
    assert_eq!(&d0[1..33], &fx.mint[..]);
    assert_eq!(&d0[33..65], &fx.treasury[..]);

    run_exchange(&mut fx).unwrap();
    let d1 = run_coin(&mut fx, &d0);
    assert_eq!(d1[0], 0);
    assert_eq!(&d1[1..], &d0[1..]);

    let d2 = run_push(&mut fx, &d1);
    assert_eq!(d2[0], 1);
    assert_eq!(d2, d0);

    let d3 = run_push(&mut fx, &d2);
    assert_eq!(d3, d2);
}

#[test]
fn scenario_exchange_and_coin_move_balances() {
    let mut fx = setup();
    let d0 = run_initialize(&mut fx, true);

    let wallet_before = fx.ledger.balance_of(&fx.user_wallet);
    let treasury_before = fx.ledger.balance_of(&fx.treasury);
    let tokens_before = fx.ledger.token_amount_of(&fx.user_token_account);

    run_exchange(&mut fx).unwrap();

    assert_eq!(fx.ledger.balance_of(&fx.user_wallet), wallet_before - PRICE_LAMPORTS);
    assert_eq!(fx.ledger.balance_of(&fx.treasury), treasury_before + PRICE_LAMPORTS);
    assert_eq!(
        fx.ledger.token_amount_of(&fx.user_token_account),
        tokens_before + TOKEN_AMOUNT
    );

    let d1 = run_coin(&mut fx, &d0);
    assert_eq!(fx.ledger.token_amount_of(&fx.user_token_account), tokens_before);
    let state = State::read(&d1).unwrap();
    assert!(!state.locked);
}

#[test]
fn initialize_configures_derived_mint_authority() {
    let mut fx = setup();
    run_initialize(&mut fx, true);
    let (authority, _bump) = find_program_address(&fx.mint, &fx.program_id).unwrap();
    assert_eq!(fx.ledger.mint_authority_of(&fx.mint).unwrap(), authority);
    assert_eq!(fx.ledger.balance_of(&fx.state_key), 1_000_000);
    assert_eq!(fx.ledger.balance_of(&fx.mint), 2_000_000);
    assert_eq!(
        fx.ledger.balance_of(&fx.initializer),
        TEN_SOL - 1_000_000 - 2_000_000
    );
}

#[test]
fn exchange_rolls_back_when_mint_rejects_authority() {
    let mut fx = setup();
    // Configure the mint with a different authority than the derived one,
    // so the mint sub-call is rejected after the transfer succeeded.
    fx.ledger.apply(&Invocation::InitializeMint {
        mint: fx.mint.clone(),
        authority: addr(250),
        decimals: 0,
    }).unwrap();
    let before = fx.ledger.clone();

    let result = run_exchange(&mut fx);
    assert_eq!(result, Err(LedgerError::AuthorityMismatch));

    // The whole transaction rolled back: the transfer is not observable.
    assert_eq!(fx.ledger, before);
    assert_eq!(fx.ledger.balance_of(&fx.user_wallet), TEN_SOL);
    assert_eq!(fx.ledger.balance_of(&fx.treasury), 0);
    assert_eq!(fx.ledger.token_amount_of(&fx.user_token_account), 0);
}

#[test]
fn create_account_errors() {
    let mut fx = setup();
    let in_use = fx.ledger.apply(&Invocation::CreateAccount {
        funder: fx.initializer.clone(),
        new_account: fx.user_wallet.clone(),
        lamports: 1,
        space: 0,
        owner: addr(0),
    });
    assert_eq!(in_use, Err(LedgerError::AccountInUse));

    let broke = fx.ledger.apply(&Invocation::CreateAccount {
        funder: fx.treasury.clone(),
        new_account: addr(200),
        lamports: 1,
        space: 0,
        owner: addr(0),
    });
    assert_eq!(broke, Err(LedgerError::InsufficientFunds));
}

#[test]
fn transfer_errors() {
    let mut fx = setup();
    let broke = fx.ledger.apply(&Invocation::Transfer {
        from: fx.user_wallet.clone(),
        to: fx.treasury.clone(),
        lamports: TEN_SOL + 1,
    });
    assert_eq!(broke, Err(LedgerError::InsufficientFunds));

    assert!(fx.ledger.fund_account(&addr(201), u64::MAX));
    let overflow = fx.ledger.apply(&Invocation::Transfer {
        from: fx.user_wallet.clone(),
        to: addr(201),
        lamports: 1,
    });
    assert_eq!(overflow, Err(LedgerError::BalanceOverflow));
}

#[test]
fn self_transfer_keeps_balance() {
    let mut fx = setup();
    fx.ledger.apply(&Invocation::Transfer {
        from: fx.user_wallet.clone(),
        to: fx.user_wallet.clone(),
        lamports: 5,
    }).unwrap();
    assert_eq!(fx.ledger.balance_of(&fx.user_wallet), TEN_SOL);
}

#[test]
fn mint_errors() {
    let mut fx = setup();
    fx.ledger.apply(&Invocation::InitializeMint {
        mint: fx.mint.clone(),
        authority: addr(7),
        decimals: 0,
    }).unwrap();
    let again = fx.ledger.apply(&Invocation::InitializeMint {
        mint: fx.mint.clone(),
        authority: addr(7),
        decimals: 0,
    });
    assert_eq!(again, Err(LedgerError::MintAlreadyInitialized));

    let unknown = fx.ledger.apply(&Invocation::MintTo {
        mint: addr(202),
        destination: fx.user_token_account.clone(),
        authority: addr(7),
        amount: 1,
        authority_seed: addr(202),
        authority_bump: 255,
    });
    assert_eq!(unknown, Err(LedgerError::UnknownMint));

    let bad_auth = fx.ledger.apply(&Invocation::MintTo {
        mint: fx.mint.clone(),
        destination: fx.user_token_account.clone(),
        authority: addr(8),
        amount: 1,
        authority_seed: fx.mint.clone(),
        authority_bump: 255,
    });
    assert_eq!(bad_auth, Err(LedgerError::AuthorityMismatch));

    let no_dest = fx.ledger.apply(&Invocation::MintTo {
        mint: fx.mint.clone(),
        destination: addr(203),
        authority: addr(7),
        amount: 1,
        authority_seed: fx.mint.clone(),
        authority_bump: 255,
    });
    assert_eq!(no_dest, Err(LedgerError::UnknownTokenAccount));

    fx.ledger.apply(&Invocation::InitializeMint {
        mint: addr(204),
        authority: addr(7),
        decimals: 0,
    }).unwrap();
    let wrong_mint = fx.ledger.apply(&Invocation::MintTo {
        mint: addr(204),
        destination: fx.user_token_account.clone(),
        authority: addr(7),
        amount: 1,
        authority_seed: addr(204),
        authority_bump: 255,
    });
    assert_eq!(wrong_mint, Err(LedgerError::MintMismatch));
}

#[test]
fn burn_errors() {
    let mut fx = setup();
    let unknown = fx.ledger.apply(&Invocation::Burn {
        token_account: addr(205),
        mint: fx.mint.clone(),
        owner: fx.user_wallet.clone(),
        amount: 1,
    });
    assert_eq!(unknown, Err(LedgerError::UnknownTokenAccount));

    let wrong_mint = fx.ledger.apply(&Invocation::Burn {
        token_account: fx.user_token_account.clone(),
        mint: addr(206),
        owner: fx.user_wallet.clone(),
        amount: 1,
    });
    assert_eq!(wrong_mint, Err(LedgerError::MintMismatch));

    let wrong_owner = fx.ledger.apply(&Invocation::Burn {
        token_account: fx.user_token_account.clone(),
        mint: fx.mint.clone(),
        owner: addr(207),
        amount: 1,
    });
    assert_eq!(wrong_owner, Err(LedgerError::OwnerMismatch));

    let too_much = fx.ledger.apply(&Invocation::Burn {
        token_account: fx.user_token_account.clone(),
        mint: fx.mint.clone(),
        owner: fx.user_wallet.clone(),
        amount: 1,
    });
    assert_eq!(too_much, Err(LedgerError::InsufficientTokens));
}

#[test]
fn mint_to_overflow_is_rejected() {
    let mut fx = setup();
    fx.ledger.apply(&Invocation::InitializeMint {
        mint: fx.mint.clone(),
        authority: addr(7),
        decimals: 0,
    }).unwrap();
    fx.ledger.apply(&Invocation::MintTo {
        mint: fx.mint.clone(),
        destination: fx.user_token_account.clone(),
        authority: addr(7),
        amount: u64::MAX,
        authority_seed: fx.mint.clone(),
        authority_bump: 255,
    }).unwrap();
    let overflow = fx.ledger.apply(&Invocation::MintTo {
        mint: fx.mint.clone(),
        destination: fx.user_token_account.clone(),
        authority: addr(7),
        amount: 1,
        authority_seed: fx.mint.clone(),
        authority_bump: 255,
    });
    assert_eq!(overflow, Err(LedgerError::BalanceOverflow));
}
