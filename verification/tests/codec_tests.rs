use turnstile::error::TurnstileError;
use turnstile::instruction::TurnstileInstruction;
use turnstile::state::{State, SERIALIZED_SIZE};

fn addr(b: u8) -> Vec<u8> {
    vec![b; 32]
}

#[test]
fn instruction_round_trip_all_variants() {
    let cases = vec![
        TurnstileInstruction::Initialize { init_state: true },
        TurnstileInstruction::Initialize { init_state: false },
        TurnstileInstruction::Exchange,
        TurnstileInstruction::Push,
        TurnstileInstruction::Coin,
    ];
    for ins in cases {
        let bytes = ins.encode();
        assert_eq!(TurnstileInstruction::decode(&bytes), Ok(ins));
    }
}

#[test]
fn instruction_exact_wire_bytes() {
    assert_eq!(TurnstileInstruction::Initialize { init_state: true }.encode(), vec![0, 1]);
    assert_eq!(TurnstileInstruction::Initialize { init_state: false }.encode(), vec![0, 0]);
    assert_eq!(TurnstileInstruction::Exchange.encode(), vec![1]);
    assert_eq!(TurnstileInstruction::Push.encode(), vec![2]);
    assert_eq!(TurnstileInstruction::Coin.encode(), vec![3]);
}

#[test]
fn decode_rejects_unknown_discriminant() {
    assert_eq!(
        TurnstileInstruction::decode(&vec![4]),
        Err(TurnstileError::UnknownInstruction)
    );
    assert_eq!(
        TurnstileInstruction::decode(&vec![255, 0, 0]),
        Err(TurnstileError::UnknownInstruction)
    );
    assert_eq!(
        TurnstileInstruction::decode(&vec![]),
        Err(TurnstileError::UnknownInstruction)
    );
}

#[test]
fn decode_rejects_bad_boolean_byte() {
    assert_eq!(
        TurnstileInstruction::decode(&vec![0, 2]),
        Err(TurnstileError::InvalidPayload)
    );
    assert_eq!(
        TurnstileInstruction::decode(&vec![0, 255]),
        Err(TurnstileError::InvalidPayload)
    );
}

#[test]
fn decode_rejects_wrong_payload_length() {
    assert_eq!(
        TurnstileInstruction::decode(&vec![0]),
        Err(TurnstileError::InvalidPayload)
    );
    assert_eq!(
        TurnstileInstruction::decode(&vec![0, 1, 0]),
        Err(TurnstileError::InvalidPayload)
    );
    assert_eq!(
        TurnstileInstruction::decode(&vec![1, 0]),
        Err(TurnstileError::InvalidPayload)
    );
    assert_eq!(
        TurnstileInstruction::decode(&vec![2, 0]),
        Err(TurnstileError::InvalidPayload)
    );
    assert_eq!(
        TurnstileInstruction::decode(&vec![3, 3]),
        Err(TurnstileError::InvalidPayload)
    );
}

#[test]
fn state_round_trip() {
    let state = State { locked: true, mint: addr(7), treasury: addr(9) };
    let bytes = state.write();
    assert_eq!(bytes.len(), SERIALIZED_SIZE);
    let back = State::read(&bytes).unwrap();
    assert_eq!(back, state);

    let open = State { locked: false, mint: addr(1), treasury: addr(2) };
    assert_eq!(State::read(&open.write()).unwrap(), open);
}

#[test]
fn state_exact_layout() {
    let state = State { locked: true, mint: addr(7), treasury: addr(9) };
    let bytes = state.write();
    assert_eq!(bytes[0], 1);
    assert_eq!(&bytes[1..33], &addr(7)[..]);
    assert_eq!(&bytes[33..65], &addr(9)[..]);

    let open = State { locked: false, mint: addr(7), treasury: addr(9) };
    assert_eq!(open.write()[0], 0);
}

#[test]
fn state_read_rejects_wrong_length() {
    assert_eq!(State::read(&vec![]), Err(TurnstileError::CorruptState));
    assert_eq!(State::read(&vec![1; 64]), Err(TurnstileError::CorruptState));
    assert_eq!(State::read(&vec![1; 66]), Err(TurnstileError::CorruptState));
    assert_eq!(State::read(&vec![1]), Err(TurnstileError::CorruptState));
}

#[test]
fn state_read_rejects_bad_lock_byte() {
    let mut bytes = vec![0; 65];
    bytes[0] = 2;
    assert_eq!(State::read(&bytes), Err(TurnstileError::CorruptState));
    bytes[0] = 255;
    assert_eq!(State::read(&bytes), Err(TurnstileError::CorruptState));
}
