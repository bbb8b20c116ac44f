use chip8::{address, first_nibble, last_nibble, Instruction};

#[test]
fn test_first_nibble() {
    assert_eq!(first_nibble(0xAB), 0xA);
    assert_eq!(first_nibble(0x05), 0x0);
    assert_eq!(first_nibble(0xF5), 0xF);
}

#[test]
fn test_last_nibble() {
    assert_eq!(last_nibble(0xAB), 0xB);
    assert_eq!(last_nibble(0x50), 0x0);
    assert_eq!(last_nibble(0x5F), 0xF);
}

#[test]
fn test_address() {
    assert_eq!(address([0xAB, 0x56]), 0xB56);
    assert_eq!(address([0x50, 0x00]), 0x000);
    assert_eq!(address([0x5F, 0xFF]), 0xFFF);
}

#[test]
fn test_decode_control_flow() {
    assert_eq!(Instruction::from_bytes([0x00, 0xE0]), Ok(Instruction::ClearScreen()));
    assert_eq!(Instruction::from_bytes([0x00, 0xEE]), Ok(Instruction::SubroutineReturn()));
    assert_eq!(Instruction::from_bytes([0x1A, 0xBC]), Ok(Instruction::Jump(0xABC)));
    assert_eq!(Instruction::from_bytes([0x2A, 0xBC]), Ok(Instruction::SubroutineCall(0xABC)));
    assert_eq!(Instruction::from_bytes([0xB1, 0x23]), Ok(Instruction::JumpV0(0x123)));
}

#[test]
fn test_decode_skips() {
    assert_eq!(Instruction::from_bytes([0x35, 0x42]), Ok(Instruction::SkipIfEqualImm(5, 0x42)));
    assert_eq!(Instruction::from_bytes([0x45, 0x42]), Ok(Instruction::SkipIfNotEqualImm(5, 0x42)));
    assert_eq!(Instruction::from_bytes([0x51, 0x20]), Ok(Instruction::SkipIfEqualReg(1, 2)));
    assert_eq!(Instruction::from_bytes([0x91, 0x20]), Ok(Instruction::SkipIfNotEqualReg(1, 2)));
    assert_eq!(Instruction::from_bytes([0xE3, 0x9E]), Ok(Instruction::SkipIfPressed(3)));
    assert_eq!(Instruction::from_bytes([0xE3, 0xA1]), Ok(Instruction::SkipIfNotPressed(3)));
}

#[test]
fn test_decode_loads_and_math() {
    assert_eq!(Instruction::from_bytes([0x6B, 0x7F]), Ok(Instruction::LoadRegImm(0xB, 0x7F)));
    assert_eq!(Instruction::from_bytes([0x7B, 0x01]), Ok(Instruction::AddImm(0xB, 0x01)));
    assert_eq!(Instruction::from_bytes([0x81, 0x20]), Ok(Instruction::LoadRegReg(1, 2)));
    assert_eq!(Instruction::from_bytes([0x81, 0x21]), Ok(Instruction::OrReg(1, 2)));
    assert_eq!(Instruction::from_bytes([0x81, 0x22]), Ok(Instruction::AndReg(1, 2)));
    assert_eq!(Instruction::from_bytes([0x81, 0x23]), Ok(Instruction::XorReg(1, 2)));
    assert_eq!(Instruction::from_bytes([0x81, 0x24]), Ok(Instruction::AddReg(1, 2)));
    assert_eq!(Instruction::from_bytes([0x81, 0x25]), Ok(Instruction::SubtractReg(1, 2)));
    assert_eq!(Instruction::from_bytes([0x81, 0x26]), Ok(Instruction::ShiftRight(1, 2)));
    assert_eq!(Instruction::from_bytes([0x81, 0x27]), Ok(Instruction::SubtractRegSwapped(1, 2)));
    assert_eq!(Instruction::from_bytes([0x81, 0x2E]), Ok(Instruction::ShiftLeft(1, 2)));
    assert_eq!(Instruction::from_bytes([0xA1, 0x23]), Ok(Instruction::LoadAddress(0x123)));
}

#[test]
fn test_decode_misc_families() {
    assert_eq!(Instruction::from_bytes([0xC3, 0x0F]), Ok(Instruction::Random(3, 0x0F)));
    assert_eq!(Instruction::from_bytes([0xD1, 0x25]), Ok(Instruction::Draw(1, 2, 5)));
    assert_eq!(Instruction::from_bytes([0xF1, 0x07]), Ok(Instruction::LoadRegDelay(1)));
    assert_eq!(Instruction::from_bytes([0xF1, 0x0A]), Ok(Instruction::LoadKey(1)));
    assert_eq!(Instruction::from_bytes([0xF1, 0x15]), Ok(Instruction::LoadDelayReg(1)));
    assert_eq!(Instruction::from_bytes([0xF1, 0x18]), Ok(Instruction::LoadSoundReg(1)));
    assert_eq!(Instruction::from_bytes([0xF1, 0x1E]), Ok(Instruction::AddAddress(1)));
    assert_eq!(Instruction::from_bytes([0xF1, 0x29]), Ok(Instruction::LoadAddressDigit(1)));
    assert_eq!(Instruction::from_bytes([0xF1, 0x33]), Ok(Instruction::LoadMemoryBcd(1)));
    assert_eq!(Instruction::from_bytes([0xF1, 0x55]), Ok(Instruction::LoadMemoryRegisters(1)));
    assert_eq!(Instruction::from_bytes([0xF1, 0x65]), Ok(Instruction::LoadRegistersMemory(1)));
}

#[test]
fn test_decode_rejects_unknown_patterns() {
    assert_eq!(Instruction::from_bytes([0x00, 0x00]), Err(()));
    assert_eq!(Instruction::from_bytes([0x00, 0xE1]), Err(()));
    assert_eq!(Instruction::from_bytes([0x81, 0x28]), Err(()));
    assert_eq!(Instruction::from_bytes([0x81, 0x2F]), Err(()));
    assert_eq!(Instruction::from_bytes([0xE1, 0x00]), Err(()));
    assert_eq!(Instruction::from_bytes([0xF1, 0x00]), Err(()));
    assert_eq!(Instruction::from_bytes([0xF1, 0x66]), Err(()));
}

#[test]
fn test_decode_is_deterministic() {
    // Re-decoding the same bytes always yields the same result.
    for hi in [0x00u8, 0x1A, 0x35, 0x81, 0xC3, 0xD1, 0xE3, 0xF1, 0xFF] {
        for lo in [0x00u8, 0x07, 0x25, 0x9E, 0xE0, 0xEE, 0xFF] {
            assert_eq!(Instruction::from_bytes([hi, lo]), Instruction::from_bytes([hi, lo]));
        }
    }
}
