use oxide::byte_code::{is_jump_instruction, ByteCodes, Registers, BYTE_CODE_COUNT, REGISTER_COUNT};

#[test]
fn codes_round_trip() {
    for c in 0..=255u8 {
        match ByteCodes::from_code(c) {
            Some(op) => assert_eq!(op.code(), c),
            None => assert!(c >= BYTE_CODE_COUNT),
        }
        match Registers::from_code(c) {
            Some(r) => assert_eq!(r.code(), c),
            None => assert!(c >= REGISTER_COUNT),
        }
    }
    assert_eq!(ByteCodes::INTEGER_ADD.code(), 0);
    assert_eq!(ByteCodes::EXIT.code(), BYTE_CODE_COUNT - 1);
    assert_eq!(ByteCodes::JUMP.name(), "JUMP");
    assert_eq!(Registers::STACK_TOP_POINTER.name(), "STACK_TOP_POINTER");
}

#[test]
fn jump_instructions() {
    assert!(is_jump_instruction(ByteCodes::JUMP));
    assert!(is_jump_instruction(ByteCodes::JUMP_NOT_SIGN));
    assert!(is_jump_instruction(ByteCodes::CALL));
    assert!(is_jump_instruction(ByteCodes::RETURN));
    assert!(!is_jump_instruction(ByteCodes::LABEL));
    assert!(!is_jump_instruction(ByteCodes::COMPARE_REG_REG));
    assert!(!is_jump_instruction(ByteCodes::INTEGER_ADD));
}
