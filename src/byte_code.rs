use vstd::prelude::*;

verus! {

/// The instruction set of the Rusty VM, in the order of their one-byte codes.
#[allow(non_camel_case_types)]
#[derive(PartialEq, Eq, Structural, Debug, Clone, Copy)]
pub enum ByteCodes {
    INTEGER_ADD,
    INTEGER_SUB,
    INTEGER_MUL,
    INTEGER_DIV,
    INTEGER_MOD,
    FLOAT_ADD,
    FLOAT_SUB,
    FLOAT_MUL,
    FLOAT_DIV,
    FLOAT_MOD,
    INC_REG,
    INC_ADDR_IN_REG,
    INC_ADDR_LITERAL,
    DEC_REG,
    DEC_ADDR_IN_REG,
    DEC_ADDR_LITERAL,
    NO_OPERATION,
    MOVE_INTO_REG_FROM_REG,
    MOVE_INTO_REG_FROM_ADDR_IN_REG,
    MOVE_INTO_REG_FROM_CONST,
    MOVE_INTO_REG_FROM_ADDR_LITERAL,
    MOVE_INTO_ADDR_IN_REG_FROM_REG,
    MOVE_INTO_ADDR_IN_REG_FROM_ADDR_IN_REG,
    MOVE_INTO_ADDR_IN_REG_FROM_CONST,
    MOVE_INTO_ADDR_IN_REG_FROM_ADDR_LITERAL,
    MOVE_INTO_ADDR_LITERAL_FROM_REG,
    MOVE_INTO_ADDR_LITERAL_FROM_ADDR_IN_REG,
    MOVE_INTO_ADDR_LITERAL_FROM_CONST,
    MOVE_INTO_ADDR_LITERAL_FROM_ADDR_LITERAL,
    PUSH_FROM_REG,
    PUSH_FROM_ADDR_IN_REG,
    PUSH_FROM_CONST,
    PUSH_FROM_ADDR_LITERAL,
    PUSH_STACK_POINTER_REG,
    PUSH_STACK_POINTER_ADDR_IN_REG,
    PUSH_STACK_POINTER_CONST,
    PUSH_STACK_POINTER_ADDR_LITERAL,
    POP_INTO_REG,
    POP_INTO_ADDR_IN_REG,
    POP_INTO_ADDR_LITERAL,
    POP_STACK_POINTER_REG,
    POP_STACK_POINTER_ADDR_IN_REG,
    POP_STACK_POINTER_CONST,
    POP_STACK_POINTER_ADDR_LITERAL,
    LABEL,
    JUMP,
    JUMP_NOT_ZERO,
    JUMP_ZERO,
    JUMP_GREATER,
    JUMP_LESS,
    JUMP_GREATER_OR_EQUAL,
    JUMP_LESS_OR_EQUAL,
    JUMP_CARRY,
    JUMP_NOT_CARRY,
    JUMP_OVERFLOW,
    JUMP_NOT_OVERFLOW,
    JUMP_SIGN,
    JUMP_NOT_SIGN,
    CALL,
    RETURN,
    COMPARE_REG_REG,
    COMPARE_REG_ADDR_IN_REG,
    COMPARE_REG_CONST,
    COMPARE_REG_ADDR_LITERAL,
    COMPARE_ADDR_IN_REG_REG,
    COMPARE_ADDR_IN_REG_ADDR_IN_REG,
    COMPARE_ADDR_IN_REG_CONST,
    COMPARE_ADDR_IN_REG_ADDR_LITERAL,
    COMPARE_CONST_REG,
    COMPARE_CONST_ADDR_IN_REG,
    COMPARE_CONST_CONST,
    COMPARE_CONST_ADDR_LITERAL,
    COMPARE_ADDR_LITERAL_REG,
    COMPARE_ADDR_LITERAL_ADDR_IN_REG,
    COMPARE_ADDR_LITERAL_CONST,
    COMPARE_ADDR_LITERAL_ADDR_LITERAL,
    AND,
    OR,
    XOR,
    NOT,
    SHIFT_LEFT,
    SHIFT_RIGHT,
    INTERRUPT_REG,
    INTERRUPT_ADDR_IN_REG,
    INTERRUPT_CONST,
    INTERRUPT_ADDR_LITERAL,
    EXIT,
}

/// Number of bytecodes; their codes are `0..BYTE_CODE_COUNT`.
pub const BYTE_CODE_COUNT: u8 = 87;

impl ByteCodes {
    /// The byte that encodes this value in a bytecode image.
    pub open spec fn spec_code(self) -> u8 {
        match self {
            ByteCodes::INTEGER_ADD => 0,
            ByteCodes::INTEGER_SUB => 1,
            ByteCodes::INTEGER_MUL => 2,
            ByteCodes::INTEGER_DIV => 3,
            ByteCodes::INTEGER_MOD => 4,
            ByteCodes::FLOAT_ADD => 5,
            ByteCodes::FLOAT_SUB => 6,
            ByteCodes::FLOAT_MUL => 7,
            ByteCodes::FLOAT_DIV => 8,
            ByteCodes::FLOAT_MOD => 9,
            ByteCodes::INC_REG => 10,
            ByteCodes::INC_ADDR_IN_REG => 11,
            ByteCodes::INC_ADDR_LITERAL => 12,
            ByteCodes::DEC_REG => 13,
            ByteCodes::DEC_ADDR_IN_REG => 14,
            ByteCodes::DEC_ADDR_LITERAL => 15,
            ByteCodes::NO_OPERATION => 16,
            ByteCodes::MOVE_INTO_REG_FROM_REG => 17,
            ByteCodes::MOVE_INTO_REG_FROM_ADDR_IN_REG => 18,
            ByteCodes::MOVE_INTO_REG_FROM_CONST => 19,
            ByteCodes::MOVE_INTO_REG_FROM_ADDR_LITERAL => 20,
            ByteCodes::MOVE_INTO_ADDR_IN_REG_FROM_REG => 21,
            ByteCodes::MOVE_INTO_ADDR_IN_REG_FROM_ADDR_IN_REG => 22,
            ByteCodes::MOVE_INTO_ADDR_IN_REG_FROM_CONST => 23,
            ByteCodes::MOVE_INTO_ADDR_IN_REG_FROM_ADDR_LITERAL => 24,
            ByteCodes::MOVE_INTO_ADDR_LITERAL_FROM_REG => 25,
            ByteCodes::MOVE_INTO_ADDR_LITERAL_FROM_ADDR_IN_REG => 26,
            ByteCodes::MOVE_INTO_ADDR_LITERAL_FROM_CONST => 27,
            ByteCodes::MOVE_INTO_ADDR_LITERAL_FROM_ADDR_LITERAL => 28,
            ByteCodes::PUSH_FROM_REG => 29,
            ByteCodes::PUSH_FROM_ADDR_IN_REG => 30,
            ByteCodes::PUSH_FROM_CONST => 31,
            ByteCodes::PUSH_FROM_ADDR_LITERAL => 32,
            ByteCodes::PUSH_STACK_POINTER_REG => 33,
            ByteCodes::PUSH_STACK_POINTER_ADDR_IN_REG => 34,
            ByteCodes::PUSH_STACK_POINTER_CONST => 35,
            ByteCodes::PUSH_STACK_POINTER_ADDR_LITERAL => 36,
            ByteCodes::POP_INTO_REG => 37,
            ByteCodes::POP_INTO_ADDR_IN_REG => 38,
            ByteCodes::POP_INTO_ADDR_LITERAL => 39,
            ByteCodes::POP_STACK_POINTER_REG => 40,
            ByteCodes::POP_STACK_POINTER_ADDR_IN_REG => 41,
            ByteCodes::POP_STACK_POINTER_CONST => 42,
            ByteCodes::POP_STACK_POINTER_ADDR_LITERAL => 43,
            ByteCodes::LABEL => 44,
            ByteCodes::JUMP => 45,
            ByteCodes::JUMP_NOT_ZERO => 46,
            ByteCodes::JUMP_ZERO => 47,
            ByteCodes::JUMP_GREATER => 48,
            ByteCodes::JUMP_LESS => 49,
            ByteCodes::JUMP_GREATER_OR_EQUAL => 50,
            ByteCodes::JUMP_LESS_OR_EQUAL => 51,
            ByteCodes::JUMP_CARRY => 52,
            ByteCodes::JUMP_NOT_CARRY => 53,
            ByteCodes::JUMP_OVERFLOW => 54,
            ByteCodes::JUMP_NOT_OVERFLOW => 55,
            ByteCodes::JUMP_SIGN => 56,
            ByteCodes::JUMP_NOT_SIGN => 57,
            ByteCodes::CALL => 58,
            ByteCodes::RETURN => 59,
            ByteCodes::COMPARE_REG_REG => 60,
            ByteCodes::COMPARE_REG_ADDR_IN_REG => 61,
            ByteCodes::COMPARE_REG_CONST => 62,
            ByteCodes::COMPARE_REG_ADDR_LITERAL => 63,
            ByteCodes::COMPARE_ADDR_IN_REG_REG => 64,
            ByteCodes::COMPARE_ADDR_IN_REG_ADDR_IN_REG => 65,
            ByteCodes::COMPARE_ADDR_IN_REG_CONST => 66,
            ByteCodes::COMPARE_ADDR_IN_REG_ADDR_LITERAL => 67,
            ByteCodes::COMPARE_CONST_REG => 68,
            ByteCodes::COMPARE_CONST_ADDR_IN_REG => 69,
            ByteCodes::COMPARE_CONST_CONST => 70,
            ByteCodes::COMPARE_CONST_ADDR_LITERAL => 71,
            ByteCodes::COMPARE_ADDR_LITERAL_REG => 72,
            ByteCodes::COMPARE_ADDR_LITERAL_ADDR_IN_REG => 73,
            ByteCodes::COMPARE_ADDR_LITERAL_CONST => 74,
            ByteCodes::COMPARE_ADDR_LITERAL_ADDR_LITERAL => 75,
            ByteCodes::AND => 76,
            ByteCodes::OR => 77,
            ByteCodes::XOR => 78,
            ByteCodes::NOT => 79,
            ByteCodes::SHIFT_LEFT => 80,
            ByteCodes::SHIFT_RIGHT => 81,
            ByteCodes::INTERRUPT_REG => 82,
            ByteCodes::INTERRUPT_ADDR_IN_REG => 83,
            ByteCodes::INTERRUPT_CONST => 84,
            ByteCodes::INTERRUPT_ADDR_LITERAL => 85,
            ByteCodes::EXIT => 86,
        }
    }

    #[verifier::when_used_as_spec(spec_code)]
    pub fn code(self) -> (r: u8)
        ensures
            r == self.spec_code(),
    {
        match self {
            ByteCodes::INTEGER_ADD => 0,
            ByteCodes::INTEGER_SUB => 1,
            ByteCodes::INTEGER_MUL => 2,
            ByteCodes::INTEGER_DIV => 3,
            ByteCodes::INTEGER_MOD => 4,
            ByteCodes::FLOAT_ADD => 5,
            ByteCodes::FLOAT_SUB => 6,
            ByteCodes::FLOAT_MUL => 7,
            ByteCodes::FLOAT_DIV => 8,
            ByteCodes::FLOAT_MOD => 9,
            ByteCodes::INC_REG => 10,
            ByteCodes::INC_ADDR_IN_REG => 11,
            ByteCodes::INC_ADDR_LITERAL => 12,
            ByteCodes::DEC_REG => 13,
            ByteCodes::DEC_ADDR_IN_REG => 14,
            ByteCodes::DEC_ADDR_LITERAL => 15,
            ByteCodes::NO_OPERATION => 16,
            ByteCodes::MOVE_INTO_REG_FROM_REG => 17,
            ByteCodes::MOVE_INTO_REG_FROM_ADDR_IN_REG => 18,
            ByteCodes::MOVE_INTO_REG_FROM_CONST => 19,
            ByteCodes::MOVE_INTO_REG_FROM_ADDR_LITERAL => 20,
            ByteCodes::MOVE_INTO_ADDR_IN_REG_FROM_REG => 21,
            ByteCodes::MOVE_INTO_ADDR_IN_REG_FROM_ADDR_IN_REG => 22,
            ByteCodes::MOVE_INTO_ADDR_IN_REG_FROM_CONST => 23,
            ByteCodes::MOVE_INTO_ADDR_IN_REG_FROM_ADDR_LITERAL => 24,
            ByteCodes::MOVE_INTO_ADDR_LITERAL_FROM_REG => 25,
            ByteCodes::MOVE_INTO_ADDR_LITERAL_FROM_ADDR_IN_REG => 26,
            ByteCodes::MOVE_INTO_ADDR_LITERAL_FROM_CONST => 27,
            ByteCodes::MOVE_INTO_ADDR_LITERAL_FROM_ADDR_LITERAL => 28,
            ByteCodes::PUSH_FROM_REG => 29,
            ByteCodes::PUSH_FROM_ADDR_IN_REG => 30,
            ByteCodes::PUSH_FROM_CONST => 31,
            ByteCodes::PUSH_FROM_ADDR_LITERAL => 32,
            ByteCodes::PUSH_STACK_POINTER_REG => 33,
            ByteCodes::PUSH_STACK_POINTER_ADDR_IN_REG => 34,
            ByteCodes::PUSH_STACK_POINTER_CONST => 35,
            ByteCodes::PUSH_STACK_POINTER_ADDR_LITERAL => 36,
            ByteCodes::POP_INTO_REG => 37,
            ByteCodes::POP_INTO_ADDR_IN_REG => 38,
            ByteCodes::POP_INTO_ADDR_LITERAL => 39,
            ByteCodes::POP_STACK_POINTER_REG => 40,
            ByteCodes::POP_STACK_POINTER_ADDR_IN_REG => 41,
            ByteCodes::POP_STACK_POINTER_CONST => 42,
            ByteCodes::POP_STACK_POINTER_ADDR_LITERAL => 43,
            ByteCodes::LABEL => 44,
            ByteCodes::JUMP => 45,
            ByteCodes::JUMP_NOT_ZERO => 46,
            ByteCodes::JUMP_ZERO => 47,
            ByteCodes::JUMP_GREATER => 48,
            ByteCodes::JUMP_LESS => 49,
            ByteCodes::JUMP_GREATER_OR_EQUAL => 50,
            ByteCodes::JUMP_LESS_OR_EQUAL => 51,
            ByteCodes::JUMP_CARRY => 52,
            ByteCodes::JUMP_NOT_CARRY => 53,
            ByteCodes::JUMP_OVERFLOW => 54,
            ByteCodes::JUMP_NOT_OVERFLOW => 55,
            ByteCodes::JUMP_SIGN => 56,
            ByteCodes::JUMP_NOT_SIGN => 57,
            ByteCodes::CALL => 58,
            ByteCodes::RETURN => 59,
            ByteCodes::COMPARE_REG_REG => 60,
            ByteCodes::COMPARE_REG_ADDR_IN_REG => 61,
            ByteCodes::COMPARE_REG_CONST => 62,
            ByteCodes::COMPARE_REG_ADDR_LITERAL => 63,
            ByteCodes::COMPARE_ADDR_IN_REG_REG => 64,
            ByteCodes::COMPARE_ADDR_IN_REG_ADDR_IN_REG => 65,
            ByteCodes::COMPARE_ADDR_IN_REG_CONST => 66,
            ByteCodes::COMPARE_ADDR_IN_REG_ADDR_LITERAL => 67,
            ByteCodes::COMPARE_CONST_REG => 68,
            ByteCodes::COMPARE_CONST_ADDR_IN_REG => 69,
            ByteCodes::COMPARE_CONST_CONST => 70,
            ByteCodes::COMPARE_CONST_ADDR_LITERAL => 71,
            ByteCodes::COMPARE_ADDR_LITERAL_REG => 72,
            ByteCodes::COMPARE_ADDR_LITERAL_ADDR_IN_REG => 73,
            ByteCodes::COMPARE_ADDR_LITERAL_CONST => 74,
            ByteCodes::COMPARE_ADDR_LITERAL_ADDR_LITERAL => 75,
            ByteCodes::AND => 76,
            ByteCodes::OR => 77,
            ByteCodes::XOR => 78,
            ByteCodes::NOT => 79,
            ByteCodes::SHIFT_LEFT => 80,
            ByteCodes::SHIFT_RIGHT => 81,
            ByteCodes::INTERRUPT_REG => 82,
            ByteCodes::INTERRUPT_ADDR_IN_REG => 83,
            ByteCodes::INTERRUPT_CONST => 84,
            ByteCodes::INTERRUPT_ADDR_LITERAL => 85,
            ByteCodes::EXIT => 86,
        }
    }

    /// The value that `code` encodes, if any.
    pub fn from_code(code: u8) -> (r: Option<ByteCodes>)
        ensures
            r is Some <==> code < BYTE_CODE_COUNT,
            r is Some ==> r->0.spec_code() == code,
    {
        match code {
            0 => Some(ByteCodes::INTEGER_ADD),
            1 => Some(ByteCodes::INTEGER_SUB),
            2 => Some(ByteCodes::INTEGER_MUL),
            3 => Some(ByteCodes::INTEGER_DIV),
            4 => Some(ByteCodes::INTEGER_MOD),
            5 => Some(ByteCodes::FLOAT_ADD),
            6 => Some(ByteCodes::FLOAT_SUB),
            7 => Some(ByteCodes::FLOAT_MUL),
            8 => Some(ByteCodes::FLOAT_DIV),
            9 => Some(ByteCodes::FLOAT_MOD),
            10 => Some(ByteCodes::INC_REG),
            11 => Some(ByteCodes::INC_ADDR_IN_REG),
            12 => Some(ByteCodes::INC_ADDR_LITERAL),
            13 => Some(ByteCodes::DEC_REG),
            14 => Some(ByteCodes::DEC_ADDR_IN_REG),
            15 => Some(ByteCodes::DEC_ADDR_LITERAL),
            16 => Some(ByteCodes::NO_OPERATION),
            17 => Some(ByteCodes::MOVE_INTO_REG_FROM_REG),
            18 => Some(ByteCodes::MOVE_INTO_REG_FROM_ADDR_IN_REG),
            19 => Some(ByteCodes::MOVE_INTO_REG_FROM_CONST),
            20 => Some(ByteCodes::MOVE_INTO_REG_FROM_ADDR_LITERAL),
            21 => Some(ByteCodes::MOVE_INTO_ADDR_IN_REG_FROM_REG),
            22 => Some(ByteCodes::MOVE_INTO_ADDR_IN_REG_FROM_ADDR_IN_REG),
            23 => Some(ByteCodes::MOVE_INTO_ADDR_IN_REG_FROM_CONST),
            24 => Some(ByteCodes::MOVE_INTO_ADDR_IN_REG_FROM_ADDR_LITERAL),
            25 => Some(ByteCodes::MOVE_INTO_ADDR_LITERAL_FROM_REG),
            26 => Some(ByteCodes::MOVE_INTO_ADDR_LITERAL_FROM_ADDR_IN_REG),
            27 => Some(ByteCodes::MOVE_INTO_ADDR_LITERAL_FROM_CONST),
            28 => Some(ByteCodes::MOVE_INTO_ADDR_LITERAL_FROM_ADDR_LITERAL),
            29 => Some(ByteCodes::PUSH_FROM_REG),
            30 => Some(ByteCodes::PUSH_FROM_ADDR_IN_REG),
            31 => Some(ByteCodes::PUSH_FROM_CONST),
            32 => Some(ByteCodes::PUSH_FROM_ADDR_LITERAL),
            33 => Some(ByteCodes::PUSH_STACK_POINTER_REG),
            34 => Some(ByteCodes::PUSH_STACK_POINTER_ADDR_IN_REG),
            35 => Some(ByteCodes::PUSH_STACK_POINTER_CONST),
            36 => Some(ByteCodes::PUSH_STACK_POINTER_ADDR_LITERAL),
            37 => Some(ByteCodes::POP_INTO_REG),
            38 => Some(ByteCodes::POP_INTO_ADDR_IN_REG),
            39 => Some(ByteCodes::POP_INTO_ADDR_LITERAL),
            40 => Some(ByteCodes::POP_STACK_POINTER_REG),
            41 => Some(ByteCodes::POP_STACK_POINTER_ADDR_IN_REG),
            42 => Some(ByteCodes::POP_STACK_POINTER_CONST),
            43 => Some(ByteCodes::POP_STACK_POINTER_ADDR_LITERAL),
            44 => Some(ByteCodes::LABEL),
            45 => Some(ByteCodes::JUMP),
            46 => Some(ByteCodes::JUMP_NOT_ZERO),
            47 => Some(ByteCodes::JUMP_ZERO),
            48 => Some(ByteCodes::JUMP_GREATER),
            49 => Some(ByteCodes::JUMP_LESS),
            50 => Some(ByteCodes::JUMP_GREATER_OR_EQUAL),
            51 => Some(ByteCodes::JUMP_LESS_OR_EQUAL),
            52 => Some(ByteCodes::JUMP_CARRY),
            53 => Some(ByteCodes::JUMP_NOT_CARRY),
            54 => Some(ByteCodes::JUMP_OVERFLOW),
            55 => Some(ByteCodes::JUMP_NOT_OVERFLOW),
            56 => Some(ByteCodes::JUMP_SIGN),
            57 => Some(ByteCodes::JUMP_NOT_SIGN),
            58 => Some(ByteCodes::CALL),
            59 => Some(ByteCodes::RETURN),
            60 => Some(ByteCodes::COMPARE_REG_REG),
            61 => Some(ByteCodes::COMPARE_REG_ADDR_IN_REG),
            62 => Some(ByteCodes::COMPARE_REG_CONST),
            63 => Some(ByteCodes::COMPARE_REG_ADDR_LITERAL),
            64 => Some(ByteCodes::COMPARE_ADDR_IN_REG_REG),
            65 => Some(ByteCodes::COMPARE_ADDR_IN_REG_ADDR_IN_REG),
            66 => Some(ByteCodes::COMPARE_ADDR_IN_REG_CONST),
            67 => Some(ByteCodes::COMPARE_ADDR_IN_REG_ADDR_LITERAL),
            68 => Some(ByteCodes::COMPARE_CONST_REG),
            69 => Some(ByteCodes::COMPARE_CONST_ADDR_IN_REG),
            70 => Some(ByteCodes::COMPARE_CONST_CONST),
            71 => Some(ByteCodes::COMPARE_CONST_ADDR_LITERAL),
            72 => Some(ByteCodes::COMPARE_ADDR_LITERAL_REG),
            73 => Some(ByteCodes::COMPARE_ADDR_LITERAL_ADDR_IN_REG),
            74 => Some(ByteCodes::COMPARE_ADDR_LITERAL_CONST),
            75 => Some(ByteCodes::COMPARE_ADDR_LITERAL_ADDR_LITERAL),
            76 => Some(ByteCodes::AND),
            77 => Some(ByteCodes::OR),
            78 => Some(ByteCodes::XOR),
            79 => Some(ByteCodes::NOT),
            80 => Some(ByteCodes::SHIFT_LEFT),
            81 => Some(ByteCodes::SHIFT_RIGHT),
            82 => Some(ByteCodes::INTERRUPT_REG),
            83 => Some(ByteCodes::INTERRUPT_ADDR_IN_REG),
            84 => Some(ByteCodes::INTERRUPT_CONST),
            85 => Some(ByteCodes::INTERRUPT_ADDR_LITERAL),
            86 => Some(ByteCodes::EXIT),
            _ => None,
        }
    }

    /// The mnemonic of this value.
    pub open spec fn spec_name(self) -> Seq<char> {
        match self {
            ByteCodes::INTEGER_ADD => "INTEGER_ADD"@,
            ByteCodes::INTEGER_SUB => "INTEGER_SUB"@,
            ByteCodes::INTEGER_MUL => "INTEGER_MUL"@,
            ByteCodes::INTEGER_DIV => "INTEGER_DIV"@,
            ByteCodes::INTEGER_MOD => "INTEGER_MOD"@,
            ByteCodes::FLOAT_ADD => "FLOAT_ADD"@,
            ByteCodes::FLOAT_SUB => "FLOAT_SUB"@,
            ByteCodes::FLOAT_MUL => "FLOAT_MUL"@,
            ByteCodes::FLOAT_DIV => "FLOAT_DIV"@,
            ByteCodes::FLOAT_MOD => "FLOAT_MOD"@,
            ByteCodes::INC_REG => "INC_REG"@,
            ByteCodes::INC_ADDR_IN_REG => "INC_ADDR_IN_REG"@,
            ByteCodes::INC_ADDR_LITERAL => "INC_ADDR_LITERAL"@,
            ByteCodes::DEC_REG => "DEC_REG"@,
            ByteCodes::DEC_ADDR_IN_REG => "DEC_ADDR_IN_REG"@,
            ByteCodes::DEC_ADDR_LITERAL => "DEC_ADDR_LITERAL"@,
            ByteCodes::NO_OPERATION => "NO_OPERATION"@,
            ByteCodes::MOVE_INTO_REG_FROM_REG => "MOVE_INTO_REG_FROM_REG"@,
            ByteCodes::MOVE_INTO_REG_FROM_ADDR_IN_REG => "MOVE_INTO_REG_FROM_ADDR_IN_REG"@,
            ByteCodes::MOVE_INTO_REG_FROM_CONST => "MOVE_INTO_REG_FROM_CONST"@,
            ByteCodes::MOVE_INTO_REG_FROM_ADDR_LITERAL => "MOVE_INTO_REG_FROM_ADDR_LITERAL"@,
            ByteCodes::MOVE_INTO_ADDR_IN_REG_FROM_REG => "MOVE_INTO_ADDR_IN_REG_FROM_REG"@,
            ByteCodes::MOVE_INTO_ADDR_IN_REG_FROM_ADDR_IN_REG => "MOVE_INTO_ADDR_IN_REG_FROM_ADDR_IN_REG"@,
            ByteCodes::MOVE_INTO_ADDR_IN_REG_FROM_CONST => "MOVE_INTO_ADDR_IN_REG_FROM_CONST"@,
            ByteCodes::MOVE_INTO_ADDR_IN_REG_FROM_ADDR_LITERAL => "MOVE_INTO_ADDR_IN_REG_FROM_ADDR_LITERAL"@,
            ByteCodes::MOVE_INTO_ADDR_LITERAL_FROM_REG => "MOVE_INTO_ADDR_LITERAL_FROM_REG"@,
            ByteCodes::MOVE_INTO_ADDR_LITERAL_FROM_ADDR_IN_REG => "MOVE_INTO_ADDR_LITERAL_FROM_ADDR_IN_REG"@,
            ByteCodes::MOVE_INTO_ADDR_LITERAL_FROM_CONST => "MOVE_INTO_ADDR_LITERAL_FROM_CONST"@,
            ByteCodes::MOVE_INTO_ADDR_LITERAL_FROM_ADDR_LITERAL => "MOVE_INTO_ADDR_LITERAL_FROM_ADDR_LITERAL"@,
            ByteCodes::PUSH_FROM_REG => "PUSH_FROM_REG"@,
            ByteCodes::PUSH_FROM_ADDR_IN_REG => "PUSH_FROM_ADDR_IN_REG"@,
            ByteCodes::PUSH_FROM_CONST => "PUSH_FROM_CONST"@,
            ByteCodes::PUSH_FROM_ADDR_LITERAL => "PUSH_FROM_ADDR_LITERAL"@,
            ByteCodes::PUSH_STACK_POINTER_REG => "PUSH_STACK_POINTER_REG"@,
            ByteCodes::PUSH_STACK_POINTER_ADDR_IN_REG => "PUSH_STACK_POINTER_ADDR_IN_REG"@,
            ByteCodes::PUSH_STACK_POINTER_CONST => "PUSH_STACK_POINTER_CONST"@,
            ByteCodes::PUSH_STACK_POINTER_ADDR_LITERAL => "PUSH_STACK_POINTER_ADDR_LITERAL"@,
            ByteCodes::POP_INTO_REG => "POP_INTO_REG"@,
            ByteCodes::POP_INTO_ADDR_IN_REG => "POP_INTO_ADDR_IN_REG"@,
            ByteCodes::POP_INTO_ADDR_LITERAL => "POP_INTO_ADDR_LITERAL"@,
            ByteCodes::POP_STACK_POINTER_REG => "POP_STACK_POINTER_REG"@,
            ByteCodes::POP_STACK_POINTER_ADDR_IN_REG => "POP_STACK_POINTER_ADDR_IN_REG"@,
            ByteCodes::POP_STACK_POINTER_CONST => "POP_STACK_POINTER_CONST"@,
            ByteCodes::POP_STACK_POINTER_ADDR_LITERAL => "POP_STACK_POINTER_ADDR_LITERAL"@,
            ByteCodes::LABEL => "LABEL"@,
            ByteCodes::JUMP => "JUMP"@,
            ByteCodes::JUMP_NOT_ZERO => "JUMP_NOT_ZERO"@,
            ByteCodes::JUMP_ZERO => "JUMP_ZERO"@,
            ByteCodes::JUMP_GREATER => "JUMP_GREATER"@,
            ByteCodes::JUMP_LESS => "JUMP_LESS"@,
            ByteCodes::JUMP_GREATER_OR_EQUAL => "JUMP_GREATER_OR_EQUAL"@,
            ByteCodes::JUMP_LESS_OR_EQUAL => "JUMP_LESS_OR_EQUAL"@,
            ByteCodes::JUMP_CARRY => "JUMP_CARRY"@,
            ByteCodes::JUMP_NOT_CARRY => "JUMP_NOT_CARRY"@,
            ByteCodes::JUMP_OVERFLOW => "JUMP_OVERFLOW"@,
            ByteCodes::JUMP_NOT_OVERFLOW => "JUMP_NOT_OVERFLOW"@,
            ByteCodes::JUMP_SIGN => "JUMP_SIGN"@,
            ByteCodes::JUMP_NOT_SIGN => "JUMP_NOT_SIGN"@,
            ByteCodes::CALL => "CALL"@,
            ByteCodes::RETURN => "RETURN"@,
            ByteCodes::COMPARE_REG_REG => "COMPARE_REG_REG"@,
            ByteCodes::COMPARE_REG_ADDR_IN_REG => "COMPARE_REG_ADDR_IN_REG"@,
            ByteCodes::COMPARE_REG_CONST => "COMPARE_REG_CONST"@,
            ByteCodes::COMPARE_REG_ADDR_LITERAL => "COMPARE_REG_ADDR_LITERAL"@,
            ByteCodes::COMPARE_ADDR_IN_REG_REG => "COMPARE_ADDR_IN_REG_REG"@,
            ByteCodes::COMPARE_ADDR_IN_REG_ADDR_IN_REG => "COMPARE_ADDR_IN_REG_ADDR_IN_REG"@,
            ByteCodes::COMPARE_ADDR_IN_REG_CONST => "COMPARE_ADDR_IN_REG_CONST"@,
            ByteCodes::COMPARE_ADDR_IN_REG_ADDR_LITERAL => "COMPARE_ADDR_IN_REG_ADDR_LITERAL"@,
            ByteCodes::COMPARE_CONST_REG => "COMPARE_CONST_REG"@,
            ByteCodes::COMPARE_CONST_ADDR_IN_REG => "COMPARE_CONST_ADDR_IN_REG"@,
            ByteCodes::COMPARE_CONST_CONST => "COMPARE_CONST_CONST"@,
            ByteCodes::COMPARE_CONST_ADDR_LITERAL => "COMPARE_CONST_ADDR_LITERAL"@,
            ByteCodes::COMPARE_ADDR_LITERAL_REG => "COMPARE_ADDR_LITERAL_REG"@,
            ByteCodes::COMPARE_ADDR_LITERAL_ADDR_IN_REG => "COMPARE_ADDR_LITERAL_ADDR_IN_REG"@,
            ByteCodes::COMPARE_ADDR_LITERAL_CONST => "COMPARE_ADDR_LITERAL_CONST"@,
            ByteCodes::COMPARE_ADDR_LITERAL_ADDR_LITERAL => "COMPARE_ADDR_LITERAL_ADDR_LITERAL"@,
            ByteCodes::AND => "AND"@,
            ByteCodes::OR => "OR"@,
            ByteCodes::XOR => "XOR"@,
            ByteCodes::NOT => "NOT"@,
            ByteCodes::SHIFT_LEFT => "SHIFT_LEFT"@,
            ByteCodes::SHIFT_RIGHT => "SHIFT_RIGHT"@,
            ByteCodes::INTERRUPT_REG => "INTERRUPT_REG"@,
            ByteCodes::INTERRUPT_ADDR_IN_REG => "INTERRUPT_ADDR_IN_REG"@,
            ByteCodes::INTERRUPT_CONST => "INTERRUPT_CONST"@,
            ByteCodes::INTERRUPT_ADDR_LITERAL => "INTERRUPT_ADDR_LITERAL"@,
            ByteCodes::EXIT => "EXIT"@,
        }
    }

    pub fn name(self) -> (r: &'static str)
        ensures
            r@ == self.spec_name(),
    {
        match self {
            ByteCodes::INTEGER_ADD => "INTEGER_ADD",
            ByteCodes::INTEGER_SUB => "INTEGER_SUB",
            ByteCodes::INTEGER_MUL => "INTEGER_MUL",
            ByteCodes::INTEGER_DIV => "INTEGER_DIV",
            ByteCodes::INTEGER_MOD => "INTEGER_MOD",
            ByteCodes::FLOAT_ADD => "FLOAT_ADD",
            ByteCodes::FLOAT_SUB => "FLOAT_SUB",
            ByteCodes::FLOAT_MUL => "FLOAT_MUL",
            ByteCodes::FLOAT_DIV => "FLOAT_DIV",
            ByteCodes::FLOAT_MOD => "FLOAT_MOD",
            ByteCodes::INC_REG => "INC_REG",
            ByteCodes::INC_ADDR_IN_REG => "INC_ADDR_IN_REG",
            ByteCodes::INC_ADDR_LITERAL => "INC_ADDR_LITERAL",
            ByteCodes::DEC_REG => "DEC_REG",
            ByteCodes::DEC_ADDR_IN_REG => "DEC_ADDR_IN_REG",
            ByteCodes::DEC_ADDR_LITERAL => "DEC_ADDR_LITERAL",
            ByteCodes::NO_OPERATION => "NO_OPERATION",
            ByteCodes::MOVE_INTO_REG_FROM_REG => "MOVE_INTO_REG_FROM_REG",
            ByteCodes::MOVE_INTO_REG_FROM_ADDR_IN_REG => "MOVE_INTO_REG_FROM_ADDR_IN_REG",
            ByteCodes::MOVE_INTO_REG_FROM_CONST => "MOVE_INTO_REG_FROM_CONST",
            ByteCodes::MOVE_INTO_REG_FROM_ADDR_LITERAL => "MOVE_INTO_REG_FROM_ADDR_LITERAL",
            ByteCodes::MOVE_INTO_ADDR_IN_REG_FROM_REG => "MOVE_INTO_ADDR_IN_REG_FROM_REG",
            ByteCodes::MOVE_INTO_ADDR_IN_REG_FROM_ADDR_IN_REG => "MOVE_INTO_ADDR_IN_REG_FROM_ADDR_IN_REG",
            ByteCodes::MOVE_INTO_ADDR_IN_REG_FROM_CONST => "MOVE_INTO_ADDR_IN_REG_FROM_CONST",
            ByteCodes::MOVE_INTO_ADDR_IN_REG_FROM_ADDR_LITERAL => "MOVE_INTO_ADDR_IN_REG_FROM_ADDR_LITERAL",
            ByteCodes::MOVE_INTO_ADDR_LITERAL_FROM_REG => "MOVE_INTO_ADDR_LITERAL_FROM_REG",
            ByteCodes::MOVE_INTO_ADDR_LITERAL_FROM_ADDR_IN_REG => "MOVE_INTO_ADDR_LITERAL_FROM_ADDR_IN_REG",
            ByteCodes::MOVE_INTO_ADDR_LITERAL_FROM_CONST => "MOVE_INTO_ADDR_LITERAL_FROM_CONST",
            ByteCodes::MOVE_INTO_ADDR_LITERAL_FROM_ADDR_LITERAL => "MOVE_INTO_ADDR_LITERAL_FROM_ADDR_LITERAL",
            ByteCodes::PUSH_FROM_REG => "PUSH_FROM_REG",
            ByteCodes::PUSH_FROM_ADDR_IN_REG => "PUSH_FROM_ADDR_IN_REG",
            ByteCodes::PUSH_FROM_CONST => "PUSH_FROM_CONST",
            ByteCodes::PUSH_FROM_ADDR_LITERAL => "PUSH_FROM_ADDR_LITERAL",
            ByteCodes::PUSH_STACK_POINTER_REG => "PUSH_STACK_POINTER_REG",
            ByteCodes::PUSH_STACK_POINTER_ADDR_IN_REG => "PUSH_STACK_POINTER_ADDR_IN_REG",
            ByteCodes::PUSH_STACK_POINTER_CONST => "PUSH_STACK_POINTER_CONST",
            ByteCodes::PUSH_STACK_POINTER_ADDR_LITERAL => "PUSH_STACK_POINTER_ADDR_LITERAL",
            ByteCodes::POP_INTO_REG => "POP_INTO_REG",
            ByteCodes::POP_INTO_ADDR_IN_REG => "POP_INTO_ADDR_IN_REG",
            ByteCodes::POP_INTO_ADDR_LITERAL => "POP_INTO_ADDR_LITERAL",
            ByteCodes::POP_STACK_POINTER_REG => "POP_STACK_POINTER_REG",
            ByteCodes::POP_STACK_POINTER_ADDR_IN_REG => "POP_STACK_POINTER_ADDR_IN_REG",
            ByteCodes::POP_STACK_POINTER_CONST => "POP_STACK_POINTER_CONST",
            ByteCodes::POP_STACK_POINTER_ADDR_LITERAL => "POP_STACK_POINTER_ADDR_LITERAL",
            ByteCodes::LABEL => "LABEL",
            ByteCodes::JUMP => "JUMP",
            ByteCodes::JUMP_NOT_ZERO => "JUMP_NOT_ZERO",
            ByteCodes::JUMP_ZERO => "JUMP_ZERO",
            ByteCodes::JUMP_GREATER => "JUMP_GREATER",
            ByteCodes::JUMP_LESS => "JUMP_LESS",
            ByteCodes::JUMP_GREATER_OR_EQUAL => "JUMP_GREATER_OR_EQUAL",
            ByteCodes::JUMP_LESS_OR_EQUAL => "JUMP_LESS_OR_EQUAL",
            ByteCodes::JUMP_CARRY => "JUMP_CARRY",
            ByteCodes::JUMP_NOT_CARRY => "JUMP_NOT_CARRY",
            ByteCodes::JUMP_OVERFLOW => "JUMP_OVERFLOW",
            ByteCodes::JUMP_NOT_OVERFLOW => "JUMP_NOT_OVERFLOW",
            ByteCodes::JUMP_SIGN => "JUMP_SIGN",
            ByteCodes::JUMP_NOT_SIGN => "JUMP_NOT_SIGN",
            ByteCodes::CALL => "CALL",
            ByteCodes::RETURN => "RETURN",
            ByteCodes::COMPARE_REG_REG => "COMPARE_REG_REG",
            ByteCodes::COMPARE_REG_ADDR_IN_REG => "COMPARE_REG_ADDR_IN_REG",
            ByteCodes::COMPARE_REG_CONST => "COMPARE_REG_CONST",
            ByteCodes::COMPARE_REG_ADDR_LITERAL => "COMPARE_REG_ADDR_LITERAL",
            ByteCodes::COMPARE_ADDR_IN_REG_REG => "COMPARE_ADDR_IN_REG_REG",
            ByteCodes::COMPARE_ADDR_IN_REG_ADDR_IN_REG => "COMPARE_ADDR_IN_REG_ADDR_IN_REG",
            ByteCodes::COMPARE_ADDR_IN_REG_CONST => "COMPARE_ADDR_IN_REG_CONST",
            ByteCodes::COMPARE_ADDR_IN_REG_ADDR_LITERAL => "COMPARE_ADDR_IN_REG_ADDR_LITERAL",
            ByteCodes::COMPARE_CONST_REG => "COMPARE_CONST_REG",
            ByteCodes::COMPARE_CONST_ADDR_IN_REG => "COMPARE_CONST_ADDR_IN_REG",
            ByteCodes::COMPARE_CONST_CONST => "COMPARE_CONST_CONST",
            ByteCodes::COMPARE_CONST_ADDR_LITERAL => "COMPARE_CONST_ADDR_LITERAL",
            ByteCodes::COMPARE_ADDR_LITERAL_REG => "COMPARE_ADDR_LITERAL_REG",
            ByteCodes::COMPARE_ADDR_LITERAL_ADDR_IN_REG => "COMPARE_ADDR_LITERAL_ADDR_IN_REG",
            ByteCodes::COMPARE_ADDR_LITERAL_CONST => "COMPARE_ADDR_LITERAL_CONST",
            ByteCodes::COMPARE_ADDR_LITERAL_ADDR_LITERAL => "COMPARE_ADDR_LITERAL_ADDR_LITERAL",
            ByteCodes::AND => "AND",
            ByteCodes::OR => "OR",
            ByteCodes::XOR => "XOR",
            ByteCodes::NOT => "NOT",
            ByteCodes::SHIFT_LEFT => "SHIFT_LEFT",
            ByteCodes::SHIFT_RIGHT => "SHIFT_RIGHT",
            ByteCodes::INTERRUPT_REG => "INTERRUPT_REG",
            ByteCodes::INTERRUPT_ADDR_IN_REG => "INTERRUPT_ADDR_IN_REG",
            ByteCodes::INTERRUPT_CONST => "INTERRUPT_CONST",
            ByteCodes::INTERRUPT_ADDR_LITERAL => "INTERRUPT_ADDR_LITERAL",
            ByteCodes::EXIT => "EXIT",
        }
    }

    /// Whether the instruction transfers control: the jumps, `CALL` and `RETURN`.
    pub open spec fn is_jump(self) -> bool {
        ByteCodes::JUMP.spec_code() <= self.spec_code() <= ByteCodes::RETURN.spec_code()
    }
}
/// Whether the given instruction is a jump instruction (including `CALL` and `RETURN`).
pub fn is_jump_instruction(instruction: ByteCodes) -> (r: bool)
    ensures
        r == instruction.is_jump(),
{
    ByteCodes::JUMP.code() <= instruction.code() && instruction.code() <= ByteCodes::RETURN.code()
}

/// The registers of the Rusty VM, in the order of their one-byte codes.
#[allow(non_camel_case_types)]
#[derive(PartialEq, Eq, Structural, Debug, Clone, Copy)]
pub enum Registers {
    R1,
    R2,
    R3,
    R4,
    R5,
    R6,
    R7,
    R8,
    EXIT_CODE,
    INPUT,
    ERROR,
    PRINT,
    STACK_TOP_POINTER,
    STACK_FRAME_BASE_POINTER,
    PROGRAM_COUNTER,
    ZERO_FLAG,
    SIGN_FLAG,
    REMAINDER_FLAG,
    CARRY_FLAG,
    OVERFLOW_FLAG,
}

/// Number of registers; their codes are `0..REGISTER_COUNT`.
pub const REGISTER_COUNT: u8 = 20;

impl Registers {
    /// The byte that encodes this value in a bytecode image.
    pub open spec fn spec_code(self) -> u8 {
        match self {
            Registers::R1 => 0,
            Registers::R2 => 1,
            Registers::R3 => 2,
            Registers::R4 => 3,
            Registers::R5 => 4,
            Registers::R6 => 5,
            Registers::R7 => 6,
            Registers::R8 => 7,
            Registers::EXIT_CODE => 8,
            Registers::INPUT => 9,
            Registers::ERROR => 10,
            Registers::PRINT => 11,
            Registers::STACK_TOP_POINTER => 12,
            Registers::STACK_FRAME_BASE_POINTER => 13,
            Registers::PROGRAM_COUNTER => 14,
            Registers::ZERO_FLAG => 15,
            Registers::SIGN_FLAG => 16,
            Registers::REMAINDER_FLAG => 17,
            Registers::CARRY_FLAG => 18,
            Registers::OVERFLOW_FLAG => 19,
        }
    }

    #[verifier::when_used_as_spec(spec_code)]
    pub fn code(self) -> (r: u8)
        ensures
            r == self.spec_code(),
    {
        match self {
            Registers::R1 => 0,
            Registers::R2 => 1,
            Registers::R3 => 2,
            Registers::R4 => 3,
            Registers::R5 => 4,
            Registers::R6 => 5,
            Registers::R7 => 6,
            Registers::R8 => 7,
            Registers::EXIT_CODE => 8,
            Registers::INPUT => 9,
            Registers::ERROR => 10,
            Registers::PRINT => 11,
            Registers::STACK_TOP_POINTER => 12,
            Registers::STACK_FRAME_BASE_POINTER => 13,
            Registers::PROGRAM_COUNTER => 14,
            Registers::ZERO_FLAG => 15,
            Registers::SIGN_FLAG => 16,
            Registers::REMAINDER_FLAG => 17,
            Registers::CARRY_FLAG => 18,
            Registers::OVERFLOW_FLAG => 19,
        }
    }

    /// The value that `code` encodes, if any.
    pub fn from_code(code: u8) -> (r: Option<Registers>)
        ensures
            r is Some <==> code < REGISTER_COUNT,
            r is Some ==> r->0.spec_code() == code,
    {
        match code {
            0 => Some(Registers::R1),
            1 => Some(Registers::R2),
            2 => Some(Registers::R3),
            3 => Some(Registers::R4),
            4 => Some(Registers::R5),
            5 => Some(Registers::R6),
            6 => Some(Registers::R7),
            7 => Some(Registers::R8),
            8 => Some(Registers::EXIT_CODE),
            9 => Some(Registers::INPUT),
            10 => Some(Registers::ERROR),
            11 => Some(Registers::PRINT),
            12 => Some(Registers::STACK_TOP_POINTER),
            13 => Some(Registers::STACK_FRAME_BASE_POINTER),
            14 => Some(Registers::PROGRAM_COUNTER),
            15 => Some(Registers::ZERO_FLAG),
            16 => Some(Registers::SIGN_FLAG),
            17 => Some(Registers::REMAINDER_FLAG),
            18 => Some(Registers::CARRY_FLAG),
            19 => Some(Registers::OVERFLOW_FLAG),
            _ => None,
        }
    }

    /// The mnemonic of this value.
    pub open spec fn spec_name(self) -> Seq<char> {
        match self {
            Registers::R1 => "R1"@,
            Registers::R2 => "R2"@,
            Registers::R3 => "R3"@,
            Registers::R4 => "R4"@,
            Registers::R5 => "R5"@,
            Registers::R6 => "R6"@,
            Registers::R7 => "R7"@,
            Registers::R8 => "R8"@,
            Registers::EXIT_CODE => "EXIT_CODE"@,
            Registers::INPUT => "INPUT"@,
            Registers::ERROR => "ERROR"@,
            Registers::PRINT => "PRINT"@,
            Registers::STACK_TOP_POINTER => "STACK_TOP_POINTER"@,
            Registers::STACK_FRAME_BASE_POINTER => "STACK_FRAME_BASE_POINTER"@,
            Registers::PROGRAM_COUNTER => "PROGRAM_COUNTER"@,
            Registers::ZERO_FLAG => "ZERO_FLAG"@,
            Registers::SIGN_FLAG => "SIGN_FLAG"@,
            Registers::REMAINDER_FLAG => "REMAINDER_FLAG"@,
            Registers::CARRY_FLAG => "CARRY_FLAG"@,
            Registers::OVERFLOW_FLAG => "OVERFLOW_FLAG"@,
        }
    }

    pub fn name(self) -> (r: &'static str)
        ensures
            r@ == self.spec_name(),
    {
        match self {
            Registers::R1 => "R1",
            Registers::R2 => "R2",
            Registers::R3 => "R3",
            Registers::R4 => "R4",
            Registers::R5 => "R5",
            Registers::R6 => "R6",
            Registers::R7 => "R7",
            Registers::R8 => "R8",
            Registers::EXIT_CODE => "EXIT_CODE",
            Registers::INPUT => "INPUT",
            Registers::ERROR => "ERROR",
            Registers::PRINT => "PRINT",
            Registers::STACK_TOP_POINTER => "STACK_TOP_POINTER",
            Registers::STACK_FRAME_BASE_POINTER => "STACK_FRAME_BASE_POINTER",
            Registers::PROGRAM_COUNTER => "PROGRAM_COUNTER",
            Registers::ZERO_FLAG => "ZERO_FLAG",
            Registers::SIGN_FLAG => "SIGN_FLAG",
            Registers::REMAINDER_FLAG => "REMAINDER_FLAG",
            Registers::CARRY_FLAG => "CARRY_FLAG",
            Registers::OVERFLOW_FLAG => "OVERFLOW_FLAG",
        }
    }

}
} // verus!
