use oxide::byte_code::{ByteCodes, Registers};
use oxide::bytecode_generator::{generate_bytecode, ByteCodeImage, GeneratorError};
use oxide::data_types::DataType;
use oxide::ir::{
    BasicBlock, BinaryOp, CompareOp, FunctionGraph, IROperator, IRValue, LabelID, StaticEntry,
    StaticID, Tn, TnID,
};

const PROLOGUE_LEN: usize = 23;

fn function(label: usize, blocks: Vec<Vec<IROperator>>) -> FunctionGraph {
    FunctionGraph {
        label: LabelID(label),
        code_blocks: blocks.into_iter().map(|code| BasicBlock { code }).collect(),
    }
}

fn tn(id: usize) -> Tn {
    Tn { id: TnID(id), is_float: false }
}

fn word(bytes: &[u8], at: usize) -> u64 {
    u64::from_le_bytes(bytes[at..at + 8].try_into().unwrap())
}

fn generate(statics: Vec<StaticEntry>, fs: Vec<FunctionGraph>, entry: usize) -> Result<ByteCodeImage, GeneratorError> {
    generate_bytecode(&statics, &fs, LabelID(entry))
}

fn op(b: ByteCodes) -> u8 {
    b.code()
}

fn reg(r: Registers) -> u8 {
    r.code()
}

#[test]
fn forward_jump_resolves_to_its_label() {
    let f = function(
        0,
        vec![
            vec![IROperator::Jump { target: LabelID(7) }, IROperator::Nop],
            vec![IROperator::Label { label: LabelID(7) }, IROperator::Return { value: None }],
        ],
    );
    let image = generate(vec![], vec![f], 0).unwrap();
    let b = &image.bytes;
    assert_eq!(image.entry_point, 0);
    assert_eq!(b[PROLOGUE_LEN], op(ByteCodes::JUMP));
    let label_at = PROLOGUE_LEN + 9 + 1;
    assert_eq!(b[label_at - 1], op(ByteCodes::NO_OPERATION));
    assert_eq!(word(b, PROLOGUE_LEN + 1), label_at as u64);
    assert_eq!(b[label_at], op(ByteCodes::MOVE_INTO_REG_FROM_REG));
    assert_eq!(b[label_at + 1], reg(Registers::STACK_TOP_POINTER));
    assert_eq!(*b.last().unwrap(), op(ByteCodes::RETURN));
    assert_eq!(b.len(), label_at + 3 + 2 + 1);
}

#[test]
fn prologue_reserves_the_spill_area() {
    let mut ops = Vec::new();
    for i in 0..7 {
        ops.push(IROperator::Assign { target: tn(i), source: IRValue::Const(i as u64) });
    }
    let image = generate(vec![], vec![function(0, vec![ops])], 0).unwrap();
    let b = &image.bytes;
    assert_eq!(b[0], op(ByteCodes::PUSH_FROM_REG));
    assert_eq!(b[1], reg(Registers::STACK_FRAME_BASE_POINTER));
    assert_eq!(b[10], reg(Registers::R2));
    assert_eq!(word(b, 11), 16);
    assert_eq!(b[19], op(ByteCodes::INTEGER_SUB));
    // The first temporary goes to R3: its constant is loaded into R1, then moved.
    let first = PROLOGUE_LEN;
    assert_eq!(b[first], op(ByteCodes::MOVE_INTO_REG_FROM_CONST));
    assert_eq!(b[first + 2], reg(Registers::R1));
    assert_eq!(&b[first + 11..first + 14], &[op(ByteCodes::MOVE_INTO_REG_FROM_REG), reg(Registers::R3), reg(Registers::R1)]);
}

#[test]
fn statics_come_first() {
    let statics = vec![
        StaticEntry { id: StaticID(1), data_type: DataType::U16, bytes: vec![0x34, 0x12] },
        StaticEntry { id: StaticID(2), data_type: DataType::Bool, bytes: vec![1] },
    ];
    let f = function(5, vec![vec![IROperator::Nop]]);
    let image = generate(statics, vec![f], 5).unwrap();
    assert_eq!(&image.bytes[..3], &[0x34, 0x12, 1]);
    assert_eq!(image.entry_point, 3);
    assert_eq!(image.bytes[3], op(ByteCodes::PUSH_FROM_REG));
}

#[test]
fn static_size_must_match() {
    let statics = vec![
        StaticEntry { id: StaticID(1), data_type: DataType::U8, bytes: vec![9] },
        StaticEntry { id: StaticID(2), data_type: DataType::I32, bytes: vec![1, 2, 3] },
    ];
    assert_eq!(generate(statics, vec![], 0).err(), Some(GeneratorError::SizeMismatch { id: StaticID(2) }));
    let statics = vec![StaticEntry { id: StaticID(4), data_type: DataType::String, bytes: vec![104, 105] }];
    assert_eq!(generate(statics, vec![], 0).err(), Some(GeneratorError::NoStaticSize { id: StaticID(4) }));
}

#[test]
fn unresolved_labels_are_internal_errors() {
    let f = function(0, vec![vec![IROperator::Jump { target: LabelID(3) }]]);
    assert_eq!(generate(vec![], vec![f], 0).err(), Some(GeneratorError::UnresolvedLabel { label: 3 }));
    let f = function(0, vec![vec![IROperator::Nop]]);
    assert_eq!(generate(vec![], vec![f], 9).err(), Some(GeneratorError::UnresolvedLabel { label: 9 }));
}

#[test]
fn reading_an_unwritten_temporary_fails() {
    let f = function(
        0,
        vec![vec![IROperator::Binary {
            op: BinaryOp::Add,
            target: tn(0),
            left: IRValue::Const(1),
            right: IRValue::Tn(tn(5)),
        }]],
    );
    assert_eq!(generate(vec![], vec![f], 0).err(), Some(GeneratorError::UndefinedTemporary { tn: 5 }));
}

#[test]
fn scopes_move_the_stack_top() {
    let f = function(0, vec![vec![IROperator::PushScope { bytes: 24 }, IROperator::PopScope { bytes: 24 }]]);
    let b = generate(vec![], vec![f], 0).unwrap().bytes;
    let push = PROLOGUE_LEN;
    assert_eq!(&b[push..push + 3], &[op(ByteCodes::MOVE_INTO_REG_FROM_REG), reg(Registers::R1), reg(Registers::STACK_TOP_POINTER)]);
    assert_eq!(word(&b, push + 6), 24);
    assert_eq!(b[push + 14], op(ByteCodes::INTEGER_SUB));
    let pop = push + 18;
    assert_eq!(word(&b, pop + 6), 24);
    assert_eq!(b[pop + 14], op(ByteCodes::INTEGER_ADD));
}

#[test]
fn calls_resolve_to_the_callee() {
    let callee = function(1, vec![vec![IROperator::Return { value: Some(IRValue::Const(42)) }]]);
    let caller = function(
        0,
        vec![vec![
            IROperator::Assign { target: tn(0), source: IRValue::Const(5) },
            IROperator::Call { return_target: Some(tn(1)), function: LabelID(1), args: vec![IRValue::Tn(tn(0))] },
            IROperator::Compare { op: CompareOp::Less, target: tn(2), left: IRValue::Tn(tn(1)), right: IRValue::Const(50) },
            IROperator::JumpIfNot { condition: IRValue::Tn(tn(2)), target: LabelID(1) },
        ]],
    );
    let image = generate(vec![], vec![caller, callee], 0).unwrap();
    let b = &image.bytes;
    let call_at = b.iter().position(|x| *x == op(ByteCodes::CALL)).unwrap();
    let callee_start = word(b, call_at + 1) as usize;
    assert_eq!(b[callee_start], op(ByteCodes::PUSH_FROM_REG));
    assert_eq!(*b.last().unwrap(), op(ByteCodes::RETURN));
    assert_eq!(image.entry_point, 0);
}
