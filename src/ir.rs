use vstd::prelude::*;

use crate::data_types::DataType;

verus! {

/// A jump target, resolved to a code offset only once all code is emitted.
#[derive(PartialEq, Eq, Structural, Debug, Clone, Copy)]
pub struct LabelID(pub usize);

/// A compiler-introduced temporary value.
#[derive(PartialEq, Eq, Structural, Debug, Clone, Copy)]
pub struct TnID(pub usize);

/// A static-data entry of the symbol table.
#[derive(PartialEq, Eq, Structural, Debug, Clone, Copy)]
pub struct StaticID(pub usize);

/// A temporary and whether it holds a floating-point value.
#[derive(PartialEq, Eq, Structural, Debug, Clone, Copy)]
pub struct Tn {
    pub id: TnID,
    pub is_float: bool,
}

/// An operand: a temporary, or a constant already encoded as a 64-bit word.
#[derive(PartialEq, Eq, Structural, Debug, Clone, Copy)]
pub enum IRValue {
    Tn(Tn),
    Const(u64),
}

/// Arithmetic and bitwise operators on two operands.
#[derive(PartialEq, Eq, Structural, Debug, Clone, Copy)]
pub enum BinaryOp {
    Add,
    Sub,
    Mul,
    Div,
    Mod,
    BitAnd,
    BitOr,
    BitXor,
    BitShiftLeft,
    BitShiftRight,
}

/// Comparison operators; their result is 1 or 0.
#[derive(PartialEq, Eq, Structural, Debug, Clone, Copy)]
pub enum CompareOp {
    Greater,
    Less,
    GreaterEqual,
    LessEqual,
    Equal,
    NotEqual,
}

/// A typed operator of the intermediate representation.
pub enum IROperator {
    Binary { op: BinaryOp, target: Tn, left: IRValue, right: IRValue },
    Compare { op: CompareOp, target: Tn, left: IRValue, right: IRValue },
    BitNot { target: Tn, operand: IRValue },
    Assign { target: Tn, source: IRValue },
    /// `target = *pointer`
    Deref { target: Tn, pointer: IRValue },
    /// `*pointer = source`
    DerefAssign { pointer: IRValue, source: IRValue },
    /// `target = &source`
    Ref { target: Tn, source: Tn },
    Jump { target: LabelID },
    JumpIf { condition: IRValue, target: LabelID },
    JumpIfNot { condition: IRValue, target: LabelID },
    Label { label: LabelID },
    /// Calls the function whose entry is labelled `function`, passing `args` on the stack;
    /// the result, if kept, is stored in `return_target`.
    Call { return_target: Option<Tn>, function: LabelID, args: Vec<IRValue> },
    Return { value: Option<IRValue> },
    PushScope { bytes: u64 },
    PopScope { bytes: u64 },
    Nop,
}

/// A straight-line run of operators.
pub struct BasicBlock {
    pub code: Vec<IROperator>,
}

/// The control-flow graph of one function: its entry label and its blocks, in layout order.
pub struct FunctionGraph {
    pub label: LabelID,
    pub code_blocks: Vec<BasicBlock>,
}

/// A static-data entry: its declared type and its already encoded value.
pub struct StaticEntry {
    pub id: StaticID,
    pub data_type: DataType,
    pub bytes: Vec<u8>,
}

} // verus!
