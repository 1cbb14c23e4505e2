//! Lowering of IR function graphs into a Rusty VM bytecode image, in three passes: the
//! static data, the code with a placeholder for every jump target, then the resolution of
//! the placeholders.
//!
//! Conventions of the generated code: operands are loaded into `R1` and `R2` and results
//! are taken from `R1`; `R3` to `R7` hold temporaries until they run out, after which
//! temporaries live in 8-byte slots below the frame base pointer, whose address is
//! computed in `R8`. A function saves the caller's frame base, reserves its spill slots on
//! entry and restores both on return. Before a call, temporaries held in registers move to
//! the stack; arguments are pushed left to right and popped after the call.

use vstd::prelude::*;
use std::collections::HashMap;

use crate::byte_code::{ByteCodes, Registers};
use crate::data_types::static_size_of;
use crate::ir::{
    BasicBlock, BinaryOp, CompareOp, FunctionGraph, IROperator, IRValue, LabelID, StaticEntry,
    StaticID, Tn,
};

verus! {

broadcast use vstd::std_specs::hash::group_hash_axioms;

/// Internal inconsistencies that stop the lowering; each is a bug of an earlier phase.
#[derive(PartialEq, Eq, Structural, Debug, Clone, Copy)]
pub enum GeneratorError {
    /// A static entry's declared type has no fixed size.
    NoStaticSize { id: StaticID },
    /// A static entry's encoded value is not as long as its type's size.
    SizeMismatch { id: StaticID },
    /// A jump, a call or the entry point names a label that no marker defines.
    UnresolvedLabel { label: u64 },
    /// An operator reads a temporary that nothing has written.
    UndefinedTemporary { tn: u64 },
    /// The image would outgrow the address space.
    ImageTooLarge,
}

/// Little-endian encoding of a 64-bit word.
pub open spec fn le_bytes(v: u64) -> Seq<u8> {
    seq![
        #[verifier::truncate] (v as u8),
        #[verifier::truncate] ((v >> 8) as u8),
        #[verifier::truncate] ((v >> 16) as u8),
        #[verifier::truncate] ((v >> 24) as u8),
        #[verifier::truncate] ((v >> 32) as u8),
        #[verifier::truncate] ((v >> 40) as u8),
        #[verifier::truncate] ((v >> 48) as u8),
        #[verifier::truncate] ((v >> 56) as u8),
    ]
}

/// The 64-bit word whose little-endian encoding starts `s`.
pub open spec fn from_le(s: Seq<u8>) -> u64
    recommends
        s.len() >= 8,
{
    (s[0] as u64) | ((s[1] as u64) << 8) | ((s[2] as u64) << 16) | ((s[3] as u64) << 24) | ((
    s[4] as u64) << 32) | ((s[5] as u64) << 40) | ((s[6] as u64) << 48) | ((s[7] as u64) << 56)
}

/// The eight bytes of `code` from `at`.
pub open spec fn word_at(code: Seq<u8>, at: int) -> u64 {
    from_le(code.subrange(at, at + 8))
}

pub proof fn lemma_le_round_trip(v: u64)
    ensures
        from_le(le_bytes(v)) == v,
        le_bytes(v).len() == 8,
{
    assert((((v as u8) as u64) | ((((v >> 8) as u8) as u64) << 8) | ((((v >> 16) as u8) as u64)
        << 16) | ((((v >> 24) as u8) as u64) << 24) | ((((v >> 32) as u8) as u64) << 32) | ((((v
        >> 40) as u8) as u64) << 40) | ((((v >> 48) as u8) as u64) << 48) | ((((v >> 56) as u8)
        as u64) << 56)) == v) by (bit_vector);
}

/// Appends the little-endian encoding of `v`.
fn push_word(code: &mut Vec<u8>, v: u64)
    ensures
        final(code)@ == old(code)@ + le_bytes(v),
{
    code.push(#[verifier::truncate] (v as u8));
    code.push(#[verifier::truncate] ((v >> 8) as u8));
    code.push(#[verifier::truncate] ((v >> 16) as u8));
    code.push(#[verifier::truncate] ((v >> 24) as u8));
    code.push(#[verifier::truncate] ((v >> 32) as u8));
    code.push(#[verifier::truncate] ((v >> 40) as u8));
    code.push(#[verifier::truncate] ((v >> 48) as u8));
    code.push(#[verifier::truncate] ((v >> 56) as u8));
    assert(final(code)@ =~= old(code)@ + le_bytes(v));
}

/// Reads the word at `at`.
fn read_word(code: &Vec<u8>, at: usize) -> (r: u64)
    requires
        at + 8 <= code.len(),
    ensures
        r == word_at(code@, at as int),
{
    (code[at] as u64) | ((code[at + 1] as u64) << 8) | ((code[at + 2] as u64) << 16) | ((code[at
        + 3] as u64) << 24) | ((code[at + 4] as u64) << 32) | ((code[at + 5] as u64) << 40) | ((
    code[at + 6] as u64) << 48) | ((code[at + 7] as u64) << 56)
}

/// Overwrites the eight bytes at `at` with the encoding of `v`.
fn write_word(code: &mut Vec<u8>, at: usize, v: u64)
    requires
        at + 8 <= old(code).len(),
    ensures
        final(code)@.len() == old(code)@.len(),
        final(code)@.subrange(at as int, at + 8) == le_bytes(v),
        forall|k: int|
            0 <= k < old(code)@.len() && !(at <= k < at + 8) ==> final(code)@[k] == old(code)@[k],
{
    code.set(at, #[verifier::truncate] (v as u8));
    code.set(at + 1, #[verifier::truncate] ((v >> 8) as u8));
    code.set(at + 2, #[verifier::truncate] ((v >> 16) as u8));
    code.set(at + 3, #[verifier::truncate] ((v >> 24) as u8));
    code.set(at + 4, #[verifier::truncate] ((v >> 32) as u8));
    code.set(at + 5, #[verifier::truncate] ((v >> 40) as u8));
    code.set(at + 6, #[verifier::truncate] ((v >> 48) as u8));
    code.set(at + 7, #[verifier::truncate] ((v >> 56) as u8));
    assert(final(code)@.subrange(at as int, at + 8) =~= le_bytes(v));
}

/// The first static entry that cannot be laid out, and why.
pub open spec fn static_error(entries: Seq<StaticEntry>) -> Option<GeneratorError>
    decreases entries.len(),
{
    if entries.len() == 0 {
        None
    } else {
        let prefix = entries.drop_last();
        let e = entries.last();
        if static_error(prefix) is Some {
            static_error(prefix)
        } else if static_size_of(e.data_type@) is None {
            Some(GeneratorError::NoStaticSize { id: e.id })
        } else if static_size_of(e.data_type@)->0 != e.bytes@.len() {
            Some(GeneratorError::SizeMismatch { id: e.id })
        } else {
            None
        }
    }
}

/// The entries' values laid end to end.
pub open spec fn static_layout(entries: Seq<StaticEntry>) -> Seq<u8>
    decreases entries.len(),
{
    if entries.len() == 0 {
        Seq::empty()
    } else {
        static_layout(entries.drop_last()) + entries.last().bytes@
    }
}

/// Entry ids are pairwise distinct.
pub open spec fn distinct_ids(entries: Seq<StaticEntry>) -> bool {
    forall|i: int, j: int|
        0 <= i < j < entries.len() ==> (#[trigger] entries[i]).id != (#[trigger] entries[j]).id
}

/// Lays out the static data, recording where each entry starts.
fn generate_static_data_section(
    entries: &Vec<StaticEntry>,
    static_address_map: &mut HashMap<u64, u64>,
    bytecode: &mut Vec<u8>,
) -> (r: Result<(), GeneratorError>)
    requires
        distinct_ids(entries@),
        old(bytecode)@.len() + static_layout(entries@).len() <= u64::MAX,
    ensures
        r is Err <==> static_error(entries@) is Some,
        r is Err ==> r == Err::<(), GeneratorError>(static_error(entries@)->0),
        r is Ok ==> {
            &&& final(bytecode)@ == old(bytecode)@ + static_layout(entries@)
            &&& forall|i: int|
                0 <= i < entries@.len() ==> {
                    let e = #[trigger] entries@[i];
                    &&& final(static_address_map)@.contains_key(e.id.0 as u64)
                    &&& final(static_address_map)@[e.id.0 as u64] == old(bytecode)@.len() + static_layout(
                        entries@.take(i),
                    ).len()
                    &&& e.bytes@.len() == static_size_of(e.data_type@)->0
                }
        },
{
    let ghost start = bytecode@.len();
    let mut i: usize = 0;
    while i < entries.len()
        invariant
            i <= entries@.len(),
            distinct_ids(entries@),
            start == old(bytecode)@.len(),
            start + static_layout(entries@).len() <= u64::MAX,
            static_error(entries@.take(i as int)) is None,
            bytecode@ == old(bytecode)@ + static_layout(entries@.take(i as int)),
            forall|k: int|
                0 <= k < i ==> {
                    let e = #[trigger] entries@[k];
                    &&& static_address_map@.contains_key(e.id.0 as u64)
                    &&& static_address_map@[e.id.0 as u64] == start + static_layout(entries@.take(k)).len()
                    &&& e.bytes@.len() == static_size_of(e.data_type@)->0
                },
        decreases entries@.len() - i,
    {
        let entry = &entries[i];
        let ghost prefix = entries@.take(i as int);
        let ghost next = entries@.take(i + 1);
        proof {
            assert(next.drop_last() =~= prefix);
            assert(next.last() == entries@[i as int]);
        }
        let size = match entry.data_type.static_size() {
            Ok(size) => size,
            Err(_) => {
                proof {
                    lemma_static_error_extends(entries@, i as int);
                }
                return Err(GeneratorError::NoStaticSize { id: entry.id });
            },
        };
        if entry.bytes.len() != size {
            proof {
                lemma_static_error_extends(entries@, i as int);
            }
            return Err(GeneratorError::SizeMismatch { id: entry.id });
        }
        proof {
            lemma_layout_prefix_bound(entries@, i + 1);
        }
        static_address_map.insert(entry.id.0 as u64, bytecode.len() as u64);
        let mut k: usize = 0;
        let ghost before = bytecode@;
        while k < entry.bytes.len()
            invariant
                k <= entry.bytes@.len(),
                bytecode@ == before + entry.bytes@.take(k as int),
            decreases entry.bytes@.len() - k,
        {
            bytecode.push(entry.bytes[k]);
            assert(bytecode@ =~= before + entry.bytes@.take(k + 1));
            k += 1;
        }
        assert(entry.bytes@.take(k as int) =~= entry.bytes@);
        proof {
            assert forall|j: int| 0 <= j < i + 1 implies {
                let e = #[trigger] entries@[j];
                &&& static_address_map@.contains_key(e.id.0 as u64)
                &&& static_address_map@[e.id.0 as u64] == start + static_layout(entries@.take(j)).len()
                &&& e.bytes@.len() == static_size_of(e.data_type@)->0
            } by {
                if j < i {
                    assert(entries@[j].id != entries@[i as int].id);
                }
            }
        }
        i += 1;
    }
    assert(entries@.take(i as int) =~= entries@);
    Ok(())
}

proof fn lemma_static_error_extends(entries: Seq<StaticEntry>, i: int)
    requires
        0 <= i < entries.len(),
        static_error(entries.take(i)) is None,
        static_error(entries.take(i + 1)) is Some,
    ensures
        static_error(entries) == static_error(entries.take(i + 1)),
    decreases entries.len() - i,
{
    if i + 1 < entries.len() {
        assert(entries.take(entries.len() as int) =~= entries);
        lemma_static_error_stays(entries, i + 1, entries.len() as int);
    } else {
        assert(entries.take(i + 1) =~= entries);
    }
}

proof fn lemma_static_error_stays(entries: Seq<StaticEntry>, i: int, j: int)
    requires
        0 < i <= j <= entries.len(),
        static_error(entries.take(i)) is Some,
    ensures
        static_error(entries.take(j)) == static_error(entries.take(i)),
    decreases j - i,
{
    if j > i {
        lemma_static_error_stays(entries, i, j - 1);
        assert(entries.take(j).drop_last() =~= entries.take(j - 1));
    }
}

proof fn lemma_layout_prefix_bound(entries: Seq<StaticEntry>, i: int)
    requires
        0 <= i <= entries.len(),
    ensures
        static_layout(entries.take(i)).len() <= static_layout(entries).len(),
    decreases entries.len() - i,
{
    if i < entries.len() {
        lemma_layout_prefix_bound(entries, i + 1);
        assert(entries.take(i + 1).drop_last() =~= entries.take(i));
    } else {
        assert(entries.take(i) =~= entries);
    }
}

/// Placeholder fields lie inside the code, in increasing order, without overlapping.
pub open spec fn fixups_spaced(fixups: Seq<usize>, len: int) -> bool {
    &&& forall|i: int| 0 <= i < fixups.len() ==> #[trigger] fixups[i] + 8 <= len
    &&& forall|i: int, j: int|
        0 <= i < j < fixups.len() ==> #[trigger] fixups[i] + 8 <= #[trigger] fixups[j]
}

/// Byte `k` lies in none of the placeholder fields.
pub open spec fn outside_fixups(fixups: Seq<usize>, k: int) -> bool {
    forall|i: int| 0 <= i < fixups.len() ==> !(#[trigger] fixups[i] <= k < fixups[i] + 8)
}

/// Replaces each placeholder, which holds a label id, with the address recorded for that
/// label.
#[verifier::spinoff_prover]
#[verifier::rlimit(100)]
fn resolve_unresolved_addresses(
    fixups: &Vec<usize>,
    label_address_map: &HashMap<u64, u64>,
    bytecode: &mut Vec<u8>,
) -> (r: Result<(), GeneratorError>)
    requires
        fixups_spaced(fixups@, old(bytecode)@.len() as int),
    ensures
        final(bytecode)@.len() == old(bytecode)@.len(),
        r is Ok <==> forall|i: int|
            0 <= i < fixups@.len() ==> label_address_map@.contains_key(
                word_at(old(bytecode)@, #[trigger] fixups@[i] as int),
            ),
        r is Err ==> exists|i: int|
            0 <= i < fixups@.len() && !label_address_map@.contains_key(
                word_at(old(bytecode)@, #[trigger] fixups@[i] as int),
            ) && r == Err::<(), GeneratorError>(
                GeneratorError::UnresolvedLabel {
                    label: word_at(old(bytecode)@, fixups@[i] as int),
                },
            ),
        r is Ok ==> forall|i: int|
            0 <= i < fixups@.len() ==> word_at(final(bytecode)@, #[trigger] fixups@[i] as int)
                == label_address_map@[word_at(old(bytecode)@, fixups@[i] as int)],
        r is Ok ==> forall|k: int|
            0 <= k < old(bytecode)@.len() && outside_fixups(fixups@, k) ==> final(bytecode)@[k]
                == old(bytecode)@[k],
{
    let ghost unresolved = bytecode@;
    let mut i: usize = 0;
    while i < fixups.len()
        invariant
            i <= fixups@.len(),
            fixups_spaced(fixups@, unresolved.len() as int),
            unresolved == old(bytecode)@,
            bytecode@.len() == unresolved.len(),
            forall|j: int|
                0 <= j < i ==> label_address_map@.contains_key(
                    word_at(unresolved, #[trigger] fixups@[j] as int),
                ),
            forall|j: int|
                0 <= j < i ==> word_at(bytecode@, #[trigger] fixups@[j] as int)
                    == label_address_map@[word_at(unresolved, fixups@[j] as int)],
            forall|j: int|
                i <= j < fixups@.len() ==> bytecode@.subrange(
                    #[trigger] fixups@[j] as int,
                    fixups@[j] + 8,
                ) == unresolved.subrange(fixups@[j] as int, fixups@[j] + 8),
            forall|k: int|
                0 <= k < unresolved.len() && outside_fixups(fixups@, k) ==> bytecode@[k]
                    == unresolved[k],
        decreases fixups@.len() - i,
    {
        let at = fixups[i];
        let label = read_word(bytecode, at);
        assert(label == word_at(unresolved, fixups@[i as int] as int));
        let address = match label_address_map.get(&label) {
            Some(a) => *a,
            None => {
                assert(!label_address_map@.contains_key(word_at(unresolved, fixups@[i as int] as int)));
                return Err(GeneratorError::UnresolvedLabel { label });
            },
        };
        let ghost before = bytecode@;
        write_word(bytecode, at, address);
        proof {
            lemma_le_round_trip(address);
            assert forall|j: int| 0 <= j < i + 1 implies word_at(
                bytecode@,
                #[trigger] fixups@[j] as int,
            ) == label_address_map@[word_at(unresolved, fixups@[j] as int)] by {
                if j < i {
                    assert(bytecode@.subrange(fixups@[j] as int, fixups@[j] + 8) =~= before.subrange(
                        fixups@[j] as int,
                        fixups@[j] + 8,
                    ));
                }
            }
            assert forall|j: int| i + 1 <= j < fixups@.len() implies bytecode@.subrange(
                #[trigger] fixups@[j] as int,
                fixups@[j] + 8,
            ) == unresolved.subrange(fixups@[j] as int, fixups@[j] + 8) by {
                assert(bytecode@.subrange(fixups@[j] as int, fixups@[j] + 8) =~= before.subrange(
                    fixups@[j] as int,
                    fixups@[j] + 8,
                ));
            }
            assert forall|k: int|
                0 <= k < unresolved.len() && outside_fixups(fixups@, k) implies bytecode@[k]
                == unresolved[k] by {
                assert(!(fixups@[i as int] <= k < fixups@[i as int] + 8));
            }
        }
        i += 1;
    }
    Ok(())
}

/// Where the current value of a temporary lives.
#[derive(PartialEq, Eq, Structural, Debug, Clone, Copy)]
pub enum TnLocation {
    Register(Registers),
    /// The 8-byte slot that many bytes below the frame base pointer.
    Stack(u64),
}

/// Number of registers handed to temporaries before they spill to the stack.
pub const TN_REGISTER_COUNT: usize = 5;

/// Bound on frame sizes; reaching it means the image would not fit the address space.
pub const IMAGE_LIMIT: u64 = 0x4000_0000_0000_0000;

/// The registers given to temporaries, in order of use. `R1` and `R2` hold operands and
/// `R8` holds computed addresses.
pub open spec fn tn_register(i: nat) -> Registers {
    if i == 0 {
        Registers::R3
    } else if i == 1 {
        Registers::R4
    } else if i == 2 {
        Registers::R5
    } else if i == 3 {
        Registers::R6
    } else {
        Registers::R7
    }
}

/// What lowering has produced so far.
pub struct LowerState {
    pub code: Seq<u8>,
    pub labels: Map<u64, u64>,
    pub fixups: Seq<usize>,
    /// The label id each placeholder was written with, in step with `fixups`.
    pub jump_labels: Seq<u64>,
    pub locs: Seq<(u64, TnLocation)>,
    pub regs_used: nat,
    pub frame: u64,
}

pub open spec fn op1(b: ByteCodes) -> Seq<u8> {
    seq![b.spec_code()]
}

pub open spec fn move_reg(dst: Registers, src: Registers) -> Seq<u8> {
    seq![ByteCodes::MOVE_INTO_REG_FROM_REG.spec_code(), dst.spec_code(), src.spec_code()]
}

pub open spec fn set_const(dst: Registers, v: u64) -> Seq<u8> {
    seq![ByteCodes::MOVE_INTO_REG_FROM_CONST.spec_code(), 8u8, dst.spec_code()] + le_bytes(v)
}

pub open spec fn push_reg(r: Registers) -> Seq<u8> {
    seq![ByteCodes::PUSH_FROM_REG.spec_code(), r.spec_code()]
}

pub open spec fn pop_reg(r: Registers) -> Seq<u8> {
    seq![ByteCodes::POP_INTO_REG.spec_code(), r.spec_code()]
}

pub open spec fn compare_regs() -> Seq<u8> {
    seq![
        ByteCodes::COMPARE_REG_REG.spec_code(),
        Registers::R1.spec_code(),
        Registers::R2.spec_code(),
    ]
}

pub open spec fn load_indirect(dst: Registers) -> Seq<u8> {
    seq![
        ByteCodes::MOVE_INTO_REG_FROM_ADDR_IN_REG.spec_code(),
        8u8,
        dst.spec_code(),
        Registers::R8.spec_code(),
    ]
}

pub open spec fn store_indirect(src: Registers) -> Seq<u8> {
    seq![
        ByteCodes::MOVE_INTO_ADDR_IN_REG_FROM_REG.spec_code(),
        8u8,
        Registers::R8.spec_code(),
        src.spec_code(),
    ]
}

/// Leaves in `R8` the address `offset` bytes below the frame base, keeping `R1` and `R2`.
pub open spec fn slot_address(offset: u64) -> Seq<u8> {
    push_reg(Registers::R1) + push_reg(Registers::R2) + move_reg(
        Registers::R1,
        Registers::STACK_FRAME_BASE_POINTER,
    ) + set_const(Registers::R2, offset) + op1(ByteCodes::INTEGER_SUB) + move_reg(
        Registers::R8,
        Registers::R1,
    ) + pop_reg(Registers::R2) + pop_reg(Registers::R1)
}

pub open spec fn load(dst: Registers, loc: TnLocation) -> Seq<u8> {
    match loc {
        TnLocation::Register(r) => move_reg(dst, r),
        TnLocation::Stack(off) => slot_address(off) + load_indirect(dst),
    }
}

pub open spec fn store(loc: TnLocation, src: Registers) -> Seq<u8> {
    match loc {
        TnLocation::Register(r) => move_reg(r, src),
        TnLocation::Stack(off) => slot_address(off) + store_indirect(src),
    }
}

/// Moves the stack top by `bytes` with `op` (`INTEGER_SUB` grows the stack, which grows
/// toward lower addresses; `INTEGER_ADD` shrinks it).
pub open spec fn adjust_stack(op: ByteCodes, bytes: u64) -> Seq<u8> {
    move_reg(Registers::R1, Registers::STACK_TOP_POINTER) + set_const(Registers::R2, bytes) + op1(
        op,
    ) + move_reg(Registers::STACK_TOP_POINTER, Registers::R1)
}

pub open spec fn binary_code(op: BinaryOp, float: bool) -> ByteCodes {
    match op {
        BinaryOp::Add => if float {
            ByteCodes::FLOAT_ADD
        } else {
            ByteCodes::INTEGER_ADD
        },
        BinaryOp::Sub => if float {
            ByteCodes::FLOAT_SUB
        } else {
            ByteCodes::INTEGER_SUB
        },
        BinaryOp::Mul => if float {
            ByteCodes::FLOAT_MUL
        } else {
            ByteCodes::INTEGER_MUL
        },
        BinaryOp::Div => if float {
            ByteCodes::FLOAT_DIV
        } else {
            ByteCodes::INTEGER_DIV
        },
        BinaryOp::Mod => if float {
            ByteCodes::FLOAT_MOD
        } else {
            ByteCodes::INTEGER_MOD
        },
        BinaryOp::BitAnd => ByteCodes::AND,
        BinaryOp::BitOr => ByteCodes::OR,
        BinaryOp::BitXor => ByteCodes::XOR,
        BinaryOp::BitShiftLeft => ByteCodes::SHIFT_LEFT,
        BinaryOp::BitShiftRight => ByteCodes::SHIFT_RIGHT,
    }
}

/// The conditional jump taken when the comparison holds.
pub open spec fn compare_jump(op: CompareOp) -> ByteCodes {
    match op {
        CompareOp::Greater => ByteCodes::JUMP_GREATER,
        CompareOp::Less => ByteCodes::JUMP_LESS,
        CompareOp::GreaterEqual => ByteCodes::JUMP_GREATER_OR_EQUAL,
        CompareOp::LessEqual => ByteCodes::JUMP_LESS_OR_EQUAL,
        CompareOp::Equal => ByteCodes::JUMP_ZERO,
        CompareOp::NotEqual => ByteCodes::JUMP_NOT_ZERO,
    }
}

/// Index of the last entry for temporary `id`, or -1.
pub open spec fn loc_index(locs: Seq<(u64, TnLocation)>, id: u64) -> int
    decreases locs.len(),
{
    if locs.len() == 0 {
        -1
    } else if locs.last().0 == id {
        locs.len() - 1
    } else {
        loc_index(locs.drop_last(), id)
    }
}

pub open spec fn emit(st: LowerState, bytes: Seq<u8>) -> LowerState {
    LowerState { code: st.code + bytes, ..st }
}

/// Code loading operand `v` into `dst`.
pub open spec fn read_value(st: LowerState, dst: Registers, v: IRValue) -> Result<Seq<u8>, GeneratorError> {
    match v {
        IRValue::Const(c) => Ok(set_const(dst, c)),
        IRValue::Tn(t) => {
            let i = loc_index(st.locs, t.id.0 as u64);
            if i < 0 {
                Err(GeneratorError::UndefinedTemporary { tn: t.id.0 as u64 })
            } else {
                Ok(load(dst, st.locs[i].1))
            }
        },
    }
}

/// The location of temporary `t`, given one if it has none: the next free register while
/// any remains, else a new stack slot.
pub open spec fn place(st: LowerState, t: Tn) -> Result<(TnLocation, LowerState), GeneratorError> {
    let id = t.id.0 as u64;
    let i = loc_index(st.locs, id);
    if i >= 0 {
        Ok((st.locs[i].1, st))
    } else if st.regs_used < TN_REGISTER_COUNT {
        let loc = TnLocation::Register(tn_register(st.regs_used));
        Ok((loc, LowerState { locs: st.locs.push((id, loc)), regs_used: st.regs_used + 1, ..st }))
    } else if st.frame < IMAGE_LIMIT {
        let loc = TnLocation::Stack((st.frame + 8) as u64);
        Ok((loc, LowerState { locs: st.locs.push((id, loc)), frame: (st.frame + 8) as u64, ..st }))
    } else {
        Err(GeneratorError::ImageTooLarge)
    }
}

/// Moves the temporary of entry `i`, if it is in a register, to a new stack slot.
pub open spec fn spill_entry(st: LowerState, i: int) -> Result<LowerState, GeneratorError> {
    match st.locs[i].1 {
        TnLocation::Register(r) => if st.frame < IMAGE_LIMIT {
            let off = (st.frame + 8) as u64;
            Ok(
                LowerState {
                    code: st.code + slot_address(off) + store_indirect(r),
                    locs: st.locs.update(i, (st.locs[i].0, TnLocation::Stack(off))),
                    frame: off,
                    ..st
                },
            )
        } else {
            Err(GeneratorError::ImageTooLarge)
        },
        TnLocation::Stack(_) => Ok(st),
    }
}

/// Moves every temporary held in a register from entry `i` on to the stack.
pub open spec fn spill_from(st: LowerState, i: int) -> Result<LowerState, GeneratorError>
    decreases st.locs.len() - i,
{
    if i < 0 || i >= st.locs.len() {
        Ok(st)
    } else {
        match spill_entry(st, i) {
            Ok(s) => if s.locs.len() == st.locs.len() {
                spill_from(s, i + 1)
            } else {
                Ok(s)
            },
            Err(e) => Err(e),
        }
    }
}

/// Pushes the arguments from `i` on, left to right.
pub open spec fn push_args(st: LowerState, args: Seq<IRValue>, i: int) -> Result<LowerState, GeneratorError>
    decreases args.len() - i,
{
    if i < 0 || i >= args.len() {
        Ok(st)
    } else {
        match read_value(st, Registers::R1, args[i]) {
            Ok(c) => push_args(emit(st, c + push_reg(Registers::R1)), args, i + 1),
            Err(e) => Err(e),
        }
    }
}

/// `n` pops into `R2`, discarding the call's arguments.
pub open spec fn pop_args(n: nat) -> Seq<u8>
    decreases n,
{
    if n == 0 {
        Seq::empty()
    } else {
        pop_args((n - 1) as nat) + pop_reg(Registers::R2)
    }
}

/// Emits a jump-family opcode followed by a placeholder holding `label`'s id, and records
/// the placeholder for resolution.
pub open spec fn emit_jump(st: LowerState, jump: ByteCodes, label: LabelID) -> LowerState {
    LowerState {
        code: st.code + op1(jump) + le_bytes(label.0 as u64),
        fixups: st.fixups.push((st.code.len() + 1) as usize),
        jump_labels: st.jump_labels.push(label.0 as u64),
        ..st
    }
}

pub open spec fn lower_binary_spec(st: LowerState, op: BinaryOp, target: Tn, left: IRValue, right: IRValue) -> Result<LowerState, GeneratorError> {
    match (read_value(st, Registers::R1, left), read_value(st, Registers::R2, right)) {
        (Err(e), _) => Err(e),
        (Ok(_), Err(e)) => Err(e),
        (Ok(l), Ok(r)) => match place(st, target) {
            Err(e) => Err(e),
            Ok((loc, s)) => Ok(
                emit(s, l + r + op1(binary_code(op, target.is_float)) + store(loc, Registers::R1)),
            ),
        },
    }
}

pub open spec fn lower_compare_spec(st: LowerState, op: CompareOp, target: Tn, left: IRValue, right: IRValue) -> Result<LowerState, GeneratorError> {
    match (read_value(st, Registers::R1, left), read_value(st, Registers::R2, right)) {
        (Err(e), _) => Err(e),
        (Ok(_), Err(e)) => Err(e),
        (Ok(l), Ok(r)) => if st.code.len() >= IMAGE_LIMIT {
            Err(GeneratorError::ImageTooLarge)
        } else {
            match place(st, target) {
                Err(e) => Err(e),
                Ok((loc, s)) => {
                    let if_true = (st.code.len() + l.len() + r.len() + 3 + 9 + 11 + 9) as u64;
                    Ok(
                        emit(
                            s,
                            l + r + compare_regs() + op1(compare_jump(op)) + le_bytes(if_true)
                                + set_const(Registers::R1, 0) + op1(ByteCodes::JUMP) + le_bytes(
                                (if_true + 11) as u64,
                            ) + set_const(Registers::R1, 1) + store(loc, Registers::R1),
                        ),
                    )
                },
            }
        },
    }
}

/// Code between loading the operand into `R1` and storing `R1` to the target.
pub open spec fn unary_body(op: IROperator) -> Seq<u8> {
    match op {
        IROperator::BitNot { .. } => op1(ByteCodes::NOT),
        IROperator::Deref { .. } => move_reg(Registers::R8, Registers::R1) + load_indirect(
            Registers::R1,
        ),
        _ => Seq::empty(),
    }
}

pub open spec fn lower_unary_spec(st: LowerState, op: IROperator, target: Tn, operand: IRValue) -> Result<LowerState, GeneratorError> {
    match read_value(st, Registers::R1, operand) {
        Err(e) => Err(e),
        Ok(l) => match place(st, target) {
            Err(e) => Err(e),
            Ok((loc, s)) => Ok(emit(s, l + unary_body(op) + store(loc, Registers::R1))),
        },
    }
}

pub open spec fn lower_deref_assign_spec(st: LowerState, pointer: IRValue, source: IRValue) -> Result<LowerState, GeneratorError> {
    match (read_value(st, Registers::R2, pointer), read_value(st, Registers::R1, source)) {
        (Err(e), _) => Err(e),
        (Ok(_), Err(e)) => Err(e),
        (Ok(p), Ok(v)) => Ok(
            emit(st, p + v + move_reg(Registers::R8, Registers::R2) + store_indirect(Registers::R1)),
        ),
    }
}

pub open spec fn lower_ref_spec(st: LowerState, target: Tn, source: Tn) -> Result<LowerState, GeneratorError> {
    let i = loc_index(st.locs, source.id.0 as u64);
    if i < 0 {
        Err(GeneratorError::UndefinedTemporary { tn: source.id.0 as u64 })
    } else {
        match spill_entry(st, i) {
            Err(e) => Err(e),
            Ok(s1) => match s1.locs[i].1 {
                TnLocation::Stack(off) => match place(s1, target) {
                    Err(e) => Err(e),
                    Ok((loc, s2)) => Ok(
                        emit(
                            s2,
                            slot_address(off) + move_reg(Registers::R1, Registers::R8) + store(
                                loc,
                                Registers::R1,
                            ),
                        ),
                    ),
                },
                TnLocation::Register(_) => Ok(s1),
            },
        }
    }
}

pub open spec fn lower_call_spec(st: LowerState, return_target: Option<Tn>, function: LabelID, args: Seq<IRValue>) -> Result<LowerState, GeneratorError> {
    match spill_from(st, 0) {
        Err(e) => Err(e),
        Ok(s1) => match push_args(LowerState { regs_used: 0, ..s1 }, args, 0) {
            Err(e) => Err(e),
            Ok(s2) => {
                let s3 = emit_jump(s2, ByteCodes::CALL, function);
                match return_target {
                    None => Ok(emit(s3, pop_args(args.len()))),
                    Some(t) => match place(s3, t) {
                        Err(e) => Err(e),
                        Ok((loc, s4)) => Ok(emit(s4, store(loc, Registers::R1) + pop_args(args.len()))),
                    },
                }
            },
        },
    }
}

/// Restores the caller's frame and returns.
pub open spec fn epilogue() -> Seq<u8> {
    move_reg(Registers::STACK_TOP_POINTER, Registers::STACK_FRAME_BASE_POINTER) + pop_reg(
        Registers::STACK_FRAME_BASE_POINTER,
    ) + op1(ByteCodes::RETURN)
}

pub open spec fn lower_return_spec(st: LowerState, value: Option<IRValue>) -> Result<LowerState, GeneratorError> {
    match value {
        None => Ok(emit(st, epilogue())),
        Some(v) => match read_value(st, Registers::R1, v) {
            Err(e) => Err(e),
            Ok(l) => Ok(emit(st, l + epilogue())),
        },
    }
}

/// Lowers one operator.
#[verifier::opaque]
pub open spec fn lower_op(st: LowerState, op: IROperator) -> Result<LowerState, GeneratorError> {
    match op {
        IROperator::Binary { op, target, left, right } => lower_binary_spec(st, op, target, left, right),
        IROperator::Compare { op, target, left, right } => lower_compare_spec(st, op, target, left, right),
        IROperator::BitNot { target, operand } => lower_unary_spec(st, op, target, operand),
        IROperator::Assign { target, source } => lower_unary_spec(st, op, target, source),
        IROperator::Deref { target, pointer } => lower_unary_spec(st, op, target, pointer),
        IROperator::DerefAssign { pointer, source } => lower_deref_assign_spec(st, pointer, source),
        IROperator::Ref { target, source } => lower_ref_spec(st, target, source),
        IROperator::Jump { target } => Ok(emit_jump(st, ByteCodes::JUMP, target)),
        IROperator::JumpIf { condition, target } => match read_value(st, Registers::R1, condition) {
            Err(e) => Err(e),
            Ok(c) => Ok(
                emit_jump(
                    emit(st, c + set_const(Registers::R2, 0) + compare_regs()),
                    ByteCodes::JUMP_NOT_ZERO,
                    target,
                ),
            ),
        },
        IROperator::JumpIfNot { condition, target } => match read_value(st, Registers::R1, condition) {
            Err(e) => Err(e),
            Ok(c) => Ok(
                emit_jump(
                    emit(st, c + set_const(Registers::R2, 0) + compare_regs()),
                    ByteCodes::JUMP_ZERO,
                    target,
                ),
            ),
        },
        IROperator::Label { label } => Ok(
            LowerState { labels: st.labels.insert(label.0 as u64, st.code.len() as u64), ..st },
        ),
        IROperator::Call { return_target, function, args } => lower_call_spec(st, return_target, function, args@),
        IROperator::Return { value } => lower_return_spec(st, value),
        IROperator::PushScope { bytes } => Ok(emit(st, adjust_stack(ByteCodes::INTEGER_SUB, bytes))),
        IROperator::PopScope { bytes } => Ok(emit(st, adjust_stack(ByteCodes::INTEGER_ADD, bytes))),
        IROperator::Nop => Ok(emit(st, op1(ByteCodes::NO_OPERATION))),
    }
}

/// Lowers the operators of `ops` from index `i` on.
pub open spec fn lower_ops(st: LowerState, ops: Seq<IROperator>, i: int) -> Result<LowerState, GeneratorError>
    decreases ops.len() - i,
{
    if i < 0 || i >= ops.len() {
        Ok(st)
    } else {
        match lower_op(st, ops[i]) {
            Ok(s) => lower_ops(s, ops, i + 1),
            Err(e) => Err(e),
        }
    }
}

/// Lowers the blocks of `blocks` from index `i` on, in layout order.
pub open spec fn lower_blocks(st: LowerState, blocks: Seq<BasicBlock>, i: int) -> Result<LowerState, GeneratorError>
    decreases blocks.len() - i,
{
    if i < 0 || i >= blocks.len() {
        Ok(st)
    } else {
        match lower_ops(st, blocks[i].code@, 0) {
            Ok(s) => lower_blocks(s, blocks, i + 1),
            Err(e) => Err(e),
        }
    }
}

/// Offset of the frame-size constant from the start of a function's code.
pub const FRAME_SIZE_OFFSET: usize = 11;

/// Marks the function's entry label, saves the caller's frame base, starts a new frame
/// and reserves its spill slots; the size of that area is a placeholder, patched once the
/// function's code is lowered.
pub open spec fn prologue(st: LowerState, label: LabelID) -> LowerState {
    LowerState {
        code: st.code + push_reg(Registers::STACK_FRAME_BASE_POINTER) + move_reg(
            Registers::STACK_FRAME_BASE_POINTER,
            Registers::STACK_TOP_POINTER,
        ) + adjust_stack(ByteCodes::INTEGER_SUB, 0),
        labels: st.labels.insert(label.0 as u64, st.code.len() as u64),
        fixups: st.fixups,
        jump_labels: st.jump_labels,
        locs: Seq::empty(),
        regs_used: 0,
        frame: 0,
    }
}

/// `code` with the eight bytes at `at` replaced by the encoding of `v`.
pub open spec fn patch_word(code: Seq<u8>, at: int, v: u64) -> Seq<u8> {
    code.take(at) + le_bytes(v) + code.skip(at + 8)
}

/// Lowers one function graph.
pub open spec fn lower_function(st: LowerState, f: FunctionGraph) -> Result<LowerState, GeneratorError> {
    match lower_blocks(prologue(st, f.label), f.code_blocks@, 0) {
        Ok(s) => Ok(
            LowerState {
                code: patch_word(s.code, st.code.len() + FRAME_SIZE_OFFSET, s.frame),
                ..s
            },
        ),
        Err(e) => Err(e),
    }
}

/// Lowers the function graphs from index `i` on.
pub open spec fn lower_functions(st: LowerState, fs: Seq<FunctionGraph>, i: int) -> Result<LowerState, GeneratorError>
    decreases fs.len() - i,
{
    if i < 0 || i >= fs.len() {
        Ok(st)
    } else {
        match lower_function(st, fs[i]) {
            Ok(s) => lower_functions(s, fs, i + 1),
            Err(e) => Err(e),
        }
    }
}

/// `s` continues `st`: the code only grows, and the placeholders recorded since lie in the
/// new code, in order, without overlapping, each holding the id of its label.
pub open spec fn extends(st: LowerState, s: LowerState) -> bool {
    &&& st.code.len() <= s.code.len()
    &&& s.code.take(st.code.len() as int) == st.code
    &&& st.fixups.len() <= s.fixups.len()
    &&& s.fixups.take(st.fixups.len() as int) == st.fixups
    &&& s.jump_labels.len() - st.jump_labels.len() == s.fixups.len() - st.fixups.len()
    &&& s.jump_labels.take(st.jump_labels.len() as int) == st.jump_labels
    &&& forall|i: int|
        st.fixups.len() <= i < s.fixups.len() ==> st.code.len() <= #[trigger] s.fixups[i]
            && s.fixups[i] + 8 <= s.code.len()
    &&& forall|i: int|
        st.fixups.len() <= i < s.fixups.len() ==> word_at(s.code, #[trigger] s.fixups[i] as int)
            == s.jump_labels[i - st.fixups.len() + st.jump_labels.len()]
    &&& forall|i: int, j: int|
        st.fixups.len() <= i < j < s.fixups.len() ==> #[trigger] s.fixups[i] + 8
            <= #[trigger] s.fixups[j]
}

pub proof fn lemma_extends_refl(st: LowerState)
    ensures
        extends(st, st),
{
    assert(st.code.take(st.code.len() as int) =~= st.code);
    assert(st.fixups.take(st.fixups.len() as int) =~= st.fixups);
    assert(st.jump_labels.take(st.jump_labels.len() as int) =~= st.jump_labels);
}

pub proof fn lemma_extends_trans(a: LowerState, b: LowerState, c: LowerState)
    requires
        extends(a, b),
        extends(b, c),
    ensures
        extends(a, c),
{
    assert(c.code.take(a.code.len() as int) =~= b.code.take(a.code.len() as int));
    assert(c.fixups.take(a.fixups.len() as int) =~= b.fixups.take(a.fixups.len() as int));
    assert(c.jump_labels.take(a.jump_labels.len() as int) =~= b.jump_labels.take(
        a.jump_labels.len() as int,
    ));
    assert forall|i: int|
        a.fixups.len() <= i < c.fixups.len() implies word_at(c.code, #[trigger] c.fixups[i] as int)
        == c.jump_labels[i - a.fixups.len() + a.jump_labels.len()] by {
        if i < b.fixups.len() {
            assert(c.fixups[i] == c.fixups.take(b.fixups.len() as int)[i]);
            let f = c.fixups[i] as int;
            assert(c.code.subrange(f, f + 8) =~= b.code.subrange(f, f + 8)) by {
                assert forall|k: int| f <= k < f + 8 implies c.code[k] == b.code[k] by {
                    assert(c.code[k] == c.code.take(b.code.len() as int)[k]);
                }
            }
            assert(c.jump_labels[i - a.fixups.len() + a.jump_labels.len()] == c.jump_labels.take(
                b.jump_labels.len() as int,
            )[i - a.fixups.len() + a.jump_labels.len()]);
        }
    }
    assert forall|i: int|
        a.fixups.len() <= i < c.fixups.len() implies a.code.len() <= #[trigger] c.fixups[i]
        && c.fixups[i] + 8 <= c.code.len() by {
        if i < b.fixups.len() {
            assert(c.fixups[i] == c.fixups.take(b.fixups.len() as int)[i]);
        }
    }
    assert forall|i: int, j: int|
        a.fixups.len() <= i < j < c.fixups.len() implies #[trigger] c.fixups[i] + 8
        <= #[trigger] c.fixups[j] by {
        if j < b.fixups.len() {
            assert(c.fixups[i] == c.fixups.take(b.fixups.len() as int)[i]);
            assert(c.fixups[j] == c.fixups.take(b.fixups.len() as int)[j]);
        } else if i < b.fixups.len() {
            assert(c.fixups[i] == c.fixups.take(b.fixups.len() as int)[i]);
        }
    }
}

pub proof fn lemma_emit_extends(st: LowerState, x: Seq<u8>)
    ensures
        extends(st, emit(st, x)),
{
    lemma_append_extends(st, emit(st, x));
}

/// A state whose code continues that of `st` and that records no new placeholder extends it.
proof fn lemma_append_extends(st: LowerState, s: LowerState)
    requires
        st.code.len() <= s.code.len(),
        s.code.take(st.code.len() as int) =~= st.code,
        s.fixups == st.fixups,
        s.jump_labels == st.jump_labels,
    ensures
        extends(st, s),
{
    assert(st.fixups.take(st.fixups.len() as int) =~= st.fixups);
    assert(st.jump_labels.take(st.jump_labels.len() as int) =~= st.jump_labels);
}

pub proof fn lemma_emit_jump_extends(st: LowerState, jump: ByteCodes, label: LabelID)
    requires
        st.code.len() + 9 <= usize::MAX,
    ensures
        extends(st, emit_jump(st, jump, label)),
{
    let s = emit_jump(st, jump, label);
    assert(s.code.take(st.code.len() as int) =~= st.code);
    assert(s.fixups.take(st.fixups.len() as int) =~= st.fixups);
    assert(s.jump_labels.take(st.jump_labels.len() as int) =~= st.jump_labels);
    assert(s.fixups[st.fixups.len() as int] == st.code.len() + 1);
    let f = st.code.len() + 1int;
    assert(s.code.subrange(f, f + 8) =~= le_bytes(label.0 as u64));
    lemma_le_round_trip(label.0 as u64);
}

proof fn lemma_place_extends(st: LowerState, t: Tn)
    ensures
        place(st, t) is Ok ==> extends(st, place(st, t)->Ok_0.1),
{
    if place(st, t) is Ok {
        lemma_append_extends(st, place(st, t)->Ok_0.1);
    }
}

proof fn lemma_spill_entry_extends(st: LowerState, i: int)
    requires
        0 <= i < st.locs.len(),
    ensures
        spill_entry(st, i) is Ok ==> extends(st, spill_entry(st, i)->Ok_0) && spill_entry(
            st,
            i,
        )->Ok_0.locs.len() == st.locs.len(),
{
    if spill_entry(st, i) is Ok {
        lemma_append_extends(st, spill_entry(st, i)->Ok_0);
    }
}

proof fn lemma_spill_from_extends(st: LowerState, i: int)
    ensures
        spill_from(st, i) is Ok ==> extends(st, spill_from(st, i)->Ok_0),
    decreases st.locs.len() - i,
{
    if i < 0 || i >= st.locs.len() {
        lemma_extends_refl(st);
    } else {
        lemma_spill_entry_extends(st, i);
        if let Ok(s) = spill_entry(st, i) {
            if s.locs.len() == st.locs.len() {
                lemma_spill_from_extends(s, i + 1);
                if spill_from(s, i + 1) is Ok {
                    lemma_extends_trans(st, s, spill_from(s, i + 1)->Ok_0);
                }
            }
        }
    }
}

proof fn lemma_push_args_extends(st: LowerState, args: Seq<IRValue>, i: int)
    ensures
        push_args(st, args, i) is Ok ==> extends(st, push_args(st, args, i)->Ok_0),
    decreases args.len() - i,
{
    if i < 0 || i >= args.len() {
        lemma_extends_refl(st);
    } else if let Ok(c) = read_value(st, Registers::R1, args[i]) {
        let s = emit(st, c + push_reg(Registers::R1));
        lemma_emit_extends(st, c + push_reg(Registers::R1));
        lemma_push_args_extends(s, args, i + 1);
        if push_args(s, args, i + 1) is Ok {
            lemma_extends_trans(st, s, push_args(s, args, i + 1)->Ok_0);
        }
    }
}

proof fn lemma_call_extends(st: LowerState, return_target: Option<Tn>, function: LabelID, args: Seq<IRValue>)
    requires
        lower_call_spec(st, return_target, function, args) is Ok,
        lower_call_spec(st, return_target, function, args)->Ok_0.code.len() <= usize::MAX,
    ensures
        extends(st, lower_call_spec(st, return_target, function, args)->Ok_0),
{
    let out = lower_call_spec(st, return_target, function, args)->Ok_0;
    lemma_spill_from_extends(st, 0);
    let s1 = spill_from(st, 0)->Ok_0;
    let s1r = LowerState { regs_used: 0, ..s1 };
    lemma_append_extends(s1, s1r);
    lemma_extends_trans(st, s1, s1r);
    lemma_push_args_extends(s1r, args, 0);
    let s2 = push_args(s1r, args, 0)->Ok_0;
    lemma_extends_trans(st, s1r, s2);
    let s3 = emit_jump(s2, ByteCodes::CALL, function);
    let s4 = match return_target {
        Some(t) => place(s3, t)->Ok_0.1,
        None => s3,
    };
    let tail = out.code.skip(s4.code.len() as int);
    assert(out.code =~= s4.code + tail);
    assert(s4.code == s3.code);
    lemma_emit_jump_extends(s2, ByteCodes::CALL, function);
    lemma_extends_trans(st, s2, s3);
    lemma_append_extends(s3, out);
    lemma_extends_trans(st, s3, out);
}

/// Lowering an operator only appends code and placeholders.
#[verifier::spinoff_prover]
#[verifier::rlimit(100)]
pub proof fn lemma_lower_op_extends(st: LowerState, op: IROperator)
    requires
        lower_op(st, op) is Ok ==> lower_op(st, op)->Ok_0.code.len() <= usize::MAX,
    ensures
        lower_op(st, op) is Ok ==> extends(st, lower_op(st, op)->Ok_0),
{
    reveal(lower_op);
    if lower_op(st, op) is Ok {
        let out = lower_op(st, op)->Ok_0;
        match op {
            IROperator::Binary { target, .. } | IROperator::Compare { target, .. } | IROperator::BitNot {
                target,
                ..
            } | IROperator::Assign { target, .. } | IROperator::Deref { target, .. } => {
                let s = place(st, target)->Ok_0.1;
                assert(out.code =~= s.code + out.code.skip(s.code.len() as int));
                lemma_append_extends(st, out);
            },
            IROperator::DerefAssign { .. } | IROperator::Return { .. } | IROperator::PushScope { .. }
            | IROperator::PopScope { .. } | IROperator::Nop | IROperator::Label { .. } => {
                assert(out.code =~= st.code + out.code.skip(st.code.len() as int));
                lemma_append_extends(st, out);
            },
            IROperator::Ref { target, source } => {
                let i = loc_index(st.locs, source.id.0 as u64);
                lemma_loc_index(st.locs, source.id.0 as u64);
                let s1 = spill_entry(st, i)->Ok_0;
                assert(s1.code.take(st.code.len() as int) =~= st.code);
                let s2 = place(s1, target)->Ok_0.1;
                assert(out.code =~= s2.code + out.code.skip(s2.code.len() as int));
                lemma_append_extends(st, out);
            },
            IROperator::Jump { target } => {
                lemma_emit_jump_extends(st, ByteCodes::JUMP, target);
            },
            IROperator::JumpIf { condition, target } | IROperator::JumpIfNot { condition, target } => {
                let c = read_value(st, Registers::R1, condition)->Ok_0;
                let s = emit(st, c + set_const(Registers::R2, 0) + compare_regs());
                lemma_emit_extends(st, c + set_const(Registers::R2, 0) + compare_regs());
                lemma_emit_jump_extends(s, ByteCodes::JUMP_NOT_ZERO, target);
                lemma_emit_jump_extends(s, ByteCodes::JUMP_ZERO, target);
                lemma_extends_trans(st, s, out);
            },
            IROperator::Call { return_target, function, args } => {
                lemma_call_extends(st, return_target, function, args@);
            },
        }
    }
}

/// Patching a word that lies after `st`'s code and before every placeholder recorded since
/// keeps the extension.
proof fn lemma_patch_extends(st: LowerState, s: LowerState, at: int, v: u64)
    requires
        extends(st, s),
        st.code.len() <= at,
        at + 8 <= s.code.len(),
        forall|i: int| st.fixups.len() <= i < s.fixups.len() ==> at + 8 <= #[trigger] s.fixups[i],
    ensures
        extends(st, LowerState { code: patch_word(s.code, at, v), ..s }),
        patch_word(s.code, at, v).len() == s.code.len(),
{
    let p = LowerState { code: patch_word(s.code, at, v), ..s };
    assert(p.code.len() == s.code.len());
    assert(p.code.take(st.code.len() as int) =~= s.code.take(st.code.len() as int));
    assert forall|i: int|
        st.fixups.len() <= i < p.fixups.len() implies word_at(p.code, #[trigger] p.fixups[i] as int)
        == p.jump_labels[i - st.fixups.len() + st.jump_labels.len()] by {
        let f = p.fixups[i] as int;
        assert(p.code.subrange(f, f + 8) =~= s.code.subrange(f, f + 8));
    }
}

/// The lowering state of one function graph at a time, and the code produced so far.
struct Lowering {
    code: Vec<u8>,
    labels: HashMap<u64, u64>,
    fixups: Vec<usize>,
    jump_labels: Ghost<Seq<u64>>,
    locs: Vec<(u64, TnLocation)>,
    regs_used: usize,
    frame: u64,
}

impl View for Lowering {
    type V = LowerState;

    closed spec fn view(&self) -> LowerState {
        LowerState {
            code: self.code@,
            labels: self.labels@,
            fixups: self.fixups@,
            jump_labels: self.jump_labels@,
            locs: self.locs@,
            regs_used: self.regs_used as nat,
            frame: self.frame,
        }
    }
}

impl Lowering {
    fn emit_op(&mut self, b: ByteCodes)
        ensures
            final(self)@ == emit(old(self)@, op1(b)),
    {
        self.code.push(b.code());
        assert(self.code@ =~= old(self).code@ + op1(b));
    }

    fn emit_bytes3(&mut self, a: u8, b: u8, c: u8)
        ensures
            final(self)@ == emit(old(self)@, seq![a, b, c]),
    {
        self.code.push(a);
        self.code.push(b);
        self.code.push(c);
        assert(self.code@ =~= old(self).code@ + seq![a, b, c]);
    }

    fn emit_move_reg(&mut self, dst: Registers, src: Registers)
        ensures
            final(self)@ == emit(old(self)@, move_reg(dst, src)),
    {
        self.emit_bytes3(ByteCodes::MOVE_INTO_REG_FROM_REG.code(), dst.code(), src.code());
    }

    fn emit_set_const(&mut self, dst: Registers, v: u64)
        ensures
            final(self)@ == emit(old(self)@, set_const(dst, v)),
    {
        self.emit_bytes3(ByteCodes::MOVE_INTO_REG_FROM_CONST.code(), 8, dst.code());
        push_word(&mut self.code, v);
        assert(self.code@ =~= old(self).code@ + set_const(dst, v));
    }

    fn emit_push(&mut self, r: Registers)
        ensures
            final(self)@ == emit(old(self)@, push_reg(r)),
    {
        self.code.push(ByteCodes::PUSH_FROM_REG.code());
        self.code.push(r.code());
        assert(self.code@ =~= old(self).code@ + push_reg(r));
    }

    fn emit_pop(&mut self, r: Registers)
        ensures
            final(self)@ == emit(old(self)@, pop_reg(r)),
    {
        self.code.push(ByteCodes::POP_INTO_REG.code());
        self.code.push(r.code());
        assert(self.code@ =~= old(self).code@ + pop_reg(r));
    }

    fn emit_compare_regs(&mut self)
        ensures
            final(self)@ == emit(old(self)@, compare_regs()),
    {
        self.emit_bytes3(ByteCodes::COMPARE_REG_REG.code(), Registers::R1.code(), Registers::R2.code());
    }

    fn emit_indirect(&mut self, b: ByteCodes, x: Registers, y: Registers)
        ensures
            final(self)@ == emit(old(self)@, seq![b.spec_code(), 8u8, x.spec_code(), y.spec_code()]),
    {
        self.code.push(b.code());
        self.code.push(8);
        self.code.push(x.code());
        self.code.push(y.code());
        assert(self.code@ =~= old(self).code@ + seq![b.spec_code(), 8u8, x.spec_code(), y.spec_code()]);
    }

    fn emit_slot_address(&mut self, offset: u64)
        ensures
            final(self)@ == emit(old(self)@, slot_address(offset)),
    {
        self.emit_push(Registers::R1);
        self.emit_push(Registers::R2);
        self.emit_move_reg(Registers::R1, Registers::STACK_FRAME_BASE_POINTER);
        self.emit_set_const(Registers::R2, offset);
        self.emit_op(ByteCodes::INTEGER_SUB);
        self.emit_move_reg(Registers::R8, Registers::R1);
        self.emit_pop(Registers::R2);
        self.emit_pop(Registers::R1);
        assert(self.code@ =~= old(self).code@ + slot_address(offset));
    }

    fn emit_load(&mut self, dst: Registers, loc: TnLocation)
        ensures
            final(self)@ == emit(old(self)@, load(dst, loc)),
    {
        match loc {
            TnLocation::Register(r) => self.emit_move_reg(dst, r),
            TnLocation::Stack(off) => {
                self.emit_slot_address(off);
                self.emit_indirect(ByteCodes::MOVE_INTO_REG_FROM_ADDR_IN_REG, dst, Registers::R8);
                assert(self.code@ =~= old(self).code@ + load(dst, loc));
            },
        }
    }

    fn emit_store(&mut self, loc: TnLocation, src: Registers)
        ensures
            final(self)@ == emit(old(self)@, store(loc, src)),
    {
        match loc {
            TnLocation::Register(r) => self.emit_move_reg(r, src),
            TnLocation::Stack(off) => {
                self.emit_slot_address(off);
                self.emit_indirect(ByteCodes::MOVE_INTO_ADDR_IN_REG_FROM_REG, Registers::R8, src);
                assert(self.code@ =~= old(self).code@ + store(loc, src));
            },
        }
    }

    fn emit_adjust_stack(&mut self, op: ByteCodes, bytes: u64)
        ensures
            final(self)@ == emit(old(self)@, adjust_stack(op, bytes)),
    {
        self.emit_move_reg(Registers::R1, Registers::STACK_TOP_POINTER);
        self.emit_set_const(Registers::R2, bytes);
        self.emit_op(op);
        self.emit_move_reg(Registers::STACK_TOP_POINTER, Registers::R1);
        assert(self.code@ =~= old(self).code@ + adjust_stack(op, bytes));
    }
}

proof fn lemma_loc_index(locs: Seq<(u64, TnLocation)>, id: u64)
    ensures
        -1 <= loc_index(locs, id) < locs.len(),
        loc_index(locs, id) >= 0 ==> locs[loc_index(locs, id)].0 == id,
    decreases locs.len(),
{
    if locs.len() > 0 {
        lemma_loc_index(locs.drop_last(), id);
    }
}

proof fn lemma_read_len(st: LowerState, dst: Registers, v: IRValue)
    ensures
        read_value(st, dst, v) is Ok ==> read_value(st, dst, v)->Ok_0.len() <= 30,
{
    lemma_loc_index(st.locs, match v {
        IRValue::Tn(t) => t.id.0 as u64,
        IRValue::Const(_) => 0,
    });
}

fn tn_register_at(i: usize) -> (r: Registers)
    ensures
        r == tn_register(i as nat),
{
    if i == 0 {
        Registers::R3
    } else if i == 1 {
        Registers::R4
    } else if i == 2 {
        Registers::R5
    } else if i == 3 {
        Registers::R6
    } else {
        Registers::R7
    }
}

impl Lowering {
    /// Index of the last entry for temporary `id`.
    fn find(&self, id: u64) -> (r: Option<usize>)
        ensures
            r is None ==> loc_index(self@.locs, id) < 0,
            r is Some ==> r->0 == loc_index(self@.locs, id) && r->0 < self@.locs.len(),
    {
        let mut n = self.locs.len();
        assert(self.locs@.take(n as int) =~= self.locs@);
        while n > 0
            invariant
                n <= self.locs@.len(),
                loc_index(self.locs@, id) == loc_index(self.locs@.take(n as int), id),
            decreases n,
        {
            assert(self.locs@.take(n as int).drop_last() =~= self.locs@.take(n - 1));
            if self.locs[n - 1].0 == id {
                return Some(n - 1);
            }
            n -= 1;
        }
        None
    }

    /// Emits the code that loads operand `v` into `dst`.
    fn read_value(&mut self, dst: Registers, v: IRValue) -> (r: Result<(), GeneratorError>)
        ensures
            match read_value(old(self)@, dst, v) {
                Ok(c) => r is Ok && final(self)@ == emit(old(self)@, c),
                Err(e) => r == Err::<(), GeneratorError>(e),
            },
    {
        match v {
            IRValue::Const(c) => {
                self.emit_set_const(dst, c);
                Ok(())
            },
            IRValue::Tn(t) => match self.find(t.id.0 as u64) {
                None => Err(GeneratorError::UndefinedTemporary { tn: t.id.0 as u64 }),
                Some(i) => {
                    let loc = self.locs[i].1;
                    self.emit_load(dst, loc);
                    Ok(())
                },
            },
        }
    }

    /// The location of `t`, giving it one if it has none.
    fn place(&mut self, t: Tn) -> (r: Result<TnLocation, GeneratorError>)
        ensures
            match place(old(self)@, t) {
                Ok((loc, s)) => r == Ok::<TnLocation, GeneratorError>(loc) && final(self)@ == s,
                Err(e) => r == Err::<TnLocation, GeneratorError>(e),
            },
    {
        let id = t.id.0 as u64;
        match self.find(id) {
            Some(i) => Ok(self.locs[i].1),
            None => {
                if self.regs_used < TN_REGISTER_COUNT {
                    let loc = TnLocation::Register(tn_register_at(self.regs_used));
                    self.locs.push((id, loc));
                    self.regs_used = self.regs_used + 1;
                    Ok(loc)
                } else if self.frame < IMAGE_LIMIT {
                    self.frame = self.frame + 8;
                    let loc = TnLocation::Stack(self.frame);
                    self.locs.push((id, loc));
                    Ok(loc)
                } else {
                    Err(GeneratorError::ImageTooLarge)
                }
            },
        }
    }

    /// Moves the temporary of entry `i`, if it is in a register, to a new stack slot.
    fn spill_entry(&mut self, i: usize) -> (r: Result<(), GeneratorError>)
        requires
            i < old(self)@.locs.len(),
        ensures
            match spill_entry(old(self)@, i as int) {
                Ok(s) => r is Ok && final(self)@ == s,
                Err(e) => r == Err::<(), GeneratorError>(e),
            },
    {
        let (id, loc) = self.locs[i];
        match loc {
            TnLocation::Register(reg) => {
                if self.frame < IMAGE_LIMIT {
                    let off = self.frame + 8;
                    self.emit_slot_address(off);
                    self.emit_indirect(ByteCodes::MOVE_INTO_ADDR_IN_REG_FROM_REG, Registers::R8, reg);
                    self.locs.set(i, (id, TnLocation::Stack(off)));
                    self.frame = off;
                    assert(self.code@ =~= old(self).code@ + slot_address(off) + store_indirect(reg));
                    Ok(())
                } else {
                    Err(GeneratorError::ImageTooLarge)
                }
            },
            TnLocation::Stack(_) => Ok(()),
        }
    }

    /// Emits a jump-family opcode and a placeholder holding `label`'s id.
    fn emit_jump(&mut self, jump: ByteCodes, label: LabelID)
        ensures
            final(self)@ == emit_jump(old(self)@, jump, label),
    {
        self.code.push(jump.code());
        self.fixups.push(self.code.len());
        self.jump_labels = Ghost(self.jump_labels@.push(label.0 as u64));
        push_word(&mut self.code, label.0 as u64);
        assert(self.code@ =~= old(self).code@ + op1(jump) + le_bytes(label.0 as u64));
    }
}

proof fn lemma_emit_emit(st: LowerState, x: Seq<u8>, y: Seq<u8>)
    ensures
        emit(emit(st, x), y) == emit(st, x + y),
{
    assert(st.code + x + y =~= st.code + (x + y));
}

proof fn lemma_place_after_emit(st: LowerState, x: Seq<u8>, t: Tn)
    ensures
        match place(st, t) {
            Ok((loc, s)) => place(emit(st, x), t) == Ok::<(TnLocation, LowerState), GeneratorError>(
                (loc, emit(s, x)),
            ),
            Err(e) => place(emit(st, x), t) == Err::<(TnLocation, LowerState), GeneratorError>(e),
        },
{
}

fn binary_code_exec(op: BinaryOp, float: bool) -> (r: ByteCodes)
    ensures
        r == binary_code(op, float),
{
    match op {
        BinaryOp::Add => if float {
            ByteCodes::FLOAT_ADD
        } else {
            ByteCodes::INTEGER_ADD
        },
        BinaryOp::Sub => if float {
            ByteCodes::FLOAT_SUB
        } else {
            ByteCodes::INTEGER_SUB
        },
        BinaryOp::Mul => if float {
            ByteCodes::FLOAT_MUL
        } else {
            ByteCodes::INTEGER_MUL
        },
        BinaryOp::Div => if float {
            ByteCodes::FLOAT_DIV
        } else {
            ByteCodes::INTEGER_DIV
        },
        BinaryOp::Mod => if float {
            ByteCodes::FLOAT_MOD
        } else {
            ByteCodes::INTEGER_MOD
        },
        BinaryOp::BitAnd => ByteCodes::AND,
        BinaryOp::BitOr => ByteCodes::OR,
        BinaryOp::BitXor => ByteCodes::XOR,
        BinaryOp::BitShiftLeft => ByteCodes::SHIFT_LEFT,
        BinaryOp::BitShiftRight => ByteCodes::SHIFT_RIGHT,
    }
}

fn compare_jump_exec(op: CompareOp) -> (r: ByteCodes)
    ensures
        r == compare_jump(op),
{
    match op {
        CompareOp::Greater => ByteCodes::JUMP_GREATER,
        CompareOp::Less => ByteCodes::JUMP_LESS,
        CompareOp::GreaterEqual => ByteCodes::JUMP_GREATER_OR_EQUAL,
        CompareOp::LessEqual => ByteCodes::JUMP_LESS_OR_EQUAL,
        CompareOp::Equal => ByteCodes::JUMP_ZERO,
        CompareOp::NotEqual => ByteCodes::JUMP_NOT_ZERO,
    }
}

impl Lowering {
    /// Lowers a binary operator: operands in `R1` and `R2`, result from `R1` to the target.
    fn lower_binary(&mut self, op: BinaryOp, target: Tn, left: IRValue, right: IRValue) -> (r: Result<(), GeneratorError>)
        ensures
            match lower_binary_spec(old(self)@, op, target, left, right) {
                Ok(s) => r is Ok && final(self)@ == s,
                Err(e) => r == Err::<(), GeneratorError>(e),
            },
    {
        let ghost st = self@;
        self.read_value(Registers::R1, left)?;
        let ghost l = read_value(st, Registers::R1, left)->Ok_0;
        self.read_value(Registers::R2, right)?;
        let ghost r = read_value(st, Registers::R2, right)->Ok_0;
        proof {
            lemma_emit_emit(st, l, r);
            lemma_place_after_emit(st, l + r, target);
        }
        let loc = self.place(target)?;
        self.emit_op(binary_code_exec(op, target.is_float));
        self.emit_store(loc, Registers::R1);
        proof {
            let s = place(st, target)->Ok_0.1;
            assert(self@.code =~= s.code + (l + r + op1(binary_code(op, target.is_float)) + store(
                loc,
                Registers::R1,
            )));
        }
        Ok(())
    }

    fn emit_word(&mut self, v: u64)
        ensures
            final(self)@ == emit(old(self)@, le_bytes(v)),
    {
        push_word(&mut self.code, v);
    }

    /// Lowers a comparison: its result, 1 or 0, is chosen by a conditional jump.
    #[verifier::spinoff_prover]
    #[verifier::rlimit(100)]
    fn lower_compare(&mut self, op: CompareOp, target: Tn, left: IRValue, right: IRValue) -> (r: Result<(), GeneratorError>)
        ensures
            match lower_compare_spec(old(self)@, op, target, left, right) {
                Ok(s) => r is Ok && final(self)@ == s,
                Err(e) => r == Err::<(), GeneratorError>(e),
            },
    {
        let ghost st = self@;
        let start = self.code.len();
        self.read_value(Registers::R1, left)?;
        let ghost l = read_value(st, Registers::R1, left)->Ok_0;
        self.read_value(Registers::R2, right)?;
        let ghost r = read_value(st, Registers::R2, right)->Ok_0;
        if start as u64 >= IMAGE_LIMIT {
            return Err(GeneratorError::ImageTooLarge);
        }
        proof {
            lemma_read_len(st, Registers::R1, left);
            lemma_read_len(st, Registers::R2, right);
            lemma_emit_emit(st, l, r);
            lemma_place_after_emit(st, l + r, target);
        }
        let loc = self.place(target)?;
        let if_true = self.code.len() as u64 + 32;
        self.emit_compare_regs();
        self.emit_op(compare_jump_exec(op));
        self.emit_word(if_true);
        self.emit_set_const(Registers::R1, 0);
        self.emit_op(ByteCodes::JUMP);
        self.emit_word(if_true + 11);
        self.emit_set_const(Registers::R1, 1);
        self.emit_store(loc, Registers::R1);
        proof {
            let s = place(st, target)->Ok_0.1;
            assert(self@.code =~= s.code + (l + r + compare_regs() + op1(compare_jump(op)) + le_bytes(
                if_true,
            ) + set_const(Registers::R1, 0) + op1(ByteCodes::JUMP) + le_bytes((if_true + 11) as u64)
                + set_const(Registers::R1, 1) + store(loc, Registers::R1)));
        }
        Ok(())
    }

    /// Lowers the operators that read one operand into `R1`: `BitNot`, `Assign` and `Deref`.
    fn lower_unary(&mut self, op: &IROperator) -> (r: Result<(), GeneratorError>)
        requires
            op is BitNot || op is Assign || op is Deref,
        ensures
            match lower_unary_spec(
                old(self)@,
                *op,
                match *op {
                    IROperator::BitNot { target, .. } => target,
                    IROperator::Assign { target, .. } => target,
                    IROperator::Deref { target, .. } => target,
                    _ => Tn { id: crate::ir::TnID(0), is_float: false },
                },
                match *op {
                    IROperator::BitNot { operand, .. } => operand,
                    IROperator::Assign { source, .. } => source,
                    IROperator::Deref { pointer, .. } => pointer,
                    _ => IRValue::Const(0),
                },
            ) {
                Ok(s) => r is Ok && final(self)@ == s,
                Err(e) => r == Err::<(), GeneratorError>(e),
            },
    {
        let ghost st = self@;
        let ghost operator = *op;
        let (target, operand) = match op {
            IROperator::BitNot { target, operand } => (*target, *operand),
            IROperator::Assign { target, source } => (*target, *source),
            IROperator::Deref { target, pointer } => (*target, *pointer),
            _ => {
                return Ok(());
            },
        };
        self.read_value(Registers::R1, operand)?;
        let ghost l = read_value(st, Registers::R1, operand)->Ok_0;
        proof {
            lemma_place_after_emit(st, l, target);
        }
        let loc = self.place(target)?;
        let ghost mid = self@;
        match op {
            IROperator::BitNot { .. } => {
                self.emit_op(ByteCodes::NOT);
            },
            IROperator::Deref { .. } => {
                self.emit_move_reg(Registers::R8, Registers::R1);
                self.emit_indirect(ByteCodes::MOVE_INTO_REG_FROM_ADDR_IN_REG, Registers::R1, Registers::R8);
            },
            _ => {},
        }
        let ghost middle = self@.code.skip(mid.code.len() as int);
        assert(self@.code =~= mid.code + middle);
        self.emit_store(loc, Registers::R1);
        proof {
            let s = place(st, target)->Ok_0.1;
            assert(self@.code =~= s.code + (l + middle + store(loc, Registers::R1)));
            assert(middle =~= unary_body(operator));
        }
        Ok(())
    }

    /// Lowers `*pointer = source`.
    fn lower_deref_assign(&mut self, pointer: IRValue, source: IRValue) -> (r: Result<(), GeneratorError>)
        ensures
            match lower_deref_assign_spec(old(self)@, pointer, source) {
                Ok(s) => r is Ok && final(self)@ == s,
                Err(e) => r == Err::<(), GeneratorError>(e),
            },
    {
        let ghost st = self@;
        self.read_value(Registers::R2, pointer)?;
        let ghost p = read_value(st, Registers::R2, pointer)->Ok_0;
        self.read_value(Registers::R1, source)?;
        let ghost v = read_value(st, Registers::R1, source)->Ok_0;
        self.emit_move_reg(Registers::R8, Registers::R2);
        self.emit_indirect(ByteCodes::MOVE_INTO_ADDR_IN_REG_FROM_REG, Registers::R8, Registers::R1);
        assert(self@.code =~= st.code + (p + v + move_reg(Registers::R8, Registers::R2)
            + store_indirect(Registers::R1)));
        Ok(())
    }

    /// Lowers `target = &source`; a source held in a register moves to a stack slot first.
    fn lower_ref(&mut self, target: Tn, source: Tn) -> (r: Result<(), GeneratorError>)
        ensures
            match lower_ref_spec(old(self)@, target, source) {
                Ok(s) => r is Ok && final(self)@ == s,
                Err(e) => r == Err::<(), GeneratorError>(e),
            },
    {
        let i = match self.find(source.id.0 as u64) {
            Some(i) => i,
            None => {
                return Err(GeneratorError::UndefinedTemporary { tn: source.id.0 as u64 });
            },
        };
        self.spill_entry(i)?;
        let ghost s1 = self@;
        match self.locs[i].1 {
            TnLocation::Stack(off) => {
                let loc = self.place(target)?;
                let ghost s2 = self@;
                self.emit_slot_address(off);
                self.emit_move_reg(Registers::R1, Registers::R8);
                self.emit_store(loc, Registers::R1);
                assert(self@.code =~= s2.code + (slot_address(off) + move_reg(
                    Registers::R1,
                    Registers::R8,
                ) + store(loc, Registers::R1)));
                Ok(())
            },
            TnLocation::Register(_) => Ok(()),
        }
    }

    /// Lowers a call: temporaries held in registers move to the stack, the arguments are
    /// pushed left to right, and after the call the result is taken from `R1` and the
    /// arguments are popped.
    fn lower_call(&mut self, return_target: Option<Tn>, function: LabelID, args: &Vec<IRValue>) -> (r: Result<(), GeneratorError>)
        ensures
            match lower_call_spec(old(self)@, return_target, function, args@) {
                Ok(s) => r is Ok && final(self)@ == s,
                Err(e) => r == Err::<(), GeneratorError>(e),
            },
    {
        let ghost st = self@;
        let mut i: usize = 0;
        while i < self.locs.len()
            invariant
                i <= self@.locs.len(),
                self@.locs.len() == st.locs.len(),
                st == old(self)@,
                spill_from(self@, i as int) == spill_from(st, 0),
            decreases self@.locs.len() - i,
        {
            let ghost before = self@;
            let step = self.spill_entry(i);
            if let Err(e) = step {
                assert(spill_from(before, i as int) == Err::<LowerState, GeneratorError>(e));
                return Err(e);
            }
            i += 1;
        }
        assert(spill_from(self@, i as int) == Ok::<LowerState, GeneratorError>(self@));
        self.regs_used = 0;
        let ghost s1 = self@;
        let mut k: usize = 0;
        while k < args.len()
            invariant
                k <= args@.len(),
                st == old(self)@,
                spill_from(st, 0) is Ok,
                s1 == (LowerState { regs_used: 0, ..spill_from(st, 0)->Ok_0 }),
                push_args(self@, args@, k as int) == push_args(s1, args@, 0),
            decreases args@.len() - k,
        {
            let ghost before = self@;
            let step = self.read_value(Registers::R1, args[k]);
            if let Err(e) = step {
                assert(push_args(before, args@, k as int) == Err::<LowerState, GeneratorError>(e));
                return Err(e);
            }
            self.emit_push(Registers::R1);
            proof {
                let c = read_value(before, Registers::R1, args@[k as int])->Ok_0;
                lemma_emit_emit(before, c, push_reg(Registers::R1));
            }
            k += 1;
        }
        self.emit_jump(ByteCodes::CALL, function);
        let ghost s3 = self@;
        match return_target {
            Some(t) => {
                let loc = self.place(t)?;
                self.emit_store(loc, Registers::R1);
            },
            None => {},
        }
        let ghost s4 = self@;
        let mut j: usize = 0;
        while j < args.len()
            invariant
                j <= args@.len(),
                self@ == emit(s4, pop_args(j as nat)),
            decreases args@.len() - j,
        {
            self.emit_pop(Registers::R2);
            proof {
                lemma_emit_emit(s4, pop_args(j as nat), pop_reg(Registers::R2));
            }
            j += 1;
        }
        proof {
            match return_target {
                Some(t) => {
                    lemma_emit_emit(place(s3, t)->Ok_0.1, store(place(s3, t)->Ok_0.0, Registers::R1), pop_args(args@.len()));
                },
                None => {
                    assert(s4 == s3);
                },
            }
        }
        Ok(())
    }

    /// Lowers one operator.
    #[verifier::spinoff_prover]
    #[verifier::rlimit(100)]
    fn lower_op(&mut self, op: &IROperator) -> (r: Result<(), GeneratorError>)
        ensures
            match lower_op(old(self)@, *op) {
                Ok(s) => r is Ok && final(self)@ == s,
                Err(e) => r == Err::<(), GeneratorError>(e),
            },
    {
        reveal(lower_op);
        match op {
            IROperator::Binary { op, target, left, right } => self.lower_binary(*op, *target, *left, *right),
            IROperator::Compare { op, target, left, right } => self.lower_compare(*op, *target, *left, *right),
            IROperator::BitNot { .. } | IROperator::Assign { .. } | IROperator::Deref { .. } => self.lower_unary(op),
            IROperator::DerefAssign { pointer, source } => self.lower_deref_assign(*pointer, *source),
            IROperator::Ref { target, source } => self.lower_ref(*target, *source),
            IROperator::Jump { target } => {
                self.emit_jump(ByteCodes::JUMP, *target);
                Ok(())
            },
            IROperator::JumpIf { condition, target } | IROperator::JumpIfNot { condition, target } => {
                let ghost st = self@;
                self.read_value(Registers::R1, *condition)?;
                let ghost c = read_value(st, Registers::R1, *condition)->Ok_0;
                self.emit_set_const(Registers::R2, 0);
                self.emit_compare_regs();
                assert(self@ == emit(st, c + set_const(Registers::R2, 0) + compare_regs())) by {
                    assert(self@.code =~= st.code + (c + set_const(Registers::R2, 0) + compare_regs()));
                }
                let jump = if matches!(op, IROperator::JumpIf { .. }) {
                    ByteCodes::JUMP_NOT_ZERO
                } else {
                    ByteCodes::JUMP_ZERO
                };
                self.emit_jump(jump, *target);
                Ok(())
            },
            IROperator::Label { label } => {
                self.labels.insert(label.0 as u64, self.code.len() as u64);
                Ok(())
            },
            IROperator::Call { return_target, function, args } => self.lower_call(*return_target, *function, args),
            IROperator::Return { value } => {
                let ghost st = self@;
                match value {
                    Some(v) => {
                        self.read_value(Registers::R1, *v)?;
                    },
                    None => {},
                }
                let ghost mid = self@;
                self.emit_move_reg(Registers::STACK_TOP_POINTER, Registers::STACK_FRAME_BASE_POINTER);
                self.emit_pop(Registers::STACK_FRAME_BASE_POINTER);
                self.emit_op(ByteCodes::RETURN);
                assert(self@.code =~= mid.code + epilogue());
                proof {
                    if let Some(v) = *value {
                        lemma_emit_emit(st, read_value(st, Registers::R1, v)->Ok_0, epilogue());
                    }
                }
                Ok(())
            },
            IROperator::PushScope { bytes } => {
                self.emit_adjust_stack(ByteCodes::INTEGER_SUB, *bytes);
                Ok(())
            },
            IROperator::PopScope { bytes } => {
                self.emit_adjust_stack(ByteCodes::INTEGER_ADD, *bytes);
                Ok(())
            },
            IROperator::Nop => {
                self.emit_op(ByteCodes::NO_OPERATION);
                Ok(())
            },
        }
    }

    /// Lowers a function graph: its entry label, prologue and blocks, then the size of its
    /// spill area into the prologue.
    fn lower_function(&mut self, f: &FunctionGraph) -> (r: Result<(), GeneratorError>)
        ensures
            match lower_function(old(self)@, *f) {
                Ok(s) => r is Ok && final(self)@ == s && extends(old(self)@, s),
                Err(e) => r == Err::<(), GeneratorError>(e),
            },
    {
        let start = self.code.len();
        self.labels.insert(f.label.0 as u64, start as u64);
        self.locs = Vec::new();
        self.regs_used = 0;
        self.frame = 0;
        self.emit_push(Registers::STACK_FRAME_BASE_POINTER);
        self.emit_move_reg(Registers::STACK_FRAME_BASE_POINTER, Registers::STACK_TOP_POINTER);
        self.emit_adjust_stack(ByteCodes::INTEGER_SUB, 0);
        let ghost st0 = self@;
        assert(st0 == prologue(old(self)@, f.label)) by {
            assert(st0.code =~= prologue(old(self)@, f.label).code);
        }
        proof {
            lemma_extends_refl(st0);
        }
        let mut b: usize = 0;
        while b < f.code_blocks.len()
            invariant
                b <= f.code_blocks@.len(),
                lower_blocks(self@, f.code_blocks@, b as int) == lower_blocks(st0, f.code_blocks@, 0),
                start + FRAME_SIZE_OFFSET + 8 <= st0.code.len() <= self@.code.len(),
                start == old(self)@.code.len(),
                st0 == prologue(old(self)@, f.label),
                extends(st0, self@),
            decreases f.code_blocks@.len() - b,
        {
            let block = &f.code_blocks[b];
            let ghost sb = self@;
            let mut k: usize = 0;
            while k < block.code.len()
                invariant
                    k <= block.code@.len(),
                    lower_ops(self@, block.code@, k as int) == lower_ops(sb, block.code@, 0),
                    sb.code.len() <= self@.code.len(),
                    b < f.code_blocks@.len(),
                    *block == f.code_blocks@[b as int],
                    lower_blocks(sb, f.code_blocks@, b as int) == lower_blocks(st0, f.code_blocks@, 0),
                    start + FRAME_SIZE_OFFSET + 8 <= st0.code.len() <= sb.code.len(),
                    start == old(self)@.code.len(),
                    st0 == prologue(old(self)@, f.label),
                    extends(st0, self@),
                decreases block.code@.len() - k,
            {
                let ghost before = self@;
                let step = self.lower_op(&block.code[k]);
                if let Err(e) = step {
                    assert(lower_ops(before, block.code@, k as int) == Err::<LowerState, GeneratorError>(e));
                    assert(lower_blocks(sb, f.code_blocks@, b as int) == Err::<LowerState, GeneratorError>(e));
                    return Err(e);
                }
                proof {
                    assert(self@.code.len() <= usize::MAX) by {
                        assert(self.code@.len() == self.code.len());
                    }
                    lemma_lower_op_extends(before, block.code@[k as int]);
                    lemma_extends_trans(st0, before, self@);
                }
                k += 1;
            }
            assert(lower_ops(self@, block.code@, k as int) == Ok::<LowerState, GeneratorError>(self@));
            b += 1;
        }
        let ghost done = self@;
        assert(lower_blocks(self@, f.code_blocks@, b as int) == Ok::<LowerState, GeneratorError>(self@));
        assert(self.code@.len() == self.code.len());
        write_word(&mut self.code, start + FRAME_SIZE_OFFSET, self.frame);
        assert(self@.code =~= patch_word(done.code, start + FRAME_SIZE_OFFSET, done.frame));
        proof {
            let st = old(self)@;
            lemma_append_extends(st, st0);
            lemma_extends_trans(st, st0, done);
            lemma_patch_extends(st, done, start + FRAME_SIZE_OFFSET, done.frame);
        }
        Ok(())
    }
}

/// Lowers every function graph, in order, into the code section.
fn generate_text_section(function_graphs: &Vec<FunctionGraph>, lowering: &mut Lowering) -> (r: Result<(), GeneratorError>)
    ensures
        match lower_functions(old(lowering)@, function_graphs@, 0) {
            Ok(s) => r is Ok && final(lowering)@ == s && extends(old(lowering)@, s),
            Err(e) => r == Err::<(), GeneratorError>(e),
        },
{
    let ghost st = lowering@;
    proof {
        lemma_extends_refl(st);
    }
    let mut i: usize = 0;
    while i < function_graphs.len()
        invariant
            i <= function_graphs@.len(),
            st == old(lowering)@,
            lower_functions(lowering@, function_graphs@, i as int) == lower_functions(
                st,
                function_graphs@,
                0,
            ),
            extends(st, lowering@),
        decreases function_graphs@.len() - i,
    {
        let ghost before = lowering@;
        let step = lowering.lower_function(&function_graphs[i]);
        if let Err(e) = step {
            assert(lower_functions(before, function_graphs@, i as int) == Err::<
                LowerState,
                GeneratorError,
            >(e));
            return Err(e);
        }
        proof {
            lemma_extends_trans(st, before, lowering@);
        }
        i += 1;
    }
    Ok(())
}

/// A bytecode image: the static data, then the code, and the address where execution
/// starts.
pub struct ByteCodeImage {
    pub bytes: Vec<u8>,
    pub entry_point: u64,
}

/// The lowering state right after the static section.
pub open spec fn text_start(statics: Seq<StaticEntry>) -> LowerState {
    LowerState {
        code: static_layout(statics),
        labels: Map::empty(),
        fixups: Seq::empty(),
        jump_labels: Seq::empty(),
        locs: Seq::empty(),
        regs_used: 0,
        frame: 0,
    }
}

/// Every placeholder names a label that some marker defines.
pub open spec fn all_resolved(s: LowerState) -> bool {
    forall|i: int| 0 <= i < s.jump_labels.len() ==> s.labels.contains_key(#[trigger] s.jump_labels[i])
}

/// The image that resolving `s` gives: each placeholder holds the address of its label,
/// and every other byte is as lowered.
pub open spec fn resolved_image(s: LowerState, bytes: Seq<u8>) -> bool {
    &&& bytes.len() == s.code.len()
    &&& forall|i: int|
        0 <= i < s.fixups.len() ==> word_at(bytes, #[trigger] s.fixups[i] as int)
            == s.labels[s.jump_labels[i]]
    &&& forall|k: int| 0 <= k < s.code.len() && outside_fixups(s.fixups, k) ==> bytes[k] == s.code[k]
}

/// Lowers the static data and the function graphs into one image and resolves every jump
/// and call; `entry` labels the function where execution starts.
pub fn generate_bytecode(
    statics: &Vec<StaticEntry>,
    function_graphs: &Vec<FunctionGraph>,
    entry: LabelID,
) -> (r: Result<ByteCodeImage, GeneratorError>)
    requires
        distinct_ids(statics@),
        static_layout(statics@).len() <= u64::MAX,
    ensures
        static_error(statics@) is Some ==> r == Err::<ByteCodeImage, GeneratorError>(
            static_error(statics@)->0,
        ),
        static_error(statics@) is None ==> match lower_functions(
            text_start(statics@),
            function_graphs@,
            0,
        ) {
            Err(e) => r == Err::<ByteCodeImage, GeneratorError>(e),
            Ok(s) => {
                &&& r is Ok <==> all_resolved(s) && s.labels.contains_key(entry.0 as u64)
                &&& r is Err ==> (exists|i: int|
                    0 <= i < s.jump_labels.len() && !s.labels.contains_key(s.jump_labels[i]) && r
                        == Err::<ByteCodeImage, GeneratorError>(
                        GeneratorError::UnresolvedLabel { label: #[trigger] s.jump_labels[i] },
                    )) || (!s.labels.contains_key(entry.0 as u64) && r == Err::<
                    ByteCodeImage,
                    GeneratorError,
                >(GeneratorError::UnresolvedLabel { label: entry.0 as u64 }))
                &&& r is Ok ==> resolved_image(s, r->Ok_0.bytes@) && r->Ok_0.entry_point
                    == s.labels[entry.0 as u64] && r->Ok_0.bytes@.take(
                    static_layout(statics@).len() as int,
                ) == static_layout(statics@)
            },
        },
{
    let mut static_address_map: HashMap<u64, u64> = HashMap::new();
    let mut bytecode: Vec<u8> = Vec::new();
    generate_static_data_section(statics, &mut static_address_map, &mut bytecode)?;
    assert(bytecode@ =~= static_layout(statics@));
    let mut lowering = Lowering {
        code: bytecode,
        labels: HashMap::new(),
        fixups: Vec::new(),
        jump_labels: Ghost(Seq::empty()),
        locs: Vec::new(),
        regs_used: 0,
        frame: 0,
    };
    assert(lowering@ == text_start(statics@)) by {
        assert(lowering@.labels =~= Map::<u64, u64>::empty());
    }
    generate_text_section(function_graphs, &mut lowering)?;
    let ghost s = lowering@;
    assert(fixups_spaced(lowering.fixups@, lowering.code@.len() as int));
    assert forall|i: int| 0 <= i < s.fixups.len() implies word_at(s.code, #[trigger] s.fixups[i] as int)
        == s.jump_labels[i] by {
        assert(s.fixups[i] == s.fixups[i]);
    }
    assert(s.jump_labels.len() == s.fixups.len());
    let resolved = resolve_unresolved_addresses(&lowering.fixups, &lowering.labels, &mut lowering.code);
    if let Err(e) = resolved {
        proof {
            let i = choose|i: int|
                0 <= i < s.fixups.len() && !s.labels.contains_key(
                    word_at(s.code, #[trigger] s.fixups[i] as int),
                ) && resolved == Err::<(), GeneratorError>(
                    GeneratorError::UnresolvedLabel { label: word_at(s.code, s.fixups[i] as int) },
                );
            assert(word_at(s.code, s.fixups[i] as int) == s.jump_labels[i]);
            assert(!all_resolved(s));
        }
        return Err(e);
    }
    assert(all_resolved(s)) by {
        assert forall|i: int| 0 <= i < s.jump_labels.len() implies s.labels.contains_key(
            #[trigger] s.jump_labels[i],
        ) by {
            assert(word_at(s.code, s.fixups[i] as int) == s.jump_labels[i]);
        }
    }
    let entry_point = match lowering.labels.get(&(entry.0 as u64)) {
        Some(a) => *a,
        None => {
            return Err(GeneratorError::UnresolvedLabel { label: entry.0 as u64 });
        },
    };
    proof {
        let n = static_layout(statics@).len() as int;
        assert forall|k: int| 0 <= k < n implies outside_fixups(s.fixups, k) by {
            assert forall|i: int| 0 <= i < s.fixups.len() implies !(#[trigger] s.fixups[i] <= k
                < s.fixups[i] + 8) by {
                assert(n <= s.fixups[i]);
            }
        }
        assert(lowering.code@.take(n) =~= static_layout(statics@)) by {
            assert forall|k: int| 0 <= k < n implies lowering.code@[k] == s.code[k] by {
                assert(outside_fixups(s.fixups, k));
            }
            assert forall|k: int| 0 <= k < n implies s.code[k] == static_layout(statics@)[k] by {
                assert(s.code[k] == s.code.take(n)[k]);
            }
        }
    }
    Ok(ByteCodeImage { bytes: lowering.code, entry_point })
}

/// Lowering a label marker records the current code offset for the label, and emits
/// nothing.
pub proof fn lemma_label_marker_records_offset(st: LowerState, label: LabelID)
    requires
        st.code.len() <= u64::MAX,
    ensures
        lower_op(st, IROperator::Label { label }) is Ok,
        lower_op(st, IROperator::Label { label })->Ok_0.labels[label.0 as u64] == st.code.len(),
        lower_op(st, IROperator::Label { label })->Ok_0.code == st.code,
{
    reveal(lower_op);
}

/// A jump lowered in state `st` places its operand right after its opcode. In any later
/// state that keeps the placeholders recorded so far, the resolved image holds, at that
/// operand, exactly the address the state records for the jump's label.
pub proof fn lemma_jump_operand_resolves(st: LowerState, target: LabelID, s: LowerState, bytes: Seq<u8>)
    requires
        st.fixups.len() == st.jump_labels.len(),
        st.code.len() + 9 <= usize::MAX,
        ({
            let j = lower_op(st, IROperator::Jump { target })->Ok_0;
            &&& j.fixups.len() <= s.fixups.len()
            &&& s.fixups.take(j.fixups.len() as int) == j.fixups
            &&& j.jump_labels.len() <= s.jump_labels.len()
            &&& s.jump_labels.take(j.jump_labels.len() as int) == j.jump_labels
        }),
        resolved_image(s, bytes),
    ensures
        lower_op(st, IROperator::Jump { target }) is Ok,
        lower_op(st, IROperator::Jump { target })->Ok_0.code.subrange(
            st.code.len() as int,
            st.code.len() + 1int,
        ) == op1(ByteCodes::JUMP),
        word_at(bytes, st.code.len() + 1int) == s.labels[target.0 as u64],
{
    reveal(lower_op);
    let j = emit_jump(st, ByteCodes::JUMP, target);
    let i = st.fixups.len() as int;
    assert(j.code.subrange(st.code.len() as int, st.code.len() + 1int) =~= op1(ByteCodes::JUMP));
    assert(s.fixups[i] == s.fixups.take(j.fixups.len() as int)[i]);
    assert(s.jump_labels[i] == s.jump_labels.take(j.jump_labels.len() as int)[i]);
    assert(s.fixups[i] == st.code.len() + 1);
    assert(s.jump_labels[i] == target.0 as u64);
}

/// Static layout succeeds exactly when every entry's type has a fixed size and its encoded
/// value is exactly that long.
pub proof fn lemma_static_sizes_exact(entries: Seq<StaticEntry>)
    ensures
        static_error(entries) is None <==> forall|i: int|
            0 <= i < entries.len() ==> static_size_of((#[trigger] entries[i]).data_type@) == Some(
                entries[i].bytes@.len(),
            ),
    decreases entries.len(),
{
    if entries.len() > 0 {
        let prefix = entries.drop_last();
        lemma_static_sizes_exact(prefix);
        if static_error(entries) is None {
            assert forall|i: int| 0 <= i < entries.len() implies static_size_of(
                (#[trigger] entries[i]).data_type@,
            ) == Some(entries[i].bytes@.len()) by {
                if i < prefix.len() {
                    assert(entries[i] == prefix[i]);
                }
            }
        } else if static_error(prefix) is None {
            assert(!(static_size_of(entries.last().data_type@) == Some(
                entries.last().bytes@.len(),
            )));
        } else {
            let k = choose|k: int|
                0 <= k < prefix.len() && !(static_size_of((#[trigger] prefix[k]).data_type@) == Some(
                    prefix[k].bytes@.len(),
                ));
            assert(entries[k] == prefix[k]);
        }
    }
}

} // verus!
