//! The data model: symbolic addresses, fixed-width value blocks, the
//! closed instruction set, and the immutable program a simulator executes.

use crate::field::{felt_neg, is_felt};
use crate::shape::{fixed_log2_of, RecursionShape};
use vstd::prelude::*;

verus! {

/// The extension degree: the number of base-field elements in one block.
pub const D: usize = 4;

/// A symbolic index into the flat value memory.
#[derive(Clone, Copy, PartialEq, Eq, Structural, Debug)]
pub struct Address(pub u32);

/// One atomic value: a fixed-width array of field representatives, the
/// unit read or written by any memory operation.
#[derive(Clone, Copy, Debug)]
pub struct Block(pub [u32; D]);

impl View for Block {
    type V = Seq<u32>;

    open spec fn view(&self) -> Seq<u32> {
        self.0@
    }
}

/// Whether a memory operation consumes or produces its value.
#[derive(Clone, Copy, PartialEq, Eq, Structural, Debug)]
pub enum MemAccessKind {
    Read,
    Write,
}

/// The operand slot of a memory instruction.
#[derive(Clone, Copy, Debug)]
pub struct MemIo<T> {
    pub inner: T,
}

/// A compile-time-constant memory operation: address and value are known
/// when the program is built; `mult` weights how many times the access
/// counts toward the global consistency sum.
#[derive(Clone, Copy, Debug)]
pub struct MemInstr {
    pub addrs: MemIo<Address>,
    pub vals: MemIo<Block>,
    pub mult: u32,
    pub kind: MemAccessKind,
}

/// Base-field arithmetic operations.
#[derive(Clone, Copy, PartialEq, Eq, Structural, Debug)]
pub enum BaseAluOpcode {
    AddF,
    SubF,
    MulF,
    DivF,
}

/// Extension-field arithmetic operations.
#[derive(Clone, Copy, PartialEq, Eq, Structural, Debug)]
pub enum ExtAluOpcode {
    AddE,
    SubE,
    MulE,
    DivE,
}

/// The operand addresses of an ALU instruction.
#[derive(Clone, Copy, Debug)]
pub struct AluIo {
    pub out: Address,
    pub in1: Address,
    pub in2: Address,
}

/// A base-field ALU instruction.
#[derive(Clone, Copy, Debug)]
pub struct BaseAluInstr {
    pub opcode: BaseAluOpcode,
    pub mult: u32,
    pub addrs: AluIo,
}

/// An extension-field ALU instruction.
#[derive(Clone, Copy, Debug)]
pub struct ExtAluInstr {
    pub opcode: ExtAluOpcode,
    pub mult: u32,
    pub addrs: AluIo,
}

/// A hint: values supplied by the host, one (address, multiplicity) pair
/// per output.
#[derive(Clone, Debug)]
pub struct HintInstr {
    pub output_addrs_mults: Vec<(Address, u32)>,
}

/// A hint that decomposes the value at `input_addr` into bits.
#[derive(Clone, Debug)]
pub struct HintBitsInstr {
    pub output_addrs_mults: Vec<(Address, u32)>,
    pub input_addr: Address,
}

/// A hint that splits an extension element into base-field elements.
#[derive(Clone, Debug)]
pub struct HintExt2FeltsInstr {
    pub output_addrs_mults: Vec<(Address, u32)>,
    pub input_addr: Address,
}

/// The closed instruction set. Payloads consumed only by peer opcode
/// chips carry no data the chips in this crate read, and are left bare.
#[derive(Clone, Debug)]
pub enum Instruction {
    BaseAlu(BaseAluInstr),
    ExtAlu(ExtAluInstr),
    Mem(MemInstr),
    Poseidon2,
    ExpReverseBitsLen,
    Hint(HintInstr),
    HintBits(HintBitsInstr),
    HintExt2Felts(HintExt2FeltsInstr),
    FriFold,
    CommitPublicValues,
    Print,
}

/// An ordered, immutable instruction sequence, with an optional fixed
/// shape for the traces it gives rise to.
pub struct RecursionProgram {
    pub instructions: Vec<Instruction>,
    pub shape: Option<RecursionShape>,
}

/// A memory instruction is well formed when its fields are canonical
/// field representatives.
pub open spec fn instr_wf(i: Instruction) -> bool {
    match i {
        Instruction::Mem(m) => is_felt(m.mult) && is_felt(m.addrs.inner.0) && forall|k: int|
            0 <= k < m.vals.inner@.len() ==> is_felt(#[trigger] m.vals.inner@[k]),
        _ => true,
    }
}

impl RecursionProgram {
    /// Every instruction carries canonical field representatives.
    pub open spec fn wf(&self) -> bool {
        forall|i: int| 0 <= i < self.instructions@.len() ==> instr_wf(
            #[trigger] self.instructions@[i],
        )
    }

    /// The log2 row count the program's shape fixes for the named chip.
    pub fn fixed_log2_rows(&self, chip_name: &str) -> (r: Option<usize>)
        ensures
            r == fixed_log2_of(self.shape, chip_name@),
    {
        match &self.shape {
            Option::Some(s) => s.get(chip_name),
            Option::None => Option::None,
        }
    }
}

/// One entry of the constant-memory table: an address, a value block, and
/// a signed multiplicity (already negated for reads).
pub struct MemEntry {
    pub addr: u32,
    pub val: Seq<u32>,
    pub mult: u32,
}

/// The multiplicity a memory instruction contributes, negated in the
/// field for reads so that matched accesses cancel.
pub open spec fn signed_mult(m: MemInstr) -> u32 {
    match m.kind {
        MemAccessKind::Read => felt_neg(m.mult),
        MemAccessKind::Write => m.mult,
    }
}

/// The table entry a memory instruction gives rise to.
pub open spec fn entry_of(m: MemInstr) -> MemEntry {
    MemEntry { addr: m.addrs.inner.0, val: m.vals.inner@, mult: signed_mult(m) }
}

/// The entry with the raw (unsigned) multiplicity, used to compare reads
/// against writes.
pub open spec fn raw_entry_of(m: MemInstr) -> MemEntry {
    MemEntry { addr: m.addrs.inner.0, val: m.vals.inner@, mult: m.mult }
}

/// The constant-memory entries of an instruction sequence, in order.
pub open spec fn mem_entries(s: Seq<Instruction>) -> Seq<MemEntry>
    decreases s.len(),
{
    if s.len() == 0 {
        Seq::empty()
    } else {
        mem_entries(s.drop_last()) + match s.last() {
            Instruction::Mem(m) => seq![entry_of(m)],
            _ => Seq::empty(),
        }
    }
}

/// The raw entries of the memory instructions of the given kind, in order.
pub open spec fn kind_entries(s: Seq<Instruction>, kind: MemAccessKind) -> Seq<MemEntry>
    decreases s.len(),
{
    if s.len() == 0 {
        Seq::empty()
    } else {
        kind_entries(s.drop_last(), kind) + match s.last() {
            Instruction::Mem(m) => if m.kind == kind {
                seq![raw_entry_of(m)]
            } else {
                Seq::empty()
            },
            _ => Seq::empty(),
        }
    }
}

/// A program consists of matched write/read pairs when, access for
/// access, the writes and the reads carry the same addresses, values and
/// magnitudes, in any order.
pub open spec fn matched(s: Seq<Instruction>) -> bool {
    kind_entries(s, MemAccessKind::Write).to_multiset() == kind_entries(
        s,
        MemAccessKind::Read,
    ).to_multiset()
}

} // verus!
