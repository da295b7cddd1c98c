//! Constructors for the closed instruction set, as a program builder or
//! a test writes them.

use crate::program::{
    Address, AluIo, BaseAluInstr, BaseAluOpcode, Block, ExtAluInstr, ExtAluOpcode, Instruction,
    MemAccessKind, MemInstr, MemIo,
};
use vstd::prelude::*;

verus! {

/// A constant-memory operation on a whole value block.
pub fn mem_block(kind: MemAccessKind, mult: u32, addr: u32, val: Block) -> (r: Instruction)
    ensures
        r matches Instruction::Mem(m) && m.kind == kind && m.mult == mult && m.addrs.inner
            == Address(addr) && m.vals.inner == val,
{
    Instruction::Mem(
        MemInstr {
            addrs: MemIo { inner: Address(addr) },
            vals: MemIo { inner: val },
            mult,
            kind,
        },
    )
}

/// A constant-memory operation on a single element, padded to a block
/// with zeroes.
pub fn mem_single(kind: MemAccessKind, mult: u32, addr: u32, val: u32) -> (r: Instruction)
    ensures
        r matches Instruction::Mem(m) && m.kind == kind && m.mult == mult && m.addrs.inner
            == Address(addr) && m.vals.inner@ == seq![val, 0u32, 0u32, 0u32],
{
    let block = Block([val, 0, 0, 0]);
    assert(block@ =~= seq![val, 0u32, 0u32, 0u32]);
    mem_block(kind, mult, addr, block)
}

/// A constant-memory operation on a single element.
pub fn mem(kind: MemAccessKind, mult: u32, addr: u32, val: u32) -> (r: Instruction)
    ensures
        r matches Instruction::Mem(m) && m.kind == kind && m.mult == mult && m.addrs.inner
            == Address(addr) && m.vals.inner@ == seq![val, 0u32, 0u32, 0u32],
{
    mem_single(kind, mult, addr, val)
}

/// A base-field ALU operation.
pub fn base_alu(opcode: BaseAluOpcode, mult: u32, out: u32, in1: u32, in2: u32) -> (r:
    Instruction)
    ensures
        r matches Instruction::BaseAlu(b) && b.opcode == opcode && b.mult == mult && b.addrs.out
            == Address(out) && b.addrs.in1 == Address(in1) && b.addrs.in2 == Address(in2),
{
    Instruction::BaseAlu(
        BaseAluInstr {
            opcode,
            mult,
            addrs: AluIo { out: Address(out), in1: Address(in1), in2: Address(in2) },
        },
    )
}

/// An extension-field ALU operation.
pub fn ext_alu(opcode: ExtAluOpcode, mult: u32, out: u32, in1: u32, in2: u32) -> (r: Instruction)
    ensures
        r matches Instruction::ExtAlu(b) && b.opcode == opcode && b.mult == mult && b.addrs.out
            == Address(out) && b.addrs.in1 == Address(in1) && b.addrs.in2 == Address(in2),
{
    Instruction::ExtAlu(
        ExtAluInstr {
            opcode,
            mult,
            addrs: AluIo { out: Address(out), in1: Address(in1), in2: Address(in2) },
        },
    )
}

} // verus!
