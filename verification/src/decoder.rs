//! The instruction decoder, an outside disassembler, and what the log
//! parser takes from it: mnemonic and operand text, the operands, and the
//! registers that the instruction reads.

use crate::commit::Register;
use crate::text::{text_has_at, text_is, to_chars};
use capstone::arch::riscv::{ArchExtraMode, ArchMode, RiscVOperand};
use capstone::arch::{BuildsCapstone, BuildsCapstoneExtraMode, DetailsArchInsn};
use capstone::Capstone;
use vstd::prelude::*;

verus! {

/// The disassembler engine, `capstone::Capstone`. Nothing is known of what
/// is inside.
#[verifier::external_type_specification]
#[verifier::external_body]
pub struct ExCapstone(capstone::Capstone);

/// The disassembler's error, `capstone::Error`. Nothing is known of what is
/// inside.
#[verifier::external_type_specification]
#[verifier::external_body]
pub struct ExCapstoneError(capstone::Error);

/// The decoder's number for integer register `x0`.
pub const DECODER_REG_X0: u32 = 1;

/// The decoder's number for integer register `x31`.
pub const DECODER_REG_X31: u32 = 32;

/// One operand of a decoded instruction.
#[derive(Debug, Clone, Copy, PartialEq, Eq)]
pub enum Operand {
    /// A register, by the decoder's number for it.
    Register(u16),
    /// An immediate value.
    Immediate(i64),
    /// A memory operand.
    Memory,
    /// An operand that the decoder could not classify.
    Invalid,
}

/// What the decoder reports of one instruction.
#[derive(Debug, Clone, PartialEq, Eq)]
pub struct Decoded {
    /// The mnemonic, if the decoder has one.
    pub mnemonic: Option<String>,
    /// The operands as text, if the decoder has any.
    pub operand_text: Option<String>,
    /// The operands, in order.
    pub operands: Vec<Operand>,
    /// The decoder's numbers of the registers that the instruction reads.
    pub regs_read: Vec<u16>,
}

/// A decoded instruction as a mathematical value.
pub struct DecodedView {
    pub mnemonic: Option<Seq<char>>,
    pub operand_text: Option<Seq<char>>,
    pub operands: Seq<Operand>,
    pub regs_read: Seq<u16>,
}

impl View for Decoded {
    type V = DecodedView;

    open spec fn view(&self) -> DecodedView {
        DecodedView {
            mnemonic: match self.mnemonic {
                Some(m) => Some(m@),
                None => None,
            },
            operand_text: match self.operand_text {
                Some(t) => Some(t@),
                None => None,
            },
            operands: self.operands@,
            regs_read: self.regs_read@,
        }
    }
}

/// What the decoder, opened as `open_decoder` opens it, makes of the first
/// instruction in `code`, taken to stand at `address`; `None` where it finds
/// no instruction there. Nothing more is known of it.
pub uninterp spec fn disassembly(code: Seq<u8>, address: u64) -> Option<DecodedView>;

/// Opens the disassembler for 64-bit RISC-V with compressed instructions and
/// with instruction details switched on: `Capstone::new`, then the RISC-V
/// builder's `mode`, `extra_mode`, `detail` and `build`. The claim: the
/// opening succeeds. `build` fails only where no mode was set or where the
/// engine refuses to open or to take an option; the engine refuses only an
/// architecture that was not built in, a mode that the architecture does not
/// allow, or for want of memory. The builder for RISC-V exists only where
/// RISC-V is built in, a mode is set here, both modes are allowed for RISC-V,
/// and switching the details on cannot fail. That the handle's few bytes can
/// be had is taken for granted, as of every allocation.
#[verifier::external_body]
pub(crate) fn open_decoder() -> (opened: Result<Capstone, capstone::Error>)
    ensures
        opened is Ok,
{
    Capstone::new()
        .riscv()
        .mode(ArchMode::RiscV64)
        .extra_mode([ArchExtraMode::RiscVC].iter().copied())
        .detail(true)
        .build()
}

/// Disassembles the first instruction in `code` on a decoder that
/// `open_decoder` opened: `Capstone::disasm_all` for the instructions,
/// `Insn::mnemonic` and `Insn::op_str` for the text, `Capstone::insn_detail`
/// and then `InsnDetail::regs_read` for the registers read and
/// `InsnDetail::arch_detail` with the RISC-V detail's `operands` for the
/// operands. Each operand and each register number is handed on as it comes.
/// The claim: what comes back depends on the bytes and the address alone, and
/// is what `disassembly` names. An error of the decoder counts as no
/// instruction.
#[verifier::external_body]
pub(crate) fn disassemble(cs: &Capstone, code: &[u8], address: u64) -> (decoded: Option<Decoded>)
    ensures
        match decoded {
            Some(d) => disassembly(code@, address) == Some(d@),
            None => disassembly(code@, address) is None,
        },
{
    let insns = cs.disasm_all(code, address).ok()?;
    let insn = insns.iter().next()?;
    let detail = cs.insn_detail(insn).ok()?;
    let operands = detail.arch_detail().riscv()?.operands().map(|op| match op {
        RiscVOperand::Reg(r) => Operand::Register(r.0),
        RiscVOperand::Imm(v) => Operand::Immediate(v),
        RiscVOperand::Mem(_) => Operand::Memory,
        RiscVOperand::Invalid => Operand::Invalid,
    }).collect();
    Some(Decoded {
        mnemonic: insn.mnemonic().map(String::from),
        operand_text: insn.op_str().map(String::from),
        operands,
        regs_read: detail.regs_read().iter().map(|r| r.0).collect(),
    })
}

/// The integer register that the decoder's number `id` stands for, if it
/// stands for one.
pub open spec fn register_of(id: u32) -> Option<Register> {
    if 1 <= id <= 32 {
        Some(Register::X { index: (id - 1) as u8 })
    } else {
        None
    }
}

/// Maps the decoder's register number to a register of the log's classes.
pub fn map_reg_id(id: u32) -> (reg: Option<Register>)
    ensures
        reg == register_of(id),
        reg matches Some(r) ==> r.in_range(),
{
    if DECODER_REG_X0 <= id && id <= DECODER_REG_X31 {
        Some(Register::X { index: (id - DECODER_REG_X0) as u8 })
    } else {
        None
    }
}

/// The integer registers among the decoder's register numbers, in order.
pub open spec fn registers_of(ids: Seq<u16>) -> Seq<Register>
    decreases ids.len(),
{
    if ids.len() == 0 {
        Seq::empty()
    } else {
        match register_of(ids.last() as u32) {
            Some(r) => registers_of(ids.drop_last()).push(r),
            None => registers_of(ids.drop_last()),
        }
    }
}

/// The first immediate among the operands.
pub open spec fn first_immediate(operands: Seq<Operand>) -> Option<i64>
    decreases operands.len(),
{
    if operands.len() == 0 {
        None
    } else {
        match operands[0] {
            Operand::Immediate(v) => Some(v),
            _ => first_immediate(operands.drop_first()),
        }
    }
}

/// How many bytes the instruction with mnemonic `m` stores, if it is a
/// store: integer, floating-point and vector stores, the compressed
/// spellings among them.
pub open spec fn store_width(m: Seq<char>) -> Option<u32> {
    if m == "sb"@ || m == "c.sb"@ {
        Some(1u32)
    } else if m == "sh"@ || m == "c.sh"@ {
        Some(2u32)
    } else if m == "sw"@ || m == "c.sw"@ || m == "c.swsp"@ {
        Some(4u32)
    } else if m == "sd"@ || m == "c.sd"@ || m == "c.sdsp"@ {
        Some(8u32)
    } else if m == "fsw"@ {
        Some(4u32)
    } else if m == "fsd"@ {
        Some(8u32)
    } else if "vse8"@.is_prefix_of(m) || "vsse8"@.is_prefix_of(m) {
        Some(1u32)
    } else if "vse16"@.is_prefix_of(m) || "vsse16"@.is_prefix_of(m) {
        Some(2u32)
    } else if "vse32"@.is_prefix_of(m) || "vsse32"@.is_prefix_of(m) {
        Some(4u32)
    } else if "vse64"@.is_prefix_of(m) || "vsse64"@.is_prefix_of(m) {
        Some(8u32)
    } else {
        None
    }
}

/// Looks up the store width of a mnemonic.
pub fn store_bytes(mnemonic: &str) -> (width: Option<u32>)
    ensures
        width == store_width(mnemonic@),
        width matches Some(w) ==> w == 1 || w == 2 || w == 4 || w == 8,
{
    let m = to_chars(mnemonic);
    let m = m.as_slice();
    if text_is(m, "sb") || text_is(m, "c.sb") {
        Some(1)
    } else if text_is(m, "sh") || text_is(m, "c.sh") {
        Some(2)
    } else if text_is(m, "sw") || text_is(m, "c.sw") || text_is(m, "c.swsp") {
        Some(4)
    } else if text_is(m, "sd") || text_is(m, "c.sd") || text_is(m, "c.sdsp") {
        Some(8)
    } else if text_is(m, "fsw") {
        Some(4)
    } else if text_is(m, "fsd") {
        Some(8)
    } else if text_has_at(m, 0, "vse8") || text_has_at(m, 0, "vsse8") {
        Some(1)
    } else if text_has_at(m, 0, "vse16") || text_has_at(m, 0, "vsse16") {
        Some(2)
    } else if text_has_at(m, 0, "vse32") || text_has_at(m, 0, "vsse32") {
        Some(4)
    } else if text_has_at(m, 0, "vse64") || text_has_at(m, 0, "vsse64") {
        Some(8)
    } else {
        None
    }
}

/// Picks the integer registers out of the decoder's register numbers.
pub fn read_registers(ids: &Vec<u16>) -> (regs: Vec<Register>)
    ensures
        regs@ == registers_of(ids@),
        forall|i: int| 0 <= i < regs@.len() ==> (#[trigger] regs@[i]).in_range(),
{
    let mut regs: Vec<Register> = Vec::new();
    let mut i: usize = 0;
    while i < ids.len()
        invariant
            i <= ids@.len(),
            regs@ == registers_of(ids@.take(i as int)),
            forall|j: int| 0 <= j < regs@.len() ==> (#[trigger] regs@[j]).in_range(),
        decreases ids@.len() - i,
    {
        proof {
            assert(ids@.take(i + 1).drop_last() =~= ids@.take(i as int));
        }
        match map_reg_id(ids[i] as u32) {
            Some(r) => regs.push(r),
            None => {},
        }
        i += 1;
    }
    assert(ids@.take(i as int) =~= ids@);
    regs
}

/// Finds the first immediate operand.
pub fn find_immediate(operands: &Vec<Operand>) -> (imm: Option<i64>)
    ensures
        imm == first_immediate(operands@),
{
    let mut i: usize = 0;
    assert(operands@.skip(0) =~= operands@);
    while i < operands.len()
        invariant
            i <= operands@.len(),
            first_immediate(operands@) == first_immediate(operands@.skip(i as int)),
        decreases operands@.len() - i,
    {
        proof {
            assert(operands@.skip(i as int).drop_first() =~= operands@.skip(i + 1));
        }
        match operands[i] {
            Operand::Immediate(v) => {
                return Some(v);
            },
            _ => {},
        }
        i += 1;
    }
    None
}

} // verus!
