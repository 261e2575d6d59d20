//! One retired instruction as the simulator reported it.

use vstd::prelude::*;

verus! {

/// Architectural register classes that the log reports.
#[derive(Debug, Clone, Copy, PartialEq, Eq)]
pub enum Register {
    /// Integer register.
    X { index: u8 },
    /// Floating-point register.
    F { index: u8 },
    /// Vector register.
    V { index: u8 },
}

impl Register {
    /// Whether this names one of the thirty-two integer registers, or a
    /// register of another class.
    pub open spec fn in_range(self) -> bool {
        self matches Register::X { index } ==> index < 32
    }
}

/// A register and the value it holds after the instruction, as printed.
#[derive(Debug, Clone, Copy, PartialEq, Eq)]
pub struct RegisterWrite {
    pub reg: Register,
    pub value: u64,
}

/// A memory access as printed. `data` is `None` when the simulator printed
/// only the address.
#[derive(Debug, Clone, Copy, PartialEq, Eq)]
pub struct MemAccess {
    pub addr: u64,
    pub data: Option<u64>,
}

/// One parsed line of the commit log.
#[derive(Debug, Clone, PartialEq, Eq)]
pub struct Commit {
    /// Hardware thread that retired the instruction.
    pub hart: u32,
    /// Privilege level at retirement.
    pub priv_level: u8,
    /// Address of the instruction.
    pub pc: u64,
    /// The raw 32-bit encoding.
    pub encoding: u32,
    /// Mnemonic and operands as the decoder prints them.
    pub disassembly: String,
    /// The first immediate operand, if the instruction has one.
    pub imm: Option<i64>,
    /// Integer registers that the instruction reads.
    pub regs_read: Vec<Register>,
    /// Bytes stored, if the instruction is a store.
    pub bytes_written: Option<u32>,
    /// Register writes, in the order printed.
    pub regs: Vec<RegisterWrite>,
    /// Memory accesses, in the order printed.
    pub mem: Vec<MemAccess>,
}

/// A commit as a mathematical value.
pub struct CommitView {
    pub hart: u32,
    pub priv_level: u8,
    pub pc: u64,
    pub encoding: u32,
    pub disassembly: Seq<char>,
    pub imm: Option<i64>,
    pub regs_read: Seq<Register>,
    pub bytes_written: Option<u32>,
    pub regs: Seq<RegisterWrite>,
    pub mem: Seq<MemAccess>,
}

impl CommitView {
    /// Every integer register that the commit names is one of `x0` to `x31`.
    pub open spec fn in_range(self) -> bool {
        &&& forall|i: int| 0 <= i < self.regs_read.len() ==> (#[trigger] self.regs_read[i]).in_range()
        &&& forall|i: int| 0 <= i < self.regs.len() ==> (#[trigger] self.regs[i]).reg.in_range()
    }
}

impl Commit {
    /// Tests whether every integer register that the commit names is one of
    /// `x0` to `x31`.
    pub fn registers_in_range(&self) -> (b: bool)
        ensures
            b == self@.in_range(),
    {
        let mut i: usize = 0;
        while i < self.regs_read.len()
            invariant
                i <= self.regs_read@.len(),
                forall|j: int| 0 <= j < i ==> (#[trigger] self.regs_read@[j]).in_range(),
            decreases self.regs_read@.len() - i,
        {
            match self.regs_read[i] {
                Register::X { index } => {
                    if index >= 32 {
                        assert(!self@.regs_read[i as int].in_range());
                        assert(!self@.in_range());
                        return false;
                    }
                },
                _ => {},
            }
            i += 1;
        }
        let mut k: usize = 0;
        while k < self.regs.len()
            invariant
                k <= self.regs@.len(),
                forall|j: int|
                    0 <= j < self.regs_read@.len() ==> (#[trigger] self.regs_read@[j]).in_range(),
                forall|j: int| 0 <= j < k ==> (#[trigger] self.regs@[j]).reg.in_range(),
            decreases self.regs@.len() - k,
        {
            match self.regs[k].reg {
                Register::X { index } => {
                    if index >= 32 {
                        assert(!self@.regs[k as int].reg.in_range());
                        assert(!self@.in_range());
                        return false;
                    }
                },
                _ => {},
            }
            k += 1;
        }
        true
    }
}

impl View for Commit {
    type V = CommitView;

    open spec fn view(&self) -> CommitView {
        CommitView {
            hart: self.hart,
            priv_level: self.priv_level,
            pc: self.pc,
            encoding: self.encoding,
            disassembly: self.disassembly@,
            imm: self.imm,
            regs_read: self.regs_read@,
            bytes_written: self.bytes_written,
            regs: self.regs@,
            mem: self.mem@,
        }
    }
}

} // verus!
