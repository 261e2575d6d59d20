//! The trace record: what the replay engine emits for each commit.

use vstd::prelude::*;

verus! {

/// The instruction as the consumer of the trace wants it.
#[derive(Debug, Clone, PartialEq, Eq)]
pub struct TraceInstruction {
    /// Address of the instruction.
    pub address: u64,
    /// The mnemonic, by which the consumer classifies the instruction.
    pub opcode: String,
    /// Index of the first source register.
    pub rs1: Option<u64>,
    /// Index of the second source register.
    pub rs2: Option<u64>,
    /// Index of the destination register.
    pub rd: Option<u64>,
    /// The immediate operand.
    pub imm: Option<i64>,
}

/// Register values around the instruction.
#[derive(Debug, Clone, Copy, PartialEq, Eq)]
pub struct RegisterState {
    /// The first source register before the instruction.
    pub rs1_val: Option<u64>,
    /// The second source register before the instruction.
    pub rs2_val: Option<u64>,
    /// The destination register after the instruction.
    pub rd_post_val: Option<u64>,
}

/// The memory effect of an instruction.
#[derive(Debug, Clone, Copy, PartialEq, Eq)]
pub enum MemoryState {
    /// A load: the address and the value loaded.
    Read { address: u64, value: u64 },
    /// A store: the address, what stood there and what stands there now.
    Write { address: u64, pre_value: u64, post_value: u64 },
}

/// One row of the trace.
#[derive(Debug, Clone, PartialEq, Eq)]
pub struct TraceRecord {
    pub instruction: TraceInstruction,
    pub register_state: RegisterState,
    pub memory_state: Option<MemoryState>,
}

/// A trace record as a mathematical value.
pub struct TraceRecordView {
    pub address: u64,
    pub opcode: Seq<char>,
    pub rs1: Option<u64>,
    pub rs2: Option<u64>,
    pub rd: Option<u64>,
    pub imm: Option<i64>,
    pub register_state: RegisterState,
    pub memory_state: Option<MemoryState>,
}

impl View for TraceRecord {
    type V = TraceRecordView;

    open spec fn view(&self) -> TraceRecordView {
        TraceRecordView {
            address: self.instruction.address,
            opcode: self.instruction.opcode@,
            rs1: self.instruction.rs1,
            rs2: self.instruction.rs2,
            rd: self.instruction.rd,
            imm: self.instruction.imm,
            register_state: self.register_state,
            memory_state: self.memory_state,
        }
    }
}

} // verus!
