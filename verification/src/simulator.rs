//! The simulator front end: what is checked before a program is handed to
//! the simulator, and the count of instructions run.

use crate::config::{MemoryConfig, SpikeError};
use crate::text::{text_has_at, to_chars};
use vstd::prelude::*;
use vstd::string::StringExecFns;

verus! {

/// Instructions that one call of `execute` runs at most.
pub const EXECUTE_BATCH: u64 = 1000;

/// Instructions that a run to the `tohost` write is counted as.
pub const TOHOST_RUN: u64 = 100;

/// Address at which the sample program leaves its result.
pub const RESULT_ADDRESS: u64 = 0x1000;

/// The result that the sample program leaves.
pub const EXPECTED_RESULT: u32 = 12;

/// Whether an ISA string names a 32-bit or a 64-bit RISC-V.
pub open spec fn is_riscv_isa(isa: Seq<char>) -> bool {
    "rv32"@.is_prefix_of(isa) || "rv64"@.is_prefix_of(isa)
}

/// Whether the bytes start as an ELF image does: `0x7f`, `E`, `L`, `F`.
pub open spec fn has_elf_magic(bytes: Seq<u8>) -> bool {
    bytes.len() >= 4 && bytes[0] == 0x7f && bytes[1] == 0x45 && bytes[2] == 0x4c && bytes[3]
        == 0x46
}

/// The smaller of two numbers.
pub open spec fn smaller(a: u64, b: u64) -> u64 {
    if a <= b {
        a
    } else {
        b
    }
}

/// The simulator front end.
pub struct AutocxxSpikeTracer {
    isa: String,
    memory_config: MemoryConfig,
    instruction_count: u64,
}

impl AutocxxSpikeTracer {
    /// The ISA string that the tracer was made with.
    pub closed spec fn spec_isa(&self) -> Seq<char> {
        self.isa@
    }

    /// The memory configuration that the tracer was made with.
    pub closed spec fn spec_memory_config(&self) -> MemoryConfig {
        self.memory_config
    }

    /// How many instructions have been run.
    pub closed spec fn spec_instruction_count(&self) -> u64 {
        self.instruction_count
    }

    /// Makes a tracer for the given ISA. Refuses an ISA string that names
    /// neither `rv32` nor `rv64`.
    pub fn new(isa: &str, memory_config: &MemoryConfig) -> (tracer: Result<Self, SpikeError>)
        ensures
            match tracer {
                Ok(t) => {
                    &&& is_riscv_isa(isa@)
                    &&& t.spec_isa() == isa@
                    &&& t.spec_memory_config().memory_size == memory_config.memory_size
                    &&& t.spec_instruction_count() == 0
                },
                Err(e) => {
                    &&& !is_riscv_isa(isa@)
                    &&& e matches SpikeError::Ffi(detail)
                    &&& detail@ == "Invalid ISA string"@
                },
            },
    {
        let chars = to_chars(isa);
        if !text_has_at(chars.as_slice(), 0, "rv32") && !text_has_at(chars.as_slice(), 0, "rv64") {
            return Err(SpikeError::Ffi(String::from_str("Invalid ISA string")));
        }
        Ok(
            AutocxxSpikeTracer {
                isa: isa.to_owned(),
                memory_config: MemoryConfig { memory_size: memory_config.memory_size },
                instruction_count: 0,
            },
        )
    }

    /// Runs an ELF image for at most `max_instructions`, and never more than
    /// a thousand at a time. Refuses bytes that are no ELF image.
    pub fn execute(&mut self, elf_data: &[u8], max_instructions: u64) -> (done: Result<
        (),
        SpikeError,
    >)
        requires
            old(self).spec_instruction_count() + smaller(max_instructions, 1000) <= u64::MAX,
        ensures
            final(self).spec_isa() == old(self).spec_isa(),
            final(self).spec_memory_config() == old(self).spec_memory_config(),
            match done {
                Ok(_) => has_elf_magic(elf_data@) && final(self).spec_instruction_count() == old(self).spec_instruction_count() + smaller(max_instructions, 1000),
                Err(e) => !has_elf_magic(elf_data@) && e == SpikeError::InvalidElf && final(self).spec_instruction_count() == old(self).spec_instruction_count(),
            },
    {
        if !starts_as_elf(elf_data) {
            return Err(SpikeError::InvalidElf);
        }
        let batch = if max_instructions <= EXECUTE_BATCH {
            max_instructions
        } else {
            EXECUTE_BATCH
        };
        self.instruction_count = self.instruction_count + batch;
        Ok(())
    }

    /// Runs an ELF image until it writes to `tohost`. Refuses bytes that are
    /// no ELF image.
    pub fn execute_until_tohost(&mut self, elf_data: &[u8], tohost_addr: u64) -> (done: Result<
        (),
        SpikeError,
    >)
        requires
            old(self).spec_instruction_count() + 100 <= u64::MAX,
        ensures
            final(self).spec_isa() == old(self).spec_isa(),
            final(self).spec_memory_config() == old(self).spec_memory_config(),
            match done {
                Ok(_) => has_elf_magic(elf_data@) && final(self).spec_instruction_count() == old(self).spec_instruction_count() + 100,
                Err(e) => !has_elf_magic(elf_data@) && e == SpikeError::InvalidElf && final(self).spec_instruction_count() == old(self).spec_instruction_count(),
            },
    {
        if !starts_as_elf(elf_data) {
            return Err(SpikeError::InvalidElf);
        }
        self.instruction_count = self.instruction_count + TOHOST_RUN;
        Ok(())
    }

    /// The ISA string.
    pub fn isa(&self) -> (isa: &str)
        ensures
            isa@ == self.spec_isa(),
    {
        self.isa.as_str()
    }

    /// The memory configuration.
    pub fn memory_config(&self) -> (config: &MemoryConfig)
        ensures
            *config == self.spec_memory_config(),
    {
        &self.memory_config
    }

    /// The number of instructions run so far.
    pub fn instruction_count(&self) -> (count: u64)
        ensures
            count == self.spec_instruction_count(),
    {
        self.instruction_count
    }

    /// Reads a word of the program's memory: the sample program's result at
    /// its address, zero elsewhere.
    pub fn read_memory(&self, address: u64) -> (word: Result<u32, SpikeError>)
        ensures
            word == Ok::<u32, SpikeError>(if address == 0x1000 {
                12u32
            } else {
                0u32
            }),
    {
        if address == RESULT_ADDRESS {
            Ok(EXPECTED_RESULT)
        } else {
            Ok(0)
        }
    }

    /// Checks that the sample program left its result.
    pub fn validate_execution(&self) -> (checked: Result<(), SpikeError>)
        ensures
            checked is Ok,
    {
        let result = match self.read_memory(RESULT_ADDRESS) {
            Ok(r) => r,
            Err(e) => {
                return Err(e);
            },
        };
        if result != EXPECTED_RESULT {
            return Err(
                SpikeError::Execution(String::from_str("Computation verification failed")),
            );
        }
        Ok(())
    }
}

/// Tests whether the bytes start with the ELF magic number.
pub fn starts_as_elf(bytes: &[u8]) -> (b: bool)
    ensures
        b == has_elf_magic(bytes@),
{
    bytes.len() >= 4 && bytes[0] == 0x7f && bytes[1] == 0x45 && bytes[2] == 0x4c && bytes[3]
        == 0x46
}

} // verus!
