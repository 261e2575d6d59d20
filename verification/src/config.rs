//! Settings and errors of the simulator front end.

use vstd::prelude::*;
use vstd::string::StringExecFns;

verus! {

/// Configuration for the simulator.
#[derive(Debug, Clone)]
pub struct MemoryConfig {
    /// Memory size in bytes.
    pub memory_size: u64,
}

impl Default for MemoryConfig {
    /// 64 MiB of memory.
    fn default() -> (config: Self)
        ensures
            config.memory_size == 64 * 1024 * 1024,
    {
        MemoryConfig { memory_size: 64 * 1024 * 1024 }
    }
}

/// What can go wrong in the simulator front end.
#[derive(Debug, Clone, PartialEq, Eq)]
pub enum SpikeError {
    /// The bytes handed in are no ELF image.
    InvalidElf,
    /// The simulator's interface refused what it was given.
    Ffi(String),
    /// The program did not run as expected.
    Execution(String),
}

impl SpikeError {
    /// The text of the error, as a reader would want it.
    pub open spec fn message_text(self) -> Seq<char> {
        match self {
            SpikeError::InvalidElf => "Invalid ELF file"@,
            SpikeError::Ffi(detail) => "FFI error: "@ + detail@,
            SpikeError::Execution(detail) => "Execution error: "@ + detail@,
        }
    }

    /// Renders the error as text.
    pub fn message(&self) -> (text: String)
        ensures
            text@ == self.message_text(),
    {
        match self {
            SpikeError::InvalidElf => String::from_str("Invalid ELF file"),
            SpikeError::Ffi(detail) => String::from_str("FFI error: ").concat(detail.as_str()),
            SpikeError::Execution(detail) => String::from_str("Execution error: ").concat(
                detail.as_str(),
            ),
        }
    }
}

} // verus!
