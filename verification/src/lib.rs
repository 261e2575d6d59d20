//! Replay of a RISC-V simulator's instruction-commit log into a structured
//! execution trace.
//!
//! A line of the log is parsed into a [`Commit`] by [`CommitLogParser`]; a
//! [`Cpu`] takes the commits in program order, keeps a shadow of the
//! machine's registers ([`RegFile`]) and memory ([`SparseDram`]), and gives
//! one [`TraceRecord`] for each. A [`ReplaySession`] holds both and is fed
//! the log line by line.
//!
//! Around that stand the settings with which guest programs are built
//! ([`BuildConfig`], [`Builder`], [`GuestBuilder`]), the checks that the
//! simulator front end makes ([`AutocxxSpikeTracer`]), the words by which a
//! guest halts the simulator ([`htif`]) and the sample workloads
//! ([`workload`]).

pub mod build_config;
pub mod commit;
pub mod config;
pub mod cpu;
pub mod decoder;
pub mod guest;
pub mod htif;
pub mod memory;
pub mod parser;
pub mod pattern;
pub mod regfile;
pub mod session;
pub mod simulator;
pub mod text;
pub mod trace;
pub mod workload;

pub use build_config::{BuildConfig, BuildResult};
pub use commit::{Commit, MemAccess, Register, RegisterWrite};
pub use config::{MemoryConfig, SpikeError};
pub use cpu::Cpu;
pub use guest::{Builder, GuestBuilder, GuestConfig};
pub use memory::SparseDram;
pub use parser::{CommitLogParser, ParseError, ParseErrorKind};
pub use regfile::RegFile;
pub use session::ReplaySession;
pub use simulator::AutocxxSpikeTracer;
pub use trace::{MemoryState, RegisterState, TraceInstruction, TraceRecord};
