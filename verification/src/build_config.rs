//! Settings for compiling a guest program with the Rust compiler, and what
//! is read out of the compiler's answers.

use crate::text::{find_after_prefix, first_line_with, line_end, trim, trimmed};
use std::path::PathBuf;
use vstd::prelude::*;
use vstd::string::StringExecFns;

verus! {

/// A file-system path, `std::path::PathBuf`. Nothing is known of what is
/// inside.
#[verifier::external_type_specification]
#[verifier::external_body]
pub struct ExPathBuf(std::path::PathBuf);

/// Configuration for program compilation.
#[derive(Debug, Clone)]
pub struct BuildConfig {
    /// Target triple (e.g., "riscv32im-unknown-none-elf").
    pub target: String,
    /// Additional rustflags.
    pub rustflags: Vec<String>,
    /// Path to linker script (optional).
    pub linker_script: Option<PathBuf>,
    /// Whether to clean up intermediate object files.
    pub cleanup_objects: bool,
    /// Additional object files to link.
    pub additional_objects: Vec<PathBuf>,
    /// Output format (e.g., "elf", "bin", "hex").
    pub output_format: String,
}

impl Default for BuildConfig {
    /// A 64-bit RISC-V target with the M, A and C extensions, ELF output,
    /// no linker script, and object files removed after linking.
    fn default() -> (config: Self)
        ensures
            config.target@ == "riscv64gc-unknown-none-elf"@,
            config.rustflags@.len() == 1,
            config.rustflags@[0]@ == "-C target-feature=+m,+a,+c"@,
            config.linker_script is None,
            config.cleanup_objects,
            config.additional_objects@.len() == 0,
            config.output_format@ == "elf"@,
    {
        let mut rustflags: Vec<String> = Vec::new();
        rustflags.push(String::from_str("-C target-feature=+m,+a,+c"));
        BuildConfig {
            target: String::from_str("riscv64gc-unknown-none-elf"),
            rustflags,
            linker_script: None,
            cleanup_objects: true,
            additional_objects: Vec::new(),
            output_format: String::from_str("elf"),
        }
    }
}

/// Result of compilation.
#[derive(Debug)]
pub struct BuildResult {
    /// Path to the generated output file.
    pub output_path: PathBuf,
    /// Size of the output file in bytes.
    pub output_size: u64,
    /// Time that the build took, in milliseconds.
    pub build_time_ms: Option<u64>,
}

/// The host triple in the compiler's verbose version text: what stands
/// behind `host: ` in the first line that begins so, without the white space
/// around it.
pub open spec fn host_triple_of(text: Seq<char>) -> Option<Seq<char>> {
    match first_line_with(text, 0, "host: "@) {
        Some(at) => Some(trimmed(text.subrange(at + "host: "@.len(), line_end(text, at)))),
        None => None,
    }
}

/// Reads the host triple out of the compiler's verbose version text.
pub fn host_triple_in(version_text: &str) -> (triple: Option<String>)
    ensures
        match triple {
            Some(t) => host_triple_of(version_text@) == Some(t@),
            None => host_triple_of(version_text@) is None,
        },
{
    find_after_prefix(version_text, "host: ")
}

/// Reads the sysroot out of the compiler's answer: the text without the
/// white space around it.
pub fn sysroot_in(answer: &str) -> (sysroot: String)
    ensures
        sysroot@ == trimmed(answer@),
{
    trim(answer)
}

} // verus!
