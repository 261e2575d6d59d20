//! Building a guest program for the proving machine: the settings, the
//! linker script and the compiler invocation that follow from them.

use crate::text::{decimal_digits, push_decimal};
use vstd::prelude::*;
use vstd::string::StringExecFns;

verus! {

/// Toolchain for guests that use the standard library.
pub open spec fn std_toolchain() -> Seq<char> {
    "riscv32im-jolt-zkvm-elf"@
}

/// Toolchain for guests that do not.
pub open spec fn bare_toolchain() -> Seq<char> {
    "riscv32im-unknown-none-elf"@
}

/// A guest builder's settings as a mathematical value.
pub struct BuilderView {
    pub name: Seq<char>,
    pub func: Option<Seq<char>>,
    pub use_std: bool,
    pub memory_size: u64,
    pub stack_size: u64,
    pub target_dir: Seq<char>,
}

impl BuilderView {
    /// The function name, or the empty text.
    pub open spec fn func_name(self) -> Seq<char> {
        match self.func {
            Some(f) => f,
            None => Seq::empty(),
        }
    }

    /// The toolchain that the guest is compiled for.
    pub open spec fn toolchain(self) -> Seq<char> {
        if self.use_std {
            std_toolchain()
        } else {
            bare_toolchain()
        }
    }

    /// Where the linker script is kept.
    pub open spec fn linker_path(self) -> Seq<char> {
        "/tmp/jolt-guest-linkers/"@ + self.name + ".ld"@
    }

    /// The linker script: one memory region of `memory_size` bytes, the
    /// sections, and a stack of `stack_size` bytes below the heap.
    pub open spec fn linker_script(self) -> Seq<char> {
        script_head() + decimal_digits(self.memory_size as nat) + script_middle() + decimal_digits(
            self.stack_size as nat,
        ) + script_tail()
    }

    /// The compiler flags, joined by the unit separator.
    pub open spec fn encoded_flags(self) -> Seq<char> {
        "-Clink-arg=-T"@ + self.linker_path()
            + "\x1f-Cpasses=lower-atomic\x1f-Cpanic=abort\x1f-Cstrip=symbols\x1f-Copt-level=z"@
    }

    /// The directory that the compiler writes into.
    pub open spec fn build_dir(self) -> Seq<char> {
        self.target_dir + "/"@ + self.name + "-"@ + self.func_name()
    }

    /// Where the compiled guest is found.
    pub open spec fn elf_path(self) -> Seq<char> {
        self.build_dir() + "/"@ + self.toolchain() + "/release/"@ + self.name
    }

    /// The environment of the compiler invocation, as names and values.
    pub open spec fn envs(self) -> Seq<(Seq<char>, Seq<char>)> {
        let flags = seq![("CARGO_ENCODED_RUSTFLAGS"@, self.encoded_flags())];
        let toolchain = if self.use_std {
            seq![("RUSTUP_TOOLCHAIN"@, self.toolchain())]
        } else {
            Seq::empty()
        };
        flags + toolchain + seq![("JOLT_FUNC_NAME"@, self.func_name())]
    }

    /// The arguments of the compiler invocation.
    pub open spec fn args(self) -> Seq<Seq<char>> {
        seq![
            "build"@,
            "--release"@,
            "--features"@,
            "guest"@,
            "-p"@,
            self.name,
            "--target-dir"@,
            self.build_dir(),
            "--target"@,
            self.toolchain(),
        ]
    }
}

/// The linker script up to the size of the memory region.
pub open spec fn script_head() -> Seq<char> {
    "\nMEMORY {\n  program (rwx) : ORIGIN = 0x80000000, LENGTH = "@
}

/// The linker script between the size of the memory region and the size of
/// the stack.
pub open spec fn script_middle() -> Seq<char> {
    "\n}\n\nSECTIONS {\n  .text.boot : {\n    *(.text.boot)\n  } > program\n\n  .text : {\n    *(.text)\n  } > program\n\n  .data : {\n    *(.data)\n  } > program\n\n  .bss : {\n    *(.bss)\n  } > program\n\n  . = ALIGN(8);\n  . = . + "@
}

/// The linker script behind the size of the stack.
pub open spec fn script_tail() -> Seq<char> {
    ";\n  _STACK_PTR = .;\n  . = ALIGN(8);\n  _HEAP_PTR = .;\n}\n"@
}

/// How the compiler is to be called for a guest.
#[derive(Debug, Clone, PartialEq, Eq)]
pub struct BuildPlan {
    /// Environment variables: name and value.
    pub envs: Vec<(String, String)>,
    /// Arguments to `cargo`.
    pub args: Vec<String>,
    /// The directory that the compiler writes into.
    pub target_dir: String,
    /// Where the compiled guest is found afterwards.
    pub elf_path: String,
}

impl BuildPlan {
    /// The environment as texts.
    pub open spec fn env_texts(self) -> Seq<(Seq<char>, Seq<char>)> {
        Seq::new(self.envs@.len(), |i: int| (self.envs@[i].0@, self.envs@[i].1@))
    }

    /// The arguments as texts.
    pub open spec fn arg_texts(self) -> Seq<Seq<char>> {
        Seq::new(self.args@.len(), |i: int| self.args@[i]@)
    }
}

/// Builder for compiling guest programs.
pub struct Builder {
    name: String,
    func: Option<String>,
    use_std: bool,
    memory_size: u64,
    stack_size: u64,
    target_dir: String,
}

impl View for Builder {
    type V = BuilderView;

    closed spec fn view(&self) -> BuilderView {
        BuilderView {
            name: self.name@,
            func: match self.func {
                Some(f) => Some(f@),
                None => None,
            },
            use_std: self.use_std,
            memory_size: self.memory_size,
            stack_size: self.stack_size,
            target_dir: self.target_dir@,
        }
    }
}

impl Builder {
    /// Create a builder for the function `func` of the package `name`: no
    /// standard library, 10 MiB of memory, 4 KiB of stack.
    pub fn new(name: &str, func: &str, target_dir: &str) -> (builder: Self)
        ensures
            builder@ == (BuilderView {
                name: name@,
                func: Some(func@),
                use_std: false,
                memory_size: 10485760,
                stack_size: 4096,
                target_dir: target_dir@,
            }),
    {
        Builder {
            name: name.to_owned(),
            func: Some(func.to_owned()),
            use_std: false,
            memory_size: 10 * 1024 * 1024,
            stack_size: 4 * 1024,
            target_dir: target_dir.to_owned(),
        }
    }

    /// Set whether to use the standard library.
    pub fn use_std(self, use_std: bool) -> (builder: Self)
        ensures
            builder@ == (BuilderView { use_std, ..self@ }),
    {
        let mut builder = self;
        builder.use_std = use_std;
        builder
    }

    /// Set the memory size.
    pub fn memory_size(self, size: u64) -> (builder: Self)
        ensures
            builder@ == (BuilderView { memory_size: size, ..self@ }),
    {
        let mut builder = self;
        builder.memory_size = size;
        builder
    }

    /// Set the stack size.
    pub fn stack_size(self, size: u64) -> (builder: Self)
        ensures
            builder@ == (BuilderView { stack_size: size, ..self@ }),
    {
        let mut builder = self;
        builder.stack_size = size;
        builder
    }

    /// Where the linker script of this guest is kept.
    pub fn linker_path(&self) -> (path: String)
        ensures
            path@ == self@.linker_path(),
    {
        String::from_str("/tmp/jolt-guest-linkers/").concat(self.name.as_str()).concat(".ld")
    }

    /// The linker script of this guest.
    pub fn linker_script(&self) -> (script: String)
        ensures
            script@ == self@.linker_script(),
    {
        let mut script = String::from_str(
            "\nMEMORY {\n  program (rwx) : ORIGIN = 0x80000000, LENGTH = ",
        );
        push_decimal(&mut script, self.memory_size);
        script.append(
            "\n}\n\nSECTIONS {\n  .text.boot : {\n    *(.text.boot)\n  } > program\n\n  .text : {\n    *(.text)\n  } > program\n\n  .data : {\n    *(.data)\n  } > program\n\n  .bss : {\n    *(.bss)\n  } > program\n\n  . = ALIGN(8);\n  . = . + ",
        );
        push_decimal(&mut script, self.stack_size);
        script.append(";\n  _STACK_PTR = .;\n  . = ALIGN(8);\n  _HEAP_PTR = .;\n}\n");
        script
    }

    /// The toolchain that this guest is compiled for.
    pub fn toolchain(&self) -> (toolchain: &'static str)
        ensures
            toolchain@ == self@.toolchain(),
    {
        if self.use_std {
            "riscv32im-jolt-zkvm-elf"
        } else {
            "riscv32im-unknown-none-elf"
        }
    }

    /// How the compiler is to be called for this guest.
    pub fn plan(&self) -> (plan: BuildPlan)
        ensures
            plan.env_texts() == self@.envs(),
            plan.arg_texts() == self@.args(),
            plan.target_dir@ == self@.build_dir(),
            plan.elf_path@ == self@.elf_path(),
    {
        let toolchain = self.toolchain();
        let func: &str = match &self.func {
            Some(f) => f.as_str(),
            None => "",
        };
        proof {
            reveal_strlit("");
            assert(""@ =~= Seq::<char>::empty());
        }
        let flags = String::from_str("-Clink-arg=-T").concat(self.linker_path().as_str()).concat(
            "\x1f-Cpasses=lower-atomic\x1f-Cpanic=abort\x1f-Cstrip=symbols\x1f-Copt-level=z",
        );
        let target_dir = String::from_str(self.target_dir.as_str()).concat("/").concat(
            self.name.as_str(),
        ).concat("-").concat(func);
        let elf_path = String::from_str(target_dir.as_str()).concat("/").concat(toolchain).concat(
            "/release/",
        ).concat(self.name.as_str());

        let mut envs: Vec<(String, String)> = Vec::new();
        envs.push((String::from_str("CARGO_ENCODED_RUSTFLAGS"), flags));
        if self.use_std {
            envs.push((String::from_str("RUSTUP_TOOLCHAIN"), String::from_str(toolchain)));
        }
        envs.push((String::from_str("JOLT_FUNC_NAME"), String::from_str(func)));

        let mut args: Vec<String> = Vec::new();
        args.push(String::from_str("build"));
        args.push(String::from_str("--release"));
        args.push(String::from_str("--features"));
        args.push(String::from_str("guest"));
        args.push(String::from_str("-p"));
        args.push(String::from_str(self.name.as_str()));
        args.push(String::from_str("--target-dir"));
        args.push(String::from_str(target_dir.as_str()));
        args.push(String::from_str("--target"));
        args.push(String::from_str(toolchain));

        let plan = BuildPlan { envs, args, target_dir, elf_path };
        assert(plan.env_texts() =~= self@.envs());
        assert(plan.arg_texts() =~= self@.args());
        plan
    }
}

/// Configuration for building a guest.
#[derive(Debug, Clone)]
pub struct GuestConfig {
    pub program_name: String,
    pub function_name: String,
    pub memory_size: u64,
    pub stack_size: u64,
    pub max_input_size: u64,
    pub max_output_size: u64,
    pub use_std: bool,
}

/// A guest configuration as a mathematical value.
pub struct GuestConfigView {
    pub program_name: Seq<char>,
    pub function_name: Seq<char>,
    pub memory_size: u64,
    pub stack_size: u64,
    pub max_input_size: u64,
    pub max_output_size: u64,
    pub use_std: bool,
}

impl GuestConfigView {
    /// The configuration that a builder starts from: no names, 10 MiB of
    /// memory, 4 KiB each of stack, input and output, no standard library.
    pub open spec fn initial() -> GuestConfigView {
        GuestConfigView {
            program_name: Seq::empty(),
            function_name: Seq::empty(),
            memory_size: 10485760,
            stack_size: 4096,
            max_input_size: 4096,
            max_output_size: 4096,
            use_std: false,
        }
    }
}

impl View for GuestConfig {
    type V = GuestConfigView;

    open spec fn view(&self) -> GuestConfigView {
        GuestConfigView {
            program_name: self.program_name@,
            function_name: self.function_name@,
            memory_size: self.memory_size,
            stack_size: self.stack_size,
            max_input_size: self.max_input_size,
            max_output_size: self.max_output_size,
            use_std: self.use_std,
        }
    }
}

impl Default for GuestConfig {
    fn default() -> (config: Self)
        ensures
            config@ == GuestConfigView::initial(),
    {
        GuestConfig {
            program_name: String::new(),
            function_name: String::new(),
            memory_size: 10485760,
            stack_size: 4096,
            max_input_size: 4096,
            max_output_size: 4096,
            use_std: false,
        }
    }
}

/// Builder for guest configurations.
pub struct GuestBuilder {
    config: GuestConfig,
}

impl View for GuestBuilder {
    type V = GuestConfigView;

    closed spec fn view(&self) -> GuestConfigView {
        self.config@
    }
}

impl GuestBuilder {
    /// Starts from the initial configuration, with the program's name set.
    pub fn new(program_name: &str) -> (builder: Self)
        ensures
            builder@ == (GuestConfigView { program_name: program_name@, ..GuestConfigView::initial() }),
    {
        let mut config = GuestConfig::default();
        config.program_name = program_name.to_owned();
        GuestBuilder { config }
    }

    /// Sets the name of the function to prove.
    pub fn with_function_name(self, function_name: &str) -> (builder: Self)
        ensures
            builder@ == (GuestConfigView { function_name: function_name@, ..self@ }),
    {
        let mut builder = self;
        builder.config.function_name = function_name.to_owned();
        builder
    }

    /// Sets the memory size.
    pub fn with_memory_size(self, size: u64) -> (builder: Self)
        ensures
            builder@ == (GuestConfigView { memory_size: size, ..self@ }),
    {
        let mut builder = self;
        builder.config.memory_size = size;
        builder
    }

    /// Sets the stack size.
    pub fn with_stack_size(self, size: u64) -> (builder: Self)
        ensures
            builder@ == (GuestConfigView { stack_size: size, ..self@ }),
    {
        let mut builder = self;
        builder.config.stack_size = size;
        builder
    }

    /// Sets the greatest size of the input.
    pub fn with_max_input_size(self, size: u64) -> (builder: Self)
        ensures
            builder@ == (GuestConfigView { max_input_size: size, ..self@ }),
    {
        let mut builder = self;
        builder.config.max_input_size = size;
        builder
    }

    /// Sets the greatest size of the output.
    pub fn with_max_output_size(self, size: u64) -> (builder: Self)
        ensures
            builder@ == (GuestConfigView { max_output_size: size, ..self@ }),
    {
        let mut builder = self;
        builder.config.max_output_size = size;
        builder
    }

    /// Sets whether the guest uses the standard library.
    pub fn with_std(self, use_std: bool) -> (builder: Self)
        ensures
            builder@ == (GuestConfigView { use_std, ..self@ }),
    {
        let mut builder = self;
        builder.config.use_std = use_std;
        builder
    }

    /// Hands out the configuration that was put together.
    pub fn into_config(self) -> (config: GuestConfig)
        ensures
            config@ == self@,
    {
        self.config
    }
}

} // verus!
