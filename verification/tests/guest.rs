use spike_tracer::htif::{exit_payload, exit_word, htif_word, HTIF_CMD_HALT, HTIF_DEVICE_HALT};
use spike_tracer::text::{first_word_of, push_decimal, trim};
use spike_tracer::workload::{sum_sq, voj, SUM_SQ_MAX_INPUT};
use spike_tracer::{Builder, GuestBuilder, GuestConfig};

const TEMPLATE: &str = r#"
MEMORY {
  program (rwx) : ORIGIN = 0x80000000, LENGTH = {MEMORY_SIZE}
}

SECTIONS {
  .text.boot : {
    *(.text.boot)
  } > program

  .text : {
    *(.text)
  } > program

  .data : {
    *(.data)
  } > program

  .bss : {
    *(.bss)
  } > program

  . = ALIGN(8);
  . = . + {STACK_SIZE};
  _STACK_PTR = .;
  . = ALIGN(8);
  _HEAP_PTR = .;
}
"#;

fn script(memory: u64, stack: u64) -> String {
    TEMPLATE
        .replace("{MEMORY_SIZE}", &memory.to_string())
        .replace("{STACK_SIZE}", &stack.to_string())
}

fn pair(name: &str, value: &str) -> (String, String) {
    (name.to_string(), value.to_string())
}

#[test]
fn linker_path_holds_the_name() {
    let builder = Builder::new("fib-guest", "fib", "target/fib-guest");
    assert_eq!(builder.linker_path(), "/tmp/jolt-guest-linkers/fib-guest.ld");
    assert_eq!(Builder::new("", "", "").linker_path(), "/tmp/jolt-guest-linkers/.ld");
}

#[test]
fn linker_script_holds_the_sizes() {
    let builder = Builder::new("fib-guest", "fib", "target/fib-guest");
    assert_eq!(builder.linker_script(), script(10 * 1024 * 1024, 4 * 1024));
    let builder = builder.memory_size(0).stack_size(u64::MAX);
    assert_eq!(builder.linker_script(), script(0, u64::MAX));
    let builder = builder.memory_size(1_000_000_007).stack_size(90);
    assert_eq!(builder.linker_script(), script(1_000_000_007, 90));
}

#[test]
fn plan_without_std() {
    let plan = Builder::new("fib-guest", "fib", "target/fib-guest")
        .use_std(false)
        .memory_size(10 * 1024 * 1024)
        .stack_size(4 * 1024)
        .plan();
    assert_eq!(
        plan.envs,
        vec![
            pair(
                "CARGO_ENCODED_RUSTFLAGS",
                "-Clink-arg=-T/tmp/jolt-guest-linkers/fib-guest.ld\x1f-Cpasses=lower-atomic\x1f-Cpanic=abort\x1f-Cstrip=symbols\x1f-Copt-level=z"
            ),
            pair("JOLT_FUNC_NAME", "fib"),
        ]
    );
    assert_eq!(
        plan.args,
        vec![
            "build",
            "--release",
            "--features",
            "guest",
            "-p",
            "fib-guest",
            "--target-dir",
            "target/fib-guest/fib-guest-fib",
            "--target",
            "riscv32im-unknown-none-elf",
        ]
    );
    assert_eq!(plan.target_dir, "target/fib-guest/fib-guest-fib");
    assert_eq!(
        plan.elf_path,
        "target/fib-guest/fib-guest-fib/riscv32im-unknown-none-elf/release/fib-guest"
    );
}

#[test]
fn plan_with_std() {
    let builder = Builder::new("voj", "verify", "/tmp/t").use_std(true);
    assert_eq!(builder.toolchain(), "riscv32im-jolt-zkvm-elf");
    let plan = builder.plan();
    assert_eq!(plan.envs.len(), 3);
    assert_eq!(plan.envs[1], pair("RUSTUP_TOOLCHAIN", "riscv32im-jolt-zkvm-elf"));
    assert_eq!(plan.envs[2], pair("JOLT_FUNC_NAME", "verify"));
    assert_eq!(plan.args[9], "riscv32im-jolt-zkvm-elf");
    assert_eq!(plan.args[7], "/tmp/t/voj-verify");
    assert_eq!(plan.elf_path, "/tmp/t/voj-verify/riscv32im-jolt-zkvm-elf/release/voj");
    assert_eq!(builder.use_std(false).toolchain(), "riscv32im-unknown-none-elf");
}

#[test]
fn guest_config_default() {
    let config = GuestConfig::default();
    assert_eq!(config.program_name, "");
    assert_eq!(config.function_name, "");
    assert_eq!(config.memory_size, 10 * 1024 * 1024);
    assert_eq!(config.stack_size, 4 * 1024);
    assert_eq!(config.max_input_size, 4 * 1024);
    assert_eq!(config.max_output_size, 4 * 1024);
    assert!(!config.use_std);
}

#[test]
fn guest_builder_sets_each_field() {
    let config = GuestBuilder::new("fib-guest").into_config();
    assert_eq!(config.program_name, "fib-guest");
    assert_eq!(config.function_name, "");
    assert_eq!(config.memory_size, 10485760);
    let config = GuestBuilder::new("fib-guest")
        .with_function_name("fib")
        .with_memory_size(1)
        .with_stack_size(2)
        .with_max_input_size(3)
        .with_max_output_size(4)
        .with_std(true)
        .into_config();
    assert_eq!(config.program_name, "fib-guest");
    assert_eq!(config.function_name, "fib");
    assert_eq!(config.memory_size, 1);
    assert_eq!(config.stack_size, 2);
    assert_eq!(config.max_input_size, 3);
    assert_eq!(config.max_output_size, 4);
    assert!(config.use_std);
    let config = GuestBuilder::new("a").with_memory_size(9).with_memory_size(8).into_config();
    assert_eq!(config.memory_size, 8);
    assert_eq!(config.stack_size, 4096);
}

#[test]
fn decimal_numerals() {
    for n in [0u64, 1, 9, 10, 11, 99, 100, 101, 4096, 10485760, 1_000_000_007, u64::MAX - 1, u64::MAX] {
        let mut text = String::from("n=");
        push_decimal(&mut text, n);
        assert_eq!(text, format!("n={}", n));
    }
}

#[test]
fn trimming_and_first_words() {
    assert_eq!(trim("  a b \t\n"), "a b");
    assert_eq!(trim("\u{2003}x\u{00a0}"), "x");
    assert_eq!(trim("x"), "x");
    assert_eq!(trim(""), "");
    assert_eq!(trim("\u{e9}t\u{e9} "), "\u{e9}t\u{e9}");
    assert_eq!(first_word_of("  sw a0"), "sw");
    assert_eq!(first_word_of("\u{e9}t\u{e9}\u{3000}x"), "\u{e9}t\u{e9}");
    for text in ["", " ", "a", " a ", "add a0, a1", "\t\tc.sw\ta1"] {
        assert_eq!(first_word_of(text), text.split_whitespace().next().unwrap_or(""));
        assert_eq!(trim(text), text.trim());
    }
}

#[test]
fn htif_words() {
    assert_eq!(htif_word(0, 0, 0), 0);
    assert_eq!(htif_word(1, 2, 3), (1 << 48) | (2 << 32) | 3);
    assert_eq!(htif_word(0x1_ffff, 0x2_0001, 0x3_0000_0004), (0xffff << 48) | (1 << 32) | 4);
    assert_eq!(htif_word(u64::MAX, u64::MAX, u64::MAX), u64::MAX);
    assert_eq!(HTIF_DEVICE_HALT, 0);
    assert_eq!(HTIF_CMD_HALT, 0);
}

#[test]
fn exit_codes() {
    assert_eq!(exit_payload(0), 1);
    assert_eq!(exit_payload(1), 3);
    assert_eq!(exit_payload(14), 29);
    assert_eq!(exit_payload(0x7fff_ffff), 0xffff_ffff);
    assert_eq!(exit_payload(0x8000_0000), 1);
    assert_eq!(exit_payload(u32::MAX), 0xffff_ffff);
    assert_eq!(exit_word(0), 1);
    assert_eq!(exit_word(14), 29);
    assert_eq!(exit_word(u32::MAX), 0xffff_ffff);
}

#[test]
fn sums_of_squares() {
    assert_eq!(sum_sq(0), 0);
    assert_eq!(sum_sq(1), 1);
    assert_eq!(sum_sq(3), 14);
    assert_eq!(sum_sq(10), 385);
    assert_eq!(sum_sq(100), 338_350);
    assert_eq!(sum_sq(2343), 4_290_161_084);
}

#[test]
fn greatest_sum_of_squares_input() {
    assert_eq!(SUM_SQ_MAX_INPUT, 2343);
    let n = SUM_SQ_MAX_INPUT as u64;
    assert!(n * (n + 1) * (2 * n + 1) / 6 <= u32::MAX as u64);
    assert!((n + 1) * (n + 2) * (2 * n + 3) / 6 > u32::MAX as u64);
}

#[test]
fn fibonacci_numbers() {
    assert_eq!(voj(0), 1);
    assert_eq!(voj(1), 1);
    assert_eq!(voj(2), 1);
    assert_eq!(voj(3), 2);
    assert_eq!(voj(10), 55);
    assert_eq!(voj(50), 12_586_269_025);
    assert_eq!(voj(186), 332_825_110_087_067_562_321_196_029_789_634_457_848);
}
