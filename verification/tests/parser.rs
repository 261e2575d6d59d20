use spike_tracer::decoder::{
    find_immediate, map_reg_id, read_registers, store_bytes, Decoded, Operand, DECODER_REG_X0,
    DECODER_REG_X31,
};
use spike_tracer::parser::{
    commit_from, le_bytes_of, parse_header, scan_mem_accesses, scan_reg_writes, Header,
};
use spike_tracer::text::to_chars;
use spike_tracer::{
    Commit, CommitLogParser, MemAccess, ParseError, ParseErrorKind, Register, RegisterWrite,
};

fn parser() -> CommitLogParser {
    CommitLogParser::new().expect("the decoder opens")
}

fn commit(line: &str) -> Commit {
    parser().parse_line(line).expect("no error").expect("a commit")
}

fn error_kind(line: &str) -> ParseErrorKind {
    match parser().parse_line(line) {
        Err(ParseError { kind, line: carried }) => {
            assert_eq!(carried, line);
            kind
        }
        other => panic!("expected an error, got {:?}", other),
    }
}

fn decoded(mnemonic: &str, operand_text: &str) -> Decoded {
    Decoded {
        mnemonic: Some(mnemonic.to_string()),
        operand_text: Some(operand_text.to_string()),
        operands: vec![],
        regs_read: vec![],
    }
}

#[test]
fn add_into_register_ten() {
    let c = commit("core 0: 3 0x1000 (0x00a58533) x10 0x0000000000000005");
    assert_eq!(
        c,
        Commit {
            hart: 0,
            priv_level: 3,
            pc: 0x1000,
            encoding: 0x00a58533,
            disassembly: "add a0, a1, a0".to_string(),
            imm: None,
            regs_read: vec![],
            bytes_written: None,
            regs: vec![RegisterWrite { reg: Register::X { index: 10 }, value: 5 }],
            mem: vec![],
        }
    );
}

#[test]
fn store_word_line() {
    let c = commit("core   0: 3 0x0000000080000010 (0x00b52023) mem 0x0000000000002000 0x0000002a");
    assert_eq!(c.pc, 0x8000_0010);
    assert_eq!(c.disassembly, "sw a1, 0(a0)");
    assert_eq!(c.bytes_written, Some(4));
    assert_eq!(c.regs, vec![]);
    assert_eq!(c.mem, vec![MemAccess { addr: 0x2000, data: Some(0x2a) }]);
}

#[test]
fn immediate_comes_from_the_decoder() {
    let c = commit("core 0: 3 0x1000 (0x00550513) x10 0x7");
    assert_eq!(c.disassembly, "addi a0, a0, 5");
    assert_eq!(c.imm, Some(5));
    let c = commit("core 0: 3 0x1000 (0xff850513) x10 0x7");
    assert_eq!(c.imm, Some(-8));
}

#[test]
fn compressed_store_is_a_store() {
    let c = commit("core 0: 3 0x1000 (0x0000c10c) mem 0x2000 0x2a");
    assert_eq!(c.disassembly, "c.sw a1, 0(a0)");
    assert_eq!(c.bytes_written, Some(4));
    let c = commit("core 0: 3 0x1000 (0x00b53423) mem 0x2000 0x2a");
    assert_eq!(c.disassembly, "sd a1, 8(a0)");
    assert_eq!(c.bytes_written, Some(8));
}

#[test]
fn lines_without_header_give_nothing() {
    let p = parser();
    for line in [
        "",
        "   ",
        "warning: tohost and fromhost symbols not in ELF",
        "cor 0: 3 0x1000 (0x00a58533)",
        " core 0: 3 0x1000 (0x00a58533) x10 0x5",
        "Core 0: 3 0x1000 (0x00a58533)",
        "core0: 3 0x1000 (0x00a58533)",
        "core : 3 0x1000 (0x00a58533)",
        "core 0 3 0x1000 (0x00a58533)",
        "core 0:3 0x1000 (0x00a58533)",
        "core 0: 33 0x1000 (0x00a58533)",
        "core 0: M 0x1000 (0x00a58533)",
        "core 0: 3 1000 (0x00a58533)",
        "core 0: 3 0X1000 (0x00a58533)",
        "core 0: 3 0x (0x00a58533)",
        "core 0: 3 0x1000(0x00a58533)",
        "core 0: 3 0x1000 0x00a58533",
        "core 0: 3 0x1000 (0x0a58533)",
        "core 0: 3 0x1000 (0x000a58533)",
        "core 0: 3 0x1000 (0x00a5853g)",
        "core 0: 3 0x1000 (00a58533)",
        "core 0: 3 0x1000 (0x00a58533",
        "core 0: 3 0x1000 (0x00a58533 )",
        "core",
        "core 0: 3 0x1000 (",
    ] {
        assert_eq!(p.parse_line(line), Ok(None), "line {:?}", line);
    }
}

#[test]
fn header_takes_any_white_space() {
    let c = commit("core\t\t7:\t1  0xABCdef\u{00A0}(0x00A58533)");
    assert_eq!(c.hart, 7);
    assert_eq!(c.priv_level, 1);
    assert_eq!(c.pc, 0xabcdef);
    assert_eq!(c.encoding, 0x00a58533);
}

#[test]
fn header_numbers_at_their_limits() {
    let c = commit("core 4294967295: 9 0xffffffffffffffff (0x00a58533)");
    assert_eq!(c.hart, u32::MAX);
    assert_eq!(c.priv_level, 9);
    assert_eq!(c.pc, u64::MAX);
    let c = commit("core 0000000000007: 0 0x00000000000000000001 (0x00a58533)");
    assert_eq!(c.hart, 7);
    assert_eq!(c.pc, 1);
}

#[test]
fn hart_too_large_is_an_error() {
    assert_eq!(error_kind("core 4294967296: 3 0x1000 (0x00a58533)"), ParseErrorKind::Hart);
    assert_eq!(
        error_kind("core 99999999999999999999999999: 3 0x1000 (0x00a58533)"),
        ParseErrorKind::Hart
    );
}

#[test]
fn program_counter_too_large_is_an_error() {
    assert_eq!(
        error_kind("core 0: 3 0x10000000000000000 (0x00a58533)"),
        ParseErrorKind::ProgramCounter
    );
}

#[test]
fn hart_is_read_before_program_counter() {
    assert_eq!(
        error_kind("core 4294967296: 3 0x10000000000000000 (0x00a58533)"),
        ParseErrorKind::Hart
    );
}

#[test]
fn register_index_out_of_range_is_an_error() {
    assert_eq!(
        error_kind("core 0: 3 0x1000 (0x00a58533) x32 0x1"),
        ParseErrorKind::RegisterIndex
    );
    assert_eq!(
        error_kind("core 0: 3 0x1000 (0x00a58533) x256 0x1"),
        ParseErrorKind::RegisterIndex
    );
    assert_eq!(
        error_kind("core 0: 3 0x1000 (0x00a58533) f256 0x1"),
        ParseErrorKind::RegisterIndex
    );
    assert_eq!(
        error_kind("core 0: 3 0x1000 (0x00a58533) v99999999999999999999999 0x1"),
        ParseErrorKind::RegisterIndex
    );
}

#[test]
fn register_classes_and_indices() {
    let c = commit("core 0: 3 0x1000 (0x00a58533) x31 0x1 f32 0x2 v255 0x3 x0 0x4 f0 0x5");
    assert_eq!(
        c.regs,
        vec![
            RegisterWrite { reg: Register::X { index: 31 }, value: 1 },
            RegisterWrite { reg: Register::F { index: 32 }, value: 2 },
            RegisterWrite { reg: Register::V { index: 255 }, value: 3 },
            RegisterWrite { reg: Register::X { index: 0 }, value: 4 },
            RegisterWrite { reg: Register::F { index: 0 }, value: 5 },
        ]
    );
}

#[test]
fn register_value_too_large_is_an_error() {
    assert_eq!(
        error_kind("core 0: 3 0x1000 (0x00a58533) x1 0x10000000000000000"),
        ParseErrorKind::RegisterValue
    );
    let c = commit("core 0: 3 0x1000 (0x00a58533) x1 0xFFFFFFFFffffffff");
    assert_eq!(c.regs[0].value, u64::MAX);
}

#[test]
fn register_index_is_read_before_value() {
    assert_eq!(
        error_kind("core 0: 3 0x1000 (0x00a58533) x40 0x10000000000000000"),
        ParseErrorKind::RegisterIndex
    );
}

#[test]
fn first_bad_token_decides() {
    assert_eq!(
        error_kind("core 0: 3 0x1000 (0x00a58533) x1 0x10000000000000000 x99 0x1"),
        ParseErrorKind::RegisterValue
    );
    assert_eq!(
        error_kind("core 0: 3 0x1000 (0x00a58533) mem 0x10000000000000000 x99 0x1"),
        ParseErrorKind::RegisterIndex
    );
}

#[test]
fn memory_number_too_large_is_an_error() {
    assert_eq!(
        error_kind("core 0: 3 0x1000 (0x00b52023) mem 0x10000000000000000 0x1"),
        ParseErrorKind::MemoryAddress
    );
    assert_eq!(
        error_kind("core 0: 3 0x1000 (0x00b52023) mem 0x1 0x10000000000000000"),
        ParseErrorKind::MemoryData
    );
    assert_eq!(
        error_kind("core 0: 3 0x1000 (0x00b52023) mem 0x10000000000000000 0x10000000000000000"),
        ParseErrorKind::MemoryAddress
    );
}

#[test]
fn memory_tokens_with_and_without_data() {
    let c = commit("core 0: 3 0x1000 (0x00852503) x10 0x7 mem 0x2008");
    assert_eq!(c.disassembly, "lw a0, 8(a0)");
    assert_eq!(c.bytes_written, None);
    assert_eq!(c.imm, None);
    assert_eq!(c.regs, vec![RegisterWrite { reg: Register::X { index: 10 }, value: 7 }]);
    assert_eq!(c.mem, vec![MemAccess { addr: 0x2008, data: None }]);

    let c = commit("core 0: 3 0x1000 (0x00b52023) mem 0x10 0x1 mem 0x20 mem\t0x30\t\t0x3 mem 0x40 5");
    assert_eq!(
        c.mem,
        vec![
            MemAccess { addr: 0x10, data: Some(1) },
            MemAccess { addr: 0x20, data: None },
            MemAccess { addr: 0x30, data: Some(3) },
            MemAccess { addr: 0x40, data: None },
        ]
    );
}

#[test]
fn tokens_start_at_a_word_boundary() {
    let c = commit(
        "core 0: 3 0x1000 (0x00a58533) ax1 0x1 _x2 0x2 9x3 0x3 (x4 0x4) -f5 0x5 xx6 0x6 amem 0x7 .mem 0x8",
    );
    assert_eq!(
        c.regs,
        vec![
            RegisterWrite { reg: Register::X { index: 4 }, value: 4 },
            RegisterWrite { reg: Register::F { index: 5 }, value: 5 },
        ]
    );
    assert_eq!(c.mem, vec![MemAccess { addr: 8, data: None }]);
}

#[test]
fn malformed_tokens_are_no_tokens() {
    let c = commit(
        "core 0: 3 0x1000 (0x00a58533) x 0x1 x1 1 x2 0x x3 x4  0X5 x5:0x5 x6 0xg mem mem: 0x1 mem 0y1 memo 0x2",
    );
    assert_eq!(c.regs, vec![]);
    assert_eq!(c.mem, vec![]);
}

#[test]
fn tokens_do_not_overlap() {
    let c = commit("core 0: 3 0x1000 (0x00a58533) x1 0x5x2 0x6 x7 0x8");
    assert_eq!(
        c.regs,
        vec![
            RegisterWrite { reg: Register::X { index: 1 }, value: 5 },
            RegisterWrite { reg: Register::X { index: 7 }, value: 8 },
        ]
    );
    let c = commit("core 0: 3 0x1000 (0x00a58533) x1 0xf2 0x6");
    assert_eq!(c.regs, vec![RegisterWrite { reg: Register::X { index: 1 }, value: 0xf2 }]);
}

#[test]
fn control_register_tokens_are_dropped() {
    let c = commit("core 0: 3 0x1000 (0x30529073) c773_mtvec 0x0000000080000004 csr_x1 0x9");
    assert_eq!(c.disassembly, "csrw mtvec, t0");
    assert_eq!(c.regs, vec![]);
    assert_eq!(c.mem, vec![]);
}

#[test]
fn float_write_is_kept() {
    let c = commit("core 0: 3 0x1000 (0x00a5f5d3) f11 0x3");
    assert_eq!(c.disassembly, "fadd.s fa1, fa1, fa0");
    assert_eq!(c.regs, vec![RegisterWrite { reg: Register::F { index: 11 }, value: 3 }]);
}

#[test]
fn unknown_encoding_gives_nothing() {
    let p = parser();
    assert_eq!(p.parse_line("core 0: 3 0x1000 (0xffffffff)"), Ok(None));
    assert_eq!(p.parse_line("core 0: 3 0x1000 (0xffffffff) x99 0x1 mem 0x10000000000000000"), Ok(None));
}

#[test]
fn header_error_comes_before_decoding() {
    assert_eq!(error_kind("core 4294967296: 3 0x1000 (0xffffffff)"), ParseErrorKind::Hart);
}

#[test]
fn one_parser_many_lines() {
    let p = parser();
    let first = p.parse_line("core 0: 3 0x1000 (0x00a58533) x10 0x5");
    let again = p.parse_line("core 0: 3 0x1000 (0x00a58533) x10 0x5");
    assert_eq!(first, again);
    assert!(first.unwrap().is_some());
    let other = parser().parse_line("core 0: 3 0x1000 (0x00a58533) x10 0x5");
    assert_eq!(other, again);
}

#[test]
fn header_alone() {
    assert_eq!(
        parse_header("core 12: 1 0x80000000 (0xdeadBEEF) and more"),
        Ok(Some(Header { hart: 12, priv_level: 1, pc: 0x8000_0000, encoding: 0xdead_beef, rest: 34 }))
    );
    assert_eq!(parse_header("nothing here"), Ok(None));
    assert_eq!(
        parse_header("core 4294967296: 1 0x80000000 (0xdeadbeef)"),
        Err(ParseError {
            kind: ParseErrorKind::Hart,
            line: "core 4294967296: 1 0x80000000 (0xdeadbeef)".to_string()
        })
    );
}

#[test]
fn commit_from_decoded_instruction() {
    let line = "core 1: 0 0x20 (0x00000013) x3 0x9 mem 0x8";
    let header = parse_header(line).unwrap().unwrap();
    let d = Decoded {
        mnemonic: Some("sh".to_string()),
        operand_text: Some("a1, 2(a0)".to_string()),
        operands: vec![
            Operand::Register(12),
            Operand::Memory,
            Operand::Immediate(-3),
            Operand::Invalid,
            Operand::Immediate(4),
        ],
        regs_read: vec![11, 0, 1, 33, 32, 600],
    };
    assert_eq!(
        commit_from(line, &header, Some(d)),
        Ok(Some(Commit {
            hart: 1,
            priv_level: 0,
            pc: 0x20,
            encoding: 0x13,
            disassembly: "sh a1, 2(a0)".to_string(),
            imm: Some(-3),
            regs_read: vec![
                Register::X { index: 10 },
                Register::X { index: 0 },
                Register::X { index: 31 },
            ],
            bytes_written: Some(2),
            regs: vec![RegisterWrite { reg: Register::X { index: 3 }, value: 9 }],
            mem: vec![MemAccess { addr: 8, data: None }],
        }))
    );
    assert_eq!(commit_from(line, &header, None), Ok(None));
}

#[test]
fn commit_from_decoder_without_text() {
    let line = "core 1: 0 0x20 (0x00000013)";
    let header = parse_header(line).unwrap().unwrap();
    let d = Decoded { mnemonic: None, operand_text: None, operands: vec![], regs_read: vec![] };
    let c = commit_from(line, &header, Some(d)).unwrap().unwrap();
    assert_eq!(c.disassembly, " ");
    assert_eq!(c.bytes_written, None);
    assert_eq!(c.imm, None);
}

#[test]
fn commit_from_reports_token_errors() {
    let line = "core 1: 0 0x20 (0x00000013) x77 0x1";
    let header = parse_header(line).unwrap().unwrap();
    assert_eq!(
        commit_from(line, &header, Some(decoded("nop", ""))),
        Err(ParseError { kind: ParseErrorKind::RegisterIndex, line: line.to_string() })
    );
    assert_eq!(commit_from(line, &header, None), Ok(None));
}

#[test]
fn scanning_starts_where_asked() {
    let chars = to_chars("x1 0x1 x2 0x2 mem 0x3 mem 0x4 0x5");
    assert_eq!(
        scan_reg_writes(&chars, 0),
        Ok(vec![
            RegisterWrite { reg: Register::X { index: 1 }, value: 1 },
            RegisterWrite { reg: Register::X { index: 2 }, value: 2 },
        ])
    );
    assert_eq!(
        scan_reg_writes(&chars, 1),
        Ok(vec![RegisterWrite { reg: Register::X { index: 2 }, value: 2 }])
    );
    assert_eq!(scan_reg_writes(&chars, chars.len()), Ok(vec![]));
    assert_eq!(
        scan_mem_accesses(&chars, 15),
        Ok(vec![MemAccess { addr: 4, data: Some(5) }])
    );
}

#[test]
fn encoding_bytes_are_little_endian() {
    assert_eq!(le_bytes_of(0x00a58533), [0x33, 0x85, 0xa5, 0x00]);
    assert_eq!(le_bytes_of(0xdeadbeef), [0xef, 0xbe, 0xad, 0xde]);
}

#[test]
fn store_widths() {
    for (m, w) in [
        ("sb", Some(1)),
        ("c.sb", Some(1)),
        ("sh", Some(2)),
        ("c.sh", Some(2)),
        ("sw", Some(4)),
        ("c.sw", Some(4)),
        ("c.swsp", Some(4)),
        ("sd", Some(8)),
        ("c.sd", Some(8)),
        ("c.sdsp", Some(8)),
        ("fsw", Some(4)),
        ("fsd", Some(8)),
        ("vse8", Some(1)),
        ("vse8.v", Some(1)),
        ("vsse8.v", Some(1)),
        ("vse16.v", Some(2)),
        ("vsse16.v", Some(2)),
        ("vse32.v", Some(4)),
        ("vsse32.v", Some(4)),
        ("vse64.v", Some(8)),
        ("vsse64.v", Some(8)),
        ("vse80", Some(1)),
        ("", None),
        ("lw", None),
        ("sbx", None),
        ("SB", None),
        ("c.fsd", None),
        ("vse", None),
        ("vse128.v", None),
        ("vsse", None),
        ("add", None),
    ] {
        assert_eq!(store_bytes(m), w, "mnemonic {:?}", m);
    }
}

#[test]
fn decoder_register_numbers() {
    assert_eq!(map_reg_id(0), None);
    assert_eq!(map_reg_id(1), Some(Register::X { index: 0 }));
    assert_eq!(map_reg_id(11), Some(Register::X { index: 10 }));
    assert_eq!(map_reg_id(32), Some(Register::X { index: 31 }));
    assert_eq!(map_reg_id(33), None);
    assert_eq!(map_reg_id(u32::MAX), None);
    assert_eq!(DECODER_REG_X0, capstone::arch::riscv::RiscVReg::RISCV_REG_X0);
    assert_eq!(DECODER_REG_X31, capstone::arch::riscv::RiscVReg::RISCV_REG_X31);
}

#[test]
fn registers_and_immediates_are_picked_in_order() {
    assert_eq!(
        read_registers(&vec![40, 2, 1, 0, 32]),
        vec![Register::X { index: 1 }, Register::X { index: 0 }, Register::X { index: 31 }]
    );
    assert_eq!(read_registers(&vec![]), vec![]);
    assert_eq!(find_immediate(&vec![]), None);
    assert_eq!(find_immediate(&vec![Operand::Register(1), Operand::Memory]), None);
    assert_eq!(
        find_immediate(&vec![Operand::Register(1), Operand::Immediate(i64::MIN), Operand::Immediate(2)]),
        Some(i64::MIN)
    );
}

#[test]
fn numbers_read_only_in_ascii_digits() {
    assert_eq!(error_kind("core \u{0663}: 3 0x1000 (0x00a58533)"), ParseErrorKind::Hart);
    assert_eq!(error_kind("core 1\u{ff12}3: 3 0x1000 (0x00a58533)"), ParseErrorKind::Hart);
    assert_eq!(error_kind("core 0: \u{0663} 0x1000 (0x00a58533)"), ParseErrorKind::Privilege);
    assert_eq!(
        error_kind("core 0: 3 0x1000 (0x00a58533) x\u{0661} 0x5"),
        ParseErrorKind::RegisterIndex
    );
    assert_eq!(
        error_kind("core 0: 3 0x1000 (0x00a58533) f1\u{0967} 0x5"),
        ParseErrorKind::RegisterIndex
    );
}

#[test]
fn hart_is_read_before_privilege_before_program_counter() {
    assert_eq!(
        error_kind("core \u{0663}: \u{0663} 0x10000000000000000 (0x00a58533)"),
        ParseErrorKind::Hart
    );
    assert_eq!(
        error_kind("core 3: \u{0663} 0x10000000000000000 (0x00a58533)"),
        ParseErrorKind::Privilege
    );
}

#[test]
fn digits_of_other_scripts_are_no_hexadecimal_digits() {
    let p = parser();
    assert_eq!(p.parse_line("core 0: 3 0x\u{0663} (0x00a58533)"), Ok(None));
    assert_eq!(p.parse_line("core 0: 3 0x1000 (0x00a5853\u{0663})"), Ok(None));
    let c = commit("core 0: 3 0x1000 (0x00a58533) x1 0x\u{0663} mem 0x\u{0663}");
    assert_eq!(c.regs, vec![]);
    assert_eq!(c.mem, vec![]);
}

#[test]
fn words_of_other_scripts_hide_a_token() {
    let c = commit(
        "core 0: 3 0x1000 (0x00a58533) \u{e9}x1 0x1 \u{2192}x2 0x2 \u{4e2d}mem 0x3 \u{00a0}mem 0x4 \u{0663}x5 0x5 \u{203f}f6 0x6 \u{20ac}v7 0x7",
    );
    assert_eq!(
        c.regs,
        vec![
            RegisterWrite { reg: Register::X { index: 2 }, value: 2 },
            RegisterWrite { reg: Register::V { index: 7 }, value: 7 },
        ]
    );
    assert_eq!(c.mem, vec![MemAccess { addr: 4, data: None }]);
}
