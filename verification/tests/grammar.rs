use regex::Regex;
use spike_tracer::parser::{parse_header, scan_mem_accesses, scan_reg_writes, Header};
use spike_tracer::text::{char_in_class, char_is_space, char_is_word, to_chars, CharClass};
use spike_tracer::{MemAccess, ParseErrorKind, Register, RegisterWrite};

const HEADER: &str = r"^core\s+(\d+):\s+(\d)\s+(0x[0-9a-fA-F]+)\s+\((0x[0-9a-fA-F]{8})\)";
const REG: &str = r"\b([xfv])(\d+)\s+(0x[0-9a-fA-F]+)";
const MEM: &str = r"\bmem\s+(0x[0-9a-fA-F]+)(?:\s+(0x[0-9a-fA-F]+))?";

const PIECES: [&str; 56] = [
    "core", "core ", " ", "  ", "\t", "\n", "\r", "\x0b", "\x0c", "0", "1", "3", "9", "31", "32",
    "255", "256", "4294967295", "4294967296", ":", ": ", "0x", "0X", "x", "f", "v", "m", "mem",
    "mem ", "(", ")", "a", "F", "g", "_", "-", ".", "0x1f", "0xDEADbeef", "(0x00a58533)",
    "0xffffffffffffffff", "0x10000000000000000", "x5 0x7", "e", "mem 0x2000", " 0x2a",
    "mem\t0x8", "\u{0663}", "\u{ff11}", "\u{e9}", "\u{2192}", "\u{00a0}", "\u{4e2d}", "\u{203f}",
    "\u{0301}", "\u{1d7ce}",
];

struct Lcg(u64);

impl Lcg {
    fn next(&mut self, bound: usize) -> usize {
        self.0 = self.0.wrapping_mul(6364136223846793005).wrapping_add(1442695040888963407);
        ((self.0 >> 33) as usize) % bound
    }

    fn text(&mut self, most: usize) -> String {
        let n = self.next(most) + 1;
        let mut s = String::new();
        for _ in 0..n {
            s.push_str(PIECES[self.next(PIECES.len())]);
        }
        s
    }

    fn header(&mut self) -> String {
        let gaps = [" ", "  ", "\t", " \t "];
        let harts = ["0", "1", "007", "4294967295", "4294967296", "1\u{0662}"];
        let pcs = ["0x1000", "0x0000000080000000", "0xffffffffffffffff", "0x10000000000000000", "0xAb"];
        let encodings = ["00a58533", "00b52023", "FFFFFFFF", "0000c10c", "fffffff"];
        let mut s = String::from("core");
        s.push_str(gaps[self.next(4)]);
        s.push_str(harts[self.next(6)]);
        s.push(':');
        s.push_str(gaps[self.next(4)]);
        s.push_str(["0", "3", "\u{0669}"][self.next(3)]);
        s.push_str(gaps[self.next(4)]);
        s.push_str(pcs[self.next(5)]);
        s.push_str(gaps[self.next(4)]);
        s.push_str("(0x");
        s.push_str(encodings[self.next(5)]);
        s.push(')');
        s
    }
}

fn header_by_pattern(re: &Regex, line: &str) -> Result<Option<Header>, ParseErrorKind> {
    let caps = match re.captures(line) {
        Some(c) => c,
        None => return Ok(None),
    };
    let hart: u32 = caps[1].parse().map_err(|_| ParseErrorKind::Hart)?;
    let priv_level: u8 = caps[2].parse().map_err(|_| ParseErrorKind::Privilege)?;
    let pc = u64::from_str_radix(&caps[3][2..], 16).map_err(|_| ParseErrorKind::ProgramCounter)?;
    let encoding = u32::from_str_radix(&caps[4][2..], 16).unwrap();
    let rest = line[..caps.get(0).unwrap().end()].chars().count();
    Ok(Some(Header { hart, priv_level, pc, encoding, rest }))
}

fn regs_by_pattern(re: &Regex, text: &str) -> Result<Vec<RegisterWrite>, ParseErrorKind> {
    let mut regs = Vec::new();
    for rc in re.captures_iter(text) {
        let index: u8 = rc[2].parse().map_err(|_| ParseErrorKind::RegisterIndex)?;
        if &rc[1] == "x" && index >= 32 {
            return Err(ParseErrorKind::RegisterIndex);
        }
        let value =
            u64::from_str_radix(&rc[3][2..], 16).map_err(|_| ParseErrorKind::RegisterValue)?;
        let reg = match &rc[1] {
            "x" => Register::X { index },
            "f" => Register::F { index },
            _ => Register::V { index },
        };
        regs.push(RegisterWrite { reg, value });
    }
    Ok(regs)
}

fn mem_by_pattern(re: &Regex, text: &str) -> Result<Vec<MemAccess>, ParseErrorKind> {
    let mut mem = Vec::new();
    for c in re.captures_iter(text) {
        let addr =
            u64::from_str_radix(&c[1][2..], 16).map_err(|_| ParseErrorKind::MemoryAddress)?;
        let data = match c.get(2) {
            Some(m) => Some(
                u64::from_str_radix(&m.as_str()[2..], 16).map_err(|_| ParseErrorKind::MemoryData)?,
            ),
            None => None,
        };
        mem.push(MemAccess { addr, data });
    }
    Ok(mem)
}

#[test]
fn header_agrees_with_its_pattern() {
    let re = Regex::new(HEADER).unwrap();
    let mut rng = Lcg(1);
    let mut matched = 0;
    for round in 0..12000 {
        let line = if round % 3 == 0 {
            let mut l = rng.header();
            l.push_str(&rng.text(4));
            l
        } else {
            rng.text(14)
        };
        let expected = header_by_pattern(&re, &line);
        if expected != Ok(None) {
            matched += 1;
        }
        assert_eq!(parse_header(&line).map_err(|e| e.kind), expected, "line {:?}", line);
    }
    assert!(matched > 400);
}

#[test]
fn register_tokens_agree_with_their_pattern() {
    let re = Regex::new(REG).unwrap();
    let mut rng = Lcg(2);
    let mut found = 0;
    for _ in 0..12000 {
        let text = rng.text(16);
        let expected = regs_by_pattern(&re, &text);
        if let Ok(regs) = &expected {
            found += regs.len();
        }
        assert_eq!(scan_reg_writes(&to_chars(&text), 0), expected, "text {:?}", text);
    }
    assert!(found > 400);
}

#[test]
fn memory_tokens_agree_with_their_pattern() {
    let re = Regex::new(MEM).unwrap();
    let mut rng = Lcg(3);
    let mut found = 0;
    for _ in 0..12000 {
        let text = rng.text(16);
        let expected = mem_by_pattern(&re, &text);
        if let Ok(mem) = &expected {
            found += mem.len();
        }
        assert_eq!(scan_mem_accesses(&to_chars(&text), 0), expected, "text {:?}", text);
    }
    assert!(found > 400);
}

#[test]
fn no_token_starts_inside_the_header() {
    let header = Regex::new(HEADER).unwrap();
    let reg = Regex::new(REG).unwrap();
    let mem = Regex::new(MEM).unwrap();
    let mut rng = Lcg(4);
    let mut lines = 0;
    for _ in 0..8000 {
        let mut line = rng.header();
        line.push_str(&rng.text(10));
        let rest = match header_by_pattern(&header, &line) {
            Ok(Some(h)) => h.rest,
            _ => continue,
        };
        lines += 1;
        let chars = to_chars(&line);
        assert_eq!(scan_reg_writes(&chars, rest), regs_by_pattern(&reg, &line), "line {:?}", line);
        assert_eq!(scan_mem_accesses(&chars, rest), mem_by_pattern(&mem, &line), "line {:?}", line);
    }
    assert!(lines > 1500);
}

#[test]
fn white_space_is_what_the_standard_library_says() {
    let pattern = Regex::new(r"^\s$").unwrap();
    let mut spaces = 0;
    let mut buffer = [0u8; 4];
    for code in 0..=0x10FFFFu32 {
        let c = match char::from_u32(code) {
            Some(c) => c,
            None => continue,
        };
        assert_eq!(char_is_space(c), c.is_whitespace(), "U+{:04X}", code);
        assert_eq!(char_is_space(c), pattern.is_match(c.encode_utf8(&mut buffer)), "U+{:04X}", code);
        assert_eq!(char_in_class(c, CharClass::Space), c.is_whitespace());
        assert_eq!(char_in_class(c, CharClass::Visible), !c.is_whitespace());
        assert_eq!(char_in_class(c, CharClass::InLine), c != '\n');
        if c.is_whitespace() {
            spaces += 1;
        }
    }
    assert_eq!(spaces, 25);
}

fn sample() -> Vec<char> {
    let mut chars = Vec::new();
    for code in 0..=0x10FFFFu32 {
        if code < 0x250 || code % 997 == 0 {
            if let Some(c) = char::from_u32(code) {
                chars.push(c);
            }
        }
    }
    for c in "\u{0660}\u{0669}\u{0966}\u{ff10}\u{ff19}\u{1d7ff}\u{2460}\u{00b2}\u{2160}\u{203f}\u{2040}\u{200c}\u{200d}\u{0301}\u{4e2d}\u{2192}\u{20ac}".chars() {
        chars.push(c);
    }
    chars
}

#[test]
fn decimal_digits_are_those_of_the_pattern() {
    let digit = Regex::new(r"\d").unwrap();
    let mut buffer = [0u8; 4];
    let mut beyond_ascii = 0;
    for c in sample() {
        let expected = digit.is_match(c.encode_utf8(&mut buffer));
        assert_eq!(char_in_class(c, CharClass::Digit), expected, "U+{:04X}", c as u32);
        assert_eq!(char_in_class(c, CharClass::Hex), c.is_ascii_hexdigit(), "U+{:04X}", c as u32);
        if c.is_ascii() {
            assert_eq!(expected, c.is_ascii_digit());
        } else if expected {
            beyond_ascii += 1;
        }
    }
    assert!(beyond_ascii >= 5);
}

#[test]
fn word_characters_are_those_of_the_pattern() {
    let word = Regex::new(r"\w").unwrap();
    let mut buffer = [0u8; 4];
    let mut beyond_ascii = 0;
    for c in sample() {
        let expected = word.is_match(c.encode_utf8(&mut buffer));
        assert_eq!(char_is_word(c), expected, "U+{:04X}", c as u32);
        if c.is_ascii() {
            assert_eq!(expected, c.is_ascii_alphanumeric() || c == '_');
        } else if expected {
            beyond_ascii += 1;
        }
    }
    assert!(beyond_ascii >= 300);
}
