//! The line parser: from one line of the simulator's commit log to a
//! [`Commit`].
//!
//! A commit line has the shape
//! `core <hart>: <priv> 0x<pc> (0x<encoding>)` followed by free-form tokens,
//! among them register write-backs `<class><index> 0x<value>` with class
//! `x`, `f` or `v`, and memory accesses `mem 0x<addr>` with an optional
//! `0x<data>` behind. Write-backs of control and status registers,
//! `csr_<name> 0x<value>`, are tokens of neither kind and leave nothing in
//! the commit. A line of another shape is no commit and no error.
//!
//! White space is any character with Unicode's White_Space property. A
//! decimal digit is one of any script, but a number reads only in ASCII
//! digits: one with another digit in it is an error. A token begins where a
//! word begins, a word being made of letters, marks and digits of any script
//! and of connecting punctuation such as the underscore.

use crate::commit::{Commit, CommitView, MemAccess, Register, RegisterWrite};
use crate::decoder::{
    disassemble, disassembly, find_immediate, first_immediate, open_decoder, read_registers,
    registers_of, store_bytes, store_width, Decoded, DecodedView,
};
use crate::memory::{le_bytes, pow256};
use crate::text::{
    char_in_class, digit_value, hex_literal_end, in_class, is_digit,
    is_radix_digit, lemma_run_len, numeral, parse_numeral, radix_value, run_len, scan_hex_literal,
    scan_run, starts_word, to_chars, word_starts_at, CharClass,
};
use capstone::Capstone;
use vstd::prelude::*;
use vstd::string::StringExecFns;

verus! {

/// The numeric field of a line that does not fit its type.
#[derive(Debug, Clone, Copy, PartialEq, Eq)]
pub enum ParseErrorKind {
    /// The hart id is greater than `u32::MAX`, or one of its digits is not
    /// of ASCII.
    Hart,
    /// The digit of the privilege level is not of ASCII.
    Privilege,
    /// The program counter is greater than `u64::MAX`.
    ProgramCounter,
    /// A register index is greater than 255 or has a digit that is not of
    /// ASCII, or it names an integer register above `x31`.
    RegisterIndex,
    /// A register value is greater than `u64::MAX`.
    RegisterValue,
    /// A memory address is greater than `u64::MAX`.
    MemoryAddress,
    /// A memory datum is greater than `u64::MAX`.
    MemoryData,
}

/// A line that has the shape of a commit but holds a number that cannot be
/// taken in.
#[derive(Debug, Clone, PartialEq, Eq)]
pub struct ParseError {
    /// Which field is at fault.
    pub kind: ParseErrorKind,
    /// The line in which it stands.
    pub line: String,
}

/// Why a parser could not be made.
#[derive(Debug, Clone, Copy, PartialEq, Eq)]
pub enum ParserInitError {
    /// The instruction decoder could not be opened.
    Decoder,
}

/// The numbers in the header of a commit line.
#[derive(Debug, Clone, Copy, PartialEq, Eq)]
pub struct Header {
    /// Hardware thread.
    pub hart: u32,
    /// Privilege level.
    pub priv_level: u8,
    /// Program counter.
    pub pc: u64,
    /// The raw encoding.
    pub encoding: u32,
    /// Where the header ends and the free-form tokens begin, counted in
    /// characters.
    pub rest: usize,
}

/// Where the parts of a header stand in a line.
pub struct HeaderShape {
    /// First digit of the hart id.
    pub hart: int,
    /// The colon behind the hart id.
    pub colon: int,
    /// The one digit of the privilege level.
    pub privilege: int,
    /// First hexadecimal digit of the program counter.
    pub pc: int,
    /// Behind the last digit of the program counter.
    pub pc_end: int,
    /// First of the eight hexadecimal digits of the encoding.
    pub encoding: int,
    /// Behind the closing parenthesis.
    pub end: int,
}

/// Whether the line begins with the word that opens every commit line.
pub open spec fn starts_with_core(s: Seq<char>) -> bool {
    s.len() >= 4 && s[0] == 'c' && s[1] == 'o' && s[2] == 'r' && s[3] == 'e'
}

/// The header at the front of the line, if the line has one: `core`, white
/// space, decimal digits, a colon, white space, one decimal digit, white
/// space, a hexadecimal literal, white space, and in parentheses a
/// hexadecimal literal of exactly eight digits.
pub open spec fn header_shape(s: Seq<char>) -> Option<HeaderShape> {
    let hart = 4 + run_len(s, 4, CharClass::Space) as int;
    let colon = hart + run_len(s, hart, CharClass::Digit) as int;
    let privilege = colon + 1 + run_len(s, colon + 1, CharClass::Space) as int;
    let literal = privilege + 1 + run_len(s, privilege + 1, CharClass::Space) as int;
    if !starts_with_core(s) || hart == 4 || colon == hart || colon >= s.len() || s[colon] != ':'
        || privilege == colon + 1 || privilege >= s.len() || !is_digit(s[privilege]) || literal
        == privilege + 1 {
        None
    } else {
        match hex_literal_end(s, literal) {
            None => None,
            Some(pc_end) => {
                let paren = pc_end + run_len(s, pc_end, CharClass::Space) as int;
                if paren == pc_end || paren + 11 >= s.len() || s[paren] != '(' || s[paren + 1]
                    != '0' || s[paren + 2] != 'x' || run_len(s, paren + 3, CharClass::Hex) != 8
                    || s[paren + 11] != ')' {
                    None
                } else {
                    Some(
                        HeaderShape {
                            hart,
                            colon,
                            privilege,
                            pc: literal + 2,
                            pc_end,
                            encoding: paren + 3,
                            end: paren + 12,
                        },
                    )
                }
            },
        }
    }
}

/// What the front of a line gives: nothing where it has no header, the
/// header's numbers where they read and fit, else the first field that does
/// not, hart id before privilege level before program counter.
pub open spec fn header_outcome(s: Seq<char>) -> Result<Option<Header>, ParseErrorKind> {
    match header_shape(s) {
        None => Ok(None),
        Some(h) => match numeral(s.subrange(h.hart, h.colon), 10, 0xffff_ffff) {
            None => Err(ParseErrorKind::Hart),
            Some(hart) => if !is_radix_digit(s[h.privilege], 10) {
                Err(ParseErrorKind::Privilege)
            } else {
                match numeral(s.subrange(h.pc, h.pc_end), 16, 0xffff_ffff_ffff_ffff) {
                    None => Err(ParseErrorKind::ProgramCounter),
                    Some(pc) => Ok(
                        Some(
                            Header {
                                hart: hart as u32,
                                priv_level: digit_value(s[h.privilege]) as u8,
                                pc: pc as u64,
                                encoding: radix_value(s.subrange(h.encoding, h.encoding + 8), 16) as u32,
                                rest: h.end as usize,
                            },
                        ),
                    ),
                }
            },
        },
    }
}

/// Where the parts of a register write-back stand in a line.
pub struct RegToken {
    /// First digit of the index; the class letter stands before it.
    pub index: int,
    /// Behind the last digit of the index.
    pub index_end: int,
    /// First hexadecimal digit of the value.
    pub value: int,
    /// Behind the last digit of the value.
    pub end: int,
}

/// The register write-back that starts at `at`, if one does: at the start
/// of a word one of the letters `x`, `f`, `v`, decimal digits, white space
/// and a hexadecimal literal.
pub open spec fn reg_token_at(s: Seq<char>, at: int) -> Option<RegToken> {
    let index_end = at + 1 + run_len(s, at + 1, CharClass::Digit) as int;
    let literal = index_end + run_len(s, index_end, CharClass::Space) as int;
    if word_starts_at(s, at) && (s[at] == 'x' || s[at] == 'f' || s[at] == 'v') && index_end > at
        + 1 && literal > index_end {
        match hex_literal_end(s, literal) {
            Some(end) => Some(RegToken { index: at + 1, index_end, value: literal + 2, end }),
            None => None,
        }
    } else {
        None
    }
}

/// The register write that a write-back token spells, or the field of it
/// that does not read or fit. An index fits if it is at most 255 and, for an
/// integer register, below 32.
pub open spec fn reg_write_of(s: Seq<char>, t: RegToken) -> Result<RegisterWrite, ParseErrorKind> {
    let class = s[t.index - 1];
    match numeral(s.subrange(t.index, t.index_end), 10, 255) {
        None => Err(ParseErrorKind::RegisterIndex),
        Some(index) => if class == 'x' && index >= 32 {
            Err(ParseErrorKind::RegisterIndex)
        } else {
            match numeral(s.subrange(t.value, t.end), 16, 0xffff_ffff_ffff_ffff) {
                None => Err(ParseErrorKind::RegisterValue),
                Some(value) => Ok(
                    RegisterWrite {
                        reg: if class == 'x' {
                            Register::X { index: index as u8 }
                        } else if class == 'f' {
                            Register::F { index: index as u8 }
                        } else {
                            Register::V { index: index as u8 }
                        },
                        value: value as u64,
                    },
                ),
            }
        },
    }
}

/// Puts `front` before what `rest` gives, if it gives anything.
pub open spec fn chain<T>(front: Seq<T>, rest: Result<Seq<T>, ParseErrorKind>) -> Result<
    Seq<T>,
    ParseErrorKind,
> {
    match rest {
        Ok(r) => Ok(front + r),
        Err(k) => Err(k),
    }
}

/// The register writes in the line from `from` on: the write-back tokens
/// from left to right, none overlapping another, up to the first that holds
/// a number that does not fit.
pub open spec fn reg_writes(s: Seq<char>, from: int) -> Result<Seq<RegisterWrite>, ParseErrorKind>
    decreases s.len() - from,
{
    if from < 0 || from >= s.len() {
        Ok(Seq::empty())
    } else {
        match reg_token_at(s, from) {
            None => reg_writes(s, from + 1),
            Some(t) => match reg_write_of(s, t) {
                Err(k) => Err(k),
                Ok(w) => if from < t.end <= s.len() {
                    chain(seq![w], reg_writes(s, t.end))
                } else {
                    Ok(seq![w])
                },
            },
        }
    }
}

/// Where the parts of a memory access stand in a line.
pub struct MemToken {
    /// First hexadecimal digit of the address.
    pub addr: int,
    /// Behind the last digit of the address.
    pub addr_end: int,
    /// First hexadecimal digit of the data, if data follow the address.
    pub data: Option<int>,
    /// Behind the last digit of the token.
    pub end: int,
}

/// The memory access that starts at `at`, if one does: at the start of a
/// word the letters `mem`, white space and a hexadecimal literal, and then,
/// if they are there, white space and a second hexadecimal literal.
pub open spec fn mem_token_at(s: Seq<char>, at: int) -> Option<MemToken> {
    let literal = at + 3 + run_len(s, at + 3, CharClass::Space) as int;
    if word_starts_at(s, at) && at + 3 < s.len() && s[at] == 'm' && s[at + 1] == 'e' && s[at + 2]
        == 'm' && literal > at + 3 {
        match hex_literal_end(s, literal) {
            None => None,
            Some(addr_end) => {
                let second = addr_end + run_len(s, addr_end, CharClass::Space) as int;
                match hex_literal_end(s, second) {
                    Some(end) if second > addr_end => Some(
                        MemToken { addr: literal + 2, addr_end, data: Some(second + 2), end },
                    ),
                    _ => Some(MemToken { addr: literal + 2, addr_end, data: None, end: addr_end }),
                }
            },
        }
    } else {
        None
    }
}

/// The memory access that a token spells, or the field of it that does not
/// fit.
pub open spec fn mem_access_of(s: Seq<char>, t: MemToken) -> Result<MemAccess, ParseErrorKind> {
    match numeral(s.subrange(t.addr, t.addr_end), 16, 0xffff_ffff_ffff_ffff) {
        None => Err(ParseErrorKind::MemoryAddress),
        Some(addr) => match t.data {
            None => Ok(MemAccess { addr: addr as u64, data: None }),
            Some(d) => match numeral(s.subrange(d, t.end), 16, 0xffff_ffff_ffff_ffff) {
                None => Err(ParseErrorKind::MemoryData),
                Some(data) => Ok(MemAccess { addr: addr as u64, data: Some(data as u64) }),
            },
        },
    }
}

/// The memory accesses in the line from `from` on: the tokens from left to
/// right, none overlapping another, up to the first that holds a number that
/// does not fit.
pub open spec fn mem_accesses(s: Seq<char>, from: int) -> Result<Seq<MemAccess>, ParseErrorKind>
    decreases s.len() - from,
{
    if from < 0 || from >= s.len() {
        Ok(Seq::empty())
    } else {
        match mem_token_at(s, from) {
            None => mem_accesses(s, from + 1),
            Some(t) => match mem_access_of(s, t) {
                Err(k) => Err(k),
                Ok(m) => if from < t.end <= s.len() {
                    chain(seq![m], mem_accesses(s, t.end))
                } else {
                    Ok(seq![m])
                },
            },
        }
    }
}

/// The text of `t`, or the empty text.
pub open spec fn text_or_empty(t: Option<Seq<char>>) -> Seq<char> {
    match t {
        Some(s) => s,
        None => Seq::empty(),
    }
}

/// What a line with the given header gives once the decoder has spoken:
/// nothing where the decoder found no instruction; else the commit, made of
/// the header's numbers, the decoder's report and the tokens behind the
/// header; or the first numeric field among those tokens that does not fit,
/// register write-backs before memory accesses.
pub open spec fn commit_outcome(s: Seq<char>, header: Header, decoded: Option<DecodedView>) -> Result<
    Option<CommitView>,
    ParseErrorKind,
> {
    match decoded {
        None => Ok(None),
        Some(d) => match reg_writes(s, header.rest as int) {
            Err(k) => Err(k),
            Ok(regs) => match mem_accesses(s, header.rest as int) {
                Err(k) => Err(k),
                Ok(mem) => Ok(
                    Some(
                        CommitView {
                            hart: header.hart,
                            priv_level: header.priv_level,
                            pc: header.pc,
                            encoding: header.encoding,
                            disassembly: text_or_empty(d.mnemonic) + seq![' '] + text_or_empty(
                                d.operand_text,
                            ),
                            imm: first_immediate(d.operands),
                            regs_read: registers_of(d.regs_read),
                            bytes_written: store_width(text_or_empty(d.mnemonic)),
                            regs,
                            mem,
                        },
                    ),
                ),
            },
        },
    }
}

/// The four bytes of an encoding, least significant first.
pub open spec fn encoding_bytes(encoding: u32) -> Seq<u8> {
    le_bytes(encoding as nat, 4)
}

/// What a line gives: nothing where it has no header; an error where a
/// number of the header does not fit; else what its tokens and the decoder's
/// reading of the encoding at the program counter give.
pub open spec fn line_outcome(s: Seq<char>) -> Result<Option<CommitView>, ParseErrorKind> {
    match header_outcome(s) {
        Err(k) => Err(k),
        Ok(None) => Ok(None),
        Ok(Some(h)) => commit_outcome(s, h, disassembly(encoding_bytes(h.encoding), h.pc)),
    }
}

/// Whether what a parsing function returned for `line` is what `outcome`
/// asks for; an error carries the line.
pub open spec fn returns_outcome<T: View>(
    result: Result<Option<T>, ParseError>,
    outcome: Result<Option<T::V>, ParseErrorKind>,
    line: Seq<char>,
) -> bool {
    match result {
        Ok(None) => outcome == Ok::<Option<T::V>, ParseErrorKind>(None),
        Ok(Some(c)) => outcome == Ok::<Option<T::V>, ParseErrorKind>(Some(c@)),
        Err(e) => outcome == Err::<Option<T::V>, ParseErrorKind>(e.kind) && e.line@ == line,
    }
}

impl View for Header {
    type V = Header;

    open spec fn view(&self) -> Header {
        *self
    }
}

/// Reads the register write-back that starts at `at`.
fn scan_reg_token(s: &[char], at: usize) -> (found: Option<(usize, Result<RegisterWrite, ParseErrorKind>)>)
    ensures
        match found {
            None => reg_token_at(s@, at as int) is None,
            Some((end, w)) => {
                &&& reg_token_at(s@, at as int) matches Some(t)
                &&& t.end == end
                &&& w == reg_write_of(s@, t)
                &&& at < end <= s@.len()
            },
        },
{
    if at >= s.len() {
        return None;
    }
    let class = s[at];
    if (class != 'x' && class != 'f' && class != 'v') || !starts_word(s, at) {
        return None;
    }
    let digits = scan_run(s, at + 1, CharClass::Digit);
    if digits == 0 {
        return None;
    }
    let index_end = at + 1 + digits;
    let gap = scan_run(s, index_end, CharClass::Space);
    if gap == 0 {
        return None;
    }
    let literal = index_end + gap;
    let end = match scan_hex_literal(s, literal) {
        Some(e) => e,
        None => {
            return None;
        },
    };
    proof {
        lemma_run_len(s@, at + 1, CharClass::Digit);
        lemma_run_len(s@, literal + 2, CharClass::Hex);
    }
    let index = match parse_numeral(s, at + 1, index_end, 10, 255) {
        Some(i) => i,
        None => {
            return Some((end, Err(ParseErrorKind::RegisterIndex)));
        },
    };
    if class == 'x' && index >= 32 {
        return Some((end, Err(ParseErrorKind::RegisterIndex)));
    }
    let value = match parse_numeral(s, literal + 2, end, 16, u64::MAX) {
        Some(v) => v,
        None => {
            return Some((end, Err(ParseErrorKind::RegisterValue)));
        },
    };
    let reg = if class == 'x' {
        Register::X { index: index as u8 }
    } else if class == 'f' {
        Register::F { index: index as u8 }
    } else {
        Register::V { index: index as u8 }
    };
    Some((end, Ok(RegisterWrite { reg, value })))
}

/// Collects the register writes in the line from `from` on.
pub fn scan_reg_writes(s: &[char], from: usize) -> (found: Result<Vec<RegisterWrite>, ParseErrorKind>)
    ensures
        match found {
            Ok(regs) => reg_writes(s@, from as int) == Ok::<Seq<RegisterWrite>, ParseErrorKind>(
                regs@,
            ) && forall|i: int| 0 <= i < regs@.len() ==> (#[trigger] regs@[i]).reg.in_range(),
            Err(k) => reg_writes(s@, from as int) == Err::<Seq<RegisterWrite>, ParseErrorKind>(k),
        },
{
    let mut regs: Vec<RegisterWrite> = Vec::new();
    let mut at = from;
    assert(Seq::<RegisterWrite>::empty() + regs@ =~= regs@);
    while at < s.len()
        invariant
            reg_writes(s@, from as int) == chain(regs@, reg_writes(s@, at as int)),
            forall|i: int| 0 <= i < regs@.len() ==> (#[trigger] regs@[i]).reg.in_range(),
        decreases s@.len() - at,
    {
        match scan_reg_token(s, at) {
            None => {
                at += 1;
            },
            Some((end, Err(k))) => {
                return Err(k);
            },
            Some((end, Ok(w))) => {
                proof {
                    let rest = reg_writes(s@, end as int);
                    if let Ok(r) = rest {
                        assert(regs@ + (seq![w] + r) =~= regs@.push(w) + r);
                    }
                }
                regs.push(w);
                at = end;
            },
        }
    }
    assert(regs@ + Seq::<RegisterWrite>::empty() =~= regs@);
    Ok(regs)
}

/// Reads the memory access that starts at `at`.
fn scan_mem_token(s: &[char], at: usize) -> (found: Option<(usize, Result<MemAccess, ParseErrorKind>)>)
    ensures
        match found {
            None => mem_token_at(s@, at as int) is None,
            Some((end, m)) => {
                &&& mem_token_at(s@, at as int) matches Some(t)
                &&& t.end == end
                &&& m == mem_access_of(s@, t)
                &&& at < end <= s@.len()
            },
        },
{
    if at >= s.len() || s.len() - at <= 3 {
        return None;
    }
    if s[at] != 'm' || s[at + 1] != 'e' || s[at + 2] != 'm' || !starts_word(s, at) {
        return None;
    }
    let gap = scan_run(s, at + 3, CharClass::Space);
    if gap == 0 {
        return None;
    }
    let literal = at + 3 + gap;
    let addr_end = match scan_hex_literal(s, literal) {
        Some(e) => e,
        None => {
            return None;
        },
    };
    let gap = scan_run(s, addr_end, CharClass::Space);
    let second = addr_end + gap;
    let data_end = if gap == 0 {
        None
    } else {
        scan_hex_literal(s, second)
    };
    let end = match data_end {
        Some(e) => e,
        None => addr_end,
    };
    proof {
        lemma_run_len(s@, literal + 2, CharClass::Hex);
        if data_end is Some {
            lemma_run_len(s@, second + 2, CharClass::Hex);
        }
    }
    let addr = match parse_numeral(s, literal + 2, addr_end, 16, u64::MAX) {
        Some(a) => a,
        None => {
            return Some((end, Err(ParseErrorKind::MemoryAddress)));
        },
    };
    match data_end {
        None => Some((end, Ok(MemAccess { addr, data: None }))),
        Some(e) => match parse_numeral(s, second + 2, e, 16, u64::MAX) {
            Some(d) => Some((end, Ok(MemAccess { addr, data: Some(d) }))),
            None => Some((end, Err(ParseErrorKind::MemoryData))),
        },
    }
}

/// Collects the memory accesses in the line from `from` on.
pub fn scan_mem_accesses(s: &[char], from: usize) -> (found: Result<Vec<MemAccess>, ParseErrorKind>)
    ensures
        match found {
            Ok(mem) => mem_accesses(s@, from as int) == Ok::<Seq<MemAccess>, ParseErrorKind>(mem@),
            Err(k) => mem_accesses(s@, from as int) == Err::<Seq<MemAccess>, ParseErrorKind>(k),
        },
{
    let mut mem: Vec<MemAccess> = Vec::new();
    let mut at = from;
    assert(Seq::<MemAccess>::empty() + mem@ =~= mem@);
    while at < s.len()
        invariant
            mem_accesses(s@, from as int) == chain(mem@, mem_accesses(s@, at as int)),
        decreases s@.len() - at,
    {
        match scan_mem_token(s, at) {
            None => {
                at += 1;
            },
            Some((end, Err(k))) => {
                return Err(k);
            },
            Some((end, Ok(m))) => {
                proof {
                    let rest = mem_accesses(s@, end as int);
                    if let Ok(r) = rest {
                        assert(mem@ + (seq![m] + r) =~= mem@.push(m) + r);
                    }
                }
                mem.push(m);
                at = end;
            },
        }
    }
    assert(mem@ + Seq::<MemAccess>::empty() =~= mem@);
    Ok(mem)
}

/// Finds the header at the front of the line and reads its numbers.
fn scan_header(s: &[char]) -> (found: Result<Option<Header>, ParseErrorKind>)
    ensures
        found == header_outcome(s@),
        found matches Ok(Some(h)) ==> h.rest <= s@.len(),
{
    if s.len() < 4 || s[0] != 'c' || s[1] != 'o' || s[2] != 'r' || s[3] != 'e' {
        return Ok(None);
    }
    let gap = scan_run(s, 4, CharClass::Space);
    if gap == 0 {
        return Ok(None);
    }
    let hart_at = 4 + gap;
    let digits = scan_run(s, hart_at, CharClass::Digit);
    if digits == 0 {
        return Ok(None);
    }
    let colon = hart_at + digits;
    if colon >= s.len() || s[colon] != ':' {
        return Ok(None);
    }
    let gap = scan_run(s, colon + 1, CharClass::Space);
    if gap == 0 {
        return Ok(None);
    }
    let privilege = colon + 1 + gap;
    if privilege >= s.len() || !char_in_class(s[privilege], CharClass::Digit) {
        return Ok(None);
    }
    let gap = scan_run(s, privilege + 1, CharClass::Space);
    if gap == 0 {
        return Ok(None);
    }
    let literal = privilege + 1 + gap;
    let pc_end = match scan_hex_literal(s, literal) {
        Some(e) => e,
        None => {
            return Ok(None);
        },
    };
    let gap = scan_run(s, pc_end, CharClass::Space);
    if gap == 0 {
        return Ok(None);
    }
    let paren = pc_end + gap;
    if s.len() - paren <= 11 || s[paren] != '(' || s[paren + 1] != '0' || s[paren + 2] != 'x' {
        return Ok(None);
    }
    let digits = scan_run(s, paren + 3, CharClass::Hex);
    if digits != 8 || s[paren + 11] != ')' {
        return Ok(None);
    }
    proof {
        lemma_run_len(s@, hart_at as int, CharClass::Digit);
        lemma_run_len(s@, literal + 2, CharClass::Hex);
        lemma_run_len(s@, paren + 3, CharClass::Hex);
    }
    let hart = match parse_numeral(s, hart_at, colon, 10, 0xffff_ffff) {
        Some(h) => h,
        None => {
            return Err(ParseErrorKind::Hart);
        },
    };
    if !('0' <= s[privilege] && s[privilege] <= '9') {
        return Err(ParseErrorKind::Privilege);
    }
    let priv_level = (s[privilege] as u32 - '0' as u32) as u8;
    let pc = match parse_numeral(s, literal + 2, pc_end, 16, u64::MAX) {
        Some(p) => p,
        None => {
            return Err(ParseErrorKind::ProgramCounter);
        },
    };
    proof {
        lemma_eight_hex_digits(s@, paren + 3);
    }
    let encoding = parse_numeral(s, paren + 3, paren + 11, 16, 0xffff_ffff).unwrap();
    Ok(
        Some(
            Header {
                hart: hart as u32,
                priv_level,
                pc,
                encoding: encoding as u32,
                rest: paren + 12,
            },
        ),
    )
}

/// A numeral of `n` digits in radix sixteen is below sixteen to the `n`.
pub proof fn lemma_hex_bound(s: Seq<char>)
    ensures
        radix_value(s, 16) < vstd::arithmetic::power::pow(16, s.len()),
    decreases s.len(),
{
    reveal(vstd::arithmetic::power::pow);
    if s.len() > 0 {
        lemma_hex_bound(s.drop_last());
    }
}

/// Eight hexadecimal digits spell a number that fits in 32 bits.
pub proof fn lemma_eight_hex_digits(s: Seq<char>, at: int)
    requires
        0 <= at,
        at + 8 <= s.len(),
    ensures
        radix_value(s.subrange(at, at + 8), 16) <= 0xffff_ffff,
{
    lemma_hex_bound(s.subrange(at, at + 8));
    reveal_with_fuel(vstd::arithmetic::power::pow, 9);
    assert(vstd::arithmetic::power::pow(16, 8) == 0x1_0000_0000);
}

/// Recognizes the header of a commit line and reads its numbers. A line
/// without a header gives `Ok(None)`.
pub fn parse_header(line: &str) -> (result: Result<Option<Header>, ParseError>)
    ensures
        returns_outcome(result, header_outcome(line@), line@),
        result matches Ok(Some(h)) ==> h.rest <= line@.len(),
{
    let chars = to_chars(line);
    match scan_header(chars.as_slice()) {
        Ok(h) => Ok(h),
        Err(kind) => Err(ParseError { kind, line: line.to_owned() }),
    }
}

/// Puts a commit together from the header of a line, the tokens behind the
/// header and what the decoder reported of the instruction.
pub fn commit_from(line: &str, header: &Header, decoded: Option<Decoded>) -> (result: Result<
    Option<Commit>,
    ParseError,
>)
    requires
        header.rest <= line@.len(),
    ensures
        returns_outcome(
            result,
            commit_outcome(
                line@,
                *header,
                match decoded {
                    Some(d) => Some(d@),
                    None => None,
                },
            ),
            line@,
        ),
        result matches Ok(Some(c)) ==> c@.in_range(),
{
    let decoded = match decoded {
        Some(d) => d,
        None => {
            return Ok(None);
        },
    };
    let chars = to_chars(line);
    let regs = match scan_reg_writes(chars.as_slice(), header.rest) {
        Ok(r) => r,
        Err(kind) => {
            return Err(ParseError { kind, line: line.to_owned() });
        },
    };
    let mem = match scan_mem_accesses(chars.as_slice(), header.rest) {
        Ok(m) => m,
        Err(kind) => {
            return Err(ParseError { kind, line: line.to_owned() });
        },
    };
    let mnemonic: &str = match &decoded.mnemonic {
        Some(m) => m.as_str(),
        None => "",
    };
    let operand_text: &str = match &decoded.operand_text {
        Some(t) => t.as_str(),
        None => "",
    };
    proof {
        reveal_strlit("");
        reveal_strlit(" ");
        assert(""@ =~= Seq::<char>::empty());
        assert(" "@ =~= seq![' ']);
    }
    let disassembly_text = String::from_str(mnemonic).concat(" ").concat(operand_text);
    let bytes_written = store_bytes(mnemonic);
    let commit = Commit {
        hart: header.hart,
        priv_level: header.priv_level,
        pc: header.pc,
        encoding: header.encoding,
        disassembly: disassembly_text,
        imm: find_immediate(&decoded.operands),
        regs_read: read_registers(&decoded.regs_read),
        bytes_written,
        regs,
        mem,
    };
    Ok(Some(commit))
}

/// Turns lines of the commit log into [`Commit`] records. Holds the
/// instruction decoder, which is opened once.
pub struct CommitLogParser {
    cs: Capstone,
}

impl CommitLogParser {
    /// Makes a parser; opens the decoder, which succeeds.
    pub fn new() -> (parser: Result<Self, ParserInitError>)
        ensures
            parser is Ok,
    {
        let opened = open_decoder();
        Self::from_opened(opened)
    }

    /// Parses one line. `Ok(None)` for a line that is no commit: one without
    /// a header, or one whose encoding the decoder does not know.
    pub fn parse_line(&self, line: &str) -> (result: Result<Option<Commit>, ParseError>)
        ensures
            returns_outcome(result, line_outcome(line@), line@),
            !starts_with_core(line@) ==> result == Ok::<Option<Commit>, ParseError>(None),
            result matches Ok(Some(c)) ==> c@.in_range(),
    {
        let header = match parse_header(line) {
            Ok(Some(h)) => h,
            Ok(None) => {
                return Ok(None);
            },
            Err(e) => {
                return Err(e);
            },
        };
        let code = le_bytes_of(header.encoding);
        let decoded = disassemble(&self.cs, &code, header.pc);
        commit_from(line, &header, decoded)
    }

    /// The decoder that the parser holds.
    pub closed spec fn decoder(&self) -> Capstone {
        self.cs
    }

    /// Makes a parser of what the opening of the decoder gave: a parser that
    /// holds the decoder where one was opened, the error where none was.
    fn from_opened(opened: Result<Capstone, capstone::Error>) -> (parser: Result<
        Self,
        ParserInitError,
    >)
        ensures
            match opened {
                Ok(cs) => parser matches Ok(p) && p.decoder() == cs,
                Err(_) => parser == Err::<Self, ParserInitError>(ParserInitError::Decoder),
            },
    {
        match opened {
            Ok(cs) => Ok(CommitLogParser { cs }),
            Err(_) => Err(ParserInitError::Decoder),
        }
    }
}

/// The four bytes of an encoding, least significant first.
pub fn le_bytes_of(encoding: u32) -> (code: [u8; 4])
    ensures
        code@ == encoding_bytes(encoding),
{
    let code = [
        (encoding & 0xff) as u8,
        ((encoding >> 8) & 0xff) as u8,
        ((encoding >> 16) & 0xff) as u8,
        ((encoding >> 24) & 0xff) as u8,
    ];
    proof {
        reveal_with_fuel(pow256, 4);
        assert(encoding & 0xff == (encoding / 0x1) % 256 && (encoding >> 8) & 0xff == (encoding
            / 0x100) % 256 && (encoding >> 16) & 0xff == (encoding / 0x1_0000) % 256 && (encoding
            >> 24) & 0xff == (encoding / 0x100_0000) % 256) by (bit_vector);
        assert(code@ =~= encoding_bytes(encoding));
    }
    code
}

/// Where no register write-back starts between `from` and `to`, the register
/// writes from `from` on are those from `to` on.
pub proof fn lemma_reg_writes_skip(s: Seq<char>, from: int, to: int)
    requires
        0 <= from <= to <= s.len(),
        forall|p: int| from <= p < to ==> (#[trigger] reg_token_at(s, p)) is None,
    ensures
        reg_writes(s, from) == reg_writes(s, to),
    decreases to - from,
{
    if from < to {
        lemma_reg_writes_skip(s, from + 1, to);
    }
}

/// Where no memory access starts between `from` and `to`, the memory
/// accesses from `from` on are those from `to` on.
pub proof fn lemma_mem_accesses_skip(s: Seq<char>, from: int, to: int)
    requires
        0 <= from <= to <= s.len(),
        forall|p: int| from <= p < to ==> (#[trigger] mem_token_at(s, p)) is None,
    ensures
        mem_accesses(s, from) == mem_accesses(s, to),
    decreases to - from,
{
    if from < to {
        lemma_mem_accesses_skip(s, from + 1, to);
    }
}

/// No token begins inside the header: the register writes and the memory
/// accesses of a commit line are those of the whole line.
pub proof fn lemma_tokens_begin_behind_header(s: Seq<char>)
    requires
        header_shape(s) is Some,
    ensures
        reg_writes(s, 0) == reg_writes(s, header_shape(s)->0.end),
        mem_accesses(s, 0) == mem_accesses(s, header_shape(s)->0.end),
{
    let h = header_shape(s)->0;
    let literal = h.pc - 2;
    let paren = h.encoding - 3;
    lemma_run_len(s, 4, CharClass::Space);
    lemma_run_len(s, h.hart, CharClass::Digit);
    lemma_run_len(s, h.colon + 1, CharClass::Space);
    lemma_run_len(s, h.privilege + 1, CharClass::Space);
    lemma_run_len(s, h.pc, CharClass::Hex);
    lemma_run_len(s, h.pc_end, CharClass::Space);
    lemma_run_len(s, h.encoding, CharClass::Hex);
    assert forall|p: int| 0 <= p < h.end implies !(#[trigger] word_starts_at(s, p) && (s[p] == 'x'
        || s[p] == 'f' || s[p] == 'v')) && s[p] != 'm' by {
        if p < 4 {
        } else if p < h.hart {
            assert(in_class(s[p], CharClass::Space));
        } else if p < h.colon {
            assert(in_class(s[p], CharClass::Digit));
        } else if p == h.colon {
        } else if p < h.privilege {
            assert(in_class(s[p], CharClass::Space));
        } else if p == h.privilege {
        } else if p < literal {
            assert(in_class(s[p], CharClass::Space));
        } else if p <= literal + 1 {
        } else if p < h.pc_end {
            assert(in_class(s[p], CharClass::Hex));
            if p > h.pc {
                assert(in_class(s[p - 1], CharClass::Hex));
            }
        } else if p < paren {
            assert(in_class(s[p], CharClass::Space));
        } else if p <= paren + 2 {
        } else if p < paren + 11 {
            assert(in_class(s[p], CharClass::Hex));
            if p > h.encoding {
                assert(in_class(s[p - 1], CharClass::Hex));
            }
        } else {
        }
    }
    assert forall|p: int| 0 <= p < h.end implies (#[trigger] reg_token_at(s, p)) is None by {
        assert(!(word_starts_at(s, p) && (s[p] == 'x' || s[p] == 'f' || s[p] == 'v')));
    }
    assert forall|p: int| 0 <= p < h.end implies (#[trigger] mem_token_at(s, p)) is None by {
        assert(!(word_starts_at(s, p) && (s[p] == 'x' || s[p] == 'f' || s[p] == 'v')) && s[p]
            != 'm');
    }
    lemma_reg_writes_skip(s, 0, h.end);
    lemma_mem_accesses_skip(s, 0, h.end);
}

/// A line that does not begin with `core` gives no commit and no error.
pub proof fn lemma_other_lines_give_nothing(s: Seq<char>)
    requires
        !starts_with_core(s),
    ensures
        header_outcome(s) == Ok::<Option<Header>, ParseErrorKind>(None),
        line_outcome(s) == Ok::<Option<CommitView>, ParseErrorKind>(None),
{
}

} // verus!
