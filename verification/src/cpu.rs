//! The replay engine: a shadow of the simulated machine's registers and
//! memory that takes commits in program order and emits one trace record for
//! each.

use crate::commit::{Commit, CommitView, MemAccess, Register, RegisterWrite};
use crate::memory::{
    addr_plus, le_bytes, le_value, pow256, MemoryView, SparseDram,
};
use crate::regfile::{valid_regs, written, zeroed, RegFile};
use crate::text::{first_word, first_word_of};
use crate::trace::{MemoryState, RegisterState, TraceInstruction, TraceRecord, TraceRecordView};
use vstd::prelude::*;

verus! {

/// The state of the shadow machine as a mathematical value.
pub struct CpuState {
    /// The thirty-two integer registers.
    pub regs: Seq<u64>,
    /// The memory.
    pub mem: MemoryView,
}

impl CpuState {
    /// The state in which a replay begins: registers zero, memory empty.
    pub open spec fn initial() -> CpuState {
        CpuState { regs: zeroed(), mem: MemoryView::empty() }
    }

    /// Holds of every state that a `Cpu` can be in.
    pub open spec fn wf(self) -> bool {
        valid_regs(self.regs) && self.mem.wf()
    }
}

/// The indices of the integer registers among `regs`, in order.
pub open spec fn integer_indices(regs: Seq<Register>) -> Seq<u8>
    decreases regs.len(),
{
    if regs.len() == 0 {
        Seq::empty()
    } else {
        match regs.last() {
            Register::X { index } => integer_indices(regs.drop_last()).push(index),
            _ => integer_indices(regs.drop_last()),
        }
    }
}

/// The `n`-th integer register that the commit reads, if there are that many.
pub open spec fn source(c: CommitView, n: int) -> Option<u8> {
    if 0 <= n < integer_indices(c.regs_read).len() {
        Some(integer_indices(c.regs_read)[n])
    } else {
        None
    }
}

/// The first write to an integer register among `writes`: its index and the
/// value written.
pub open spec fn first_integer_write(writes: Seq<RegisterWrite>) -> Option<(u8, u64)>
    decreases writes.len(),
{
    if writes.len() == 0 {
        None
    } else {
        match writes[0].reg {
            Register::X { index } => Some((index, writes[0].value)),
            _ => first_integer_write(writes.drop_first()),
        }
    }
}

/// Whether `width` is one of the access widths.
pub open spec fn is_width(width: u32) -> bool {
    width == 1 || width == 2 || width == 4 || width == 8
}

/// The value of `width` bytes at `addr`; zero for a width that is none.
pub open spec fn value_at(mem: MemoryView, width: u32, addr: u64) -> u64 {
    if is_width(width) {
        le_value(mem.span(addr, width as nat)) as u64
    } else {
        0
    }
}

/// The memory after the low `width` bytes of `data` are stored at `addr`;
/// unchanged for a width that is none.
pub open spec fn stored(mem: MemoryView, width: u32, addr: u64, data: u64) -> MemoryView {
    if is_width(width) {
        mem.store(addr, le_bytes(data as nat, width as nat))
    } else {
        mem
    }
}

/// What a store of `width` bytes does: where the first memory access that
/// the commit reports carries data, those data are written at its address,
/// and the memory state tells the address, the value that stood there before
/// and the data; where it carries none, or there is no access, nothing is
/// written and there is no memory state. Accesses behind the first count for
/// nothing.
pub open spec fn store_effect(mem: MemoryView, width: u32, accesses: Seq<MemAccess>) -> (
    MemoryView,
    Option<MemoryState>,
) {
    if accesses.len() > 0 && accesses[0].data is Some {
        let access = accesses[0];
        let data = access.data->0;
        (
            stored(mem, width, access.addr, data),
            Some(
                MemoryState::Write {
                    address: access.addr,
                    pre_value: value_at(mem, width, access.addr),
                    post_value: data,
                },
            ),
        )
    } else {
        (mem, None)
    }
}

/// The memory state of an instruction that is no store: a read at the first
/// source register's value plus the immediate, wrapping at 2^64, of the value
/// that the destination register received; none unless all three are there.
pub open spec fn load_effect(s: CpuState, c: CommitView) -> Option<MemoryState> {
    match (source(c, 0), c.imm, first_integer_write(c.regs)) {
        (Some(rs1), Some(imm), Some((_, value))) => Some(
            MemoryState::Read { address: addr_plus(s.regs[rs1 as int], imm as int), value },
        ),
        _ => None,
    }
}

/// The state after the commit: the destination register written, the stores
/// done.
pub open spec fn state_after(s: CpuState, c: CommitView) -> CpuState {
    CpuState {
        regs: match first_integer_write(c.regs) {
            Some((rd, value)) => written(s.regs, rd as int, value),
            None => s.regs,
        },
        mem: match c.bytes_written {
            Some(width) => store_effect(s.mem, width, c.mem).0,
            None => s.mem,
        },
    }
}

/// The register `r`'s index, widened.
pub open spec fn widened(r: Option<u8>) -> Option<u64> {
    match r {
        Some(i) => Some(i as u64),
        None => None,
    }
}

/// The record that the commit gives in state `s`: the source registers'
/// values are those before the commit, the destination's is the one
/// reported.
pub open spec fn record_of(s: CpuState, c: CommitView) -> TraceRecordView {
    TraceRecordView {
        address: c.pc,
        opcode: first_word(c.disassembly),
        rs1: widened(source(c, 0)),
        rs2: widened(source(c, 1)),
        rd: match first_integer_write(c.regs) {
            Some((rd, _)) => Some(rd as u64),
            None => None,
        },
        imm: c.imm,
        register_state: RegisterState {
            rs1_val: match source(c, 0) {
                Some(i) => Some(s.regs[i as int]),
                None => None,
            },
            rs2_val: match source(c, 1) {
                Some(i) => Some(s.regs[i as int]),
                None => None,
            },
            rd_post_val: match first_integer_write(c.regs) {
                Some((_, value)) => Some(value),
                None => None,
            },
        },
        memory_state: match c.bytes_written {
            Some(width) => store_effect(s.mem, width, c.mem).1,
            None => load_effect(s, c),
        },
    }
}

/// The state after a whole log.
pub open spec fn state_after_all(s: CpuState, log: Seq<CommitView>) -> CpuState
    decreases log.len(),
{
    if log.len() == 0 {
        s
    } else {
        state_after(state_after_all(s, log.drop_last()), log.last())
    }
}

/// The records that a whole log gives, commit by commit.
pub open spec fn trace_of(s: CpuState, log: Seq<CommitView>) -> Seq<TraceRecordView>
    decreases log.len(),
{
    if log.len() == 0 {
        Seq::empty()
    } else {
        trace_of(s, log.drop_last()).push(
            record_of(state_after_all(s, log.drop_last()), log.last()),
        )
    }
}

/// The commits of a log as mathematical values.
pub open spec fn commit_views(log: Seq<Commit>) -> Seq<CommitView> {
    Seq::new(log.len(), |i: int| log[i]@)
}

/// The records of a trace as mathematical values.
pub open spec fn record_views(trace: Seq<TraceRecord>) -> Seq<TraceRecordView> {
    Seq::new(trace.len(), |i: int| trace[i]@)
}

/// A simulated CPU state, with registers and memory.
pub struct Cpu {
    pub regs: RegFile,
    pub dram: SparseDram,
}

impl View for Cpu {
    type V = CpuState;

    open spec fn view(&self) -> CpuState {
        CpuState { regs: self.regs@, mem: self.dram@ }
    }
}

impl Cpu {
    /// Create a CPU with zeroed registers and empty memory.
    pub fn new() -> (cpu: Self)
        ensures
            cpu@ == CpuState::initial(),
    {
        Cpu { regs: RegFile::new(), dram: SparseDram::new() }
    }

    /// Replays one commit: updates registers and memory and gives the trace
    /// record of the instruction.
    pub fn step(&mut self, commit: &Commit) -> (record: TraceRecord)
        requires
            commit@.in_range(),
        ensures
            final(self)@ == state_after(old(self)@, commit@),
            record@ == record_of(old(self)@, commit@),
    {
        let opcode = first_word_of(commit.disassembly.as_str());

        let sources = integer_sources(&commit.regs_read);
        let mut rs1: Option<u64> = None;
        let mut rs2: Option<u64> = None;
        let mut rs1_val: Option<u64> = None;
        let mut rs2_val: Option<u64> = None;
        if sources.len() > 0 {
            rs1 = Some(sources[0] as u64);
            rs1_val = Some(self.regs.read(sources[0] as usize));
        }
        if sources.len() > 1 {
            rs2 = Some(sources[1] as u64);
            rs2_val = Some(self.regs.read(sources[1] as usize));
        }

        let destination = find_integer_write(&commit.regs);
        let mut rd: Option<u64> = None;
        let mut rd_post_val: Option<u64> = None;
        if let Some((index, value)) = destination {
            rd = Some(index as u64);
            rd_post_val = Some(value);
            self.regs.write(index as usize, value);
        }

        let mut memory_state: Option<MemoryState> = None;
        match commit.bytes_written {
            Some(width) => {
                memory_state = self.apply_stores(width, &commit.mem);
            },
            None => {
                if let (Some(base), Some(imm), Some(value)) = (rs1_val, commit.imm, rd_post_val) {
                    memory_state =
                    Some(MemoryState::Read { address: base.wrapping_add_signed(imm), value });
                }
            },
        }

        TraceRecord {
            instruction: TraceInstruction { address: commit.pc, opcode, rs1, rs2, rd, imm: commit.imm },
            register_state: RegisterState { rs1_val, rs2_val, rd_post_val },
            memory_state,
        }
    }

    /// Replays a whole log, commit by commit, and gives the trace.
    pub fn replay(&mut self, log: &Vec<Commit>) -> (trace: Vec<TraceRecord>)
        requires
            forall|i: int| 0 <= i < log@.len() ==> (#[trigger] log@[i])@.in_range(),
        ensures
            final(self)@ == state_after_all(old(self)@, commit_views(log@)),
            record_views(trace@) == trace_of(old(self)@, commit_views(log@)),
    {
        let mut trace: Vec<TraceRecord> = Vec::new();
        let mut i: usize = 0;
        assert(commit_views(log@).take(0) =~= Seq::<CommitView>::empty());
        assert(record_views(trace@) =~= Seq::<TraceRecordView>::empty());
        while i < log.len()
            invariant
                i <= log@.len(),
                forall|j: int| 0 <= j < log@.len() ==> (#[trigger] log@[j])@.in_range(),
                self@ == state_after_all(old(self)@, commit_views(log@).take(i as int)),
                record_views(trace@) == trace_of(old(self)@, commit_views(log@).take(i as int)),
            decreases log@.len() - i,
        {
            let ghost before = commit_views(log@).take(i as int);
            let ghost rows = record_views(trace@);
            proof {
                lemma_replay_step(old(self)@, before, log@[i as int]@);
                assert(before.push(log@[i as int]@) =~= commit_views(log@).take(i + 1));
            }
            let record = self.step(&log[i]);
            trace.push(record);
            assert(record_views(trace@) =~= rows.push(record@));
            i += 1;
        }
        assert(commit_views(log@).take(i as int) =~= commit_views(log@));
        trace
    }

    /// Does the store of one commit and gives the memory state to report.
    fn apply_stores(&mut self, width: u32, accesses: &Vec<MemAccess>) -> (state: Option<MemoryState>)
        ensures
            final(self).regs == old(self).regs,
            (final(self).dram@, state) == store_effect(old(self).dram@, width, accesses@),
    {
        if accesses.len() == 0 {
            return None;
        }
        let access = accesses[0];
        match access.data {
            Some(data) => {
                let pre_value = self.read_width(width, access.addr);
                self.write_width(width, access.addr, data);
                Some(MemoryState::Write { address: access.addr, pre_value, post_value: data })
            },
            None => None,
        }
    }

    /// Reads `width` bytes at `addr`; zero for a width that is none.
    fn read_width(&self, width: u32, addr: u64) -> (value: u64)
        ensures
            value == value_at(self.dram@, width, addr),
    {
        match width {
            1 => self.dram.read_u8(addr) as u64,
            2 => self.dram.read_u16(addr) as u64,
            4 => self.dram.read_u32(addr) as u64,
            8 => self.dram.read_u64(addr),
            _ => 0,
        }
    }

    /// Writes the low `width` bytes of `data` at `addr`; nothing for a width
    /// that is none.
    fn write_width(&mut self, width: u32, addr: u64, data: u64)
        ensures
            final(self).regs == old(self).regs,
            final(self).dram@ == stored(old(self).dram@, width, addr, data),
    {
        proof {
            lemma_low_bytes(data);
            crate::memory::lemma_le_bytes_of_byte(data as u8);
        }
        match width {
            1 => self.dram.write_u8(addr, data as u8),
            2 => self.dram.write_u16(addr, data as u16),
            4 => self.dram.write_u32(addr, data as u32),
            8 => self.dram.write_u64(addr, data),
            _ => {},
        }
    }
}

impl Default for Cpu {
    fn default() -> (cpu: Self)
        ensures
            cpu@ == CpuState::initial(),
    {
        Cpu::new()
    }
}

/// Cutting a value to one, two or four bytes keeps its low bytes.
proof fn lemma_low_bytes(data: u64)
    ensures
        le_bytes((data as u8) as nat, 1) == le_bytes(data as nat, 1),
        le_bytes((data as u16) as nat, 2) == le_bytes(data as nat, 2),
        le_bytes((data as u32) as nat, 4) == le_bytes(data as nat, 4),
{
    reveal_with_fuel(pow256, 5);
    let short = data as u16;
    let word = data as u32;
    assert((data as u8) as u64 == (data / 0x1) % 256) by (bit_vector);
    assert((short as u64 / 0x1) % 256 == (data / 0x1) % 256 && (short as u64 / 0x100) % 256 == (data
        / 0x100) % 256) by (bit_vector)
        requires
            short == data as u16,
    ;
    assert((word as u64 / 0x1) % 256 == (data / 0x1) % 256 && (word as u64 / 0x100) % 256 == (data
        / 0x100) % 256 && (word as u64 / 0x1_0000) % 256 == (data / 0x1_0000) % 256 && (word as u64
        / 0x100_0000) % 256 == (data / 0x100_0000) % 256) by (bit_vector)
        requires
            word == data as u32,
    ;
    assert(le_bytes((data as u8) as nat, 1) =~= le_bytes(data as nat, 1));
    assert(le_bytes(short as nat, 2) =~= le_bytes(data as nat, 2));
    assert(le_bytes(word as nat, 4) =~= le_bytes(data as nat, 4));
}

/// Picks the indices of the integer registers out of `regs`.
pub fn integer_sources(regs: &Vec<Register>) -> (indices: Vec<u8>)
    ensures
        indices@ == integer_indices(regs@),
        (forall|i: int| 0 <= i < regs@.len() ==> (#[trigger] regs@[i]).in_range()) ==> forall|i: int|
            0 <= i < indices@.len() ==> #[trigger] indices@[i] < 32,
{
    let mut indices: Vec<u8> = Vec::new();
    let mut i: usize = 0;
    while i < regs.len()
        invariant
            i <= regs@.len(),
            indices@ == integer_indices(regs@.take(i as int)),
            (forall|i: int| 0 <= i < regs@.len() ==> (#[trigger] regs@[i]).in_range()) ==> forall|
                i: int,
            | 0 <= i < indices@.len() ==> #[trigger] indices@[i] < 32,
        decreases regs@.len() - i,
    {
        proof {
            assert(regs@.take(i + 1).drop_last() =~= regs@.take(i as int));
        }
        match regs[i] {
            Register::X { index } => indices.push(index),
            _ => {},
        }
        i += 1;
    }
    assert(regs@.take(i as int) =~= regs@);
    indices
}

/// Finds the first write to an integer register.
pub fn find_integer_write(writes: &Vec<RegisterWrite>) -> (found: Option<(u8, u64)>)
    ensures
        found == first_integer_write(writes@),
        (forall|i: int| 0 <= i < writes@.len() ==> (#[trigger] writes@[i]).reg.in_range())
            ==> (found matches Some((index, _)) ==> index < 32),
{
    let mut i: usize = 0;
    assert(writes@.skip(0) =~= writes@);
    while i < writes.len()
        invariant
            i <= writes@.len(),
            first_integer_write(writes@) == first_integer_write(writes@.skip(i as int)),
        decreases writes@.len() - i,
    {
        proof {
            assert(writes@.skip(i as int).drop_first() =~= writes@.skip(i + 1));
        }
        match writes[i].reg {
            Register::X { index } => {
                return Some((index, writes[i].value));
            },
            _ => {},
        }
        i += 1;
    }
    None
}

/// A record depends on the registers and on the bytes of memory alone, not
/// on which pages exist: in two states that agree in registers and bytes a
/// commit gives the same record, and the states agree so afterwards.
pub proof fn lemma_step_is_deterministic(first: CpuState, second: CpuState, c: CommitView)
    requires
        first.regs == second.regs,
        first.mem.bytes == second.mem.bytes,
    ensures
        record_of(first, c) == record_of(second, c),
        state_after(first, c).regs == state_after(second, c).regs,
        state_after(first, c).mem.bytes == state_after(second, c).mem.bytes,
{
    if let Some(width) = c.bytes_written {
        if c.mem.len() > 0 && c.mem[0].data is Some {
            let addr = c.mem[0].addr;
            let data = c.mem[0].data->0;
            assert(first.mem.span(addr, width as nat) =~= second.mem.span(addr, width as nat));
            let bytes = le_bytes(data as nat, width as nat);
            assert(first.mem.store(addr, bytes).bytes =~= second.mem.store(addr, bytes).bytes);
        }
    }
}

/// Two replays that start from states that agree in registers and bytes and
/// are fed the same log give the same records, and end in states that agree
/// in registers and bytes.
pub proof fn lemma_replay_is_deterministic(first: CpuState, second: CpuState, log: Seq<CommitView>)
    requires
        first.regs == second.regs,
        first.mem.bytes == second.mem.bytes,
    ensures
        trace_of(first, log) == trace_of(second, log),
        state_after_all(first, log).regs == state_after_all(second, log).regs,
        state_after_all(first, log).mem.bytes == state_after_all(second, log).mem.bytes,
    decreases log.len(),
{
    if log.len() > 0 {
        let earlier = log.drop_last();
        lemma_replay_is_deterministic(first, second, earlier);
        lemma_step_is_deterministic(
            state_after_all(first, earlier),
            state_after_all(second, earlier),
            log.last(),
        );
    }
}

/// Replaying a log and then one more commit is replaying the longer log.
pub proof fn lemma_replay_step(s: CpuState, log: Seq<CommitView>, c: CommitView)
    ensures
        state_after_all(s, log.push(c)) == state_after(state_after_all(s, log), c),
        trace_of(s, log.push(c)) == trace_of(s, log).push(record_of(state_after_all(s, log), c)),
{
    assert(log.push(c).drop_last() =~= log);
}

/// A store whose first access carries data reports what stood at the
/// address before and the data after, and the data are what is read there
/// afterwards, whatever accesses follow the first.
pub proof fn lemma_store_reports_first_access(s: CpuState, c: CommitView, width: u32)
    requires
        is_width(width),
        c.bytes_written == Some(width),
        c.mem.len() > 0,
        c.mem[0].data is Some,
        c.mem[0].data->0 < pow256(width as nat),
    ensures
        record_of(s, c).memory_state == Some(
            MemoryState::Write {
                address: c.mem[0].addr,
                pre_value: value_at(s.mem, width, c.mem[0].addr),
                post_value: c.mem[0].data->0,
            },
        ),
        value_at(state_after(s, c).mem, width, c.mem[0].addr) == c.mem[0].data->0,
{
    crate::memory::lemma_write_then_read(
        s.mem,
        c.mem[0].addr,
        width as nat,
        c.mem[0].data->0 as nat,
    );
}

/// The store of a commit leaves a well-formed memory well formed, and takes
/// no page away.
pub proof fn lemma_stores_keep_wf(mem: MemoryView, width: u32, accesses: Seq<MemAccess>)
    requires
        mem.wf(),
    ensures
        store_effect(mem, width, accesses).0.wf(),
        mem.pages.subset_of(store_effect(mem, width, accesses).0.pages),
{
    if accesses.len() > 0 && accesses[0].data is Some && is_width(width) {
        crate::memory::lemma_store_keeps_wf(
            mem,
            accesses[0].addr,
            le_bytes(accesses[0].data->0 as nat, width as nat),
        );
    }
}

/// A commit whose registers are in range leaves a well-formed state well
/// formed: thirty-two registers with a zero in front, and a memory that has
/// lost no page.
pub proof fn lemma_step_keeps_wf(s: CpuState, c: CommitView)
    requires
        s.wf(),
        c.in_range(),
    ensures
        state_after(s, c).wf(),
        s.mem.pages.subset_of(state_after(s, c).mem.pages),
{
    if let Some(width) = c.bytes_written {
        lemma_stores_keep_wf(s.mem, width, c.mem);
    }
    if let Some((rd, value)) = first_integer_write(c.regs) {
        lemma_first_integer_write_in_range(c.regs);
    }
}

/// The first integer write among writes that are in range names one of the
/// thirty-two registers.
pub proof fn lemma_first_integer_write_in_range(writes: Seq<RegisterWrite>)
    requires
        forall|i: int| 0 <= i < writes.len() ==> (#[trigger] writes[i]).reg.in_range(),
    ensures
        first_integer_write(writes) matches Some((rd, _)) ==> rd < 32,
    decreases writes.len(),
{
    if writes.len() > 0 {
        match writes[0].reg {
            Register::X { index } => {},
            _ => {
                let rest = writes.drop_first();
                assert forall|i: int| 0 <= i < rest.len() implies (#[trigger] rest[i]).reg.in_range() by {
                    assert(rest[i] == writes[i + 1]);
                }
                lemma_first_integer_write_in_range(rest);
            },
        }
    }
}

/// Every state that a `Cpu` is in is well formed.
pub proof fn lemma_state_wf(cpu: &Cpu)
    ensures
        cpu@.wf(),
{
    crate::regfile::lemma_regs_valid(&cpu.regs);
    crate::memory::lemma_view_wf(&cpu.dram);
}

} // verus!
