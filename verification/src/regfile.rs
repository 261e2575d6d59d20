//! The integer register file: thirty-two 64-bit registers, the first of which
//! is hardwired to zero.

use vstd::prelude::*;

verus! {

/// What thirty-two registers hold when all are zero.
pub open spec fn zeroed() -> Seq<u64> {
    Seq::new(32, |i: int| 0u64)
}

/// Holds of the contents of every register file: thirty-two values, the
/// first of them zero.
pub open spec fn valid_regs(regs: Seq<u64>) -> bool {
    regs.len() == 32 && regs[0] == 0
}

/// The contents after `val` is written to register `idx`: unchanged for
/// register zero, that one register replaced otherwise.
pub open spec fn written(regs: Seq<u64>, idx: int, val: u64) -> Seq<u64> {
    if idx == 0 {
        regs
    } else {
        regs.update(idx, val)
    }
}

/// RISC-V integer register file (x0 to x31).
#[derive(Debug, Clone)]
pub struct RegFile {
    regs: [u64; 32],
}

impl View for RegFile {
    type V = Seq<u64>;

    /// The architectural contents: thirty-two values, the first always zero.
    closed spec fn view(&self) -> Seq<u64> {
        Seq::new(32, |i: int| if i == 0 { 0u64 } else { self.regs@[i] })
    }
}

impl RegFile {
    /// Create a register file with every register set to zero.
    pub fn new() -> (rf: Self)
        ensures
            rf@ == zeroed(),
    {
        let rf = RegFile { regs: [0u64; 32] };
        assert(rf@ =~= zeroed());
        rf
    }

    /// Read a register; `x0` always reads as zero.
    pub fn read(&self, idx: usize) -> (val: u64)
        requires
            idx < 32,
        ensures
            val == self@[idx as int],
            idx == 0 ==> val == 0,
    {
        if idx == 0 {
            0
        } else {
            self.regs[idx]
        }
    }

    /// Write a register; a write to `x0` has no effect.
    pub fn write(&mut self, idx: usize, val: u64)
        requires
            idx < 32,
        ensures
            final(self)@ == written(old(self)@, idx as int, val),
            valid_regs(final(self)@),
    {
        if idx != 0 {
            self.regs[idx] = val;
        }
        assert(self@ =~= written(old(self)@, idx as int, val));
    }

    /// A snapshot of all registers, with `x0` forced to zero.
    pub fn dump(&self) -> (snapshot: [u64; 32])
        ensures
            snapshot@ == self@,
            snapshot@[0] == 0,
    {
        let mut snapshot = self.regs;
        snapshot[0] = 0;
        assert(snapshot@ =~= self@);
        snapshot
    }
}

/// The contents of a register file are always thirty-two values with a zero
/// in front.
pub proof fn lemma_regs_valid(rf: &RegFile)
    ensures
        valid_regs(rf@),
{
}

/// Register zero reads as zero after any write, and a write to it changes
/// nothing at all.
pub proof fn lemma_zero_register(regs: Seq<u64>, idx: int, val: u64)
    requires
        valid_regs(regs),
        0 <= idx < 32,
    ensures
        written(regs, idx, val)[0] == 0,
        written(regs, 0, val) == regs,
        valid_regs(written(regs, idx, val)),
{
}

/// A value written to one of the registers 1 to 31 is what that register
/// holds afterwards, and every other register keeps its value.
pub proof fn lemma_written_register(regs: Seq<u64>, idx: int, val: u64)
    requires
        valid_regs(regs),
        1 <= idx < 32,
    ensures
        written(regs, idx, val)[idx] == val,
        forall|j: int| 0 <= j < 32 && j != idx ==> written(regs, idx, val)[j] == regs[j],
{
}

} // verus!
