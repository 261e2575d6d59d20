//! A lazily allocated, page-granular model of a 64-bit byte-addressed memory.
//!
//! Pages are 4 KiB. A page comes into existence the first time one of its
//! bytes is written; every byte of a page that does not exist reads as zero.
//! Multi-byte accesses are little-endian and wrap around at the top of the
//! address space.

use std::collections::hash_map::Entry;
use std::collections::HashMap;
use vstd::prelude::*;

verus! {

broadcast use vstd::std_specs::hash::group_hash_axioms;

/// Bytes per page.
pub const PAGE_SIZE: usize = 4096;

/// Index of the page that holds `addr`.
pub open spec fn page_of(addr: u64) -> u64 {
    addr / 4096
}

/// The address `i` bytes above `addr`, wrapping around at 2^64.
pub open spec fn addr_plus(addr: u64, i: int) -> u64 {
    ((addr + i) % 0x1_0000_0000_0000_0000) as u64
}

/// How many bytes `a` lies above `addr`, going round at 2^64.
pub open spec fn addr_offset(addr: u64, a: u64) -> int {
    (a - addr) % 0x1_0000_0000_0000_0000
}

/// 256 to the power `i`.
pub open spec fn pow256(i: nat) -> nat
    decreases i,
{
    if i == 0 {
        1
    } else {
        256 * pow256((i - 1) as nat)
    }
}

/// The number that `bytes` spell in little-endian order: the sum of
/// `bytes[i] * 256^i`.
pub open spec fn le_value(bytes: Seq<u8>) -> nat
    decreases bytes.len(),
{
    if bytes.len() == 0 {
        0
    } else {
        le_value(bytes.drop_last()) + bytes.last() as nat * pow256((bytes.len() - 1) as nat)
    }
}

/// The low `n` bytes of `val` in little-endian order.
pub open spec fn le_bytes(val: nat, n: nat) -> Seq<u8> {
    Seq::new(n, |i: int| ((val / pow256(i as nat)) % 256) as u8)
}

/// What a memory holds: the byte at every address, and which pages exist.
pub struct MemoryView {
    /// The byte at each address; total over `u64`.
    pub bytes: Map<u64, u8>,
    /// Indices of the pages that have been allocated.
    pub pages: Set<u64>,
}

impl MemoryView {
    /// The `n` bytes that start at `addr`.
    pub open spec fn span(self, addr: u64, n: nat) -> Seq<u8> {
        Seq::new(n, |i: int| self.bytes[addr_plus(addr, i)])
    }

    /// Pages touched by an access of `n` bytes at `addr`.
    pub open spec fn pages_of(addr: u64, n: nat) -> Set<u64> {
        Set::new(|p: u64| exists|i: int| 0 <= i < n && p == page_of(#[trigger] addr_plus(addr, i)))
    }

    /// The memory after `data` has been stored at `addr`: those bytes are
    /// replaced, all others stay, and the pages under them exist.
    pub open spec fn store(self, addr: u64, data: Seq<u8>) -> MemoryView {
        MemoryView {
            bytes: Map::new(
                |a: u64| true,
                |a: u64|
                    if addr_offset(addr, a) < data.len() {
                        data[addr_offset(addr, a)]
                    } else {
                        self.bytes[a]
                    },
            ),
            pages: self.pages.union(Self::pages_of(addr, data.len())),
        }
    }

    /// Holds of every memory that a `SparseDram` can be in: every address has
    /// a byte, finitely many pages exist, and a byte outside them is zero.
    pub open spec fn wf(self) -> bool {
        &&& self.bytes.dom() == Set::<u64>::new(|a: u64| true)
        &&& self.pages.finite()
        &&& forall|a: u64| !self.pages.contains(page_of(a)) ==> #[trigger] self.bytes[a] == 0
    }

    /// The memory in which nothing was ever written.
    pub open spec fn empty() -> MemoryView {
        MemoryView { bytes: Map::new(|a: u64| true, |a: u64| 0u8), pages: Set::empty() }
    }
}

/// `SparseDram` is a lazily allocated, page-based memory model that stands in
/// for a very large DRAM.
pub struct SparseDram {
    pages: HashMap<u64, Box<[u8; 4096]>>,
}

impl View for SparseDram {
    type V = MemoryView;

    closed spec fn view(&self) -> MemoryView {
        MemoryView {
            bytes: Map::new(
                |a: u64| true,
                |a: u64|
                    if self.pages@.contains_key(a / 4096) {
                        self.pages@[a / 4096]@[(a % 4096) as int]
                    } else {
                        0u8
                    },
            ),
            pages: self.pages@.dom(),
        }
    }
}

impl SparseDram {
    /// Creates an empty memory with no pages allocated.
    pub fn new() -> (mem: Self)
        ensures
            mem@ == MemoryView::empty(),
    {
        let mem = SparseDram { pages: HashMap::new() };
        assert(mem@.bytes =~= MemoryView::empty().bytes);
        assert(mem@.pages =~= MemoryView::empty().pages);
        mem
    }

    /// The page with index `page_idx`, if it exists.
    fn get_page(&self, page_idx: u64) -> (page: Option<&[u8; 4096]>)
        ensures
            page is Some <==> self.pages@.contains_key(page_idx),
            page matches Some(p) ==> p@ == self.pages@[page_idx]@,
    {
        match self.pages.get(&page_idx) {
            Some(b) => Some(&**b),
            None => None,
        }
    }

    /// Reads one byte. Never allocates.
    pub fn read_u8(&self, addr: u64) -> (val: u8)
        ensures
            val == self@.bytes[addr],
            val as nat == le_value(self@.span(addr, 1)),
    {
        proof {
            lemma_one_byte(self@, addr);
        }
        let page_idx = addr / PAGE_SIZE as u64;
        let offset = (addr % PAGE_SIZE as u64) as usize;
        match self.get_page(page_idx) {
            Some(p) => p[offset],
            None => 0,
        }
    }

    /// Writes one byte, allocating its page if it does not exist yet.
    pub fn write_u8(&mut self, addr: u64, val: u8)
        ensures
            final(self)@ == old(self)@.store(addr, seq![val]),
            final(self)@.bytes == old(self)@.bytes.insert(addr, val),
            le_value(final(self)@.span(addr, 1)) == val,
            final(self)@.pages == old(self)@.pages.insert(page_of(addr)),
            final(self)@.pages.len() == old(self)@.pages.len() + (if old(self)@.pages.contains(
                page_of(addr),
            ) {
                0nat
            } else {
                1nat
            }),
    {
        let page_idx = addr / PAGE_SIZE as u64;
        let offset = (addr % PAGE_SIZE as u64) as usize;
        let page = match self.pages.entry(page_idx) {
            Entry::Occupied(present) => present.into_mut(),
            Entry::Vacant(absent) => absent.insert(Box::new([0u8; 4096])),
        };
        page[offset] = val;
        proof {
            lemma_view_wf(old(self));
            lemma_one_byte(old(self)@, addr);
            lemma_one_byte(self@, addr);
            Self::lemma_store_one(old(self)@, addr, val);
            assert(self@.bytes =~= old(self)@.bytes.insert(addr, val));
            assert(self@.pages =~= old(self)@.pages.insert(page_of(addr)));
        }
    }

    /// Storing a single byte replaces that byte and touches its page.
    pub proof fn lemma_store_one(m: MemoryView, addr: u64, val: u8)
        requires
            m.wf(),
        ensures
            m.store(addr, seq![val]).bytes == m.bytes.insert(addr, val),
            m.store(addr, seq![val]).pages == m.pages.insert(page_of(addr)),
    {
        assert(addr_plus(addr, 0) == addr);
        assert forall|a: u64| addr_offset(addr, a) < 1 <==> a == addr by {}
        assert(m.store(addr, seq![val]).bytes =~= m.bytes.insert(addr, val));
        assert(MemoryView::pages_of(addr, 1) =~= set![page_of(addr)]);
        assert(m.store(addr, seq![val]).pages =~= m.pages.insert(page_of(addr)));
    }

    /// Reads `N` bytes and assembles them little-endian.
    fn read_numeric<const N: usize>(&self, addr: u64) -> (value: u64)
        requires
            N <= 8,
        ensures
            value as nat == le_value(self@.span(addr, N as nat)),
            value < pow256(N as nat),
    {
        let mut value: u64 = 0;
        let mut i: usize = 0;
        proof {
            reveal_with_fuel(le_value, 1);
        }
        while i < N
            invariant
                i <= N <= 8,
                value as nat == le_value(self@.span(addr, i as nat)),
                value < pow256(i as nat),
            decreases N - i,
        {
            let byte = self.read_u8(addr.wrapping_add(i as u64));
            let shift: u64 = 8 * (i as u64);
            proof {
                let wider = self@.span(addr, (i + 1) as nat);
                assert(wider.drop_last() =~= self@.span(addr, i as nat));
                assert(wider.last() == byte);
                lemma_or_in_byte(value, byte, i as nat);
            }
            value = value | ((byte as u64) << shift);
            i += 1;
        }
        value
    }

    /// Writes the low `N` bytes of `val`, little-endian.
    fn write_numeric<const N: usize>(&mut self, addr: u64, val: u64)
        requires
            N <= 8,
        ensures
            final(self)@ == old(self)@.store(addr, le_bytes(val as nat, N as nat)),
    {
        let mut i: usize = 0;
        proof {
            lemma_view_wf(self);
            lemma_store_nothing(self@, addr);
            assert(le_bytes(val as nat, 0) =~= Seq::<u8>::empty());
        }
        while i < N
            invariant
                i <= N <= 8,
                self@ == old(self)@.store(addr, le_bytes(val as nat, i as nat)),
                old(self)@.wf(),
            decreases N - i,
        {
            let shift: u64 = 8 * (i as u64);
            let byte = ((val >> shift) & 0xFF) as u8;
            proof {
                lemma_byte_of(val, i as nat);
                lemma_store_push(old(self)@, addr, le_bytes(val as nat, i as nat), byte);
                assert(le_bytes(val as nat, i as nat).push(byte) =~= le_bytes(
                    val as nat,
                    (i + 1) as nat,
                ));
            }
            self.write_u8(addr.wrapping_add(i as u64), byte);
            i += 1;
        }
    }

    /// Reads a 16-bit little-endian value.
    pub fn read_u16(&self, addr: u64) -> (val: u16)
        ensures
            val as nat == le_value(self@.span(addr, 2)),
    {
        let value = self.read_numeric::<2>(addr);
        proof {
            reveal_with_fuel(pow256, 3);
        }
        value as u16
    }

    /// Reads a 32-bit little-endian value.
    pub fn read_u32(&self, addr: u64) -> (val: u32)
        ensures
            val as nat == le_value(self@.span(addr, 4)),
    {
        let value = self.read_numeric::<4>(addr);
        proof {
            reveal_with_fuel(pow256, 5);
        }
        value as u32
    }

    /// Reads a 64-bit little-endian value.
    pub fn read_u64(&self, addr: u64) -> (val: u64)
        ensures
            val as nat == le_value(self@.span(addr, 8)),
    {
        self.read_numeric::<8>(addr)
    }

    /// Writes a 16-bit value, little-endian.
    pub fn write_u16(&mut self, addr: u64, val: u16)
        ensures
            final(self)@ == old(self)@.store(addr, le_bytes(val as nat, 2)),
            le_value(final(self)@.span(addr, 2)) == val,
    {
        proof {
            reveal_with_fuel(pow256, 3);
            lemma_write_then_read(self@, addr, 2, val as nat);
        }
        self.write_numeric::<2>(addr, val as u64)
    }

    /// Writes a 32-bit value, little-endian.
    pub fn write_u32(&mut self, addr: u64, val: u32)
        ensures
            final(self)@ == old(self)@.store(addr, le_bytes(val as nat, 4)),
            le_value(final(self)@.span(addr, 4)) == val,
    {
        proof {
            reveal_with_fuel(pow256, 5);
            lemma_write_then_read(self@, addr, 4, val as nat);
        }
        self.write_numeric::<4>(addr, val as u64)
    }

    /// Writes a 64-bit value, little-endian.
    pub fn write_u64(&mut self, addr: u64, val: u64)
        ensures
            final(self)@ == old(self)@.store(addr, le_bytes(val as nat, 8)),
            le_value(final(self)@.span(addr, 8)) == val,
    {
        proof {
            reveal_with_fuel(pow256, 9);
            lemma_write_then_read(self@, addr, 8, val as nat);
        }
        self.write_numeric::<8>(addr, val)
    }

    /// Returns the number of pages currently allocated.
    pub fn allocated_pages(&self) -> (n: usize)
        ensures
            n == self@.pages.len(),
            self@.pages.finite(),
    {
        self.pages.len()
    }
}

/// One byte is its own little-endian value.
pub proof fn lemma_one_byte(m: MemoryView, addr: u64)
    ensures
        le_value(m.span(addr, 1)) == m.bytes[addr],
{
    let one = m.span(addr, 1);
    assert(addr_plus(addr, 0) == addr);
    assert(one.last() == m.bytes[addr]);
    assert(le_value(one.drop_last()) == 0);
    assert(pow256(0) == 1);
    assert(le_value(one) == le_value(one.drop_last()) + one.last() as nat * pow256(0));
}

/// The little-endian bytes of a number below 256 are that one byte.
pub proof fn lemma_le_bytes_of_byte(val: u8)
    ensures
        le_bytes(val as nat, 1) == seq![val],
{
    let unit = pow256(0);
    assert((val as nat / unit) % 256 == val as nat) by (nonlinear_arith)
        requires
            unit == 1,
            val < 256,
    ;
    assert(le_bytes(val as nat, 1) =~= seq![val]);
}

/// Every memory that a `SparseDram` holds is well formed.
pub proof fn lemma_view_wf(mem: &SparseDram)
    ensures
        mem@.wf(),
{
}

/// Or-ing a byte in above the `i` bytes assembled so far adds `byte * 256^i`.
proof fn lemma_or_in_byte(value: u64, byte: u8, i: nat)
    requires
        i < 8,
        value < pow256(i),
    ensures
        value | ((byte as u64) << ((8 * i) as u64)) == value + byte * pow256(i),
        value + byte * pow256(i) < pow256(i + 1),
{
    reveal_with_fuel(pow256, 10);
    let b = byte as u64;
    if i == 0 {
        assert(value | (b << 0u64) == value + b * 0x1) by (bit_vector)
            requires
                value < 0x1,
                b < 0x100,
        ;
    } else if i == 1 {
        assert(value | (b << 8u64) == value + b * 0x100) by (bit_vector)
            requires
                value < 0x100,
                b < 0x100,
        ;
    } else if i == 2 {
        assert(value | (b << 16u64) == value + b * 0x1_0000) by (bit_vector)
            requires
                value < 0x1_0000,
                b < 0x100,
        ;
    } else if i == 3 {
        assert(value | (b << 24u64) == value + b * 0x100_0000) by (bit_vector)
            requires
                value < 0x100_0000,
                b < 0x100,
        ;
    } else if i == 4 {
        assert(value | (b << 32u64) == value + b * 0x1_0000_0000) by (bit_vector)
            requires
                value < 0x1_0000_0000,
                b < 0x100,
        ;
    } else if i == 5 {
        assert(value | (b << 40u64) == value + b * 0x100_0000_0000) by (bit_vector)
            requires
                value < 0x100_0000_0000,
                b < 0x100,
        ;
    } else if i == 6 {
        assert(value | (b << 48u64) == value + b * 0x1_0000_0000_0000) by (bit_vector)
            requires
                value < 0x1_0000_0000_0000,
                b < 0x100,
        ;
    } else {
        assert(value | (b << 56u64) == value + b * 0x100_0000_0000_0000) by (bit_vector)
            requires
                value < 0x100_0000_0000_0000,
                b < 0x100,
        ;
    }
}

/// Shifting right by `8 * i` and masking picks byte `i` of the value.
proof fn lemma_byte_of(val: u64, i: nat)
    requires
        i < 8,
    ensures
        (val >> ((8 * i) as u64)) & 0xFF == (val as nat / pow256(i)) % 256,
{
    reveal_with_fuel(pow256, 10);
    if i == 0 {
        assert((val >> 0u64) & 0xFF == (val / 0x1) % 256) by (bit_vector);
    } else if i == 1 {
        assert((val >> 8u64) & 0xFF == (val / 0x100) % 256) by (bit_vector);
    } else if i == 2 {
        assert((val >> 16u64) & 0xFF == (val / 0x1_0000) % 256) by (bit_vector);
    } else if i == 3 {
        assert((val >> 24u64) & 0xFF == (val / 0x100_0000) % 256) by (bit_vector);
    } else if i == 4 {
        assert((val >> 32u64) & 0xFF == (val / 0x1_0000_0000) % 256) by (bit_vector);
    } else if i == 5 {
        assert((val >> 40u64) & 0xFF == (val / 0x100_0000_0000) % 256) by (bit_vector);
    } else if i == 6 {
        assert((val >> 48u64) & 0xFF == (val / 0x1_0000_0000_0000) % 256) by (bit_vector);
    } else {
        assert((val >> 56u64) & 0xFF == (val / 0x100_0000_0000_0000) % 256) by (bit_vector);
    }
}

/// Storing no bytes changes nothing.
proof fn lemma_store_nothing(m: MemoryView, addr: u64)
    requires
        m.wf(),
    ensures
        m.store(addr, Seq::<u8>::empty()) == m,
{
    let after = m.store(addr, Seq::<u8>::empty());
    assert(after.bytes =~= m.bytes);
    assert(MemoryView::pages_of(addr, 0) =~= Set::<u64>::empty());
    assert(after.pages =~= m.pages);
}

/// Storing `data` and then one more byte right above it is storing the
/// longer sequence at once.
proof fn lemma_store_push(m: MemoryView, addr: u64, data: Seq<u8>, byte: u8)
    requires
        m.wf(),
        data.len() < 0x1_0000_0000_0000_0000,
    ensures
        m.store(addr, data).store(addr_plus(addr, data.len() as int), seq![byte]) == m.store(
            addr,
            data.push(byte),
        ),
{
    let n = data.len() as int;
    let top = addr_plus(addr, n);
    let stepwise = m.store(addr, data).store(top, seq![byte]);
    let at_once = m.store(addr, data.push(byte));
    assert forall|a: u64| stepwise.bytes[a] == at_once.bytes[a] by {
        assert(addr_offset(top, a) < 1 <==> addr_offset(addr, a) == n);
    }
    assert(stepwise.bytes =~= at_once.bytes);
    assert(addr_plus(top, 0) == top);
    assert forall|p: u64| stepwise.pages.contains(p) <==> at_once.pages.contains(p) by {
        if MemoryView::pages_of(top, 1).contains(p) {
            assert(p == page_of(addr_plus(addr, n)));
        }
        if MemoryView::pages_of(addr, data.len()).contains(p) {
            let i = choose|i: int| 0 <= i < n && p == page_of(#[trigger] addr_plus(addr, i));
            assert(0 <= i < n + 1 && p == page_of(addr_plus(addr, i)));
        }
        if MemoryView::pages_of(addr, (n + 1) as nat).contains(p) {
            let i = choose|i: int| 0 <= i < n + 1 && p == page_of(#[trigger] addr_plus(addr, i));
            if i == n {
                assert(p == page_of(addr_plus(top, 0)));
            } else {
                assert(0 <= i < n && p == page_of(addr_plus(addr, i)));
            }
        }
    }
    assert(stepwise.pages =~= at_once.pages);
}

/// The little-endian bytes of a number spell that number again, cut to the
/// bytes that were kept.
pub proof fn lemma_le_roundtrip(val: nat, n: nat)
    ensures
        le_value(le_bytes(val, n)) == val % pow256(n),
    decreases n,
{
    if n == 0 {
        assert(le_bytes(val, 0).len() == 0);
        assert(pow256(0) == 1);
    } else {
        let m = (n - 1) as nat;
        let low = pow256(m);
        let digit = (val / low) % 256;
        lemma_le_roundtrip(val, m);
        lemma_pow256_positive(m);
        assert(le_bytes(val, n).drop_last() =~= le_bytes(val, m));
        assert(le_bytes(val, n).last() as nat == digit);
        assert(le_value(le_bytes(val, n)) == val % low + digit * low);
        vstd::arithmetic::div_mod::lemma_mod_breakdown(val as int, low as int, 256);
        assert(pow256(n) == low * 256 && digit * low == low * digit) by (nonlinear_arith)
            requires
                pow256(n) == 256 * low,
        ;
    }
}

/// Powers of 256 are positive.
pub proof fn lemma_pow256_positive(i: nat)
    ensures
        pow256(i) > 0,
    decreases i,
{
    if i > 0 {
        lemma_pow256_positive((i - 1) as nat);
    }
}

/// Bytes that were stored are the bytes found there afterwards.
pub proof fn lemma_store_then_span(m: MemoryView, addr: u64, data: Seq<u8>)
    requires
        data.len() <= 0x1_0000_0000_0000_0000,
    ensures
        m.store(addr, data).span(addr, data.len()) == data,
{
    let found = m.store(addr, data).span(addr, data.len());
    assert forall|i: int| 0 <= i < data.len() implies found[i] == data[i] by {
        assert(addr_offset(addr, addr_plus(addr, i)) == i);
    }
    assert(found =~= data);
}

/// Writing a value of `n` bytes at any address and reading `n` bytes back at
/// that address gives the value again, across page boundaries and across the
/// top of the address space alike.
pub proof fn lemma_write_then_read(m: MemoryView, addr: u64, n: nat, val: nat)
    requires
        n <= 0x1_0000_0000_0000_0000,
        val < pow256(n),
    ensures
        le_value(m.store(addr, le_bytes(val, n)).span(addr, n)) == val,
{
    lemma_store_then_span(m, addr, le_bytes(val, n));
    lemma_le_roundtrip(val, n);
    vstd::arithmetic::div_mod::lemma_small_mod(val, pow256(n));
}

/// A read that lies wholly in pages that do not exist gives zero.
pub proof fn lemma_read_unallocated(m: MemoryView, addr: u64, n: nat)
    requires
        m.wf(),
        forall|i: int| 0 <= i < n ==> !m.pages.contains(page_of(#[trigger] addr_plus(addr, i))),
    ensures
        le_value(m.span(addr, n)) == 0,
{
    lemma_zero_span(m, addr, n);
}

/// A span of zero bytes has the value zero.
pub proof fn lemma_zero_span(m: MemoryView, addr: u64, n: nat)
    requires
        forall|i: int| 0 <= i < n ==> m.bytes[#[trigger] addr_plus(addr, i)] == 0,
    ensures
        le_value(m.span(addr, n)) == 0,
    decreases n,
{
    if n > 0 {
        let shorter = (n - 1) as nat;
        assert(m.span(addr, n).drop_last() =~= m.span(addr, shorter));
        lemma_zero_span(m, addr, shorter);
        assert(m.span(addr, n).last() == m.bytes[addr_plus(addr, n - 1)]);
    }
}

/// The memory after a series of stores, each given by its address and its
/// bytes.
pub open spec fn after_stores(m: MemoryView, stores: Seq<(u64, Seq<u8>)>) -> MemoryView
    decreases stores.len(),
{
    if stores.len() == 0 {
        m
    } else {
        after_stores(m, stores.drop_last()).store(stores.last().0, stores.last().1)
    }
}

/// Whether one of the stores wrote the byte at `a`.
pub open spec fn written_by(stores: Seq<(u64, Seq<u8>)>, a: u64) -> bool {
    exists|k: int|
        0 <= k < stores.len() && addr_offset((#[trigger] stores[k]).0, a) < stores[k].1.len()
}

/// A byte that no store wrote is as it was before the stores.
pub proof fn lemma_unwritten_byte_stays(m: MemoryView, stores: Seq<(u64, Seq<u8>)>, a: u64)
    requires
        !written_by(stores, a),
    ensures
        after_stores(m, stores).bytes[a] == m.bytes[a],
    decreases stores.len(),
{
    if stores.len() > 0 {
        let earlier = stores.drop_last();
        assert forall|k: int| 0 <= k < earlier.len() implies !(addr_offset(
            (#[trigger] earlier[k]).0,
            a,
        ) < earlier[k].1.len()) by {
            assert(earlier[k] == stores[k]);
        }
        lemma_unwritten_byte_stays(m, earlier, a);
        assert(stores[stores.len() - 1] == stores.last());
    }
}

/// In a memory that began empty, a read of addresses that were never
/// written gives zero, at any width and after any stores elsewhere.
pub proof fn lemma_unwritten_reads_zero(stores: Seq<(u64, Seq<u8>)>, addr: u64, n: nat)
    requires
        forall|i: int| 0 <= i < n ==> !written_by(stores, #[trigger] addr_plus(addr, i)),
    ensures
        le_value(after_stores(MemoryView::empty(), stores).span(addr, n)) == 0,
{
    let m = after_stores(MemoryView::empty(), stores);
    assert forall|i: int| 0 <= i < n implies m.bytes[#[trigger] addr_plus(addr, i)] == 0 by {
        lemma_unwritten_byte_stays(MemoryView::empty(), stores, addr_plus(addr, i));
    }
    lemma_zero_span(m, addr, n);
}

/// A store leaves a well-formed memory well formed, and takes no page away.
pub proof fn lemma_store_keeps_wf(m: MemoryView, addr: u64, data: Seq<u8>)
    requires
        m.wf(),
        data.len() <= 0x1_0000_0000_0000_0000,
    ensures
        m.store(addr, data).wf(),
        m.pages.subset_of(m.store(addr, data).pages),
{
    let after = m.store(addr, data);
    let touched = MemoryView::pages_of(addr, data.len());
    assert(after.bytes.dom() =~= Set::<u64>::new(|a: u64| true));
    let reach = Set::<int>::new(|i: int| 0 <= i < data.len());
    assert(reach =~= vstd::set_lib::set_int_range(0, data.len() as int));
    vstd::set_lib::lemma_int_range(0, data.len() as int);
    let pages = reach.map(|i: int| page_of(addr_plus(addr, i)));
    reach.lemma_map_finite(|i: int| page_of(addr_plus(addr, i)));
    assert forall|p: u64| touched.contains(p) implies pages.contains(p) by {
        let i = choose|i: int| 0 <= i < data.len() && p == page_of(#[trigger] addr_plus(addr, i));
        assert(reach.contains(i));
    }
    assert(touched.subset_of(pages));
    vstd::set_lib::lemma_len_subset(touched, pages);
    assert forall|a: u64| !after.pages.contains(page_of(a)) implies #[trigger] after.bytes[a]
        == 0 by {
        let d = addr_offset(addr, a);
        if d < data.len() {
            assert(addr_plus(addr, d) == a);
            assert(touched.contains(page_of(a)));
        }
    }
}

/// Writing one byte adds at most one page: exactly one if the byte's page
/// did not exist, none if it did.
pub proof fn lemma_write_byte_pages(m: MemoryView, addr: u64, val: u8)
    requires
        m.wf(),
    ensures
        m.store(addr, seq![val]).pages.len() == m.pages.len() + (if m.pages.contains(
            page_of(addr),
        ) {
            0nat
        } else {
            1nat
        }),
{
    SparseDram::lemma_store_one(m, addr, val);
}

} // verus!
