//! A byte-addressed model of the address space that place handles point into.
//!
//! Address `a` names the `a`-th byte. Every byte is either unallocated, allocated
//! but uninitialized, or initialized with a value. Address 0 is the null address
//! and is never allocated, so every place that can be read or written is non-null.
use vstd::prelude::*;

verus! {

/// The state of one byte of memory.
#[derive(PartialEq, Eq, Structural, Clone, Copy, Debug)]
pub enum Byte {
    /// Not part of any live allocation.
    Unallocated,
    /// Allocated, but holding no value (never written, moved out of, or dropped).
    Uninit,
    /// Allocated and holding the given value.
    Init(u8),
}

/// The value of an initialized byte (meaningless for other bytes).
pub open spec fn byte_value(b: Byte) -> u8 {
    match b {
        Byte::Init(v) => v,
        _ => 0,
    }
}

/// `[addr, addr + len)` lies inside the modelled address space.
pub open spec fn in_bounds(m: Seq<Byte>, addr: int, len: int) -> bool {
    0 <= addr && 0 <= len && addr + len <= m.len()
}

/// Every byte of `[addr, addr + len)` is allocated.
pub open spec fn range_allocated(m: Seq<Byte>, addr: int, len: int) -> bool {
    &&& in_bounds(m, addr, len)
    &&& forall|i: int| addr <= i < addr + len ==> !(#[trigger] m[i] is Unallocated)
}

/// Every byte of `[addr, addr + len)` is initialized.
pub open spec fn range_init(m: Seq<Byte>, addr: int, len: int) -> bool {
    &&& in_bounds(m, addr, len)
    &&& forall|i: int| addr <= i < addr + len ==> #[trigger] m[i] is Init
}

/// The values of the bytes `[addr, addr + len)`.
pub open spec fn bytes_at(m: Seq<Byte>, addr: int, len: int) -> Seq<u8> {
    Seq::new(len as nat, |i: int| byte_value(m[addr + i]))
}

/// `m` after the bytes of `s` have been stored from `addr` on.
pub open spec fn stored(m: Seq<Byte>, addr: int, s: Seq<u8>) -> Seq<Byte> {
    Seq::new(m.len(), |i: int| if addr <= i < addr + s.len() { Byte::Init(s[i - addr]) } else { m[i] })
}

/// `m` after every byte of `[addr, addr + len)` has been set to `b`.
pub open spec fn filled(m: Seq<Byte>, addr: int, len: int, b: Byte) -> Seq<Byte> {
    Seq::new(m.len(), |i: int| if addr <= i < addr + len { b } else { m[i] })
}

/// The little-endian 8-byte word stored at `addr`.
pub open spec fn word_at(m: Seq<Byte>, addr: int) -> u64 {
    vstd::bytes::spec_u64_from_le_bytes(bytes_at(m, addr, 8))
}

/// The null address is never allocated.
pub open spec fn null_unallocated(m: Seq<Byte>) -> bool {
    m.len() > 0 && m[0] is Unallocated
}

/// The modelled address space.
pub struct Memory {
    cells: Vec<Byte>,
}

impl View for Memory {
    type V = Seq<Byte>;

    closed spec fn view(&self) -> Seq<Byte> {
        self.cells@
    }
}

impl Memory {
    /// An address space of `len` bytes: the null byte, then `len - 1` allocated,
    /// uninitialized bytes.
    pub fn new(len: usize) -> (m: Memory)
        requires
            len >= 1,
        ensures
            m@.len() == len,
            null_unallocated(m@),
            forall|i: int| 1 <= i < len ==> #[trigger] m@[i] == Byte::Uninit,
    {
        let mut cells: Vec<Byte> = Vec::new();
        cells.push(Byte::Unallocated);
        let mut i: usize = 1;
        while i < len
            invariant
                1 <= i <= len,
                cells@.len() == i,
                cells@[0] is Unallocated,
                forall|j: int| 1 <= j < i ==> #[trigger] cells@[j] == Byte::Uninit,
            decreases len - i,
        {
            cells.push(Byte::Uninit);
            i = i + 1;
        }
        Memory { cells }
    }

    /// An address space holding the null byte followed by `bytes`, so that
    /// `bytes[i]` lives at address `i + 1`.
    pub fn from_bytes(bytes: &[u8]) -> (m: Memory)
        requires
            bytes@.len() < usize::MAX,
        ensures
            m@.len() == bytes@.len() + 1,
            null_unallocated(m@),
            forall|i: int| 0 <= i < bytes@.len() ==> #[trigger] m@[i + 1] == Byte::Init(bytes@[i]),
    {
        let mut cells: Vec<Byte> = Vec::new();
        cells.push(Byte::Unallocated);
        let mut i: usize = 0;
        while i < bytes.len()
            invariant
                i <= bytes@.len(),
                cells@.len() == i + 1,
                cells@[0] is Unallocated,
                forall|j: int| 0 <= j < i ==> #[trigger] cells@[j + 1] == Byte::Init(bytes@[j]),
            decreases bytes@.len() - i,
        {
            cells.push(Byte::Init(bytes[i]));
            i = i + 1;
        }
        Memory { cells }
    }

    /// Number of addressable bytes.
    pub fn len(&self) -> (n: usize)
        ensures
            n == self@.len(),
    {
        self.cells.len()
    }

    /// The state of the byte at `addr`.
    pub fn byte(&self, addr: usize) -> (b: Byte)
        requires
            addr < self@.len(),
        ensures
            b == self@[addr as int],
    {
        self.cells[addr]
    }

    /// Reads the `len` initialized bytes starting at `addr`.
    pub fn read(&self, addr: usize, len: usize) -> (v: Vec<u8>)
        requires
            range_init(self@, addr as int, len as int),
        ensures
            v@ == bytes_at(self@, addr as int, len as int),
    {
        let mut v: Vec<u8> = Vec::new();
        let mut i: usize = 0;
        while i < len
            invariant
                i <= len,
                range_init(self@, addr as int, len as int),
                v@ == bytes_at(self@, addr as int, i as int),
            decreases len - i,
        {
            let n = self.cells.len();
            assert(addr + i < n);
            let b = match self.cells[addr + i] {
                Byte::Init(b) => b,
                _ => 0,
            };
            v.push(b);
            i = i + 1;
            assert(v@ =~= bytes_at(self@, addr as int, i as int));
        }
        v
    }

    /// Stores `value` from `addr` on; the bytes must be allocated.
    pub fn write(&mut self, addr: usize, value: &[u8])
        requires
            range_allocated(old(self)@, addr as int, value@.len() as int),
        ensures
            final(self)@ == stored(old(self)@, addr as int, value@),
            null_unallocated(old(self)@) ==> null_unallocated(final(self)@),
    {
        let ghost m0 = self@;
        let mut i: usize = 0;
        while i < value.len()
            invariant
                i <= value@.len(),
                range_allocated(m0, addr as int, value@.len() as int),
                self@ == stored(m0, addr as int, value@.subrange(0, i as int)),
                self@.len() == m0.len(),
            decreases value@.len() - i,
        {
            let n = self.cells.len();
            assert(addr + i < n);
            self.cells.set(addr + i, Byte::Init(value[i]));
            i = i + 1;
            assert(self@ =~= stored(m0, addr as int, value@.subrange(0, i as int)));
        }
        assert(value@.subrange(0, value@.len() as int) =~= value@);
    }

    /// Sets every byte of `[addr, addr + len)` to `b`; the bytes must be allocated.
    fn fill(&mut self, addr: usize, len: usize, b: Byte)
        requires
            range_allocated(old(self)@, addr as int, len as int),
        ensures
            final(self)@ == filled(old(self)@, addr as int, len as int, b),
    {
        let ghost m0 = self@;
        let mut i: usize = 0;
        while i < len
            invariant
                i <= len,
                range_allocated(m0, addr as int, len as int),
                self@ == filled(m0, addr as int, i as int, b),
                self@.len() == m0.len(),
            decreases len - i,
        {
            let n = self.cells.len();
            assert(addr + i < n);
            self.cells.set(addr + i, b);
            i = i + 1;
            assert(self@ =~= filled(m0, addr as int, i as int, b));
        }
    }

    /// Ends the values in `[addr, addr + len)` (a drop or a move out); the
    /// bytes stay allocated.
    pub fn uninit(&mut self, addr: usize, len: usize)
        requires
            range_allocated(old(self)@, addr as int, len as int),
        ensures
            final(self)@ == filled(old(self)@, addr as int, len as int, Byte::Uninit),
            null_unallocated(old(self)@) ==> null_unallocated(final(self)@),
    {
        self.fill(addr, len, Byte::Uninit);
    }

    /// Frees the allocated bytes `[addr, addr + len)`.
    pub fn dealloc(&mut self, addr: usize, len: usize)
        requires
            range_allocated(old(self)@, addr as int, len as int),
        ensures
            final(self)@ == filled(old(self)@, addr as int, len as int, Byte::Unallocated),
            null_unallocated(old(self)@) ==> null_unallocated(final(self)@),
    {
        self.fill(addr, len, Byte::Unallocated);
    }

    /// Reads the little-endian 8-byte word at `addr`.
    pub fn read_word(&self, addr: usize) -> (w: u64)
        requires
            range_init(self@, addr as int, 8),
        ensures
            w == word_at(self@, addr as int),
    {
        let v = self.read(addr, 8);
        vstd::bytes::u64_from_le_bytes(v.as_slice())
    }

    /// Stores `w` as a little-endian 8-byte word at `addr`.
    pub fn write_word(&mut self, addr: usize, w: u64)
        requires
            range_allocated(old(self)@, addr as int, 8),
        ensures
            final(self)@ == stored(old(self)@, addr as int, vstd::bytes::spec_u64_to_le_bytes(w)),
            word_at(final(self)@, addr as int) == w,
            range_init(final(self)@, addr as int, 8),
            null_unallocated(old(self)@) ==> null_unallocated(final(self)@),
    {
        proof {
            vstd::bytes::lemma_auto_spec_u64_to_from_le_bytes();
        }
        let v = vstd::bytes::u64_to_le_bytes(w);
        self.write(addr, v.as_slice());
        proof {
            lemma_read_stored(old(self)@, addr as int, v@);
        }
    }
}

/// Reading back the bytes just stored gives them back, and they are initialized.
pub proof fn lemma_read_stored(m: Seq<Byte>, addr: int, s: Seq<u8>)
    requires
        in_bounds(m, addr, s.len() as int),
    ensures
        bytes_at(stored(m, addr, s), addr, s.len() as int) == s,
        range_init(stored(m, addr, s), addr, s.len() as int),
        stored(m, addr, s).len() == m.len(),
{
    assert(bytes_at(stored(m, addr, s), addr, s.len() as int) =~= s);
}

} // verus!
