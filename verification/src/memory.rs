//! Guest physical memory as seen by devices: byte-addressed, 32-bit
//! addresses, little-endian multi-byte accesses. An access beyond the end of
//! memory reads 0 and a write there is dropped.
use vstd::prelude::*;

verus! {

/// `a` reduced to a 32-bit guest address (address arithmetic wraps).
pub open spec fn wrap(a: int) -> u32 {
    (a % 0x1_0000_0000) as u32
}

/// The byte at `a`, or 0 beyond the end of memory.
pub open spec fn byte_at(m: Seq<u8>, a: int) -> u8 {
    if 0 <= a < m.len() {
        m[a]
    } else {
        0
    }
}

/// The little-endian `u16` at `a`.
pub open spec fn mem16(m: Seq<u8>, a: int) -> u16 {
    (byte_at(m, a) + 256 * byte_at(m, a + 1)) as u16
}

/// The little-endian `u32` at `a`.
pub open spec fn mem32(m: Seq<u8>, a: int) -> u32 {
    (byte_at(m, a) + 256 * byte_at(m, a + 1) + 65536 * byte_at(m, a + 2) + 16777216 * byte_at(
        m,
        a + 3,
    )) as u32
}

/// Memory after writing `v` at `a` (unchanged beyond the end).
pub open spec fn put8(m: Seq<u8>, a: int, v: u8) -> Seq<u8> {
    if 0 <= a < m.len() {
        m.update(a, v)
    } else {
        m
    }
}

/// Memory after writing the little-endian `u16` `v` at `a`.
pub open spec fn put16(m: Seq<u8>, a: int, v: u16) -> Seq<u8> {
    put8(put8(m, a, (v % 256) as u8), a + 1, (v / 256) as u8)
}

/// Memory after writing the little-endian `u32` `v` at `a`.
pub open spec fn put32(m: Seq<u8>, a: int, v: u32) -> Seq<u8> {
    put8(
        put8(put8(put8(m, a, (v % 256) as u8), a + 1, ((v / 256) % 256) as u8), a + 2, ((v / 65536) % 256) as u8),
        a + 3,
        (v / 16777216) as u8,
    )
}

/// `m` with `data` written from position `a` on (what falls outside `m`
/// is dropped).
pub open spec fn put_at(m: Seq<u8>, a: int, data: Seq<u8>) -> Seq<u8> {
    Seq::new(
        m.len(),
        |i: int|
            if a <= i < a + data.len() {
                data[i - a]
            } else {
                m[i]
            },
    )
}

/// A byte written inside memory is read back, and no other byte changes;
/// a 32-bit value written inside memory is read back.
pub proof fn law_memory_read_back(m: Seq<u8>, a: int, v: u8, b: int, w: u32)
    ensures
        put8(m, a, v).len() == m.len(),
        0 <= a < m.len() ==> byte_at(put8(m, a, v), a) == v,
        a != b ==> byte_at(put8(m, a, v), b) == byte_at(m, b),
        0 <= a && a + 4 <= m.len() ==> mem32(put32(m, a, w), a) == w,
{
    assert(w % 256 + 256 * ((w / 256) % 256) + 65536 * ((w / 65536) % 256) + 16777216 * (w / 16777216) == w);
}

/// Guest memory of a fixed size.
pub struct GuestMemory {
    bytes: Vec<u8>,
}

impl View for GuestMemory {
    type V = Seq<u8>;

    closed spec fn view(&self) -> Seq<u8> {
        self.bytes@
    }
}

impl GuestMemory {
    /// `size` bytes of zeroed memory.
    pub fn new(size: usize) -> (m: GuestMemory)
        ensures
            m@ == Seq::new(size as nat, |i: int| 0u8),
    {
        let mut bytes: Vec<u8> = Vec::with_capacity(size);
        let mut i: usize = 0;
        while i < size
            invariant
                i <= size,
                bytes@ == Seq::new(i as nat, |j: int| 0u8),
            decreases size - i,
        {
            bytes.push(0);
            i = i + 1;
            assert(bytes@ =~= Seq::new(i as nat, |j: int| 0u8));
        }
        GuestMemory { bytes }
    }

    /// Memory holding exactly `bytes`.
    pub fn from_bytes(bytes: Vec<u8>) -> (m: GuestMemory)
        ensures
            m@ == bytes@,
    {
        GuestMemory { bytes }
    }

    /// The number of bytes.
    pub fn len(&self) -> (n: usize)
        ensures
            n == self@.len(),
    {
        self.bytes.len()
    }

    /// The bytes, in order.
    pub fn as_slice(&self) -> (s: &[u8])
        ensures
            s@ == self@,
    {
        self.bytes.as_slice()
    }

    /// The byte at `addr` (0 beyond the end).
    pub fn read8(&self, addr: u32) -> (v: u8)
        ensures
            v == byte_at(self@, addr as int),
    {
        if (addr as usize) < self.bytes.len() {
            self.bytes[addr as usize]
        } else {
            0
        }
    }

    /// The byte at `addr + 1`, where that sum may pass 32 bits.
    fn read8_next(&self, addr: u32, k: u32) -> (v: u8)
        requires
            k < 4,
        ensures
            v == byte_at(self@, addr + k),
    {
        let a = addr as u64 + k as u64;
        if a < self.bytes.len() as u64 {
            self.bytes[a as usize]
        } else {
            0
        }
    }

    /// The little-endian `u16` at `addr`.
    pub fn read16(&self, addr: u32) -> (v: u16)
        ensures
            v == mem16(self@, addr as int),
    {
        let lo = self.read8_next(addr, 0) as u16;
        let hi = self.read8_next(addr, 1) as u16;
        assert(lo + 256 * hi <= 0xffff) by (nonlinear_arith)
            requires
                lo < 256,
                hi < 256,
        ;
        lo + 256 * hi
    }

    /// The little-endian `u32` at `addr`.
    pub fn read32(&self, addr: u32) -> (v: u32)
        ensures
            v == mem32(self@, addr as int),
    {
        let b0 = self.read8_next(addr, 0) as u32;
        let b1 = self.read8_next(addr, 1) as u32;
        let b2 = self.read8_next(addr, 2) as u32;
        let b3 = self.read8_next(addr, 3) as u32;
        assert(b0 + 256 * b1 + 65536 * b2 + 16777216 * b3 <= 0xffff_ffff) by (nonlinear_arith)
            requires
                b0 < 256,
                b1 < 256,
                b2 < 256,
                b3 < 256,
        ;
        b0 + 256 * b1 + 65536 * b2 + 16777216 * b3
    }

    /// Writes `v` at `addr` (dropped beyond the end).
    pub fn write8(&mut self, addr: u32, v: u8)
        ensures
            final(self)@ == put8(old(self)@, addr as int, v),
    {
        if (addr as usize) < self.bytes.len() {
            self.bytes.set(addr as usize, v);
        }
    }

    /// Writes `v` at `addr + k`, where that sum may pass 32 bits.
    fn write8_next(&mut self, addr: u32, k: u32, v: u8)
        requires
            k < 4,
        ensures
            final(self)@ == put8(old(self)@, addr + k, v),
    {
        let a = addr as u64 + k as u64;
        if a < self.bytes.len() as u64 {
            self.bytes.set(a as usize, v);
        }
    }

    /// Writes the little-endian `u16` `v` at `addr`.
    pub fn write16(&mut self, addr: u32, v: u16)
        ensures
            final(self)@ == put16(old(self)@, addr as int, v),
    {
        let lo = (v & 0xff) as u8;
        let hi = (v >> 8) as u8;
        assert(lo == (v % 256) as u8 && hi == (v / 256) as u8) by (bit_vector)
            requires
                lo == (v & 0xff) as u8,
                hi == (v >> 8) as u8,
        ;
        self.write8_next(addr, 0, lo);
        self.write8_next(addr, 1, hi);
    }

    /// Writes the little-endian `u32` `v` at `addr`.
    pub fn write32(&mut self, addr: u32, v: u32)
        ensures
            final(self)@ == put32(old(self)@, addr as int, v),
    {
        let b0 = (v & 0xff) as u8;
        let b1 = ((v >> 8) & 0xff) as u8;
        let b2 = ((v >> 16) & 0xff) as u8;
        let b3 = (v >> 24) as u8;
        assert(b0 == (v % 256) as u8 && b1 == ((v / 256) % 256) as u8 && b2 == ((v / 65536) % 256) as u8
            && b3 == (v / 16777216) as u8) by (bit_vector)
            requires
                b0 == (v & 0xff) as u8,
                b1 == ((v >> 8) & 0xff) as u8,
                b2 == ((v >> 16) & 0xff) as u8,
                b3 == (v >> 24) as u8,
        ;
        self.write8_next(addr, 0, b0);
        self.write8_next(addr, 1, b1);
        self.write8_next(addr, 2, b2);
        self.write8_next(addr, 3, b3);
    }

    /// Copies the bytes from `addr` on into `out`, which they fill.
    pub fn read_into(&self, addr: usize, out: &mut [u8])
        requires
            addr + old(out)@.len() <= self@.len(),
        ensures
            final(out)@ == self@.subrange(addr as int, addr + old(out)@.len()),
    {
        let n = out.len();
        let m = self.bytes.len();
        let mut i: usize = 0;
        while i < n
            invariant
                i <= n,
                n == out@.len(),
                m == self.bytes@.len(),
                addr + n <= self.bytes@.len(),
                out@.subrange(0, i as int) == self.bytes@.subrange(addr as int, addr + i),
            decreases n - i,
        {
            out[i] = self.bytes[addr + i];
            i = i + 1;
            assert(out@.subrange(0, i as int) =~= self.bytes@.subrange(addr as int, addr + i));
        }
        assert(out@.subrange(0, n as int) =~= out@);
    }

    /// Writes `data` from `addr` on.
    pub fn write_from(&mut self, addr: usize, data: &[u8])
        requires
            addr + data@.len() <= old(self)@.len(),
        ensures
            final(self)@ == put_at(old(self)@, addr as int, data@),
    {
        let n = data.len();
        let m = self.bytes.len();
        let mut i: usize = 0;
        while i < n
            invariant
                i <= n,
                n == data@.len(),
                m == self.bytes@.len(),
                addr + n <= self.bytes@.len(),
                self.bytes@ == put_at(old(self)@, addr as int, data@.subrange(0, i as int)),
            decreases n - i,
        {
            self.bytes.set(addr + i, data[i]);
            i = i + 1;
            assert(self.bytes@ =~= put_at(old(self)@, addr as int, data@.subrange(0, i as int)));
        }
        assert(data@.subrange(0, n as int) =~= data@);
    }

    /// Sets every byte to 0.
    pub fn clear(&mut self)
        ensures
            final(self)@ == Seq::new(old(self)@.len(), |i: int| 0u8),
    {
        let n = self.bytes.len();
        let mut i: usize = 0;
        while i < n
            invariant
                i <= n,
                n == self.bytes@.len(),
                n == old(self)@.len(),
                forall|j: int| 0 <= j < i ==> self.bytes@[j] == 0u8,
            decreases n - i,
        {
            self.bytes.set(i, 0);
            i = i + 1;
        }
        assert(self.bytes@ =~= Seq::new(old(self)@.len(), |i: int| 0u8));
    }
}

} // verus!
