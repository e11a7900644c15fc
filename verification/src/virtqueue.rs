//! The split virtqueue of the virtio-9p device: descriptor chains in guest
//! memory, the available ring and the used ring.
use vstd::prelude::*;
use crate::memory::{GuestMemory, byte_at, mem16, mem32, put8, put16, put32, wrap};

verus! {

/// Descriptor flag: the chain continues at `next`.
pub const DESC_NEXT: u16 = 1;
/// Descriptor flag: the buffer is written by the device.
pub const DESC_WRITE: u16 = 2;

/// Driver-visible state of one virtqueue.
#[derive(Clone, Copy, PartialEq, Eq, Structural)]
pub struct Queue {
    pub size: u16,
    pub enabled: bool,
    pub desc: u32,
    pub avail: u32,
    pub avail_last: u16,
    pub used: u32,
    pub staged: u16,
}

impl Queue {
    /// The queue after reset: 32 entries, disabled, no rings.
    pub fn new() -> (q: Queue)
        ensures
            q == (Queue { size: 32, enabled: false, desc: 0, avail: 0, avail_last: 0, used: 0, staged: 0 }),
    {
        Queue { size: 32, enabled: false, desc: 0, avail: 0, avail_last: 0, used: 0, staged: 0 }
    }
}

/// `a + b` as a 32-bit guest address.
fn wadd(a: u32, b: u64) -> (r: u32)
    requires
        b <= 0x1_0000_0000_0000,
    ensures
        r == wrap(a + b),
{
    ((a as u64 + b) % 0x1_0000_0000) as u32
}

/// A queue is processed only when enabled with all three rings placed.
pub open spec fn queue_ready_spec(q: Queue) -> bool {
    q.enabled && q.desc != 0 && q.avail != 0 && q.used != 0
}

/// Whether the queue is enabled with all three rings placed.
pub fn queue_ready(q: &Queue) -> (r: bool)
    ensures
        r == queue_ready_spec(*q),
{
    q.enabled && q.desc != 0 && q.avail != 0 && q.used != 0
}

/// The driver's index in the available ring.
pub open spec fn avail_index(q: Queue, m: Seq<u8>) -> u16 {
    mem16(m, wrap(q.avail + 2) as int)
}

/// Reads the driver's index in the available ring.
pub fn read_avail_index(q: &Queue, mem: &GuestMemory) -> (r: u16)
    ensures
        r == avail_index(*q, mem@),
{
    mem.read16(wadd(q.avail, 2))
}

/// `size - 1`, or 0 for an empty queue.
pub open spec fn size_mask(size: u16) -> u16 {
    if size == 0 {
        0
    } else {
        (size - 1) as u16
    }
}

/// Address of the available-ring slot for the next request.
pub open spec fn avail_slot(q: Queue) -> u32 {
    wrap(q.avail + 4 + 2 * ((q.avail_last & size_mask(q.size)) as int))
}

/// The head descriptor of the next request.
pub open spec fn chain_head(q: Queue, m: Seq<u8>) -> u16 {
    mem16(m, avail_slot(q) as int)
}

/// `len` bytes of guest memory from `addr` (addresses wrap).
pub open spec fn guest_bytes(m: Seq<u8>, addr: u32, len: nat) -> Seq<u8> {
    Seq::new(len, |i: int| byte_at(m, wrap(addr + i) as int))
}

/// Address of descriptor `idx`.
pub open spec fn desc_at(desc: u32, idx: u16) -> u32 {
    wrap(desc + idx * 16)
}

/// What a descriptor chain holds: the bytes of its device-readable buffers
/// in order, and the address and length of each device-writable buffer.
/// At most `steps` descriptors are followed.
pub open spec fn chain(m: Seq<u8>, desc: u32, idx: u16, steps: nat) -> (Seq<u8>, Seq<(u32, u32)>)
    decreases steps,
{
    if steps == 0 {
        (seq![], seq![])
    } else {
        let p = desc_at(desc, idx);
        let addr = mem32(m, p as int);
        let len = mem32(m, wrap(p + 8) as int);
        let flags = mem16(m, wrap(p + 12) as int);
        let next = mem16(m, wrap(p + 14) as int);
        let here: (Seq<u8>, Seq<(u32, u32)>) = if flags & DESC_WRITE != 0 {
            (seq![], seq![(addr, len)])
        } else {
            (guest_bytes(m, addr, len as nat), seq![])
        };
        if flags & DESC_NEXT == 0 {
            here
        } else {
            let rest = chain(m, desc, next, (steps - 1) as nat);
            (here.0 + rest.0, here.1 + rest.1)
        }
    }
}

/// A request taken from the available ring.
pub struct PendingRequest {
    pub head: u16,
    pub request: Vec<u8>,
    pub writable: Vec<(u32, u32)>,
}

/// Copies `len` guest bytes from `addr` onto `out`.
fn copy_from_guest(mem: &GuestMemory, addr: u32, len: u32, out: &mut Vec<u8>)
    ensures
        final(out)@ == old(out)@ + guest_bytes(mem@, addr, len as nat),
{
    let mut i: u32 = 0;
    while i < len
        invariant
            i <= len,
            out@ == old(out)@ + guest_bytes(mem@, addr, i as nat),
        decreases len - i,
    {
        let b = mem.read8(wadd(addr, i as u64));
        out.push(b);
        i = i + 1;
        assert(guest_bytes(mem@, addr, i as nat) =~= guest_bytes(mem@, addr, (i - 1) as nat).push(b));
    }
}

/// Gathers the request at the queue's next available-ring slot: the head
/// descriptor, the readable bytes and the writable buffers of its chain,
/// following at most `size` descriptors.
pub fn next_request(q: &Queue, mem: &GuestMemory) -> (r: PendingRequest)
    ensures
        r.head == chain_head(*q, mem@),
        r.request@ == chain(mem@, q.desc, r.head, q.size as nat).0,
        r.writable@ == chain(mem@, q.desc, r.head, q.size as nat).1,
{
    let mask: u16 = if q.size == 0 { 0 } else { q.size - 1 };
    let slot = wadd(q.avail, 4 + 2 * ((q.avail_last & mask) as u64));
    let head = mem.read16(slot);
    let ghost m = mem@;
    let ghost full = chain(m, q.desc, head, q.size as nat);
    let mut request: Vec<u8> = Vec::new();
    let mut writable: Vec<(u32, u32)> = Vec::new();
    let mut idx = head;
    let mut k: u16 = 0;
    let mut more = true;
    while more && k < q.size
        invariant
            k <= q.size,
            more ==> full == (request@ + chain(m, q.desc, idx, (q.size - k) as nat).0, writable@
                + chain(m, q.desc, idx, (q.size - k) as nat).1),
            !more ==> full == (request@, writable@),
            m == mem@,
        decreases q.size - k,
    {
        let p = wadd(q.desc, (idx as u64) * 16);
        let addr = mem.read32(p);
        let len = mem.read32(wadd(p, 8));
        let flags = mem.read16(wadd(p, 12));
        let next = mem.read16(wadd(p, 14));
        let ghost rest = chain(m, q.desc, next, (q.size - k - 1) as nat);
        let ghost old_req = request@;
        let ghost old_wr = writable@;
        if flags & DESC_WRITE != 0 {
            writable.push((addr, len));
        } else {
            copy_from_guest(mem, addr, len, &mut request);
        }
        if flags & DESC_NEXT == 0 {
            more = false;
            assert(old_req + chain(m, q.desc, idx, (q.size - k) as nat).0 =~= request@);
            assert(old_wr + chain(m, q.desc, idx, (q.size - k) as nat).1 =~= writable@);
        } else {
            assert(old_req + chain(m, q.desc, idx, (q.size - k) as nat).0 =~= request@ + rest.0);
            assert(old_wr + chain(m, q.desc, idx, (q.size - k) as nat).1 =~= writable@ + rest.1);
            idx = next;
        }
        k = k + 1;
    }
    if more {
        assert(request@ + chain(m, q.desc, idx, 0).0 =~= request@);
        assert(writable@ + chain(m, q.desc, idx, 0).1 =~= writable@);
    }
    proof {
        assert(avail_slot(*q) == slot) by {
            assert(mask == size_mask(q.size));
        }
    }
    PendingRequest { head, request, writable }
}

/// Memory after writing the first `k` bytes of `data` from `addr` on, one
/// byte after the other (addresses wrap).
pub open spec fn put_bytes(m: Seq<u8>, addr: u32, data: Seq<u8>, k: nat) -> Seq<u8>
    decreases k,
{
    if k == 0 {
        m
    } else {
        put8(put_bytes(m, addr, data, (k - 1) as nat), wrap(addr + k - 1) as int, data[k - 1])
    }
}

/// Smaller of two naturals.
pub open spec fn min_nat(a: nat, b: nat) -> nat {
    if a < b { a } else { b }
}

/// Memory and reply position after copying the reply into the first `j`
/// writable buffers: each takes as many of the remaining reply bytes as
/// fit.
pub open spec fn scatter(m: Seq<u8>, ws: Seq<(u32, u32)>, reply: Seq<u8>, j: nat) -> (Seq<u8>, nat)
    decreases j,
{
    if j == 0 || j > ws.len() {
        (m, 0)
    } else {
        let prev = scatter(m, ws, reply, (j - 1) as nat);
        let (addr, len) = ws[j - 1];
        let pos = prev.1;
        let n = min_nat(len as nat, if pos <= reply.len() { (reply.len() - pos) as nat } else { 0 });
        (put_bytes(prev.0, addr, reply.subrange(pos as int, (pos + n) as int), n), pos + n)
    }
}

/// Memory after recording a used-ring entry (head, bytes written) at the
/// used index and advancing the used index by one.
pub open spec fn record_used(q: Queue, m: Seq<u8>, head: u16, written: nat) -> Seq<u8> {
    let used_idx = mem16(m, wrap(q.used + 2) as int);
    let ring_off = 8 * ((used_idx & ring_mask(q.size)) as int);
    let m2 = put32(m, wrap(q.used + 4 + ring_off) as int, head as u32);
    let m3 = put32(m2, wrap(q.used + 8 + ring_off) as int, written as u32);
    put16(m3, wrap(q.used + 2) as int, next16(used_idx))
}

/// Memory after a completed request: the reply scattered into the writable
/// buffers, then the used-ring entry recorded.
pub open spec fn completed_memory(q: Queue, m: Seq<u8>, head: u16, ws: Seq<(u32, u32)>, reply: Seq<u8>) -> Seq<u8> {
    let s = scatter(m, ws, reply, ws.len());
    record_used(q, s.0, head, s.1)
}

/// `x + 1`, wrapping at 16 bits.
pub open spec fn next16(x: u16) -> u16 {
    ((x + 1) % 65536) as u16
}

/// `size - 1`, wrapping at 16 bits (the used ring's index mask).
pub open spec fn ring_mask(size: u16) -> u16 {
    if size == 0 {
        0xffff
    } else {
        (size - 1) as u16
    }
}

/// Copies bytes `[pos, pos + n)` of `reply` into guest memory at `addr`.
fn copy_to_guest(mem: &mut GuestMemory, addr: u32, reply: &[u8], pos: usize, n: usize)
    requires
        pos + n <= reply@.len(),
        n <= u32::MAX,
    ensures
        final(mem)@ == put_bytes(old(mem)@, addr, reply@.subrange(pos as int, pos + n), n as nat),
{
    let rl = reply.len();
    let ghost data = reply@.subrange(pos as int, pos + n);
    let mut i: usize = 0;
    while i < n
        invariant
            i <= n,
            pos + n <= reply@.len(),
            rl == reply@.len(),
            n <= u32::MAX,
            data == reply@.subrange(pos as int, pos + n),
            mem@ == put_bytes(old(mem)@, addr, data, i as nat),
        decreases n - i,
    {
        mem.write8(wadd(addr, i as u64), reply[pos + i]);
        i = i + 1;
        assert(data[i - 1] == reply@[pos + i - 1]);
    }
}

/// Copies the reply into the writable buffers, each taking as many of the
/// remaining bytes as fit; returns how many were copied.
fn scatter_reply(mem: &mut GuestMemory, writable: &[(u32, u32)], reply: &[u8]) -> (written: u32)
    requires
        reply@.len() <= u32::MAX,
    ensures
        (final(mem)@, written as nat) == scatter(old(mem)@, writable@, reply@, writable@.len()),
{
    let ghost m0 = mem@;
    let rl = reply.len();
    let mut pos: usize = 0;
    let mut j: usize = 0;
    while j < writable.len()
        invariant
            j <= writable@.len(),
            rl == reply@.len(),
            rl <= u32::MAX,
            (mem@, pos as nat) == scatter(m0, writable@, reply@, j as nat),
            pos <= rl,
        decreases writable@.len() - j,
    {
        let (addr, len) = writable[j];
        let left = rl - pos;
        let n: usize = if (len as usize) < left { len as usize } else { left };
        copy_to_guest(mem, addr, reply, pos, n);
        pos = pos + n;
        j = j + 1;
    }
    pos as u32
}

/// Records a used-ring entry and advances the used index.
#[verifier::spinoff_prover]
fn push_used(q: &Queue, mem: &mut GuestMemory, head: u16, written: u32)
    ensures
        final(mem)@ == record_used(*q, old(mem)@, head, written as nat),
{
    let used_idx = mem.read16(wadd(q.used, 2));
    let mask: u16 = if q.size == 0 { 0xffff } else { q.size - 1 };
    assert(mask == ring_mask(q.size));
    assert(used_idx & mask <= 0xffff) by (bit_vector);
    let ring_off = 8 * ((used_idx & mask) as u64);
    assert(ring_off == 8 * ((used_idx & ring_mask(q.size)) as int));
    mem.write32(wadd(q.used, 4 + ring_off), head as u32);
    mem.write32(wadd(q.used, 8 + ring_off), written);
    let next: u16 = if used_idx == 0xffff { 0 } else { used_idx + 1 };
    mem.write16(wadd(q.used, 2), next);
}

/// Hands a request back to the driver: scatters the reply into its writable
/// buffers, records it in the used ring, advances the queue past it and
/// raises the queue interrupt bit.
pub fn complete_request(
    q: &mut Queue,
    isr: &mut u8,
    mem: &mut GuestMemory,
    head: u16,
    writable: &[(u32, u32)],
    reply: &[u8],
)
    requires
        reply@.len() <= u32::MAX,
    ensures
        final(mem)@ == completed_memory(*old(q), old(mem)@, head, writable@, reply@),
        *final(q) == (Queue { avail_last: next16(old(q).avail_last), ..*old(q) }),
        *final(isr) == *old(isr) | 1,
{
    let written = scatter_reply(mem, writable, reply);
    push_used(q, mem, head, written);
    q.avail_last = if q.avail_last == 0xffff { 0 } else { q.avail_last + 1 };
    *isr = *isr | 1;
}

/// How many bytes the first `j` writable buffers hold.
pub open spec fn capacity(ws: Seq<(u32, u32)>, j: nat) -> nat
    decreases j,
{
    if j == 0 || j > ws.len() {
        0
    } else {
        capacity(ws, (j - 1) as nat) + ws[j - 1].1 as nat
    }
}

/// A completed request reports as written exactly the bytes of the reply
/// that fit into its writable buffers: the smaller of the reply's length
/// and the buffers' total size.
pub proof fn law_bytes_written(m: Seq<u8>, ws: Seq<(u32, u32)>, reply: Seq<u8>, j: nat)
    requires
        j <= ws.len(),
    ensures
        scatter(m, ws, reply, j).1 == min_nat(capacity(ws, j), reply.len()),
    decreases j,
{
    if j > 0 {
        law_bytes_written(m, ws, reply, (j - 1) as nat);
    }
}

proof fn lemma_put_bytes(m: Seq<u8>, addr: u32, data: Seq<u8>, k: nat, a: int)
    requires
        k <= data.len(),
        addr + k <= 0x1_0000_0000,
    ensures
        put_bytes(m, addr, data, k).len() == m.len(),
        byte_at(put_bytes(m, addr, data, k), a) == if addr <= a < addr + k && a < m.len() {
            data[a - addr]
        } else {
            byte_at(m, a)
        },
    decreases k,
{
    if k > 0 {
        lemma_put_bytes(m, addr, data, (k - 1) as nat, a);
        let prev = put_bytes(m, addr, data, (k - 1) as nat);
        assert(wrap(addr + k - 1) == addr + k - 1);
    }
}

/// A reply that fits the request's one writable buffer is what the driver
/// then reads from that buffer, when the buffer lies inside guest memory
/// and clear of the used ring.
pub proof fn law_reply_reaches_guest(q: Queue, m: Seq<u8>, head: u16, addr: u32, cap: u32, reply: Seq<u8>)
    requires
        reply.len() <= cap,
        addr + reply.len() <= m.len(),
        addr + reply.len() <= 0x1_0000_0000,
        q.used + 8 * 0x1_0000 + 16 <= 0x1_0000_0000,
        addr + reply.len() <= q.used || q.used + 8 * 0x1_0000 + 16 <= addr,
    ensures
        guest_bytes(completed_memory(q, m, head, seq![(addr, cap)], reply), addr, reply.len()) == reply,
{
    let ws = seq![(addr, cap)];
    let n = reply.len();
    assert(scatter(m, ws, reply, 0) == (m, 0nat));
    assert(reply.subrange(0, n as int) =~= reply);
    let s = scatter(m, ws, reply, 1);
    assert(s.0 == put_bytes(m, addr, reply, n));
    let used_idx = mem16(s.0, wrap(q.used + 2) as int);
    let ring_off = 8 * ((used_idx & ring_mask(q.size)) as int);
    let mask = ring_mask(q.size);
    assert(used_idx & mask <= used_idx) by (bit_vector);
    assert(wrap(q.used + 4 + ring_off) == q.used + 4 + ring_off);
    assert(wrap(q.used + 8 + ring_off) == q.used + 8 + ring_off);
    assert(wrap(q.used + 2) == q.used + 2);
    let m2 = put32(s.0, q.used + 4 + ring_off, head as u32);
    let m3 = put32(m2, q.used + 8 + ring_off, s.1 as u32);
    let m4 = put16(m3, q.used + 2, next16(used_idx));
    assert forall|i: int| 0 <= i < n implies #[trigger] guest_bytes(m4, addr, n)[i] == reply[i] by {
        let a = addr + i;
        assert(wrap(addr + i) == a);
        lemma_put_bytes(m, addr, reply, n, a);
        assert(byte_at(m2, a) == byte_at(s.0, a));
        assert(byte_at(m3, a) == byte_at(m2, a));
        assert(byte_at(m4, a) == byte_at(m3, a));
    }
    assert(guest_bytes(m4, addr, n) =~= reply);
}

proof fn lemma_put_bytes_len(m: Seq<u8>, addr: u32, data: Seq<u8>, k: nat)
    ensures
        put_bytes(m, addr, data, k).len() == m.len(),
    decreases k,
{
    if k > 0 {
        lemma_put_bytes_len(m, addr, data, (k - 1) as nat);
    }
}

proof fn lemma_scatter_len(m: Seq<u8>, ws: Seq<(u32, u32)>, reply: Seq<u8>, j: nat)
    ensures
        scatter(m, ws, reply, j).0.len() == m.len(),
    decreases j,
{
    if j > 0 && j <= ws.len() {
        lemma_scatter_len(m, ws, reply, (j - 1) as nat);
        let prev = scatter(m, ws, reply, (j - 1) as nat);
        let (addr, len) = ws[j - 1];
        let pos = prev.1;
        let n = min_nat(len as nat, if pos <= reply.len() { (reply.len() - pos) as nat } else { 0 });
        lemma_put_bytes_len(prev.0, addr, reply.subrange(pos as int, (pos + n) as int), n);
    }
}

/// Completing a request never changes the size of guest memory.
pub proof fn lemma_completed_memory_len(q: Queue, m: Seq<u8>, head: u16, ws: Seq<(u32, u32)>, reply: Seq<u8>)
    ensures
        completed_memory(q, m, head, ws, reply).len() == m.len(),
{
    lemma_scatter_len(m, ws, reply, ws.len());
}

/// The head of the next request is read from inside the available ring:
/// from one of its `size` two-byte entries after the flags and index
/// words, namely entry `avail_last mod size` when the size is a power of
/// two, as virtio queue sizes are.
pub proof fn law_next_head_in_ring(q: Queue, m: Seq<u8>)
    requires
        q.size > 0,
    ensures
        exists|k: int| 0 <= k < q.size && chain_head(q, m) == mem16(m, #[trigger] wrap(q.avail + 4 + 2 * k) as int),
        q.size & (q.size - 1) as u16 == 0 ==> chain_head(q, m) == mem16(
            m,
            wrap(q.avail + 4 + 2 * (q.avail_last % q.size)) as int,
        ),
{
    let s = q.size;
    let a = q.avail_last;
    let k = a & ((s - 1) as u16);
    assert(size_mask(s) == (s - 1) as u16);
    assert(k <= (s - 1) as u16) by (bit_vector)
        requires
            k == a & ((s - 1) as u16),
    ;
    assert(wrap(q.avail + 4 + 2 * (k as int)) == avail_slot(q));
    if s & (s - 1) as u16 == 0 {
        assert(a & ((s - 1) as u16) == a % s) by (bit_vector)
            requires
                s > 0,
                s & (s - 1) as u16 == 0,
        ;
    }
}

/// After a request is completed, the next one is taken from the following
/// entry of the available ring, wrapping to entry 0 after the last one
/// (for the power-of-two sizes of virtio queues).
pub proof fn law_next_entry_after_completion(q: Queue)
    requires
        q.size > 0,
        q.size & (q.size - 1) as u16 == 0,
    ensures
        avail_slot(Queue { avail_last: next16(q.avail_last), ..q }) == wrap(
            q.avail + 4 + 2 * ((q.avail_last + 1) % (q.size as int)),
        ),
{
    let s = q.size;
    let a = q.avail_last;
    let b = next16(a);
    assert(size_mask(s) == (s - 1) as u16);
    assert(b == if a == 0xffff { 0u16 } else { (a + 1) as u16 });
    assert(b & ((s - 1) as u16) == ((a + 1) % (s as int)) as u16) by (bit_vector)
        requires
            s > 0,
            s & (s - 1) as u16 == 0,
            b == if a == 0xffff { 0u16 } else { (a + 1) as u16 },
    ;
}

} // verus!
