//! The native device bus: PCI configuration space and the I/O-port and MMIO
//! registers of the virtio-9p device.
use vstd::prelude::*;
use std::collections::HashMap;
use crate::memory::GuestMemory;
use crate::ninep::{
    Fid, FidView, NinePAction, Virtio9p, Virtio9pView, WalkRequest, error_reply, fids_view, finish_read,
    finish_walk, handle_9p, handled_action, handled_device, initial_device, path_view, read_reply, reply_bytes, walk_reply,
    walked_device, open_payload, statfs_payload, version_payload, zeros, attach_fits, msg_id, msg_tag, T_ATTACH, T_LOPEN,
    T_OPEN, T_READ, T_STATFS, T_VERSION, T_WALK,
};
use crate::le::get32;
use crate::state::{StateValue, as_array_of, as_bool_of, as_i64_of, as_u64_of, slot};
use crate::text::{signed_decimal, text_signed};
use crate::virtqueue::{
    Queue, avail_index, chain, chain_head, complete_request, completed_memory, lemma_completed_memory_len, next16, next_request, queue_ready,
    queue_ready_spec, read_avail_index,
};

verus! {

broadcast use vstd::std_specs::hash::group_hash_axioms;

/// Port range of the virtio common configuration registers.
pub const VIRTIO_9P_COMMON: i32 = 0xA800;
/// Port of the virtio queue notification register.
pub const VIRTIO_9P_NOTIFY: i32 = 0xA900;
/// Port range of the virtio interrupt status register.
pub const VIRTIO_9P_ISR: i32 = 0xA700;
/// Port range of the 9P device configuration (the mount tag).
pub const VIRTIO_9P_CONFIG: i32 = 0xA600;
/// PCI configuration address port.
pub const PCI_CONFIG_ADDRESS: i32 = 0xCF8;
/// PCI configuration data port.
pub const PCI_CONFIG_DATA: i32 = 0xCFC;

/// The devices behind the host port and MMIO callbacks.
pub struct DeviceBus {
    pub ninep: Virtio9p,
    pub pci_address: u32,
}

/// Abstract value of the bus.
pub struct DeviceBusView {
    pub ninep: Virtio9pView,
    pub pci_address: u32,
}

impl View for DeviceBus {
    type V = DeviceBusView;

    open spec fn view(&self) -> DeviceBusView {
        DeviceBusView { ninep: self.ninep@, pci_address: self.pci_address }
    }
}

impl DeviceBus {
    /// The bus at power-on.
    pub fn new() -> (b: DeviceBus)
        ensures
            b@ == (DeviceBusView { ninep: initial_device(), pci_address: 0 }),
    {
        DeviceBus { ninep: Virtio9p::new(), pci_address: 0 }
    }
}

impl Default for DeviceBus {
    fn default() -> (b: DeviceBus)
        ensures
            b@ == (DeviceBusView { ninep: initial_device(), pci_address: 0 }),
    {
        DeviceBus::new()
    }
}

/// The PCI configuration register selected by `address`: only bus 0,
/// device 0 exists and exposes the virtio-9p identity (vendor 0x1AF4,
/// device 0x1009), its class, an I/O BAR at 0xA000 and an interrupt pin.
pub open spec fn pci_config_value(address: u32) -> u32 {
    if address & 0x8000_0000 == 0 || (address >> 11u32) & 0x1F != 0 {
        0xFFFF_FFFF
    } else {
        let reg = (address >> 2u32) & 0x3F;
        if reg == 0 {
            0x1009_1AF4
        } else if reg == 2 {
            0x0180_0000
        } else if reg == 4 {
            0x0000_A001
        } else if reg == 8 {
            0xFF00_0000
        } else {
            0
        }
    }
}

/// Reads the PCI configuration register selected by `address`.
pub fn pci_config_read(address: u32) -> (r: u32)
    ensures
        r == pci_config_value(address),
{
    if address & 0x8000_0000 == 0 || (address >> 11u32) & 0x1F != 0 {
        return 0xFFFF_FFFF;
    }
    let reg = (address >> 2u32) & 0x3F;
    if reg == 0 {
        0x1009_1AF4
    } else if reg == 2 {
        0x0180_0000
    } else if reg == 4 {
        0x0000_A001
    } else if reg == 8 {
        0xFF00_0000
    } else {
        0
    }
}

/// What an 8-bit port read returns: the interrupt status in its 4-port
/// range, the mount tag (zero-padded) in the 8-port configuration range,
/// nothing elsewhere.
pub open spec fn io_read8_value(b: DeviceBusView, port: i32) -> Option<i32> {
    if VIRTIO_9P_ISR <= port < VIRTIO_9P_ISR + 4 {
        Some(b.ninep.isr as i32)
    } else if VIRTIO_9P_CONFIG <= port < VIRTIO_9P_CONFIG + 8 {
        let off = port - VIRTIO_9P_CONFIG;
        Some(if off < b.ninep.tag.len() { b.ninep.tag[off] as i32 } else { 0 })
    } else {
        None
    }
}

/// Reads an 8-bit device port.
pub fn io_read8(bus: &DeviceBus, port: i32) -> (r: Option<i32>)
    ensures
        r == io_read8_value(bus@, port),
{
    if VIRTIO_9P_ISR <= port && port < VIRTIO_9P_ISR + 4 {
        return Some(bus.ninep.isr as i32);
    }
    if VIRTIO_9P_CONFIG <= port && port < VIRTIO_9P_CONFIG + 8 {
        let off = (port - VIRTIO_9P_CONFIG) as usize;
        return Some(
            if off < bus.ninep.tag.len() {
                bus.ninep.tag[off] as i32
            } else {
                0
            },
        );
    }
    None
}

/// What a 32-bit port read returns: the selected PCI configuration register
/// at the data port; in the common-configuration range the device status at
/// offset 20, 1 at offset 24 and 0 elsewhere; nothing at other ports.
pub open spec fn io_read32_value(b: DeviceBusView, port: i32) -> Option<i32> {
    if port == PCI_CONFIG_DATA {
        Some(pci_config_value(b.pci_address) as i32)
    } else if VIRTIO_9P_COMMON <= port < VIRTIO_9P_COMMON + 0x100 {
        let off = port - VIRTIO_9P_COMMON;
        Some(
            if off == 20 {
                b.ninep.status as i32
            } else if off == 24 {
                1
            } else {
                0
            },
        )
    } else {
        None
    }
}

/// Reads a 32-bit device port.
pub fn io_read32(bus: &DeviceBus, port: i32) -> (r: Option<i32>)
    ensures
        r == io_read32_value(bus@, port),
{
    if port == PCI_CONFIG_DATA {
        return Some(pci_config_read(bus.pci_address) as i32);
    }
    if VIRTIO_9P_COMMON <= port && port < VIRTIO_9P_COMMON + 0x100 {
        let off = port - VIRTIO_9P_COMMON;
        return Some(
            match off {
                0 => 0,
                4 => 0,
                8 => 0,
                12 => 0,
                20 => bus.ninep.status as i32,
                24 => 1,
                _ => 0,
            },
        );
    }
    None
}

/// The bus after an 8-bit port write: a write to the interrupt status port
/// clears it; a write to offset 20 of the common range sets the device
/// status; nothing else changes.
pub open spec fn io_write8_bus(b: DeviceBusView, port: i32, value: i32) -> DeviceBusView {
    if port == VIRTIO_9P_ISR {
        DeviceBusView { ninep: Virtio9pView { isr: 0, ..b.ninep }, ..b }
    } else if VIRTIO_9P_COMMON <= port < VIRTIO_9P_COMMON + 0x100 && port - VIRTIO_9P_COMMON == 20 {
        DeviceBusView { ninep: Virtio9pView { status: value as u8, ..b.ninep }, ..b }
    } else {
        b
    }
}

/// Writes an 8-bit device port; returns whether a device claimed the port
/// (the interrupt status port and the common-configuration range).
pub fn io_write8(bus: &mut DeviceBus, port: i32, value: i32) -> (r: bool)
    ensures
        r == (port == VIRTIO_9P_ISR || VIRTIO_9P_COMMON <= port < VIRTIO_9P_COMMON + 0x100),
        final(bus)@ == io_write8_bus(old(bus)@, port, value),
{
    if port == VIRTIO_9P_ISR {
        bus.ninep.isr = 0;
        return true;
    }
    if VIRTIO_9P_COMMON <= port && port < VIRTIO_9P_COMMON + 0x100 {
        if port - VIRTIO_9P_COMMON == 20 {
            bus.ninep.status = value as u8;
        }
        return true;
    }
    false
}

/// Whether a write to `port` notifies the 9P queue; after such a write the
/// caller processes the queue.
pub open spec fn notifies_queue(port: i32) -> bool {
    port == VIRTIO_9P_NOTIFY
}

/// Writes a 16-bit device port; only the queue notification port is
/// claimed, and the queue it notifies is processed by the caller.
pub fn io_write16(bus: &mut DeviceBus, port: i32, value: i32) -> (r: bool)
    ensures
        r == notifies_queue(port),
        final(bus)@ == old(bus)@,
{
    port == VIRTIO_9P_NOTIFY
}

/// Writes a 32-bit device port: the PCI address port latches the address;
/// any other port is handled as a 16-bit write of 0.
pub fn io_write32(bus: &mut DeviceBus, port: i32, value: i32) -> (r: bool)
    ensures
        r == (port == PCI_CONFIG_ADDRESS || notifies_queue(port)),
        final(bus)@ == (if port == PCI_CONFIG_ADDRESS {
            DeviceBusView { pci_address: value as u32, ..old(bus)@ }
        } else {
            old(bus)@
        }),
{
    if port == PCI_CONFIG_ADDRESS {
        bus.pci_address = value as u32;
        return true;
    }
    io_write16(bus, port, 0)
}

/// Whether a write to `port` notifies the 9P queue.
pub fn is_queue_notify(port: i32) -> (r: bool)
    ensures
        r == notifies_queue(port),
{
    port == VIRTIO_9P_NOTIFY
}

/// An 8-bit MMIO read, routed to the port of the same number.
pub fn mmio_read8(bus: &DeviceBus, addr: u32) -> (r: Option<i32>)
    ensures
        r == io_read8_value(bus@, addr as i32),
{
    io_read8(bus, addr as i32)
}

/// A 32-bit MMIO read, routed to the port of the same number.
pub fn mmio_read32(bus: &DeviceBus, addr: u32) -> (r: Option<i32>)
    ensures
        r == io_read32_value(bus@, addr as i32),
{
    io_read32(bus, addr as i32)
}

/// An 8-bit MMIO write, routed to the port of the same number.
pub fn mmio_write8(bus: &mut DeviceBus, addr: u32, value: i32) -> (r: bool)
    ensures
        r == ((addr as i32) == VIRTIO_9P_ISR || (VIRTIO_9P_COMMON <= (addr as i32) && (addr as i32)
            < VIRTIO_9P_COMMON + 0x100)),
        final(bus)@ == io_write8_bus(old(bus)@, addr as i32, value),
{
    io_write8(bus, addr as i32, value)
}

/// A 16-bit MMIO write, routed to the port of the same number.
pub fn mmio_write16(bus: &mut DeviceBus, addr: u32, value: i32) -> (r: bool)
    ensures
        r == notifies_queue(addr as i32),
        final(bus)@ == old(bus)@,
{
    io_write16(bus, addr as i32, value)
}

/// A 32-bit MMIO write, routed to the port of the same number.
pub fn mmio_write32(bus: &mut DeviceBus, addr: u32, value: i32) -> (r: bool)
    ensures
        r == (addr as i32 == PCI_CONFIG_ADDRESS || notifies_queue(addr as i32)),
        final(bus)@ == (if addr as i32 == PCI_CONFIG_ADDRESS {
            DeviceBusView { pci_address: value as u32, ..old(bus)@ }
        } else {
            old(bus)@
        }),
{
    io_write32(bus, addr as i32, value)
}

/// Shares the host directory `path` (already made absolute by the caller)
/// as the 9P root, bound to fid 0.
pub fn set_9p_root(bus: &mut DeviceBus, path: String)
    ensures
        final(bus)@ == (DeviceBusView {
            ninep: Virtio9pView {
                root: Some(path@),
                fids: old(bus)@.ninep.fids.insert(0, FidView { path: seq![path@], opened: false }),
                ..old(bus)@.ninep
            },
            ..old(bus)@
        }),
{
    let ghost before = fids_view(bus.ninep.fids@);
    let ghost pv = path@;
    let copy = path.clone();
    bus.ninep.root = Some(path);
    let mut segs: Vec<String> = Vec::new();
    segs.push(copy);
    assert(path_view(segs@) =~= seq![pv]);
    bus.ninep.fids.insert(0, Fid { path: segs, opened: false });
    assert(fids_view(bus.ninep.fids@) =~= before.insert(0, FidView { path: seq![pv], opened: false }));
}

/// The value of an optional unsigned field, or `d`.
pub open spec fn u64_or(v: Option<StateValue>, d: u64) -> u64 {
    match v {
        Some(x) => match as_u64_of(x) {
            Some(n) => n,
            None => d,
        },
        None => d,
    }
}

/// The value of an optional boolean field, or `d`.
pub open spec fn bool_or(v: Option<StateValue>, d: bool) -> bool {
    match v {
        Some(x) => match as_bool_of(x) {
            Some(b) => b,
            None => d,
        },
        None => d,
    }
}

/// The elements of an optional array value.
pub open spec fn array_at(v: Option<StateValue>) -> Option<Seq<StateValue>> {
    match v {
        Some(x) => as_array_of(x),
        None => None,
    }
}

/// The saved mount tag: each non-negative integer, truncated to a byte;
/// other values are skipped.
pub open spec fn tag_bytes(vals: Seq<StateValue>) -> Seq<u8>
    decreases vals.len(),
{
    if vals.len() == 0 {
        seq![]
    } else {
        let rest = tag_bytes(vals.drop_last());
        match as_u64_of(vals.last()) {
            Some(x) => rest.push(x as u8),
            None => rest,
        }
    }
}

/// The queue restored from its saved array: size (default 32), enabled flag
/// (default false), descriptor, available and used ring addresses and the
/// last seen available index (default 0), each truncated to its width.
pub open spec fn queue_from(q: Queue, qs: Seq<StateValue>) -> Queue {
    Queue {
        size: u64_or(slot(qs, 0), 32) as u16,
        enabled: bool_or(slot(qs, 2), false),
        desc: u64_or(slot(qs, 4), 0) as u32,
        avail: u64_or(slot(qs, 5), 0) as u32,
        avail_last: u64_or(slot(qs, 6), 0) as u16,
        used: u64_or(slot(qs, 7), 0) as u32,
        staged: q.staged,
    }
}

/// The inode number saved for a fid: the first element of its array when
/// that is an integer, else 0.
pub open spec fn inode_of(v: StateValue) -> i64 {
    match array_at(Some(v)) {
        Some(a) => match slot(a, 0) {
            Some(x) => match as_i64_of(x) {
                Some(n) => n,
                None => 0,
            },
            None => 0,
        },
        None => 0,
    }
}

/// The placeholder path of a restored fid.
pub open spec fn inode_path(n: i64) -> Seq<char> {
    "inode-"@ + signed_decimal(n as int)
}

/// The fid table restored from the saved fid array: fid `i` (its index,
/// truncated to 32 bits) gets the placeholder path of its inode, unopened.
pub open spec fn fids_from(vals: Seq<StateValue>) -> Map<u32, FidView>
    decreases vals.len(),
{
    if vals.len() == 0 {
        Map::empty()
    } else {
        fids_from(vals.drop_last()).insert(
            (vals.len() - 1) as u32,
            FidView { path: seq![inode_path(inode_of(vals.last()))], opened: false },
        )
    }
}

/// The 9P device restored from its saved array (slot 45 of the state): the
/// tag from element 0 and the queue from element 10 of element 2, where
/// they are arrays; the fid table replaced by the one of element 8 (empty
/// when absent).
pub open spec fn ninep_restored(d: Virtio9pView, s: Seq<StateValue>) -> Virtio9pView {
    let tag = match array_at(slot(s, 0)) {
        Some(t) => tag_bytes(t),
        None => d.tag,
    };
    let queue = match array_at(slot(s, 2)) {
        Some(v) => match array_at(slot(v, 10)) {
            Some(q) => queue_from(d.queue, q),
            None => d.queue,
        },
        None => d.queue,
    };
    let fids = match array_at(slot(s, 8)) {
        Some(f) => fids_from(f),
        None => Map::empty(),
    };
    Virtio9pView { tag, queue, fids, ..d }
}

/// The bus after restoring from the state's slots: the 9P device is restored
/// when slot 45 is an array, else nothing changes.
pub open spec fn bus_restored(b: DeviceBusView, slots: Seq<StateValue>) -> DeviceBusView {
    match array_at(slot(slots, 45)) {
        Some(s) => DeviceBusView { ninep: ninep_restored(b.ninep, s), ..b },
        None => b,
    }
}

/// The unsigned value of element `i`, or `d`.
fn u64_at_or(vals: &Vec<StateValue>, i: usize, d: u64) -> (r: u64)
    ensures
        r == u64_or(slot(vals@, i as int), d),
{
    if i < vals.len() {
        match vals[i].as_u64() {
            Some(x) => x,
            None => d,
        }
    } else {
        d
    }
}

/// The array at element `i`, if it is one.
fn array_elem(vals: &Vec<StateValue>, i: usize) -> (r: Option<&Vec<StateValue>>)
    ensures
        match r {
            Some(a) => array_at(slot(vals@, i as int)) == Some(a@),
            None => array_at(slot(vals@, i as int)) is None,
        },
{
    if i < vals.len() {
        vals[i].as_array()
    } else {
        None
    }
}

/// The saved tag bytes.
fn collect_tag(vals: &Vec<StateValue>) -> (r: Vec<u8>)
    ensures
        r@ == tag_bytes(vals@),
{
    let mut out: Vec<u8> = Vec::new();
    let mut i: usize = 0;
    while i < vals.len()
        invariant
            i <= vals@.len(),
            out@ == tag_bytes(vals@.subrange(0, i as int)),
        decreases vals@.len() - i,
    {
        assert(vals@.subrange(0, i + 1).drop_last() =~= vals@.subrange(0, i as int));
        match vals[i].as_u64() {
            Some(x) => out.push(x as u8),
            None => {},
        }
        i = i + 1;
    }
    assert(vals@.subrange(0, i as int) =~= vals@);
    out
}

/// The saved fid table.
fn collect_fids(vals: &Vec<StateValue>) -> (r: HashMap<u32, Fid>)
    ensures
        fids_view(r@) == fids_from(vals@),
{
    let mut out: HashMap<u32, Fid> = HashMap::new();
    let mut i: usize = 0;
    assert(fids_view(out@) =~= fids_from(vals@.subrange(0, 0)));
    while i < vals.len()
        invariant
            i <= vals@.len(),
            fids_view(out@) == fids_from(vals@.subrange(0, i as int)),
        decreases vals@.len() - i,
    {
        let inode: i64 = match &vals[i] {
            StateValue::Array(a) => if a.len() > 0 {
                match a[0].as_i64() {
                    Some(n) => n,
                    None => 0,
                }
            } else {
                0
            },
            _ => 0,
        };
        assert(inode == inode_of(vals@[i as int]));
        let name = text_signed("inode-", inode);
        let mut path: Vec<String> = Vec::new();
        path.push(name);
        assert(path_view(path@) =~= seq![inode_path(inode)]);
        let ghost before = fids_view(out@);
        out.insert(i as u32, Fid { path, opened: false });
        assert(vals@.subrange(0, i + 1).drop_last() =~= vals@.subrange(0, i as int));
        assert(fids_view(out@) =~= before.insert(
            i as u32,
            FidView { path: seq![inode_path(inode)], opened: false },
        ));
        i = i + 1;
    }
    assert(vals@.subrange(0, i as int) =~= vals@);
    out
}

/// Restores the device bus from the decoded state: the virtio-9p device's
/// tag, queue and fid table from slot 45 (fids get placeholder paths named
/// after their inodes). The typed buffers are not read.
pub fn restore_state(bus: &mut DeviceBus, state: &StateValue, buffers: &[Vec<u8>]) -> (r: Result<(), String>)
    ensures
        match as_array_of(*state) {
            None => final(bus)@ == old(bus)@ && (r matches Err(e) && e@ == "v86 state is not an array"@),
            Some(slots) => r is Ok && final(bus)@ == bus_restored(old(bus)@, slots),
        },
{
    let slots = match state.as_array() {
        Some(a) => a,
        None => return Err(String::from_str("v86 state is not an array")),
    };
    let s = match array_elem(slots, 45) {
        Some(s) => s,
        None => return Ok(()),
    };
    if let Some(tag) = array_elem(s, 0) {
        bus.ninep.tag = collect_tag(tag);
    }
    if let Some(v) = array_elem(s, 2) {
        if let Some(q) = array_elem(v, 10) {
            bus.ninep.queue.size = u64_at_or(q, 0, 32) as u16;
            bus.ninep.queue.enabled = if 2 < q.len() {
                match q[2].as_bool() {
                    Some(b) => b,
                    None => false,
                }
            } else {
                false
            };
            bus.ninep.queue.desc = u64_at_or(q, 4, 0) as u32;
            bus.ninep.queue.avail = u64_at_or(q, 5, 0) as u32;
            bus.ninep.queue.avail_last = u64_at_or(q, 6, 0) as u16;
            bus.ninep.queue.used = u64_at_or(q, 7, 0) as u32;
        }
    }
    match array_elem(s, 8) {
        Some(f) => {
            bus.ninep.fids = collect_fids(f);
        },
        None => {
            bus.ninep.fids = HashMap::new();
            assert(fids_view(bus.ninep.fids@) =~= Map::<u32, FidView>::empty());
        },
    }
    Ok(())
}

/// What the 9P device answers the message `req`: a message shorter than
/// its header gets the error reply; the rest is `handle_9p`'s answer.
#[verifier::opaque]
pub open spec fn answers(dev: Virtio9pView, req: Seq<u8>, a: NinePAction) -> bool {
    if req.len() < 7 {
        a matches NinePAction::Reply(r) && r@ == error_reply(0)
    } else {
        handled_action(dev, req, a)
    }
}

/// The device after answering `req`.
pub open spec fn answered_device(dev: Virtio9pView, req: Seq<u8>) -> Virtio9pView {
    if req.len() < 7 {
        dev
    } else {
        handled_device(dev, req)
    }
}

proof fn lemma_replies_are_short(dev: Virtio9pView, req: Seq<u8>, a: NinePAction)
    requires
        answers(dev, req, a),
    ensures
        a matches NinePAction::Reply(r) ==> r@.len() <= 100,
{
    reveal(answers);
    assert(version_payload(0).len() == 14);
    assert(open_payload().len() == 17);
    assert(statfs_payload().len() == 58);
    assert(zeros(13).len() == 13);
}

/// A request that needs the host before it can be answered: its chain's
/// head and device-writable buffers, and what it asks.
pub struct HostRequest {
    pub head: u16,
    pub writable: Vec<(u32, u32)>,
    pub action: NinePAction,
}

/// What one step of the 9P queue did.
pub enum QueueStep {
    /// No request is waiting (or the queue is not set up).
    Idle,
    /// The next request was answered with this reply, which went to the
    /// guest.
    Answered(Vec<u8>),
    /// The next request needs the host: a walk to check, a read to serve,
    /// or a message too short for its fields.
    Host(HostRequest),
}

/// The bus after the queue delivered a reply: the next request is taken
/// and the used-buffer interrupt is raised.
pub open spec fn delivered(b: DeviceBusView) -> DeviceBusView {
    DeviceBusView {
        ninep: Virtio9pView {
            queue: Queue { avail_last: next16(b.ninep.queue.avail_last), ..b.ninep.queue },
            isr: b.ninep.isr | 1,
            ..b.ninep
        },
        ..b
    }
}

/// Takes the next request the guest made available on the 9P queue, up to
/// the available index `target` (read once per notification), and answers
/// it when that needs no host work: its reply goes into the chain's
/// writable buffers and the used ring, and the interrupt is raised.
pub fn queue_step(bus: &mut DeviceBus, mem: &mut GuestMemory, target: u16) -> (r: QueueStep)
    ensures
        ({
            let q = old(bus)@.ninep.queue;
            let m = old(mem)@;
            if !queue_ready_spec(q) || q.avail_last == target {
                r is Idle && final(bus)@ == old(bus)@ && final(mem)@ == m
            } else {
                let head = chain_head(q, m);
                let req = chain(m, q.desc, head, q.size as nat).0;
                let ws = chain(m, q.desc, head, q.size as nat).1;
                let dev = answered_device(old(bus)@.ninep, req);
                match r {
                    QueueStep::Idle => false,
                    QueueStep::Answered(reply) => {
                        &&& answers(old(bus)@.ninep, req, NinePAction::Reply(reply))
                        &&& final(mem)@ == completed_memory(q, m, head, ws, reply@)
                        &&& final(bus)@ == delivered(DeviceBusView { ninep: dev, ..old(bus)@ })
                    },
                    QueueStep::Host(h) => {
                        &&& answers(old(bus)@.ninep, req, h.action)
                        &&& !(h.action is Reply)
                        &&& h.head == head
                        &&& h.writable@ == ws
                        &&& final(mem)@ == m
                        &&& final(bus)@ == DeviceBusView { ninep: dev, ..old(bus)@ }
                    },
                }
            }
        }),
{
    let q = bus.ninep.queue;
    if !queue_ready(&q) {
        return QueueStep::Idle;
    }
    if q.avail_last == target {
        return QueueStep::Idle;
    }
    proof {
        reveal(answers);
    }
    let pending = next_request(&q, mem);
    let ghost dev0 = bus.ninep@;
    let action = handle_9p(&mut bus.ninep, pending.request.as_slice());
    proof {
        lemma_replies_are_short(dev0, pending.request@, action);
    }
    match action {
        NinePAction::Reply(reply) => {
            complete_request(&mut bus.ninep.queue, &mut bus.ninep.isr, mem, pending.head, pending.writable.as_slice(), reply.as_slice());
            QueueStep::Answered(reply)
        },
        other => QueueStep::Host(HostRequest { head: pending.head, writable: pending.writable, action: other }),
    }
}

/// Whether a walk can be answered once the host has found `existing` of its
/// names: either a name is missing, or the message held every name it
/// announced. (When every name read exists but the message ended before
/// the announced count, the walk is malformed and gets no answer.)
pub open spec fn walk_answerable(w: WalkRequest, existing: nat) -> bool {
    existing < w.names@.len() || w.names@.len() == w.nwname
}

/// Completes a walk the host checked (see `finish_walk`): the reply goes to
/// the guest through the request's chain. Returns false, changing nothing,
/// when the walk is malformed.
pub fn complete_walk(
    bus: &mut DeviceBus,
    mem: &mut GuestMemory,
    head: u16,
    writable: &[(u32, u32)],
    w: WalkRequest,
    existing: usize,
) -> (answered: bool)
    requires
        existing <= w.names@.len(),
    ensures
        answered == walk_answerable(w, existing as nat),
        answered ==> final(mem)@ == completed_memory(
            old(bus)@.ninep.queue,
            old(mem)@,
            head,
            writable@,
            walk_reply(w, existing as nat),
        ),
        answered ==> final(bus)@ == delivered(
            DeviceBusView { ninep: walked_device(old(bus)@.ninep, w, existing as nat), ..old(bus)@ },
        ),
        !answered ==> final(mem)@ == old(mem)@ && final(bus)@ == old(bus)@,
{
    if !(existing < w.names.len() || w.names.len() == w.nwname as usize) {
        return false;
    }
    let ghost w0 = w;
    let q0 = bus.ninep.queue;
    let reply = finish_walk(&mut bus.ninep, w, existing);
    assert(bus.ninep.queue == q0);
    proof {
        assert(walk_reply(w0, existing as nat).len() <= 7 + 2 + 13 * 65535) by (nonlinear_arith)
            requires
                walk_reply(w0, existing as nat) == (if existing < w0.names@.len() {
                    error_reply(w0.tag)
                } else {
                    reply_bytes(110, w0.tag, crate::le::le16(w0.nwname) + zeros(13 * w0.nwname as nat))
                }),
                w0.nwname <= 65535,
                error_reply(w0.tag).len() == 11,
        ;
    }
    complete_request(&mut bus.ninep.queue, &mut bus.ninep.isr, mem, head, writable, reply.as_slice());
    true
}

/// Completes a read with the bytes the host returned (see `finish_read`):
/// the reply goes to the guest through the request's chain.
pub fn complete_read(bus: &mut DeviceBus, mem: &mut GuestMemory, head: u16, writable: &[(u32, u32)], tag: u16, data: &[u8])
    requires
        data@.len() + 11 <= u32::MAX,
    ensures
        final(mem)@ == completed_memory(old(bus)@.ninep.queue, old(mem)@, head, writable@, read_reply(tag, data@)),
        final(bus)@ == delivered(old(bus)@),
{
    let reply = finish_read(tag, data);
    complete_request(&mut bus.ninep.queue, &mut bus.ninep.isr, mem, head, writable, reply.as_slice());
}

/// The reply the 9P device gives `req` without host work, or nothing when
/// the request needs the host (a walk or a read) or is too short for the
/// fields its type reads.
pub open spec fn answer_reply(dev: Virtio9pView, req: Seq<u8>) -> Option<Seq<u8>> {
    if req.len() < 7 {
        Some(error_reply(0))
    } else {
        let id = msg_id(req);
        let tag = msg_tag(req);
        if id == T_VERSION {
            if req.len() >= 13 {
                Some(reply_bytes(id, tag, version_payload(get32(req, 7))))
            } else {
                None
            }
        } else if id == T_ATTACH {
            if attach_fits(req) {
                Some(reply_bytes(id, tag, zeros(13)))
            } else {
                None
            }
        } else if id == T_WALK || id == T_READ {
            None
        } else if id == T_OPEN || id == T_LOPEN {
            if req.len() >= 11 {
                Some(reply_bytes(id, tag, open_payload()))
            } else {
                None
            }
        } else if id == T_STATFS {
            Some(reply_bytes(id, tag, statfs_payload()))
        } else {
            Some(error_reply(tag))
        }
    }
}

proof fn lemma_answer_reply(dev: Virtio9pView, req: Seq<u8>, a: NinePAction)
    requires
        answers(dev, req, a),
    ensures
        (a is Reply) == (answer_reply(dev, req) is Some),
        a matches NinePAction::Reply(r) ==> answer_reply(dev, req) == Some(r@),
        !(a is Reply) ==> answered_device(dev, req) == dev,
{
    reveal(answers);
}

/// How many requests lie between the queue's next one and `target`.
pub open spec fn pending(q: Queue, target: u16) -> nat {
    ((target - q.avail_last) % 0x1_0000) as nat
}

/// The bus and memory after serving the queue up to `target`, at most
/// `fuel` requests, and whether it stopped at a request that needs the
/// host (which stays the next one).
#[verifier::opaque]
pub open spec fn serve(b: DeviceBusView, m: Seq<u8>, target: u16, fuel: nat) -> (DeviceBusView, Seq<u8>, bool)
    decreases fuel,
{
    let q = b.ninep.queue;
    if fuel == 0 || !queue_ready_spec(q) || q.avail_last == target {
        (b, m, false)
    } else {
        let head = chain_head(q, m);
        let req = chain(m, q.desc, head, q.size as nat).0;
        let ws = chain(m, q.desc, head, q.size as nat).1;
        match answer_reply(b.ninep, req) {
            Some(r) => serve(
                delivered(DeviceBusView { ninep: answered_device(b.ninep, req), ..b }),
                completed_memory(q, m, head, ws, r),
                target,
                (fuel - 1) as nat,
            ),
            None => (b, m, true),
        }
    }
}

/// The available index the driver has published: what one queue
/// notification serves up to.
pub fn notification_target(bus: &DeviceBus, mem: &GuestMemory) -> (t: u16)
    ensures
        t == avail_index(bus@.ninep.queue, mem@),
{
    read_avail_index(&bus.ninep.queue, mem)
}

proof fn lemma_pending_step(q: Queue, target: u16)
    requires
        q.avail_last != target,
    ensures
        pending(q, target) > 0,
        pending(Queue { avail_last: next16(q.avail_last), ..q }, target) == pending(q, target) - 1,
{
}

proof fn lemma_serve_answered(b: DeviceBusView, m: Seq<u8>, target: u16, reply: Seq<u8>)
    requires
        queue_ready_spec(b.ninep.queue),
        b.ninep.queue.avail_last != target,
        answer_reply(
            b.ninep,
            chain(m, b.ninep.queue.desc, chain_head(b.ninep.queue, m), b.ninep.queue.size as nat).0,
        ) == Some(reply),
    ensures
        ({
            let q = b.ninep.queue;
            let head = chain_head(q, m);
            let req = chain(m, q.desc, head, q.size as nat).0;
            let ws = chain(m, q.desc, head, q.size as nat).1;
            let b2 = delivered(DeviceBusView { ninep: answered_device(b.ninep, req), ..b });
            serve(b, m, target, pending(q, target)) == serve(
                b2,
                completed_memory(q, m, head, ws, reply),
                target,
                pending(b2.ninep.queue, target),
            )
        }),
{
    lemma_pending_step(b.ninep.queue, target);
    reveal(serve);
}

proof fn lemma_serve_host(b: DeviceBusView, m: Seq<u8>, target: u16)
    requires
        queue_ready_spec(b.ninep.queue),
        b.ninep.queue.avail_last != target,
        answer_reply(
            b.ninep,
            chain(m, b.ninep.queue.desc, chain_head(b.ninep.queue, m), b.ninep.queue.size as nat).0,
        ) is None,
    ensures
        serve(b, m, target, pending(b.ninep.queue, target)) == (b, m, true),
{
    lemma_pending_step(b.ninep.queue, target);
    reveal(serve);
}

proof fn lemma_serve_idle(b: DeviceBusView, m: Seq<u8>, target: u16)
    requires
        !queue_ready_spec(b.ninep.queue) || b.ninep.queue.avail_last == target,
    ensures
        serve(b, m, target, pending(b.ninep.queue, target)) == (b, m, false),
{
    reveal(serve);
}

/// The host-work clauses of a notification that stopped at request `h`.
pub open spec fn stopped_at(b: DeviceBusView, m: Seq<u8>, h: HostRequest) -> bool {
    let q = b.ninep.queue;
    let req = chain(m, q.desc, chain_head(q, m), q.size as nat).0;
    &&& answers(b.ninep, req, h.action)
    &&& !(h.action is Reply)
    &&& h.head == chain_head(q, m)
    &&& h.writable@ == chain(m, q.desc, chain_head(q, m), q.size as nat).1
}

/// What one turn of serving a notification did.
enum Turn {
    Answered,
    Done(Option<HostRequest>),
}

/// One turn of serving a notification.
fn serve_turn(bus: &mut DeviceBus, mem: &mut GuestMemory, target: u16) -> (t: Turn)
    ensures
        ({
            let s = serve(old(bus)@, old(mem)@, target, pending(old(bus)@.ninep.queue, target));
            match t {
                Turn::Answered => s == serve(final(bus)@, final(mem)@, target, pending(final(bus)@.ninep.queue, target))
                    && pending(final(bus)@.ninep.queue, target) < pending(old(bus)@.ninep.queue, target),
                Turn::Done(r) => {
                    &&& final(bus)@ == s.0
                    &&& final(mem)@ == s.1
                    &&& (r is Some) == s.2
                    &&& r matches Some(h) ==> stopped_at(final(bus)@, final(mem)@, h)
                },
            }
        }),
{
    let ghost b1 = bus@;
    let ghost m1 = mem@;
    let ghost q1 = b1.ninep.queue;
    let ghost req = chain(m1, q1.desc, chain_head(q1, m1), q1.size as nat).0;
    let step = queue_step(bus, mem, target);
    match step {
        QueueStep::Idle => {
            proof {
                lemma_serve_idle(b1, m1, target);
            }
            Turn::Done(None)
        },
        QueueStep::Answered(reply) => {
            proof {
                lemma_answer_reply(b1.ninep, req, NinePAction::Reply(reply));
                lemma_serve_answered(b1, m1, target, reply@);
                lemma_pending_step(q1, target);
            }
            Turn::Answered
        },
        QueueStep::Host(h) => {
            proof {
                lemma_answer_reply(b1.ninep, req, h.action);
                lemma_serve_host(b1, m1, target);
                assert(bus@ == b1);
            }
            Turn::Done(Some(h))
        },
    }
}

/// Serves a queue notification up to the available index `target`: answers
/// the requests in order until `target` is reached, or hands back the first
/// one that needs the host, which stays next (complete it, then call this
/// again with the same `target`).
pub fn serve_notification(bus: &mut DeviceBus, mem: &mut GuestMemory, target: u16) -> (r: Option<HostRequest>)
    ensures
        ({
            let s = serve(old(bus)@, old(mem)@, target, pending(old(bus)@.ninep.queue, target));
            &&& final(bus)@ == s.0
            &&& final(mem)@ == s.1
            &&& (r is Some) == s.2
            &&& r matches Some(h) ==> stopped_at(final(bus)@, final(mem)@, h)
        }),
{
    let ghost b0 = bus@;
    let ghost m0 = mem@;
    loop
        invariant
            b0 == old(bus)@,
            m0 == old(mem)@,
            serve(b0, m0, target, pending(b0.ninep.queue, target)) == serve(
                bus@,
                mem@,
                target,
                pending(bus@.ninep.queue, target),
            ),
        decreases pending(bus@.ninep.queue, target),
    {
        match serve_turn(bus, mem, target) {
            Turn::Answered => {},
            Turn::Done(r) => {
                return r;
            },
        }
    }
}

/// Serving a notification never changes the size of guest memory.
pub proof fn lemma_serve_len(b: DeviceBusView, m: Seq<u8>, target: u16, fuel: nat)
    ensures
        serve(b, m, target, fuel).1.len() == m.len(),
    decreases fuel,
{
    reveal(serve);
    let q = b.ninep.queue;
    if !(fuel == 0 || !queue_ready_spec(q) || q.avail_last == target) {
        let head = chain_head(q, m);
        let req = chain(m, q.desc, head, q.size as nat).0;
        let ws = chain(m, q.desc, head, q.size as nat).1;
        match answer_reply(b.ninep, req) {
            Some(r) => {
                lemma_completed_memory_len(q, m, head, ws, r);
                lemma_serve_len(
                    delivered(DeviceBusView { ninep: answered_device(b.ninep, req), ..b }),
                    completed_memory(q, m, head, ws, r),
                    target,
                    (fuel - 1) as nat,
                );
            },
            None => {},
        }
    }
}

/// A notification served without host work ends with the queue at the
/// published index; when it answered any request, the queue interrupt is
/// raised. Nothing else of the queue changes.
pub proof fn law_notification_reaches_target(b: DeviceBusView, m: Seq<u8>, target: u16, fuel: nat)
    requires
        fuel == pending(b.ninep.queue, target),
        queue_ready_spec(b.ninep.queue),
    ensures
        ({
            let s = serve(b, m, target, fuel);
            &&& !s.2 ==> s.0.ninep.queue == Queue { avail_last: target, ..b.ninep.queue }
            &&& !s.2 && b.ninep.queue.avail_last != target ==> s.0.ninep.isr & 1 == 1
        }),
    decreases fuel,
{
    reveal(serve);
    let q = b.ninep.queue;
    if q.avail_last != target {
        lemma_pending_step(q, target);
        let head = chain_head(q, m);
        let req = chain(m, q.desc, head, q.size as nat).0;
        let ws = chain(m, q.desc, head, q.size as nat).1;
        match answer_reply(b.ninep, req) {
            Some(r) => {
                let b2 = delivered(DeviceBusView { ninep: answered_device(b.ninep, req), ..b });
                assert(b2.ninep.queue == Queue { avail_last: next16(q.avail_last), ..q });
                law_notification_reaches_target(b2, completed_memory(q, m, head, ws, r), target, (fuel - 1) as nat);
                let x = answered_device(b.ninep, req).isr;
                assert((x | 1) & 1 == 1) by (bit_vector);
                let s2 = serve(b2, completed_memory(q, m, head, ws, r), target, (fuel - 1) as nat);
                if !s2.2 && next16(q.avail_last) == target {
                    assert(s2.0 == b2);
                }
            },
            None => {},
        }
    }
}

/// After the PCI address register is written, the data register reads
/// the configuration word that the written address selects.
pub proof fn law_pci_config_read_back(b: DeviceBusView, address: i32)
    ensures
        io_read32_value(DeviceBusView { pci_address: address as u32, ..b }, PCI_CONFIG_DATA) == Some(
            pci_config_value(address as u32) as i32,
        ),
{
}

/// After a restore whose 9P state holds a mount tag, the device's
/// configuration window reads that tag (zero past its end).
pub proof fn law_restored_tag_reads_back(b: DeviceBusView, slots: Seq<StateValue>, s: Seq<StateValue>, t: Seq<StateValue>, i: int)
    requires
        array_at(slot(slots, 45)) == Some(s),
        array_at(slot(s, 0)) == Some(t),
        0 <= i < 8,
    ensures
        io_read8_value(bus_restored(b, slots), (VIRTIO_9P_CONFIG + i) as i32) == Some(
            if i < tag_bytes(t).len() {
                tag_bytes(t)[i] as i32
            } else {
                0i32
            },
        ),
{
}

} // verus!
