//! The native CPU's state arena and guest RAM, and restoring them from a
//! decoded v86 saved state.
//!
//! Restoring a state writes the registers into the arena (see
//! `registers`), the serial port and the device bus, and the packed guest
//! pages into RAM. Calls into the interrupt controllers and the time-stamp
//! counter are left to the CPU core: the restore is split at each of them,
//! and the pieces hand back what those calls take.
use vstd::prelude::*;
use crate::devices::{
    DeviceBus, DeviceBusView, HostRequest, array_at, bus_restored, delivered, lemma_serve_len, pending, restore_state, serve,
    stopped_at, walk_answerable,
};
use crate::ninep::{WalkRequest, read_reply, walk_reply, walked_device};
use crate::virtqueue::{avail_index, completed_memory, lemma_completed_memory_len};
use crate::le::{get32, read_u32};
use crate::ninep::{FidView, Virtio9pView};
use crate::memory::{GuestMemory, put_at};
use crate::registers::{
    OFFSET_ACPI_ENABLED, OFFSET_APIC_ENABLED, OFFSET_INSTRUCTION_POINTER, OFFSET_IN_HLT, OFFSET_MEMORY_SIZE,
    STATE_ARENA_BYTES, apply_steps, fpu_step_table, fpu_steps, low_bytes, put_low_bytes, register_step_table,
    register_steps, run_steps, step_fits,
};
use crate::state::{
    StateValue, as_array_of, buffer_for, buffer_for_result, byte_array_from_state, byte_array_from_values,
    pic_bytes_result, scalar_result, slot,
};
use crate::text::{decimal, text_num_text_num_text};
use crate::uart::{UartState, UartView, restore_uart_state, uart_restored};

verus! {

/// Size of one guest page.
pub const PAGE_BYTES: usize = 0x1000;

/// The reset vector: where execution starts after power-on.
pub const RESET_VECTOR: u32 = 0xFFFF0;

/// The arena of a freshly reset CPU: all zero but the guest memory size and
/// the instruction pointer, which points at the reset vector.
pub open spec fn reset_arena(ram_bytes: u32) -> Seq<u8> {
    put_at(
        put_at(Seq::new(STATE_ARENA_BYTES as nat, |i: int| 0u8), OFFSET_MEMORY_SIZE as int, low_bytes(ram_bytes as int, 4)),
        OFFSET_INSTRUCTION_POINTER as int,
        low_bytes(RESET_VECTOR as int, 4),
    )
}

/// The native CPU's state arena, guest RAM and video memory size.
pub struct NativeCpu {
    state_arena: Vec<u8>,
    memory: GuestMemory,
    ram_bytes: u32,
    vga_bytes: u32,
}

/// What a `NativeCpu` holds.
pub struct NativeCpuView {
    pub arena: Seq<u8>,
    pub ram: Seq<u8>,
    pub ram_bytes: u32,
    pub vga_bytes: u32,
}

impl View for NativeCpu {
    type V = NativeCpuView;

    closed spec fn view(&self) -> NativeCpuView {
        NativeCpuView {
            arena: self.state_arena@,
            ram: self.memory@,
            ram_bytes: self.ram_bytes,
            vga_bytes: self.vga_bytes,
        }
    }
}

/// The arena has its fixed size and the RAM the size the CPU was made with.
pub open spec fn cpu_wf(c: NativeCpuView) -> bool {
    &&& c.arena.len() == STATE_ARENA_BYTES
    &&& c.ram.len() == c.ram_bytes
    &&& c.ram_bytes > 0
    &&& c.vga_bytes > 0
}

/// Whether `len` bytes from `address` lie inside RAM of `ram_bytes`.
pub open spec fn in_ram(address: u32, len: nat, ram_bytes: u32) -> bool {
    address + len <= ram_bytes
}

impl NativeCpu {
    /// A reset CPU with `ram_bytes` of zeroed guest RAM and `vga_bytes` of
    /// video memory.
    pub fn new(ram_bytes: u32, vga_bytes: u32) -> (c: NativeCpu)
        requires
            ram_bytes > 0,
            vga_bytes > 0,
        ensures
            cpu_wf(c@),
            c@.arena == reset_arena(ram_bytes),
            c@.ram == Seq::new(ram_bytes as nat, |i: int| 0u8),
            c@.ram_bytes == ram_bytes,
            c@.vga_bytes == vga_bytes,
    {
        let mut arena: Vec<u8> = Vec::with_capacity(STATE_ARENA_BYTES);
        let mut i: usize = 0;
        while i < STATE_ARENA_BYTES
            invariant
                i <= STATE_ARENA_BYTES,
                arena@ == Seq::new(i as nat, |j: int| 0u8),
            decreases STATE_ARENA_BYTES - i,
        {
            arena.push(0);
            i = i + 1;
            assert(arena@ =~= Seq::new(i as nat, |j: int| 0u8));
        }
        put_low_bytes(&mut arena, OFFSET_MEMORY_SIZE, 4, ram_bytes as i64);
        put_low_bytes(&mut arena, OFFSET_INSTRUCTION_POINTER, 4, RESET_VECTOR as i64);
        NativeCpu { state_arena: arena, memory: GuestMemory::new(ram_bytes as usize), ram_bytes, vga_bytes }
    }

    /// The size of guest RAM.
    pub fn ram_bytes(&self) -> (n: u32)
        ensures
            n == self@.ram_bytes,
    {
        self.ram_bytes
    }

    /// The size of video memory.
    pub fn vga_bytes(&self) -> (n: u32)
        ensures
            n == self@.vga_bytes,
    {
        self.vga_bytes
    }

    /// The scalar state arena.
    pub fn state_arena(&self) -> (a: &[u8])
        ensures
            a@ == self@.arena,
    {
        self.state_arena.as_slice()
    }

    /// Copies guest RAM from `address` on into `output`; false, with
    /// `output` untouched, when the range does not lie inside RAM.
    pub fn read_memory(&self, address: u32, output: &mut [u8]) -> (r: bool)
        requires
            cpu_wf(self@),
            old(output)@.len() <= u32::MAX,
        ensures
            r == in_ram(address, old(output)@.len(), self@.ram_bytes),
            r ==> final(output)@ == self@.ram.subrange(address as int, address + old(output)@.len()),
            !r ==> final(output)@ == old(output)@,
    {
        let n = output.len() as u32;
        match address.checked_add(n) {
            None => false,
            Some(end) => {
                if end > self.ram_bytes {
                    false
                } else {
                    self.memory.read_into(address as usize, output);
                    true
                }
            },
        }
    }

    /// Writes `input` to guest RAM from `address` on; false, with RAM
    /// untouched, when the range does not lie inside RAM.
    pub fn write_memory(&mut self, address: u32, input: &[u8]) -> (r: bool)
        requires
            cpu_wf(old(self)@),
            input@.len() <= u32::MAX,
        ensures
            cpu_wf(final(self)@),
            r == in_ram(address, input@.len(), old(self)@.ram_bytes),
            final(self)@ == (NativeCpuView {
                ram: if r { put_at(old(self)@.ram, address as int, input@) } else { old(self)@.ram },
                ..old(self)@
            }),
    {
        let n = input.len() as u32;
        match address.checked_add(n) {
            None => false,
            Some(end) => {
                if end > self.ram_bytes {
                    false
                } else {
                    self.memory.write_from(address as usize, input);
                    true
                }
            },
        }
    }

    /// The available index the driver published on the 9P queue in guest
    /// RAM: what one queue notification serves up to.
    pub fn notification_target(&self, bus: &DeviceBus) -> (t: u16)
        ensures
            t == avail_index(bus@.ninep.queue, self@.ram),
    {
        crate::devices::notification_target(bus, &self.memory)
    }

    /// Serves a 9P queue notification against guest RAM (see
    /// `devices::serve_notification`).
    pub fn serve_notification(&mut self, bus: &mut DeviceBus, target: u16) -> (r: Option<HostRequest>)
        requires
            cpu_wf(old(self)@),
        ensures
            ({
                let s = serve(old(bus)@, old(self)@.ram, target, pending(old(bus)@.ninep.queue, target));
                &&& cpu_wf(final(self)@)
                &&& final(self)@ == (NativeCpuView { ram: s.1, ..old(self)@ })
                &&& final(bus)@ == s.0
                &&& (r is Some) == s.2
                &&& r matches Some(h) ==> stopped_at(final(bus)@, final(self)@.ram, h)
            }),
    {
        proof {
            lemma_serve_len(bus@, self.memory@, target, pending(bus@.ninep.queue, target));
        }
        crate::devices::serve_notification(bus, &mut self.memory, target)
    }

    /// Completes a walk the host checked, against guest RAM (see
    /// `devices::complete_walk`).
    pub fn complete_walk(
        &mut self,
        bus: &mut DeviceBus,
        head: u16,
        writable: &[(u32, u32)],
        w: WalkRequest,
        existing: usize,
    ) -> (answered: bool)
        requires
            cpu_wf(old(self)@),
            existing <= w.names@.len(),
        ensures
            cpu_wf(final(self)@),
            answered == walk_answerable(w, existing as nat),
            answered ==> final(self)@ == (NativeCpuView {
                ram: completed_memory(
                    old(bus)@.ninep.queue,
                    old(self)@.ram,
                    head,
                    writable@,
                    walk_reply(w, existing as nat),
                ),
                ..old(self)@
            }),
            answered ==> final(bus)@ == delivered(
                DeviceBusView { ninep: walked_device(old(bus)@.ninep, w, existing as nat), ..old(bus)@ },
            ),
            !answered ==> final(self)@ == old(self)@ && final(bus)@ == old(bus)@,
    {
        proof {
            lemma_completed_memory_len(
                bus@.ninep.queue,
                self.memory@,
                head,
                writable@,
                walk_reply(w, existing as nat),
            );
        }
        crate::devices::complete_walk(bus, &mut self.memory, head, writable, w, existing)
    }

    /// Completes a read with the bytes the host returned, against guest RAM
    /// (see `devices::complete_read`).
    pub fn complete_read(&mut self, bus: &mut DeviceBus, head: u16, writable: &[(u32, u32)], tag: u16, data: &[u8])
        requires
            cpu_wf(old(self)@),
            data@.len() + 11 <= u32::MAX,
        ensures
            cpu_wf(final(self)@),
            final(self)@ == (NativeCpuView {
                ram: completed_memory(old(bus)@.ninep.queue, old(self)@.ram, head, writable@, read_reply(tag, data@)),
                ..old(self)@
            }),
            final(bus)@ == delivered(old(bus)@),
    {
        proof {
            lemma_completed_memory_len(bus@.ninep.queue, self.memory@, head, writable@, read_reply(tag, data@));
        }
        crate::devices::complete_read(bus, &mut self.memory, head, writable, tag, data)
    }

    /// The instruction pointer (a linear address).
    pub fn instruction_pointer(&self) -> (ip: u32)
        requires
            cpu_wf(self@),
        ensures
            ip == get32(self@.arena, OFFSET_INSTRUCTION_POINTER as int),
    {
        read_u32(self.state_arena.as_slice(), OFFSET_INSTRUCTION_POINTER)
    }

    /// Whether the CPU is halted.
    pub fn halted(&self) -> (h: bool)
        requires
            cpu_wf(self@),
        ensures
            h == (self@.arena[OFFSET_IN_HLT as int] != 0),
    {
        self.state_arena[OFFSET_IN_HLT] != 0
    }

    /// Shares the host directory `path` (already made absolute by the
    /// caller) as the 9P root of `bus`.
    pub fn set_9p_root(&mut self, bus: &mut DeviceBus, path: String)
        ensures
            final(self)@ == old(self)@,
            final(bus)@ == (DeviceBusView {
                ninep: Virtio9pView {
                    root: Some(path@),
                    fids: old(bus)@.ninep.fids.insert(0, FidView { path: seq![path@], opened: false }),
                    ..old(bus)@.ninep
                },
                ..old(bus)@
            }),
    {
        crate::devices::set_9p_root(bus, path)
    }
}

/// The guest-memory-size check of a restore: slot 0 (truncated to 32 bits)
/// must be the CPU's RAM size.
pub open spec fn memory_size_result(slots: Seq<StateValue>, ram_bytes: u32) -> Result<(), Seq<char>> {
    match scalar_result(slots, 0) {
        Err(e) => Err(e),
        Ok(m) => if m as u32 == ram_bytes {
            Ok(())
        } else {
            Err("state RAM is "@ + decimal(m as u32 as nat) + " bytes, NativeCpu has "@ + decimal(ram_bytes as nat)
                + " bytes"@)
        },
    }
}

/// The time-stamp counter's low and high words, from a buffer of at least
/// eight bytes.
pub open spec fn tsc_of(t: Seq<u8>) -> Option<(u32, u32)> {
    if t.len() >= 8 {
        Some((get32(t, 0), get32(t, 4)))
    } else {
        None
    }
}

/// Both PIC controllers' state bytes: the master's from `pic`, the slave's
/// from the array the master keeps at index 5.
pub open spec fn pic_result(pic: Seq<StateValue>) -> Result<(Seq<u8>, Seq<u8>), Seq<char>> {
    match pic_bytes_result(pic, 13, "PIC master"@) {
        Err(e) => Err(e),
        Ok(master) => match slot(pic, 5) {
            None => Err("PIC state has no slave controller"@),
            Some(v) => match as_array_of(v) {
                None => Err("PIC slave state is not an array"@),
                Some(sl) => match pic_bytes_result(sl, 13, "PIC slave"@) {
                    Err(e) => Err(e),
                    Ok(slave) => Ok((master, slave)),
                },
            },
        },
    }
}

/// The serial port after a restore, and the message of the failure, if
/// any: slot 54, when it is an array, holds the port's fields.
pub open spec fn serial_restored(u: UartView, slots: Seq<StateValue>) -> (UartView, Option<Seq<char>>) {
    match array_at(slot(slots, 54)) {
        Some(vals) => uart_restored(u, vals),
        None => (u, None),
    }
}

/// The message when the decoded state is not an array.
pub open spec fn not_array_message() -> Seq<char> {
    "v86 state is not an array"@
}

/// The elements of the decoded state, or the message saying it has none.
fn state_slots(state: &StateValue) -> (r: Result<&Vec<StateValue>, String>)
    ensures
        match as_array_of(*state) {
            Some(slots) => r matches Ok(a) && a@ == slots,
            None => r matches Err(m) && m@ == not_array_message(),
        },
{
    match state.as_array() {
        Some(a) => Ok(a),
        None => Err(String::from_str("v86 state is not an array")),
    }
}

/// The array at slot `i`, if the slot holds one.
fn array_slot(slots: &Vec<StateValue>, i: usize) -> (r: Option<&Vec<StateValue>>)
    ensures
        match r {
            Some(a) => array_at(slot(slots@, i as int)) == Some(a@),
            None => array_at(slot(slots@, i as int)) is None,
        },
{
    if i < slots.len() {
        slots[i].as_array()
    } else {
        None
    }
}

impl NativeCpu {
    /// The first part of restoring a decoded v86 state: checks that it is an
    /// array whose RAM size is this CPU's, then restores the segment, table,
    /// control, mode and general registers in order (those restored before a
    /// failing one stay restored). On success it hands back the saved
    /// time-stamp counter (low, high) when its buffer has eight bytes, for
    /// the CPU core to load.
    pub fn restore_registers(&mut self, state: &StateValue, buffers: &[Vec<u8>]) -> (r: Result<Option<(u32, u32)>, String>)
        requires
            cpu_wf(old(self)@),
        ensures
            cpu_wf(final(self)@),
            final(self)@.ram == old(self)@.ram,
            final(self)@.ram_bytes == old(self)@.ram_bytes,
            final(self)@.vga_bytes == old(self)@.vga_bytes,
            match as_array_of(*state) {
                None => final(self)@ == old(self)@ && (r matches Err(m) && m@ == not_array_message()),
                Some(slots) => match memory_size_result(slots, old(self)@.ram_bytes) {
                    Err(e) => final(self)@ == old(self)@ && (r matches Err(m) && m@ == e),
                    Ok(_) => {
                        let run = run_steps(old(self)@.arena, slots, buffers@, register_steps());
                        &&& final(self)@.arena == run.0
                        &&& match run.1 {
                            Some(e) => r matches Err(m) && m@ == e,
                            None => match buffer_for_result(slots, buffers@, 43) {
                                Err(e) => r matches Err(m) && m@ == e,
                                Ok(t) => r matches Ok(x) && x == tsc_of(t),
                            },
                        }
                    },
                },
            },
    {
        let slots = state_slots(state)?;
        let m = crate::state::scalar(slots.as_slice(), 0)?;
        let memory_size = m as u32;
        if memory_size != self.ram_bytes {
            return Err(text_num_text_num_text("state RAM is ", memory_size as u64, " bytes, NativeCpu has ", self.ram_bytes as u64, " bytes"));
        }
        let steps = register_step_table();
        assert forall|i: int| 0 <= i < steps@.len() implies step_fits(#[trigger] steps@[i]) by {
            assert(steps@ == register_steps());
        }
        apply_steps(&mut self.state_arena, slots.as_slice(), buffers, steps.as_slice())?;
        let tsc = buffer_for(slots.as_slice(), buffers, 43)?;
        if tsc.len() >= 8 {
            let low = read_u32(tsc, 0);
            let high = read_u32(tsc, 4);
            Ok(Some((low, high)))
        } else {
            Ok(None)
        }
    }
}

/// The second part of a restore: the serial port from slot 54 (when it is
/// an array), then the PIC from slot 60 (when it is an array). On success it
/// hands back both PIC controllers' state bytes, for the CPU core to load.
pub fn restore_serial_and_pic(uart: &mut UartState, state: &StateValue) -> (r: Result<Option<([u8; 13], [u8; 13])>, String>)
    ensures
        match as_array_of(*state) {
            None => final(uart)@ == old(uart)@ && (r matches Err(m) && m@ == not_array_message()),
            Some(slots) => {
                let (u, failure) = serial_restored(old(uart)@, slots);
                &&& final(uart)@ == u
                &&& match failure {
                    Some(e) => r matches Err(m) && m@ == e,
                    None => match array_at(slot(slots, 60)) {
                        None => r matches Ok(None),
                        Some(pic) => match pic_result(pic) {
                            Err(e) => r matches Err(m) && m@ == e,
                            Ok((master, slave)) => r matches Ok(Some((a, b))) && a@ == master && b@ == slave,
                        },
                    },
                }
            },
        },
{
    let slots = state_slots(state)?;
    if let Some(uart_state) = array_slot(slots, 54) {
        let vals = uart_state.as_slice();
        match restore_uart_state(uart, vals) {
            Ok(()) => {},
            Err(m) => {
                return Err(m);
            },
        }
    }
    match array_slot(slots, 60) {
        None => Ok(None),
        Some(pic_state) => {
            let master = byte_array_from_state(pic_state.as_slice(), 13, "PIC master")?;
            if pic_state.len() <= 5 {
                return Err(String::from_str("PIC state has no slave controller"));
            }
            let slave_array = match pic_state[5].as_array() {
                Some(a) => a,
                None => return Err(String::from_str("PIC slave state is not an array")),
            };
            let slave = byte_array_from_values(slave_array.as_slice(), 13, "PIC slave")?;
            Ok(Some((master, slave)))
        },
    }
}

/// The typed buffer of slot `index` when the slot is there and not null
/// (the saved state of an optional device), else nothing.
pub open spec fn present_buffer_result(slots: Seq<StateValue>, buffers: Seq<Vec<u8>>, index: nat) -> Result<Option<Seq<u8>>, Seq<char>> {
    match slot(slots, index as int) {
        Some(v) => if v is Null {
            Ok(None)
        } else {
            match buffer_for_result(slots, buffers, index) {
                Ok(b) => Ok(Some(b)),
                Err(e) => Err(e),
            }
        },
        None => Ok(None),
    }
}

/// The saved state buffer of an optional device (the APIC at slot 46, the
/// I/O APIC at slot 63), for the CPU core to load.
pub fn present_buffer<'a>(state: &StateValue, buffers: &'a [Vec<u8>], index: usize) -> (r: Result<Option<&'a [u8]>, String>)
    ensures
        match as_array_of(*state) {
            None => r matches Err(m) && m@ == not_array_message(),
            Some(slots) => match present_buffer_result(slots, buffers@, index as nat) {
                Ok(None) => r matches Ok(None),
                Ok(Some(b)) => r matches Ok(Some(x)) && x@ == b,
                Err(e) => r matches Err(m) && m@ == e,
            },
        },
{
    let slots = state_slots(state)?;
    if index < slots.len() && !slots[index].is_null() {
        let b = buffer_for(slots.as_slice(), buffers, index)?;
        Ok(Some(b))
    } else {
        Ok(None)
    }
}

impl NativeCpu {
    /// Marks the local APIC and ACPI enabled, once the CPU core has loaded
    /// a saved APIC state.
    pub fn enable_apic(&mut self)
        requires
            cpu_wf(old(self)@),
        ensures
            final(self)@ == (NativeCpuView {
                arena: old(self)@.arena.update(OFFSET_APIC_ENABLED as int, 1u8).update(OFFSET_ACPI_ENABLED as int, 1u8),
                ..old(self)@
            }),
    {
        self.state_arena.set(OFFSET_APIC_ENABLED, 1);
        self.state_arena.set(OFFSET_ACPI_ENABLED, 1);
    }
}

/// Whether the bitmap marks guest page `page` as present in the packed
/// memory (bit `page % 8` of byte `page / 8`; pages past the bitmap are
/// absent).
pub open spec fn page_present(bitmap: Seq<u8>, page: int) -> bool {
    0 <= page / 8 < bitmap.len() && (bitmap[page / 8] >> ((page % 8) as u8)) & 1u8 != 0
}

/// How many pages below `page` are present.
pub open spec fn present_before(bitmap: Seq<u8>, page: nat) -> nat
    decreases page,
{
    if page == 0 {
        0
    } else {
        present_before(bitmap, (page - 1) as nat) + if page_present(bitmap, page - 1) {
            1nat
        } else {
            0nat
        }
    }
}

/// Whether present page `page`'s copy would run past the end of packed
/// memory of `packed_len` bytes.
pub open spec fn short_page(bitmap: Seq<u8>, packed_len: nat, page: nat) -> bool {
    page_present(bitmap, page as int) && (present_before(bitmap, page) + 1) * PAGE_BYTES > packed_len
}

/// The first page from `page` on, below `count`, whose copy runs short, or
/// `count` when there is none.
pub open spec fn first_short(bitmap: Seq<u8>, packed_len: nat, page: nat, count: nat) -> nat
    decreases count - page,
{
    if page >= count {
        count
    } else if short_page(bitmap, packed_len, page) {
        page
    } else {
        first_short(bitmap, packed_len, page + 1, count)
    }
}

/// RAM of `ram_len` bytes after unpacking the pages below `upto`: each
/// present page holds the next page of packed memory, the rest is zero.
pub open spec fn unpacked(ram_len: nat, bitmap: Seq<u8>, packed: Seq<u8>, upto: nat) -> Seq<u8> {
    Seq::new(
        ram_len,
        |i: int|
            if i / PAGE_BYTES as int <= upto - 1 && page_present(bitmap, i / PAGE_BYTES as int) {
                packed[present_before(bitmap, (i / PAGE_BYTES as int) as nat) * PAGE_BYTES + i % PAGE_BYTES as int]
            } else {
                0u8
            },
    )
}

/// The message when packed memory holds another number of pages than the
/// bitmap marks present.
pub open spec fn page_count_message(packed_len: nat, present: nat) -> Seq<char> {
    "packed memory has "@ + decimal(packed_len / PAGE_BYTES as nat) + " pages but bitmap references "@ + decimal(present)
}

/// RAM after unpacking `packed` into zeroed RAM of `ram_len` bytes by
/// `bitmap`, and the message of the failure, if any (pages before a short
/// one stay copied).
pub open spec fn unpack_result(ram_len: nat, bitmap: Seq<u8>, packed: Seq<u8>) -> (Seq<u8>, Option<Seq<char>>) {
    let count = ram_len / PAGE_BYTES as nat;
    let stop = first_short(bitmap, packed.len(), 0, count);
    let ram = unpacked(ram_len, bitmap, packed, stop);
    if stop < count {
        (ram, Some("packed memory buffer is shorter than bitmap population"@))
    } else if present_before(bitmap, count) * PAGE_BYTES != packed.len() {
        (ram, Some(page_count_message(packed.len(), present_before(bitmap, count))))
    } else {
        (ram, None)
    }
}

proof fn lemma_page_of(i: int, page: int)
    requires
        0 <= i,
        0 <= page,
    ensures
        (page * 4096 <= i < page * 4096 + 4096) <==> i / 4096 == page,
        i / 4096 == page ==> i % 4096 == i - page * 4096,
{
}

/// Zeroes `memory`, then copies the packed pages into the pages the
/// bitmap marks present, in order.
fn unpack_pages(memory: &mut GuestMemory, bitmap: &[u8], packed: &[u8]) -> (r: Result<(), String>)
    ensures
        final(memory)@ == unpack_result(old(memory)@.len(), bitmap@, packed@).0,
        match unpack_result(old(memory)@.len(), bitmap@, packed@).1 {
            None => r is Ok,
            Some(e) => r matches Err(m) && m@ == e,
        },
{
    memory.clear();
    let ram_len = memory.len();
    let ghost rl = ram_len as nat;
    let count = ram_len / PAGE_BYTES;
    assert(count * 4096 <= ram_len) by (nonlinear_arith)
        requires
            count == ram_len / 4096,
    ;
    let ghost bm = bitmap@;
    let ghost pk = packed@;
    let mut packed_page: usize = 0;
    let mut page: usize = 0;
    assert(memory@ =~= unpacked(rl, bm, pk, 0));
    while page < count
        invariant
            page <= count,
            count == rl / PAGE_BYTES as nat,
            count * 4096 <= rl,
            ram_len == rl,
            memory@.len() == rl,
            rl == old(memory)@.len(),
            bm == bitmap@,
            pk == packed@,
            packed_page == present_before(bm, page as nat),
            packed_page <= page,
            memory@ == unpacked(rl, bm, pk, page as nat),
            first_short(bm, pk.len(), 0, count as nat) == first_short(bm, pk.len(), page as nat, count as nat),
        decreases count - page,
    {
        let ghost before = memory@;
        let present = if page / 8 < bitmap.len() {
            (bitmap[page / 8] >> ((page % 8) as u8)) & 1 != 0
        } else {
            false
        };
        assert(present == page_present(bm, page as int));
        assert(page * 4096 + 4096 <= count * 4096) by (nonlinear_arith)
            requires
                page < count,
        ;
        assert(packed_page * 4096 <= page * 4096) by (nonlinear_arith)
            requires
                packed_page <= page,
        ;
        if present {
            let src = packed_page * PAGE_BYTES;
            if src + PAGE_BYTES > packed.len() {
                assert(short_page(bm, pk.len(), page as nat));
                return Err(String::from_str("packed memory buffer is shorter than bitmap population"));
            }
            let dst = page * PAGE_BYTES;
            let chunk = vstd::slice::slice_subrange(packed, src, src + PAGE_BYTES);
            memory.write_from(dst, chunk);
            proof {
                assert forall|i: int| 0 <= i < rl implies #[trigger] memory@[i] == unpacked(rl, bm, pk, (page + 1) as nat)[i] by {
                    lemma_page_of(i, page as int);
                }
                assert(memory@ =~= unpacked(rl, bm, pk, (page + 1) as nat));
            }
            packed_page = packed_page + 1;
        } else {
            proof {
                assert forall|i: int| 0 <= i < rl implies #[trigger] memory@[i] == unpacked(rl, bm, pk, (page + 1) as nat)[i] by {
                    lemma_page_of(i, page as int);
                }
                assert(memory@ =~= unpacked(rl, bm, pk, (page + 1) as nat));
            }
        }
        assert(!short_page(bm, pk.len(), page as nat));
        page = page + 1;
    }
    if packed_page * PAGE_BYTES != packed.len() {
        let m = text_num_text_num_text("packed memory has ", (packed.len() / PAGE_BYTES) as u64, " pages but bitmap references ", packed_page as u64, "");
        proof {
            reveal_strlit("");
        }
        assert(m@ =~= page_count_message(pk.len(), packed_page as nat));
        return Err(m);
    }
    Ok(())
}

impl NativeCpu {
    /// The last part of a restore: the FPU and SSE registers, then guest
    /// RAM from the packed pages (slot 77) and their bitmap (slot 78), then
    /// the device bus. RAM is zeroed before the pages are copied; a failure
    /// leaves what came before it in place.
    pub fn restore_fpu_memory_and_devices(&mut self, bus: &mut DeviceBus, state: &StateValue, buffers: &[Vec<u8>]) -> (r: Result<(), String>)
        requires
            cpu_wf(old(self)@),
        ensures
            cpu_wf(final(self)@),
            final(self)@.ram_bytes == old(self)@.ram_bytes,
            final(self)@.vga_bytes == old(self)@.vga_bytes,
            match as_array_of(*state) {
                None => final(self)@ == old(self)@ && final(bus)@ == old(bus)@ && (r matches Err(m) && m@
                    == not_array_message()),
                Some(slots) => {
                    let run = run_steps(old(self)@.arena, slots, buffers@, fpu_steps());
                    &&& final(self)@.arena == run.0
                    &&& match run.1 {
                        Some(e) => final(self)@.ram == old(self)@.ram && final(bus)@ == old(bus)@ && (r matches Err(m)
                            && m@ == e),
                        None => match (buffer_for_result(slots, buffers@, 77), buffer_for_result(slots, buffers@, 78)) {
                            (Err(e), _) => final(self)@.ram == old(self)@.ram && final(bus)@ == old(bus)@ && (r matches Err(m)
                                && m@ == e),
                            (Ok(_), Err(e)) => final(self)@.ram == old(self)@.ram && final(bus)@ == old(bus)@ && (r matches Err(
                                m,
                            ) && m@ == e),
                            (Ok(packed), Ok(bitmap)) => {
                                let (ram, failure) = unpack_result(old(self)@.ram_bytes as nat, bitmap, packed);
                                &&& final(self)@.ram == ram
                                &&& match failure {
                                    Some(e) => final(bus)@ == old(bus)@ && (r matches Err(m) && m@ == e),
                                    None => r is Ok && final(bus)@ == bus_restored(old(bus)@, slots),
                                }
                            },
                        },
                    }
                },
            },
    {
        let slots = state_slots(state)?;
        let steps = fpu_step_table();
        assert forall|i: int| 0 <= i < steps@.len() implies step_fits(#[trigger] steps@[i]) by {
            assert(steps@ == fpu_steps());
        }
        apply_steps(&mut self.state_arena, slots.as_slice(), buffers, steps.as_slice())?;
        let packed = buffer_for(slots.as_slice(), buffers, 77)?;
        let bitmap = buffer_for(slots.as_slice(), buffers, 78)?;
        unpack_pages(&mut self.memory, bitmap, packed)?;
        restore_state(bus, state, buffers)
    }
}

/// What `write_memory` writes is what `read_memory` of the same range
/// reads back, and RAM outside that range keeps its bytes.
pub proof fn law_cpu_memory_read_back(ram: Seq<u8>, address: u32, data: Seq<u8>)
    requires
        address + data.len() <= ram.len(),
    ensures
        put_at(ram, address as int, data).len() == ram.len(),
        put_at(ram, address as int, data).subrange(address as int, address + data.len()) == data,
        forall|i: int|
            0 <= i < ram.len() && !(address <= i < address + data.len()) ==> #[trigger] put_at(ram, address as int, data)[i]
                == ram[i],
{
    assert(put_at(ram, address as int, data).subrange(address as int, address + data.len()) =~= data);
}

proof fn lemma_all_present_before(bitmap: Seq<u8>, p: nat, count: nat)
    requires
        p <= count,
        forall|q: int| 0 <= q < count ==> page_present(bitmap, q),
    ensures
        present_before(bitmap, p) == p,
    decreases p,
{
    if p > 0 {
        lemma_all_present_before(bitmap, (p - 1) as nat, count);
        assert(page_present(bitmap, p - 1));
    }
}

proof fn lemma_no_short_page(bitmap: Seq<u8>, packed_len: nat, p: nat, count: nat)
    requires
        p <= count,
        count * 4096 <= packed_len,
        forall|q: int| 0 <= q < count ==> page_present(bitmap, q),
    ensures
        first_short(bitmap, packed_len, p, count) == count,
    decreases count - p,
{
    if p < count {
        lemma_all_present_before(bitmap, p, count);
        assert((p + 1) * 4096 <= count * 4096) by (nonlinear_arith)
            requires
                p < count,
        ;
        assert(!short_page(bitmap, packed_len, p));
        lemma_no_short_page(bitmap, packed_len, p + 1, count);
    }
}

/// When the bitmap marks every page present and packed memory holds
/// exactly that many pages, unpacking restores RAM to the packed memory
/// itself, without error.
pub proof fn law_full_bitmap_unpacks_everything(ram_len: nat, bitmap: Seq<u8>, packed: Seq<u8>)
    requires
        ram_len % 4096 == 0,
        packed.len() == ram_len,
        forall|p: int| 0 <= p < ram_len / 4096 ==> page_present(bitmap, p),
    ensures
        unpack_result(ram_len, bitmap, packed) == (packed, None::<Seq<char>>),
{
    let count = ram_len / 4096;
    assert(count * 4096 == ram_len);
    lemma_no_short_page(bitmap, packed.len(), 0, count);
    lemma_all_present_before(bitmap, count, count);
    assert forall|i: int| 0 <= i < ram_len implies #[trigger] unpacked(ram_len, bitmap, packed, count)[i] == packed[i] by {
        let page = i / 4096;
        assert(0 <= page < count);
        lemma_all_present_before(bitmap, page as nat, count);
        assert(page * 4096 + i % 4096 == i);
    }
    assert(unpacked(ram_len, bitmap, packed, count) =~= packed);
}

} // verus!
