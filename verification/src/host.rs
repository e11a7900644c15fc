//! The host side of the CPU core: how its port and memory-mapped I/O
//! callbacks are routed to the device bus and the serial port, and the
//! answers of the hooks that the native runtime does not implement.
use vstd::prelude::*;
use crate::devices::{
    DeviceBus, DeviceBusView, PCI_CONFIG_ADDRESS, io_read32, io_read32_value, io_read8, io_read8_value, io_write16,
    io_write32, io_write8, io_write8_bus, is_queue_notify, notifies_queue, VIRTIO_9P_COMMON, VIRTIO_9P_ISR,
};
use crate::uart::{UartState, uart_offset, uart_read, uart_read_result, uart_write, uart_write_result};

verus! {

/// Whether `port` is one of the serial port's eight registers.
pub open spec fn is_uart_port(port: i32) -> bool {
    0x3F8 <= port <= 0x3FF
}

/// An 8-bit port read: the device bus first, then the serial port, else
/// 0xFF (nothing there).
pub fn io_port_read8(bus: &DeviceBus, uart: &mut UartState, port: i32) -> (v: i32)
    ensures
        match io_read8_value(bus@, port) {
            Some(x) => v == x && final(uart)@ == old(uart)@,
            None => if is_uart_port(port) {
                (v, final(uart)@) == uart_read_result(old(uart)@, uart_offset(port))
            } else {
                v == 0xFF && final(uart)@ == old(uart)@
            },
        },
{
    match io_read8(bus, port) {
        Some(x) => x,
        None => {
            if 0x3F8 <= port && port <= 0x3FF {
                uart_read(uart, port)
            } else {
                0xFF
            }
        },
    }
}

/// A 16-bit port read: the device bus's 32-bit register, else 0xFFFF.
pub fn io_port_read16(bus: &DeviceBus, port: i32) -> (v: i32)
    ensures
        v == match io_read32_value(bus@, port) {
            Some(x) => x,
            None => 0xFFFF,
        },
{
    match io_read32(bus, port) {
        Some(x) => x,
        None => 0xFFFF,
    }
}

/// A 32-bit port read: the device bus, else all ones.
pub fn io_port_read32(bus: &DeviceBus, port: i32) -> (v: i32)
    ensures
        v == match io_read32_value(bus@, port) {
            Some(x) => x,
            None => -1i32,
        },
{
    match io_read32(bus, port) {
        Some(x) => x,
        None => -1,
    }
}

/// An 8-bit port write: the device bus first, then the serial port.
/// Returns the byte the serial port sends out, if any.
pub fn io_port_write8(bus: &mut DeviceBus, uart: &mut UartState, port: i32, value: i32) -> (out: Option<u8>)
    ensures
        final(bus)@ == io_write8_bus(old(bus)@, port, value),
        if port == VIRTIO_9P_ISR || VIRTIO_9P_COMMON <= port < VIRTIO_9P_COMMON + 0x100 || !is_uart_port(port) {
            out is None && final(uart)@ == old(uart)@
        } else {
            (out, final(uart)@) == uart_write_result(old(uart)@, uart_offset(port), value as u8)
        },
{
    if !io_write8(bus, port, value) && 0x3F8 <= port && port <= 0x3FF {
        uart_write(uart, port, value)
    } else {
        None
    }
}

/// A 16-bit port write. Returns whether it notified the 9P queue, which
/// the caller then processes.
pub fn io_port_write16(bus: &mut DeviceBus, port: i32, value: i32) -> (notify: bool)
    ensures
        notify == notifies_queue(port),
        final(bus)@ == old(bus)@,
{
    io_write16(bus, port, value)
}

/// A 32-bit port write: the PCI address register, or the 9P queue
/// notification. Returns whether it notified the queue, which the caller
/// then processes.
pub fn io_port_write32(bus: &mut DeviceBus, port: i32, value: i32) -> (notify: bool)
    ensures
        notify == notifies_queue(port),
        final(bus)@ == (if port == PCI_CONFIG_ADDRESS {
            DeviceBusView { pci_address: value as u32, ..old(bus)@ }
        } else {
            old(bus)@
        }),
{
    let _claimed = io_write32(bus, port, value);
    port != PCI_CONFIG_ADDRESS && is_queue_notify(port)
}

/// The CPU's exception hook: no exception is taken over by the host.
pub fn cpu_exception_hook(interrupt: i32) -> (taken: bool)
    ensures
        !taken,
{
    false
}

/// The core's random source: a fixed value, so that runs repeat.
pub fn get_rand_int() -> (r: i32)
    ensures
        r == 0x1357_9BDF,
{
    0x1357_9BDF
}

/// An 8-bit memory-mapped read outside RAM: nothing is mapped there.
pub fn mmap_read8(addr: u32) -> (v: i32)
    ensures
        v == 0xFF,
{
    0xFF
}

/// A 32-bit memory-mapped read outside RAM: nothing is mapped there.
pub fn mmap_read32(addr: u32) -> (v: i32)
    ensures
        v == -1,
{
    -1
}

} // verus!
