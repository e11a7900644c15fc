use x86::host::{cpu_exception_hook, get_rand_int, io_port_read16, io_port_read32, io_port_read8, io_port_write16, io_port_write32, io_port_write8, mmap_read32, mmap_read8};
use x86::devices::{DeviceBus, PCI_CONFIG_ADDRESS, PCI_CONFIG_DATA, VIRTIO_9P_NOTIFY};
use x86::opstats::{gen_opstat_unguarded_register, gen_opstats, record_opstat_compiled, record_opstat_jit_exit, record_opstat_size_wasm};
use x86::state::StateValue;
use x86::uart::{restore_uart_state, uart_read, uart_write, UartState};

const COM1: i32 = 0x3F8;

#[test]
fn divisor_latch_round_trip() {
    let mut u = UartState::new();
    assert_eq!(uart_write(&mut u, COM1 + 3, 0x80), None);
    assert_eq!(uart_write(&mut u, COM1, 0x0C), None);
    assert_eq!(uart_write(&mut u, COM1 + 1, 0x01), None);
    assert_eq!(uart_read(&mut u, COM1), 0x0C);
    assert_eq!(uart_read(&mut u, COM1 + 1), 0x01);
    assert_eq!(u.baud_rate, 0x010C);
    uart_write(&mut u, COM1 + 3, 0x03);
    assert_eq!(uart_read(&mut u, COM1 + 3), 0x03);
}

#[test]
fn registers_read_back() {
    let mut u = UartState::new();
    uart_write(&mut u, COM1 + 7, 0x5A);
    assert_eq!(uart_read(&mut u, COM1 + 7), 0x5A);
    uart_write(&mut u, COM1 + 4, 0x0B);
    assert_eq!(uart_read(&mut u, COM1 + 4), 0x0B);
    uart_write(&mut u, COM1 + 1, 0xFF);
    assert_eq!(uart_read(&mut u, COM1 + 1), 0x0F);
    uart_write(&mut u, COM1 + 2, 0x01);
    assert_eq!(uart_read(&mut u, COM1 + 2), 0xC0);
    assert_eq!(uart_read(&mut u, COM1 + 8), 0xFF);
}

#[test]
fn transmit_and_receive() {
    let mut u = UartState::new();
    assert_eq!(uart_write(&mut u, COM1, b'A' as i32), Some(b'A'));
    assert_eq!(uart_read(&mut u, COM1 + 5) & 1, 0);
    u.push_input(b'x');
    u.push_input(b'y');
    assert_eq!(uart_read(&mut u, COM1 + 5) & 1, 1);
    assert_eq!(uart_read(&mut u, COM1), b'x' as i32);
    assert_eq!(uart_read(&mut u, COM1), b'y' as i32);
    assert_eq!(uart_read(&mut u, COM1), 0);
}

#[test]
fn uart_restore() {
    let mut u = UartState::new();
    let fields: Vec<StateValue> = (0..11).map(|i| StateValue::Int(i as i64 + 1)).collect();
    restore_uart_state(&mut u, &fields).unwrap();
    assert_eq!(u.ints, 1);
    assert_eq!(u.baud_rate, 2);
    assert_eq!(u.scratch, 10);
    assert_eq!(u.irq, 11);
    let mut bad: Vec<StateValue> = fields.iter().map(|v| match v { StateValue::Int(x) => StateValue::Int(*x), _ => StateValue::Null }).collect();
    bad[3] = StateValue::Bool(true);
    let mut v = UartState::new();
    let e = restore_uart_state(&mut v, &bad).unwrap_err();
    assert_eq!(e, "UART LSR is not an integer");
    // Fields before the bad one were restored.
    assert_eq!(v.line_control, 3);
    assert_eq!(v.lsr, 0);
    let e = restore_uart_state(&mut v, &fields[..4]).unwrap_err();
    assert_eq!(e, "UART state has 4 fields; expected 11");
}

#[test]
fn port_routing() {
    let mut bus = DeviceBus::new();
    let mut u = UartState::new();
    assert_eq!(io_port_write8(&mut bus, &mut u, COM1, b'Z' as i32), Some(b'Z'));
    assert_eq!(io_port_write8(&mut bus, &mut u, 0x60, 1), None);
    io_port_write8(&mut bus, &mut u, COM1 + 7, 0x42);
    assert_eq!(io_port_read8(&bus, &mut u, COM1 + 7), 0x42);
    assert_eq!(io_port_read8(&bus, &mut u, 0x60), 0xFF);
    assert_eq!(io_port_read16(&bus, 0x60), 0xFFFF);
    assert_eq!(io_port_read32(&bus, 0x60), -1);
    assert!(!io_port_write32(&mut bus, PCI_CONFIG_ADDRESS, 0x8000_0000u32 as i32));
    assert_eq!(io_port_read32(&bus, PCI_CONFIG_DATA) as u32, 0x1009_1AF4);
    assert!(io_port_write32(&mut bus, VIRTIO_9P_NOTIFY, 0));
    assert!(io_port_write16(&mut bus, VIRTIO_9P_NOTIFY, 0));
    assert!(!io_port_write16(&mut bus, 0x60, 0));
}

#[test]
fn host_hooks() {
    assert!(!cpu_exception_hook(14));
    assert_eq!(get_rand_int(), 0x1357_9BDF);
    assert_eq!(mmap_read8(0xE000_0000), 0xFF);
    assert_eq!(mmap_read32(0xE000_0000), -1);
    record_opstat_jit_exit(1);
    record_opstat_compiled(2);
    record_opstat_size_wasm(3, 4);
    let mut builder = vec![1u8, 2];
    gen_opstat_unguarded_register(&mut builder, 5);
    gen_opstats(&mut builder, 6);
    assert_eq!(builder, vec![1, 2]);
}
