use x86::cpu::{present_buffer, restore_serial_and_pic, NativeCpu};
use x86::devices::DeviceBus;
use x86::state::StateValue;
use x86::uart::UartState;

fn copy(v: &StateValue) -> StateValue {
    match v {
        StateValue::Null => StateValue::Null,
        StateValue::Bool(b) => StateValue::Bool(*b),
        StateValue::Int(x) => StateValue::Int(*x),
        StateValue::UInt(x) => StateValue::UInt(*x),
        StateValue::Float => StateValue::Float,
        StateValue::Str(s) => StateValue::Str(s.clone()),
        StateValue::Array(a) => StateValue::Array(copy_all(a)),
        StateValue::Object(o) => StateValue::Object(o.iter().map(|(k, v)| (k.clone(), copy(v))).collect()),
    }
}

fn copy_all(a: &[StateValue]) -> Vec<StateValue> {
    a.iter().map(copy).collect()
}

fn buffer(id: u64) -> StateValue {
    StateValue::Object(vec![("buffer_id".to_string(), StateValue::UInt(id))])
}

/// A saved state for `ram` bytes of RAM whose every scalar slot holds
/// `value` and whose typed-buffer slots point at buffers of the right size.
fn saved_state(ram: u32, value: i64) -> (Vec<StateValue>, Vec<Vec<u8>>) {
    let mut slots: Vec<StateValue> = (0..89).map(|_| StateValue::Int(value)).collect();
    let mut buffers: Vec<Vec<u8>> = Vec::new();
    let mut add = |slots: &mut Vec<StateValue>, index: usize, bytes: Vec<u8>| {
        slots[index] = buffer(buffers.len() as u64);
        buffers.push(bytes);
    };
    add(&mut slots, 1, (0..16).collect());
    add(&mut slots, 2, vec![2; 32]);
    add(&mut slots, 3, vec![3; 32]);
    add(&mut slots, 10, vec![10; 32]);
    add(&mut slots, 39, vec![39; 32]);
    add(&mut slots, 40, vec![40; 16]);
    add(&mut slots, 41, vec![41; 32]);
    add(&mut slots, 42, vec![42; 32]);
    add(&mut slots, 43, vec![1, 0, 0, 0, 2, 0, 0, 0]);
    add(&mut slots, 66, vec![66; 128]);
    add(&mut slots, 67, vec![67; 128]);
    slots[0] = StateValue::Int(ram as i64);
    slots[37] = StateValue::Int(0x0001_2345);
    slots[17] = StateValue::Int(1);
    slots[46] = StateValue::Null;
    slots[54] = StateValue::Null;
    slots[60] = StateValue::Null;
    slots[63] = StateValue::Null;
    slots[86] = StateValue::Null;
    slots[87] = StateValue::Null;
    slots[88] = StateValue::Null;
    (slots, buffers)
}

#[test]
fn new_cpu_is_reset() {
    let cpu = NativeCpu::new(8192, 4096);
    assert_eq!(cpu.ram_bytes(), 8192);
    assert_eq!(cpu.vga_bytes(), 4096);
    assert_eq!(cpu.state_arena().len(), 4096);
    assert_eq!(cpu.instruction_pointer(), 0xFFFF0);
    assert!(!cpu.halted());
    assert_eq!(&cpu.state_arena()[812..816], &8192u32.to_le_bytes());
}

#[test]
fn memory_write_then_read() {
    let mut cpu = NativeCpu::new(4096, 4096);
    assert!(cpu.write_memory(4090, &[1, 2, 3, 4, 5, 6]));
    let mut out = [0u8; 6];
    assert!(cpu.read_memory(4090, &mut out));
    assert_eq!(out, [1, 2, 3, 4, 5, 6]);
    // Past the end of RAM, and wrapping past 32 bits: refused, untouched.
    let mut out2 = [9u8; 8];
    assert!(!cpu.read_memory(4090, &mut out2));
    assert_eq!(out2, [9u8; 8]);
    assert!(!cpu.write_memory(u32::MAX, &[1, 2]));
    assert!(!cpu.read_memory(u32::MAX - 1, &mut out));
    assert!(cpu.read_memory(0, &mut []));
}

#[test]
fn restore_registers_and_memory() {
    let ram: u32 = 2 * 4096;
    let (mut slots, mut buffers) = saved_state(ram, 5);
    // Page 1 present, page 0 absent.
    slots[77] = buffer(buffers.len() as u64);
    buffers.push(vec![0xAB; 4096]);
    slots[78] = buffer(buffers.len() as u64);
    buffers.push(vec![0b10]);
    let state = StateValue::Array(slots);
    let mut cpu = NativeCpu::new(ram, 4096);
    cpu.write_memory(0, &[7; 16]);
    let tsc = cpu.restore_registers(&state, &buffers).unwrap();
    assert_eq!(tsc, Some((1, 2)));
    assert_eq!(cpu.instruction_pointer(), 0x0001_2345);
    assert!(cpu.halted());
    let arena = cpu.state_arena();
    assert_eq!(&arena[724..732], &[0, 1, 2, 3, 4, 5, 6, 7]);
    assert_eq!(&arena[512..520], &[8, 9, 10, 11, 12, 13, 14, 15]);
    assert_eq!(arena[612], 5);
    assert_eq!(&arena[64..96], &[39u8; 32][..]);

    let mut bus = DeviceBus::new();
    cpu.restore_fpu_memory_and_devices(&mut bus, &state, &buffers).unwrap();
    let arena = cpu.state_arena();
    assert_eq!(&arena[824..828], &0x1F80u32.to_le_bytes());
    assert_eq!(&arena[832..960], &[66u8; 128][..]);
    let mut page0 = [1u8; 16];
    cpu.read_memory(0, &mut page0);
    assert_eq!(page0, [0u8; 16]);
    let mut page1 = [0u8; 16];
    cpu.read_memory(4096, &mut page1);
    assert_eq!(page1, [0xAB; 16]);
}

#[test]
fn restore_refuses_other_ram_size() {
    let (slots, buffers) = saved_state(4096, 5);
    let mut cpu = NativeCpu::new(8192, 4096);
    let before = cpu.state_arena().to_vec();
    let e = cpu.restore_registers(&StateValue::Array(slots), &buffers).unwrap_err();
    assert_eq!(e, "state RAM is 4096 bytes, NativeCpu has 8192 bytes");
    assert_eq!(cpu.state_arena(), &before[..]);
}

#[test]
fn restore_error_messages() {
    let mut cpu = NativeCpu::new(4096, 4096);
    assert_eq!(cpu.restore_registers(&StateValue::Null, &[]).unwrap_err(), "v86 state is not an array");
    let (mut slots, buffers) = saved_state(4096, 5);
    slots[5] = StateValue::Str("x".to_string());
    let e = cpu.restore_registers(&StateValue::Array(copy_all(&slots)), &buffers).unwrap_err();
    assert_eq!(e, "state[5] is not an integer scalar");
    slots[5] = StateValue::Int(0);
    slots[2] = buffer(99);
    let e = cpu.restore_registers(&StateValue::Array(copy_all(&slots)), &buffers).unwrap_err();
    assert_eq!(e, "buffer id 99 is out of range");
    slots[2] = buffer(0);
    let e = cpu.restore_registers(&StateValue::Array(copy_all(&slots)), &buffers).unwrap_err();
    assert_eq!(e, "state[2] length 16 != expected 32");
    slots[2] = StateValue::Int(1);
    let e = cpu.restore_registers(&StateValue::Array(slots), &buffers).unwrap_err();
    assert_eq!(e, "state[2] is not a typed buffer");
}

#[test]
fn packed_memory_errors() {
    let ram: u32 = 2 * 4096;
    let (mut slots, mut buffers) = saved_state(ram, 5);
    slots[77] = buffer(buffers.len() as u64);
    buffers.push(vec![1; 4096]);
    slots[78] = buffer(buffers.len() as u64);
    buffers.push(vec![0b11]);
    let mut cpu = NativeCpu::new(ram, 4096);
    let mut bus = DeviceBus::new();
    let e = cpu.restore_fpu_memory_and_devices(&mut bus, &StateValue::Array(copy_all(&slots)), &buffers).unwrap_err();
    assert_eq!(e, "packed memory buffer is shorter than bitmap population");
    // The page copied before the failure stays.
    let mut page0 = [0u8; 4];
    cpu.read_memory(0, &mut page0);
    assert_eq!(page0, [1; 4]);

    let last = buffers.len() - 1;
    buffers[last] = vec![0b00];
    let e = cpu.restore_fpu_memory_and_devices(&mut bus, &StateValue::Array(slots), &buffers).unwrap_err();
    assert_eq!(e, "packed memory has 1 pages but bitmap references 0");
}

#[test]
fn serial_and_pic_restore() {
    let mut slots: Vec<StateValue> = (0..61).map(|_| StateValue::Null).collect();
    slots[54] = StateValue::Array((0..11).map(|i| StateValue::Int(i as i64 + 0x100)).collect());
    let mut master: Vec<StateValue> = (0..13).map(|i| StateValue::Int(i as i64)).collect();
    master[5] = StateValue::Array((0..13).map(|i| StateValue::Int(100 + i as i64)).collect());
    slots[60] = StateValue::Array(master);
    let mut uart = UartState::new();
    let (m, s) = restore_serial_and_pic(&mut uart, &StateValue::Array(copy_all(&slots))).unwrap().unwrap();
    assert_eq!(m, [0, 1, 2, 3, 4, 0, 6, 7, 8, 9, 10, 11, 12]);
    assert_eq!(s[12], 112);
    assert_eq!(s[5], 0);
    // Each field is truncated to its register's width.
    assert_eq!(uart.baud_rate, 0x101);
    assert_eq!(uart.scratch, 0x09);

    slots[60] = StateValue::Array((0..13).map(|i| StateValue::Int(i as i64)).collect());
    let e = restore_serial_and_pic(&mut uart, &StateValue::Array(copy_all(&slots))).unwrap_err();
    assert_eq!(e, "PIC slave state is not an array");
    slots[60] = StateValue::Array((0..12).map(|i| StateValue::Int(i as i64)).collect());
    let e = restore_serial_and_pic(&mut uart, &StateValue::Array(copy_all(&slots))).unwrap_err();
    assert_eq!(e, "PIC master has 12 fields; expected 13");
    slots[54] = StateValue::Array(vec![StateValue::Int(1)]);
    let e = restore_serial_and_pic(&mut uart, &StateValue::Array(slots)).unwrap_err();
    assert_eq!(e, "UART state has 1 fields; expected 11");
}

#[test]
fn optional_device_buffers() {
    let mut slots: Vec<StateValue> = (0..64).map(|_| StateValue::Null).collect();
    slots[46] = buffer(0);
    let buffers = vec![vec![1, 2, 3]];
    let state = StateValue::Array(slots);
    assert_eq!(present_buffer(&state, &buffers, 46).unwrap(), Some(&[1u8, 2, 3][..]));
    assert_eq!(present_buffer(&state, &buffers, 63).unwrap(), None);
    assert_eq!(present_buffer(&state, &buffers, 100).unwrap(), None);
}

#[test]
fn apic_enable_flags() {
    let mut cpu = NativeCpu::new(4096, 4096);
    cpu.enable_apic();
    assert_eq!(cpu.state_arena()[548], 1);
    assert_eq!(cpu.state_arena()[552], 1);
}

#[test]
fn full_bitmap_restores_packed_memory() {
    let ram: u32 = 2 * 4096;
    let (mut slots, mut buffers) = saved_state(ram, 5);
    let packed: Vec<u8> = (0..ram).map(|i| (i % 251) as u8).collect();
    slots[77] = buffer(buffers.len() as u64);
    buffers.push(packed.clone());
    slots[78] = buffer(buffers.len() as u64);
    buffers.push(vec![0b11]);
    let mut cpu = NativeCpu::new(ram, 4096);
    let mut bus = DeviceBus::new();
    cpu.restore_fpu_memory_and_devices(&mut bus, &StateValue::Array(slots), &buffers).unwrap();
    let mut all = vec![0u8; ram as usize];
    assert!(cpu.read_memory(0, &mut all));
    assert_eq!(all, packed);
}

#[test]
fn guest_memory_words() {
    let mut m = x86::memory::GuestMemory::new(8);
    m.write32(2, 0xDEAD_BEEF);
    assert_eq!(m.read32(2), 0xDEAD_BEEF);
    assert_eq!(m.read16(2), 0xBEEF);
    assert_eq!(m.read8(5), 0xDE);
    // Outside memory: reads give 0, writes are dropped.
    m.write8(100, 1);
    assert_eq!(m.read8(100), 0);
    m.write32(6, 0x0403_0201);
    assert_eq!(m.as_slice(), &[0, 0, 0xEF, 0xBE, 0xAD, 0xDE, 1, 2]);
    assert_eq!(m.len(), 8);
}

#[test]
fn cpu_serves_the_9p_queue_from_its_ram() {
    let mut cpu = NativeCpu::new(0x6000, 4096);
    let mut req = vec![0u8; 7];
    req[0] = 7;
    req[4] = 8; // statfs
    req[5] = 3;
    cpu.write_memory(0x4000, &req);
    let mut d = Vec::new();
    d.extend_from_slice(&0x4000u32.to_le_bytes());
    d.extend_from_slice(&[0; 4]);
    d.extend_from_slice(&7u32.to_le_bytes());
    d.extend_from_slice(&1u16.to_le_bytes());
    d.extend_from_slice(&1u16.to_le_bytes());
    d.extend_from_slice(&0x5000u32.to_le_bytes());
    d.extend_from_slice(&[0; 4]);
    d.extend_from_slice(&128u32.to_le_bytes());
    d.extend_from_slice(&2u16.to_le_bytes());
    d.extend_from_slice(&0u16.to_le_bytes());
    cpu.write_memory(0x1000, &d);
    cpu.write_memory(0x2002, &1u16.to_le_bytes());
    let mut bus = DeviceBus::new();
    bus.ninep.queue.enabled = true;
    bus.ninep.queue.desc = 0x1000;
    bus.ninep.queue.avail = 0x2000;
    bus.ninep.queue.used = 0x3000;
    let target = cpu.notification_target(&bus);
    assert_eq!(target, 1);
    assert!(cpu.serve_notification(&mut bus, target).is_none());
    let mut reply = [0u8; 7];
    cpu.read_memory(0x5000, &mut reply);
    assert_eq!(reply, [65, 0, 0, 0, 9, 3, 0]);
    assert_eq!(bus.ninep.queue.avail_last, 1);
    assert_eq!(cpu.ram_bytes(), 0x6000);
}
