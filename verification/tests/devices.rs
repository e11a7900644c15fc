use x86::devices::{
    complete_read, complete_walk, io_read32, io_read8, io_write16, io_write32, io_write8, mmio_read32, mmio_write32,
    notification_target, pci_config_read, queue_step, serve_notification, restore_state, set_9p_root, DeviceBus, QueueStep, PCI_CONFIG_ADDRESS, PCI_CONFIG_DATA,
    VIRTIO_9P_COMMON, VIRTIO_9P_CONFIG, VIRTIO_9P_ISR, VIRTIO_9P_NOTIFY,
};
use x86::memory::GuestMemory;
use x86::ninep::{finish_read, finish_walk, handle_9p, NinePAction, Virtio9p};
use x86::state::StateValue;

fn request(id: u8, tag: u16, payload: &[u8]) -> Vec<u8> {
    let mut r = Vec::new();
    r.extend_from_slice(&((payload.len() + 7) as u32).to_le_bytes());
    r.push(id);
    r.extend_from_slice(&tag.to_le_bytes());
    r.extend_from_slice(payload);
    r
}

fn string(value: &str) -> Vec<u8> {
    let mut r = (value.len() as u16).to_le_bytes().to_vec();
    r.extend_from_slice(value.as_bytes());
    r
}

fn reply_of(action: NinePAction) -> Vec<u8> {
    match action {
        NinePAction::Reply(r) => r,
        _ => panic!("expected a complete reply"),
    }
}

#[test]
fn pci_config_exposes_virtio_9p_identity() {
    let mut bus = DeviceBus::new();
    assert!(io_write32(&mut bus, PCI_CONFIG_ADDRESS, 0x8000_0000u32 as i32).to_owned());
    let id = io_read32(&bus, PCI_CONFIG_DATA).expect("PCI data port");
    assert_eq!(id as u32, 0x1009_1AF4);

    assert!(io_write32(&mut bus, PCI_CONFIG_ADDRESS, 0x8000_0010u32 as i32).to_owned());
    let bar = io_read32(&bus, PCI_CONFIG_DATA).expect("PCI BAR");
    assert_eq!(bar as u32, 0x0000_A001);
}

#[test]
fn ninep_host_directory_round_trip() {
    // The host directory, held in memory: its root and one file.
    let root = format!("x86-native-9p-{}", 8192);
    let mut host: std::collections::HashMap<Vec<String>, Vec<u8>> = std::collections::HashMap::new();
    host.insert(vec![root.clone()], Vec::new());
    host.insert(vec![root.clone(), "hello.txt".to_string()], b"hello".to_vec());
    let mut dev = Virtio9p::new();
    dev.root = Some(root.clone());

    let mut version = 8192u32.to_le_bytes().to_vec();
    version.extend_from_slice(&string("9P2000.L"));
    let version_reply = reply_of(handle_9p(&mut dev, &request(100, 1, &version)));
    assert_eq!(version_reply[4], 101);
    // The agreed size, then the protocol name as a 9P string.
    let mut expected = vec![21, 0, 0, 0, 101, 1, 0];
    expected.extend_from_slice(&8192u32.to_le_bytes());
    expected.extend_from_slice(&string("9P2000.L"));
    assert_eq!(version_reply, expected);

    let mut attach = 0u32.to_le_bytes().to_vec();
    attach.extend_from_slice(&u32::MAX.to_le_bytes());
    attach.extend_from_slice(&string("root"));
    attach.extend_from_slice(&string(""));
    assert_eq!(reply_of(handle_9p(&mut dev, &request(104, 2, &attach)))[4], 105);

    let mut walk = 0u32.to_le_bytes().to_vec();
    walk.extend_from_slice(&1u32.to_le_bytes());
    walk.extend_from_slice(&1u16.to_le_bytes());
    walk.extend_from_slice(&string("hello.txt"));
    let walk_reply = match handle_9p(&mut dev, &request(110, 3, &walk)) {
        NinePAction::Walk(w) => {
            let mut path = w.base.clone();
            let mut existing = 0;
            for name in w.names.iter() {
                path.push(name.clone());
                if !host.contains_key(&path) {
                    break;
                }
                existing += 1;
            }
            finish_walk(&mut dev, w, existing)
        }
        _ => panic!("expected a walk"),
    };
    assert_eq!(walk_reply[4], 111);

    let mut open = 1u32.to_le_bytes().to_vec();
    open.extend_from_slice(&0u32.to_le_bytes());
    assert_eq!(reply_of(handle_9p(&mut dev, &request(12, 4, &open)))[4], 13);

    let mut read = 1u32.to_le_bytes().to_vec();
    read.extend_from_slice(&0u64.to_le_bytes());
    read.extend_from_slice(&5u32.to_le_bytes());
    let response = match handle_9p(&mut dev, &request(116, 5, &read)) {
        NinePAction::Read(r) => {
            let data = host.get(&r.path.expect("fid 1 is bound")).expect("the file exists");
            let end = (r.offset as usize + r.count as usize).min(data.len());
            finish_read(r.tag, &data[r.offset as usize..end])
        }
        _ => panic!("expected a read"),
    };
    assert_eq!(response[4], 117);
    assert_eq!(&response[7 + 4..7 + 9], b"hello");
}

#[test]
fn pci_config_other_registers() {
    assert_eq!(pci_config_read(0x8000_0008), 0x0180_0000);
    assert_eq!(pci_config_read(0x8000_0020), 0xFF00_0000);
    assert_eq!(pci_config_read(0x8000_000C), 0);
    // Disabled, or another device number.
    assert_eq!(pci_config_read(0x0000_0000), 0xFFFF_FFFF);
    assert_eq!(pci_config_read(0x8000_0800), 0xFFFF_FFFF);
}

#[test]
fn pci_read_back_through_mmio() {
    let mut bus = DeviceBus::new();
    assert!(mmio_write32(&mut bus, PCI_CONFIG_ADDRESS as u32, 0x8000_0000u32 as i32));
    assert_eq!(mmio_read32(&bus, PCI_CONFIG_DATA as u32), Some(0x1009_1AF4));
}

#[test]
fn virtio_registers() {
    let mut bus = DeviceBus::new();
    // The mount tag "host9p" is readable through the configuration window.
    assert_eq!(io_read8(&bus, VIRTIO_9P_CONFIG), Some(b'h' as i32));
    assert_eq!(io_read8(&bus, VIRTIO_9P_CONFIG + 5), Some(b'p' as i32));
    assert_eq!(io_read8(&bus, VIRTIO_9P_CONFIG + 6), Some(0));
    assert_eq!(io_read8(&bus, 0x1234), None);
    assert!(io_write8(&mut bus, VIRTIO_9P_COMMON + 20, 7));
    assert_eq!(io_read32(&bus, VIRTIO_9P_COMMON + 20), Some(7));
    assert_eq!(io_read32(&bus, VIRTIO_9P_COMMON + 24), Some(1));
    bus.ninep.isr = 1;
    assert_eq!(io_read8(&bus, VIRTIO_9P_ISR), Some(1));
    assert!(io_write8(&mut bus, VIRTIO_9P_ISR, 0));
    assert_eq!(io_read8(&bus, VIRTIO_9P_ISR), Some(0));
    assert!(io_write16(&mut bus, VIRTIO_9P_NOTIFY, 0));
    assert!(!io_write16(&mut bus, VIRTIO_9P_NOTIFY + 2, 0));
}

#[test]
fn root_binds_fid_zero() {
    let mut bus = DeviceBus::new();
    set_9p_root(&mut bus, "/srv/share".to_string());
    assert_eq!(bus.ninep.root.as_deref(), Some("/srv/share"));
    let fid = bus.ninep.fids.get(&0).expect("fid 0");
    assert_eq!(fid.path, vec!["/srv/share".to_string()]);
    assert!(!fid.opened);
}

fn put16(m: &mut [u8], a: usize, v: u16) {
    m[a..a + 2].copy_from_slice(&v.to_le_bytes());
}
fn put32(m: &mut [u8], a: usize, v: u32) {
    m[a..a + 4].copy_from_slice(&v.to_le_bytes());
}

/// A queue at 0x1000 (descriptors), 0x2000 (available) and 0x3000 (used),
/// holding one version request in a readable buffer at 0x4000 and a
/// writable buffer of `capacity` bytes at 0x5000.
fn queue_with_version_request(capacity: u32) -> (DeviceBus, Vec<u8>) {
    let mut m = vec![0u8; 0x6000];
    let mut version = 8192u32.to_le_bytes().to_vec();
    version.extend_from_slice(&string("9P2000.L"));
    let req = request(100, 9, &version);
    m[0x4000..0x4000 + req.len()].copy_from_slice(&req);
    // Descriptor 0: the request, chained to descriptor 1.
    put32(&mut m, 0x1000, 0x4000);
    put32(&mut m, 0x1000 + 8, req.len() as u32);
    put16(&mut m, 0x1000 + 12, 1);
    put16(&mut m, 0x1000 + 14, 1);
    // Descriptor 1: the reply buffer, device-writable.
    put32(&mut m, 0x1010, 0x5000);
    put32(&mut m, 0x1010 + 8, capacity);
    put16(&mut m, 0x1010 + 12, 2);
    // Available ring: one entry, head 0.
    put16(&mut m, 0x2002, 1);
    put16(&mut m, 0x2004, 0);
    let mut bus = DeviceBus::new();
    bus.ninep.queue.enabled = true;
    bus.ninep.queue.desc = 0x1000;
    bus.ninep.queue.avail = 0x2000;
    bus.ninep.queue.used = 0x3000;
    (bus, m)
}

#[test]
fn queue_answers_version_request() {
    let (mut bus, m) = queue_with_version_request(64);
    let mut mem = GuestMemory::from_bytes(m);
    let step = queue_step(&mut bus, &mut mem, 1);
    let reply = match step {
        QueueStep::Answered(r) => r,
        _ => panic!("expected an answered request"),
    };
    assert_eq!(reply.len(), 21);
    let ram = mem.as_slice();
    assert_eq!(&ram[0x5000..0x5000 + reply.len()], &reply[..]);
    assert_eq!(ram[0x5004], 101);
    // Used ring: entry (head 0, 21 bytes written), index 1.
    assert_eq!(u32::from_le_bytes(ram[0x3004..0x3008].try_into().unwrap()), 0);
    assert_eq!(u32::from_le_bytes(ram[0x3008..0x300C].try_into().unwrap()), 21);
    assert_eq!(u16::from_le_bytes(ram[0x3002..0x3004].try_into().unwrap()), 1);
    assert_eq!(bus.ninep.queue.avail_last, 1);
    assert_eq!(bus.ninep.isr & 1, 1);
    // Nothing more is waiting.
    assert!(matches!(queue_step(&mut bus, &mut mem, 1), QueueStep::Idle));
}

#[test]
fn queue_reports_only_what_fits() {
    let (mut bus, m) = queue_with_version_request(10);
    let mut mem = GuestMemory::from_bytes(m);
    assert!(matches!(queue_step(&mut bus, &mut mem, 1), QueueStep::Answered(_)));
    let ram = mem.as_slice();
    assert_eq!(u32::from_le_bytes(ram[0x3008..0x300C].try_into().unwrap()), 10);
    assert_eq!(ram[0x500A], 0);
}

#[test]
fn queue_idle_when_not_enabled() {
    let (mut bus, m) = queue_with_version_request(64);
    bus.ninep.queue.enabled = false;
    let mut mem = GuestMemory::from_bytes(m.clone());
    assert!(matches!(queue_step(&mut bus, &mut mem, 1), QueueStep::Idle));
    assert_eq!(mem.as_slice(), &m[..]);
}

#[test]
fn queue_hands_walks_to_the_host() {
    let mut m = vec![0u8; 0x6000];
    let mut walk = 0u32.to_le_bytes().to_vec();
    walk.extend_from_slice(&1u32.to_le_bytes());
    walk.extend_from_slice(&1u16.to_le_bytes());
    walk.extend_from_slice(&string("missing"));
    let req = request(110, 4, &walk);
    m[0x4000..0x4000 + req.len()].copy_from_slice(&req);
    put32(&mut m, 0x1000, 0x4000);
    put32(&mut m, 0x1000 + 8, req.len() as u32);
    put16(&mut m, 0x1000 + 12, 1);
    put16(&mut m, 0x1000 + 14, 1);
    put32(&mut m, 0x1010, 0x5000);
    put32(&mut m, 0x1010 + 8, 64);
    put16(&mut m, 0x1010 + 12, 2);
    put16(&mut m, 0x2002, 1);
    let mut bus = DeviceBus::new();
    bus.ninep.queue.enabled = true;
    bus.ninep.queue.desc = 0x1000;
    bus.ninep.queue.avail = 0x2000;
    bus.ninep.queue.used = 0x3000;
    let mut mem = GuestMemory::from_bytes(m);
    let host = match queue_step(&mut bus, &mut mem, 1) {
        QueueStep::Host(h) => h,
        _ => panic!("expected host work"),
    };
    assert_eq!(host.head, 0);
    assert_eq!(host.writable, vec![(0x5000, 64)]);
    let w = match host.action {
        NinePAction::Walk(w) => w,
        _ => panic!("expected a walk"),
    };
    assert_eq!(w.names, vec!["missing".to_string()]);
    assert!(complete_walk(&mut bus, &mut mem, host.head, &host.writable, w, 0));
    let ram = mem.as_slice();
    // The error reply: length 11, type 7, tag 4, ENOENT.
    assert_eq!(&ram[0x5000..0x500B], &[11, 0, 0, 0, 7, 4, 0, 2, 0, 0, 0]);
    assert_eq!(bus.ninep.queue.avail_last, 1);
}

#[test]
fn queue_read_completion() {
    let mut bus = DeviceBus::new();
    bus.ninep.queue.used = 0x100;
    let mut mem = GuestMemory::new(0x400);
    complete_read(&mut bus, &mut mem, 3, &[(0x200, 32)], 6, b"abc");
    let ram = mem.as_slice();
    assert_eq!(&ram[0x200..0x20E], &[14, 0, 0, 0, 117, 6, 0, 3, 0, 0, 0, b'a', b'b', b'c']);
    assert_eq!(u32::from_le_bytes(ram[0x104..0x108].try_into().unwrap()), 3);
    assert_eq!(u32::from_le_bytes(ram[0x108..0x10C].try_into().unwrap()), 14);
}

fn obj_buffer(id: u64) -> StateValue {
    StateValue::Object(vec![("buffer_id".to_string(), StateValue::UInt(id))])
}

#[test]
fn restore_reads_9p_slot() {
    let mut bus = DeviceBus::new();
    let mut slots: Vec<StateValue> = (0..46).map(|_| StateValue::Null).collect();
    let tag = StateValue::Array(vec![StateValue::Int(109), StateValue::Int(110), StateValue::Int(116)]);
    let mut queue: Vec<StateValue> = (0..8).map(|_| StateValue::Int(0)).collect();
    queue[0] = StateValue::Int(16);
    queue[2] = StateValue::Bool(true);
    queue[4] = StateValue::Int(0x1000);
    queue[5] = StateValue::Int(0x2000);
    queue[6] = StateValue::Int(3);
    queue[7] = StateValue::Int(0x3000);
    let mut virtio: Vec<StateValue> = (0..11).map(|_| StateValue::Null).collect();
    virtio[10] = StateValue::Array(queue);
    slots[45] = StateValue::Array(vec![tag, StateValue::Null, StateValue::Array(virtio)]);
    slots[0] = obj_buffer(0);
    restore_state(&mut bus, &StateValue::Array(slots), &[]).unwrap();
    assert_eq!(bus.ninep.tag, b"mnt".to_vec());
    assert_eq!(io_read8(&bus, VIRTIO_9P_CONFIG), Some(b'm' as i32));
    assert_eq!(io_read8(&bus, VIRTIO_9P_CONFIG + 3), Some(0));
    assert_eq!(bus.ninep.queue.size, 16);
    assert!(bus.ninep.queue.enabled);
    assert_eq!(bus.ninep.queue.desc, 0x1000);
    assert_eq!(bus.ninep.queue.avail, 0x2000);
}

#[test]
fn restore_refuses_non_array() {
    let mut bus = DeviceBus::new();
    let e = restore_state(&mut bus, &StateValue::Null, &[]).unwrap_err();
    assert_eq!(e, "v86 state is not an array");
}

#[test]
fn mmio_routes_like_ports() {
    let mut bus = DeviceBus::new();
    bus.ninep.isr = 1;
    assert_eq!(x86::devices::mmio_read8(&bus, VIRTIO_9P_ISR as u32), Some(1));
    assert!(x86::devices::mmio_write8(&mut bus, VIRTIO_9P_ISR as u32, 0));
    assert_eq!(x86::devices::mmio_read8(&bus, VIRTIO_9P_ISR as u32), Some(0));
    assert!(x86::devices::mmio_write16(&mut bus, VIRTIO_9P_NOTIFY as u32, 0));
    assert!(!x86::devices::mmio_write16(&mut bus, 0x10, 0));
}

#[test]
fn message_fields() {
    let msg = [5u8, 0, b'h', b'i', 0xFF, b'!', b'x', 0x34, 0x12, 0x78, 0x56, 0x34, 0x12];
    let mut p = 0usize;
    // Invalid UTF-8 becomes the replacement character.
    assert_eq!(x86::ninep::string_at(&msg, &mut p), "hi\u{FFFD}!x");
    assert_eq!(p, 7);
    assert_eq!(x86::ninep::u16_at(&msg, &mut p), 0x1234);
    assert_eq!(x86::ninep::u32_at(&msg, &mut p), 0x1234_5678);
    assert_eq!(p, 13);
    // A length running past the end is cut there.
    let mut q = 0usize;
    assert_eq!(x86::ninep::string_at(&[9, 0, b'a', b'b'], &mut q), "ab");
    assert_eq!(q, 4);
    assert_eq!(x86::ninep::reply(100, 0x0102, &[9]), vec![8, 0, 0, 0, 101, 2, 1, 9]);
}

#[test]
fn ninep_errors_and_statfs() {
    let mut dev = Virtio9p::new();
    assert_eq!(reply_of(handle_9p(&mut dev, &[1, 2, 3])), vec![11, 0, 0, 0, 7, 0, 0, 2, 0, 0, 0]);
    assert_eq!(reply_of(handle_9p(&mut dev, &request(99, 3, &[]))), vec![11, 0, 0, 0, 7, 3, 0, 2, 0, 0, 0]);
    let statfs = reply_of(handle_9p(&mut dev, &request(8, 4, &[])));
    assert_eq!(statfs.len(), 65);
    assert_eq!(statfs[4], 9);
    assert!(matches!(handle_9p(&mut dev, &request(116, 5, &[0, 0])), NinePAction::Malformed));
    // Open of an unknown fid creates it, opened, with no path.
    let mut open = 7u32.to_le_bytes().to_vec();
    open.extend_from_slice(&0u32.to_le_bytes());
    assert_eq!(reply_of(handle_9p(&mut dev, &request(112, 6, &open)))[4], 113);
    assert!(dev.fids.get(&7).unwrap().opened);
    assert!(dev.fids.get(&7).unwrap().path.is_empty());
}

#[test]
fn attach_binds_the_shared_root() {
    let mut bus = DeviceBus::new();
    set_9p_root(&mut bus, "/srv".to_string());
    let mut attach = 3u32.to_le_bytes().to_vec();
    attach.extend_from_slice(&u32::MAX.to_le_bytes());
    attach.extend_from_slice(&string("u"));
    attach.extend_from_slice(&string(""));
    assert_eq!(reply_of(handle_9p(&mut bus.ninep, &request(104, 1, &attach)))[4], 105);
    let fid = bus.ninep.fids.get(&3).unwrap();
    assert_eq!(fid.path, vec!["/srv".to_string()]);
    assert!(!fid.opened);
    // Without a shared root the fid is bound to ".".
    let mut dev = Virtio9p::new();
    reply_of(handle_9p(&mut dev, &request(104, 1, &attach)));
    assert_eq!(dev.fids.get(&3).unwrap().path, vec![".".to_string()]);
}

#[test]
fn notification_serves_every_published_request() {
    // Two chains, each a version request with its own reply buffer.
    let mut m = vec![0u8; 0x8000];
    let mut version = 8192u32.to_le_bytes().to_vec();
    version.extend_from_slice(&string("9P2000.L"));
    for k in 0..2usize {
        let req = request(100, k as u16, &version);
        let at = 0x4000 + 0x100 * k;
        m[at..at + req.len()].copy_from_slice(&req);
        let d = 0x1000 + 0x20 * k;
        put32(&mut m, d, at as u32);
        put32(&mut m, d + 8, req.len() as u32);
        put16(&mut m, d + 12, 1);
        put16(&mut m, d + 14, (2 * k + 1) as u16);
        put32(&mut m, d + 0x10, (0x5000 + 0x100 * k) as u32);
        put32(&mut m, d + 0x18, 64);
        put16(&mut m, d + 0x1C, 2);
        put16(&mut m, 0x2004 + 2 * k, (2 * k) as u16);
    }
    put16(&mut m, 0x2002, 2);
    let mut bus = DeviceBus::new();
    bus.ninep.queue.enabled = true;
    bus.ninep.queue.desc = 0x1000;
    bus.ninep.queue.avail = 0x2000;
    bus.ninep.queue.used = 0x3000;
    let mut mem = GuestMemory::from_bytes(m);
    let target = notification_target(&bus, &mem);
    assert_eq!(target, 2);
    assert!(serve_notification(&mut bus, &mut mem, target).is_none());
    let ram = mem.as_slice();
    assert_eq!(bus.ninep.queue.avail_last, 2);
    assert_eq!(u16::from_le_bytes(ram[0x3002..0x3004].try_into().unwrap()), 2);
    // Used entries: (head 0, 21 bytes), (head 2, 21 bytes).
    assert_eq!(&ram[0x3004..0x3014], &[0, 0, 0, 0, 21, 0, 0, 0, 2, 0, 0, 0, 21, 0, 0, 0]);
    assert_eq!(ram[0x5005], 0);
    assert_eq!(ram[0x5105], 1);
    assert_eq!(bus.ninep.isr & 1, 1);
}

#[test]
fn notification_stops_at_host_work() {
    let mut m = vec![0u8; 0x6000];
    let mut walk = 0u32.to_le_bytes().to_vec();
    walk.extend_from_slice(&1u32.to_le_bytes());
    walk.extend_from_slice(&2u16.to_le_bytes());
    walk.extend_from_slice(&string("a"));
    let req = request(110, 4, &walk);
    m[0x4000..0x4000 + req.len()].copy_from_slice(&req);
    put32(&mut m, 0x1000, 0x4000);
    put32(&mut m, 0x1000 + 8, req.len() as u32);
    put16(&mut m, 0x1000 + 12, 1);
    put16(&mut m, 0x1000 + 14, 1);
    put32(&mut m, 0x1010, 0x5000);
    put32(&mut m, 0x1010 + 8, 64);
    put16(&mut m, 0x1010 + 12, 2);
    put16(&mut m, 0x2002, 1);
    let mut bus = DeviceBus::new();
    bus.ninep.queue.enabled = true;
    bus.ninep.queue.desc = 0x1000;
    bus.ninep.queue.avail = 0x2000;
    bus.ninep.queue.used = 0x3000;
    let mut mem = GuestMemory::from_bytes(m);
    let target = notification_target(&bus, &mem);
    let host = serve_notification(&mut bus, &mut mem, target).expect("a walk for the host");
    assert_eq!(bus.ninep.queue.avail_last, 0);
    let w = match host.action {
        NinePAction::Walk(w) => w,
        _ => panic!("expected a walk"),
    };
    // Two names announced, one in the message: if it exists the walk is
    // malformed and nothing is answered.
    assert_eq!(w.names.len(), 1);
    assert!(!complete_walk(&mut bus, &mut mem, host.head, &host.writable, w, 1));
    assert_eq!(bus.ninep.queue.avail_last, 0);
}
