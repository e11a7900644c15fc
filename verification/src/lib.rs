//! Cross-platform native x86 machine library: resources and images, the
//! native CPU's state and its restore from a v86 saved state, the
//! virtio-9p/PCI device bus, the serial port, and the console and test
//! server's text rendering.
use vstd::prelude::*;

pub mod bootloader;
pub mod commands;
pub mod console;
pub mod cpu;
pub mod devices;
pub mod error;
pub mod host;
pub mod image;
pub mod le;
pub mod memory;
pub mod ninep;
pub mod opstats;
pub mod registers;
pub mod server;
pub mod state;
pub mod text;
pub mod uart;
pub mod virtqueue;

verus! {

/// The library's version.
pub const API_VERSION: &'static str = "0.1.1";

/// What this build of the library can do.
pub open spec fn capabilities() -> Seq<&'static str> {
    seq![
        "raw-image-memory",
        "raw-image-file",
        "bootloader-file",
        "bootloader-http",
        "bootloader-https",
        "saved-state-v86-v6",
        "console-host-api",
        "backend-trait",
        "no-webassembly-runtime",
    ]
}

/// The capabilities of this build, in a fixed order.
pub fn native_capabilities() -> (c: Vec<&'static str>)
    ensures
        c@ == capabilities(),
{
    let c = vec![
        "raw-image-memory",
        "raw-image-file",
        "bootloader-file",
        "bootloader-http",
        "bootloader-https",
        "saved-state-v86-v6",
        "console-host-api",
        "backend-trait",
        "no-webassembly-runtime",
    ];
    assert(c@ =~= capabilities());
    c
}

} // verus!
