# x86

A cross-platform native x86 machine library, written in Verus: the logic
is executable Rust whose behaviour is stated in `requires`/`ensures`
contracts and proved.

## Layout

- `src/` — the verified library.
  - `image`, `bootloader`, `error`: images and their SHA-256 check, where
    image bytes come from (memory, a file, an HTTP(S) URL), the error type.
  - `cpu`: the native CPU's state arena and guest RAM, and restoring them
    from a decoded v86 saved state (`state`).
  - `devices`, `ninep`, `virtqueue`: the PCI configuration space, the
    virtio-9p device's registers, its request queue and the 9P2000.L
    message handler.
  - `uart`, `host`: the serial port and the routing of the CPU core's port
    and memory-mapped I/O callbacks.
  - `memory`, `le`, `text`: guest memory, little-endian fields, decimal
    text.
  - `console`, `commands`, `server`: terminal rendering of the guest
    screen, the console's command language, and the test HTTP server's
    routing and responses.
- `app/` — ordinary Rust around the library: process-wide devices and the
  exported callbacks, file and network I/O, serde/thiserror copies of the
  library's types, saved-state decoding, the console's input loop and the test server's
  sockets.
- `tests/` — tests of the library.

Laws that relate several operations (a write read back, a walk followed by
a read, a restore followed by the register getters, and so on) are public
proof functions named `law_*` next to the operations they speak of.
