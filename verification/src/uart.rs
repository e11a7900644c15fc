//! The 16550-style serial port at 0x3F8 (COM1).
use vstd::prelude::*;
use std::collections::VecDeque;
use crate::state::{StateValue, as_i64_of};
use crate::text::{concat3, decimal, text_num_text};

verus! {

/// First port of COM1.
pub const UART_BASE: i32 = 0x3F8;

/// Register state of the serial port and the bytes waiting to be read.
pub struct UartState {
    pub ints: u8,
    pub baud_rate: u16,
    pub line_control: u8,
    pub lsr: u8,
    pub fifo_control: u8,
    pub ier: u8,
    pub iir: u8,
    pub modem_control: u8,
    pub modem_status: u8,
    pub scratch: u8,
    pub irq: u8,
    pub input: VecDeque<u8>,
}

/// Abstract value of the serial port.
pub struct UartView {
    pub ints: u8,
    pub baud_rate: u16,
    pub line_control: u8,
    pub lsr: u8,
    pub fifo_control: u8,
    pub ier: u8,
    pub iir: u8,
    pub modem_control: u8,
    pub modem_status: u8,
    pub scratch: u8,
    pub irq: u8,
    pub input: Seq<u8>,
}

impl View for UartState {
    type V = UartView;

    open spec fn view(&self) -> UartView {
        UartView {
            ints: self.ints,
            baud_rate: self.baud_rate,
            line_control: self.line_control,
            lsr: self.lsr,
            fifo_control: self.fifo_control,
            ier: self.ier,
            iir: self.iir,
            modem_control: self.modem_control,
            modem_status: self.modem_status,
            scratch: self.scratch,
            irq: self.irq,
            input: self.input@,
        }
    }
}

/// The port at reset: every register 0, no input.
pub open spec fn uart_reset() -> UartView {
    UartView {
        ints: 0,
        baud_rate: 0,
        line_control: 0,
        lsr: 0,
        fifo_control: 0,
        ier: 0,
        iir: 0,
        modem_control: 0,
        modem_status: 0,
        scratch: 0,
        irq: 0,
        input: Seq::empty(),
    }
}

impl UartState {
    /// The port at reset.
    pub fn new() -> (u: UartState)
        ensures
            u@ == uart_reset(),
    {
        UartState {
            ints: 0,
            baud_rate: 0,
            line_control: 0,
            lsr: 0,
            fifo_control: 0,
            ier: 0,
            iir: 0,
            modem_control: 0,
            modem_status: 0,
            scratch: 0,
            irq: 0,
            input: VecDeque::new(),
        }
    }

    /// Queues a byte for the guest to read.
    pub fn push_input(&mut self, byte: u8)
        ensures
            final(self)@ == (UartView { input: old(self)@.input.push(byte), ..old(self)@ }),
    {
        self.input.push_back(byte);
    }
}

impl Default for UartState {
    fn default() -> (u: UartState)
        ensures
            u@ == uart_reset(),
    {
        UartState::new()
    }
}

/// Whether the divisor latch is selected (bit 7 of the line control).
pub open spec fn dlab(u: UartView) -> bool {
    u.line_control & 0x80 != 0
}

/// The register offset of `port` within the port's eight registers.
pub open spec fn uart_offset(port: i32) -> u8 {
    (port - UART_BASE) as u8
}

/// What a read of register `offset` returns and the port after it: offset
/// 0 reads the divisor's low byte with the latch selected, else takes the
/// next input byte (0 when there is none); offset 1 reads the divisor's
/// high byte or the interrupt enables; offset 2 the interrupt
/// identification with the FIFO bits; 5 the line status with data-ready set
/// when input waits; 3, 4, 6 and 7 read their registers; others read 0xFF.
pub open spec fn uart_read_result(u: UartView, offset: u8) -> (i32, UartView) {
    if offset == 0 && dlab(u) {
        ((u.baud_rate & 0xFF) as i32, u)
    } else if offset == 0 {
        if u.input.len() > 0 {
            (u.input[0] as i32, UartView { input: u.input.drop_first(), ..u })
        } else {
            (0, u)
        }
    } else if offset == 1 && dlab(u) {
        ((u.baud_rate >> 8u16) as i32, u)
    } else if offset == 1 {
        ((u.ier & 0x0F) as i32, u)
    } else if offset == 2 {
        ((u.iir | (if u.fifo_control & 1 != 0 { 0xC0u8 } else { 0u8 })) as i32, u)
    } else if offset == 3 {
        (u.line_control as i32, u)
    } else if offset == 4 {
        (u.modem_control as i32, u)
    } else if offset == 5 {
        ((u.lsr | (if u.input.len() == 0 { 0u8 } else { 1u8 })) as i32, u)
    } else if offset == 6 {
        (u.modem_status as i32, u)
    } else if offset == 7 {
        (u.scratch as i32, u)
    } else {
        (0xFF, u)
    }
}

/// Reads a serial-port register.
pub fn uart_read(uart: &mut UartState, port: i32) -> (r: i32)
    requires
        port >= i32::MIN + UART_BASE,
    ensures
        (r, final(uart)@) == uart_read_result(old(uart)@, uart_offset(port)),
{
    let offset = (port - UART_BASE) as u8;
    let latch = uart.line_control & 0x80 != 0;
    if offset == 0 && latch {
        (uart.baud_rate & 0xFF) as i32
    } else if offset == 0 {
        let ghost before = uart.input@;
        match uart.input.pop_front() {
            Some(b) => {
                assert(uart.input@ =~= before.drop_first());
                b as i32
            },
            None => 0,
        }
    } else if offset == 1 && latch {
        (uart.baud_rate >> 8u16) as i32
    } else if offset == 1 {
        (uart.ier & 0x0F) as i32
    } else if offset == 2 {
        let fifo: u8 = if uart.fifo_control & 1 != 0 { 0xC0 } else { 0 };
        (uart.iir | fifo) as i32
    } else if offset == 3 {
        uart.line_control as i32
    } else if offset == 4 {
        uart.modem_control as i32
    } else if offset == 5 {
        let ready: u8 = if uart.input.len() == 0 { 0 } else { 1 };
        (uart.lsr | ready) as i32
    } else if offset == 6 {
        uart.modem_status as i32
    } else if offset == 7 {
        uart.scratch as i32
    } else {
        0xFF
    }
}

/// What a write of `byte` to register `offset` does: offset 0 sets the
/// divisor's low byte with the latch selected, else sends the byte
/// (returned for output); offset 1 sets the divisor's high byte or the
/// interrupt enables (low four bits); 2, 3, 4 and 7 set the FIFO control,
/// line control, modem control and scratch registers; others are ignored.
pub open spec fn uart_write_result(u: UartView, offset: u8, byte: u8) -> (Option<u8>, UartView) {
    if offset == 0 && dlab(u) {
        (None, UartView { baud_rate: (u.baud_rate & 0xFF00) | (byte as u16), ..u })
    } else if offset == 0 {
        (Some(byte), u)
    } else if offset == 1 && dlab(u) {
        (None, UartView { baud_rate: (u.baud_rate & 0x00FF) | ((byte as u16) << 8u16), ..u })
    } else if offset == 1 {
        (None, UartView { ier: byte & 0x0F, ..u })
    } else if offset == 2 {
        (None, UartView { fifo_control: byte, ..u })
    } else if offset == 3 {
        (None, UartView { line_control: byte, ..u })
    } else if offset == 4 {
        (None, UartView { modem_control: byte, ..u })
    } else if offset == 7 {
        (None, UartView { scratch: byte, ..u })
    } else {
        (None, u)
    }
}

/// Writes a serial-port register; returns the byte the port transmits, if
/// any (the caller writes it to the host's standard output).
pub fn uart_write(uart: &mut UartState, port: i32, value: i32) -> (out: Option<u8>)
    requires
        port >= i32::MIN + UART_BASE,
    ensures
        (out, final(uart)@) == uart_write_result(old(uart)@, uart_offset(port), value as u8),
{
    let offset = (port - UART_BASE) as u8;
    let byte = value as u8;
    let latch = uart.line_control & 0x80 != 0;
    if offset == 0 && latch {
        uart.baud_rate = (uart.baud_rate & 0xFF00) | byte as u16;
        None
    } else if offset == 0 {
        Some(byte)
    } else if offset == 1 && latch {
        uart.baud_rate = (uart.baud_rate & 0x00FF) | ((byte as u16) << 8u16);
        None
    } else if offset == 1 {
        uart.ier = byte & 0x0F;
        None
    } else if offset == 2 {
        uart.fifo_control = byte;
        None
    } else if offset == 3 {
        uart.line_control = byte;
        None
    } else if offset == 4 {
        uart.modem_control = byte;
        None
    } else if offset == 7 {
        uart.scratch = byte;
        None
    } else {
        None
    }
}

/// The port with saved field `i` (in the order ints, baud rate, line
/// control, LSR, FIFO control, IER, IIR, modem control, modem status,
/// scratch, IRQ) set from `x`, truncated to the register's width.
pub open spec fn with_field(u: UartView, i: int, x: i64) -> UartView {
    if i == 0 {
        UartView { ints: x as u8, ..u }
    } else if i == 1 {
        UartView { baud_rate: x as u16, ..u }
    } else if i == 2 {
        UartView { line_control: x as u8, ..u }
    } else if i == 3 {
        UartView { lsr: x as u8, ..u }
    } else if i == 4 {
        UartView { fifo_control: x as u8, ..u }
    } else if i == 5 {
        UartView { ier: x as u8, ..u }
    } else if i == 6 {
        UartView { iir: x as u8, ..u }
    } else if i == 7 {
        UartView { modem_control: x as u8, ..u }
    } else if i == 8 {
        UartView { modem_status: x as u8, ..u }
    } else if i == 9 {
        UartView { scratch: x as u8, ..u }
    } else {
        UartView { irq: x as u8, ..u }
    }
}

/// The name of saved field `i` in error messages.
pub open spec fn field_name(i: int) -> Seq<char> {
    if i == 0 {
        "ints"@
    } else if i == 1 {
        "baud rate"@
    } else if i == 2 {
        "line control"@
    } else if i == 3 {
        "LSR"@
    } else if i == 4 {
        "FIFO control"@
    } else if i == 5 {
        "IER"@
    } else if i == 6 {
        "IIR"@
    } else if i == 7 {
        "modem control"@
    } else if i == 8 {
        "modem status"@
    } else if i == 9 {
        "scratch"@
    } else {
        "IRQ"@
    }
}

/// The index of the first of the eleven saved fields, from `i` on, that is
/// not an integer (11 when all are).
pub open spec fn first_bad_field(vals: Seq<StateValue>, i: nat) -> nat
    decreases 11 - i,
{
    if i >= 11 {
        11
    } else if as_i64_of(vals[i as int]) is None {
        i
    } else {
        first_bad_field(vals, i + 1)
    }
}

/// The port after the first `k` saved fields were restored.
pub open spec fn restored_fields(u: UartView, vals: Seq<StateValue>, k: nat) -> UartView
    decreases k,
{
    if k == 0 {
        u
    } else {
        with_field(
            restored_fields(u, vals, (k - 1) as nat),
            k - 1,
            as_i64_of(vals[k - 1]).unwrap(),
        )
    }
}

/// The message for a state of `n` fields.
pub open spec fn uart_length_message(n: nat) -> Seq<char> {
    "UART state has "@ + decimal(n) + " fields; expected 11"@
}

/// The message for saved field `i` not being an integer.
pub open spec fn uart_field_message(i: int) -> Seq<char> {
    "UART "@ + field_name(i) + " is not an integer"@
}

/// The port after restoring it from the saved fields `vals`, and the
/// message of the failure, if any (fields before a bad one stay restored).
pub open spec fn uart_restored(u: UartView, vals: Seq<StateValue>) -> (UartView, Option<Seq<char>>) {
    if vals.len() < 11 {
        (u, Some(uart_length_message(vals.len())))
    } else {
        let k = first_bad_field(vals, 0);
        (restored_fields(u, vals, k), if k < 11 { Some(uart_field_message(k as int)) } else { None })
    }
}

/// The name of saved field `i`.
fn field_name_str(i: usize) -> (s: &'static str)
    requires
        i < 11,
    ensures
        s@ == field_name(i as int),
{
    if i == 0 {
        "ints"
    } else if i == 1 {
        "baud rate"
    } else if i == 2 {
        "line control"
    } else if i == 3 {
        "LSR"
    } else if i == 4 {
        "FIFO control"
    } else if i == 5 {
        "IER"
    } else if i == 6 {
        "IIR"
    } else if i == 7 {
        "modem control"
    } else if i == 8 {
        "modem status"
    } else if i == 9 {
        "scratch"
    } else {
        "IRQ"
    }
}

/// Sets saved field `i` from `x`.
fn set_field(uart: &mut UartState, i: usize, x: i64)
    requires
        i < 11,
    ensures
        final(uart)@ == with_field(old(uart)@, i as int, x),
{
    if i == 0 {
        uart.ints = x as u8;
    } else if i == 1 {
        uart.baud_rate = x as u16;
    } else if i == 2 {
        uart.line_control = x as u8;
    } else if i == 3 {
        uart.lsr = x as u8;
    } else if i == 4 {
        uart.fifo_control = x as u8;
    } else if i == 5 {
        uart.ier = x as u8;
    } else if i == 6 {
        uart.iir = x as u8;
    } else if i == 7 {
        uart.modem_control = x as u8;
    } else if i == 8 {
        uart.modem_status = x as u8;
    } else if i == 9 {
        uart.scratch = x as u8;
    } else {
        uart.irq = x as u8;
    }
}

/// Restores the eleven saved registers from the port's state array. Fields
/// are taken in order; at the first that is not an integer the restore
/// stops with its message, keeping those already set. The input queue is
/// kept.
pub fn restore_uart_state(uart: &mut UartState, state: &[StateValue]) -> (r: Result<(), String>)
    ensures
        state@.len() < 11 ==> final(uart)@ == old(uart)@ && (r matches Err(e) && e@
            == uart_length_message(state@.len())),
        state@.len() >= 11 ==> ({
            let k = first_bad_field(state@, 0);
            &&& final(uart)@ == restored_fields(old(uart)@, state@, k)
            &&& (k >= 11 ==> r is Ok)
            &&& (k < 11 ==> (r matches Err(e) && e@ == uart_field_message(k as int)))
        }),
{
    if state.len() < 11 {
        return Err(text_num_text("UART state has ", state.len() as u64, " fields; expected 11"));
    }
    let ghost u0 = uart@;
    let mut i: usize = 0;
    while i < 11
        invariant
            i <= 11,
            state@.len() >= 11,
            first_bad_field(state@, 0) == first_bad_field(state@, i as nat),
            uart@ == restored_fields(u0, state@, i as nat),
            u0 == old(uart)@,
            forall|j: int| 0 <= j < i ==> as_i64_of(#[trigger] state@[j]) is Some,
        decreases 11 - i,
    {
        match state[i].as_i64() {
            Some(x) => {
                assert(first_bad_field(state@, i as nat) == first_bad_field(state@, (i + 1) as nat));
                set_field(uart, i, x);
                assert(restored_fields(u0, state@, (i + 1) as nat) == with_field(
                    restored_fields(u0, state@, i as nat),
                    i as int,
                    x,
                ));
            },
            None => {
                assert(first_bad_field(state@, i as nat) == i);
                return Err(concat3("UART ", field_name_str(i), " is not an integer"));
            },
        }
        i = i + 1;
    }
    Ok(())
}

/// What is written to a serial-port register is read back: the line
/// control, modem control and scratch registers as written; with the
/// divisor latch selected, the divisor's low and high bytes as written;
/// without it, the interrupt enables as their low four bits. A data byte
/// written without the latch is transmitted and changes nothing.
pub proof fn law_uart_register_read_back(u: UartView, offset: u8, byte: u8)
    ensures
        ({
            let (out, after) = uart_write_result(u, offset, byte);
            &&& (offset == 3 || offset == 4 || offset == 7) ==> uart_read_result(after, offset).0 == byte as i32
            &&& (offset == 0 || offset == 1) && dlab(u) ==> uart_read_result(after, offset).0 == byte as i32
            &&& offset == 1 && !dlab(u) ==> uart_read_result(after, offset).0 == (byte & 0x0F) as i32
            &&& offset == 0 && !dlab(u) ==> out == Some(byte) && after == u
        }),
{
    let bd = u.baud_rate;
    assert((((bd & 0xFF00) | (byte as u16)) & 0xFF) as i32 == byte as i32) by (bit_vector);
    assert((((bd & 0x00FF) | ((byte as u16) << 8u16)) >> 8u16) as i32 == byte as i32) by (bit_vector);
    assert(((byte & 0x0F) & 0x0F) == (byte & 0x0F)) by (bit_vector);
}

/// Received bytes are read from the data register in the order they
/// arrived, and the line status shows data ready while any wait.
pub proof fn law_uart_input_in_order(u: UartView, byte: u8)
    requires
        !dlab(u),
    ensures
        ({
            let queued = UartView { input: u.input.push(byte), ..u };
            let (v, after) = uart_read_result(queued, 0);
            &&& v == (if u.input.len() > 0 { u.input[0] } else { byte }) as i32
            &&& after.input == (if u.input.len() > 0 { u.input.drop_first().push(byte) } else { seq![] })
            &&& uart_read_result(queued, 5).0 & 1 == 1
        }),
{
    let queued = UartView { input: u.input.push(byte), ..u };
    assert(queued.input.drop_first() =~= (if u.input.len() > 0 { u.input.drop_first().push(byte) } else { seq![] }));
    let l = u.lsr;
    assert(((l | 1u8) as i32) & 1 == 1) by (bit_vector);
}

/// Reading the line status register changes nothing and gives the stored
/// line status, with only bit 0 (data ready) set when received bytes wait:
/// every other bit, the transmitter-empty bits among them, is the stored
/// one, and with nothing received the stored value comes back unchanged.
pub proof fn law_line_status_read(u: UartView)
    ensures
        ({
            let (v, after) = uart_read_result(u, 5);
            &&& after == u
            &&& 0 <= v < 256
            &&& (v as u8) & 0xFE == u.lsr & 0xFE
            &&& ((v as u8) & 1 == 1) == (u.input.len() > 0 || u.lsr & 1 == 1)
            &&& u.input.len() == 0 ==> v == u.lsr as i32
        }),
{
    let l = u.lsr;
    assert(((l | 1u8) & 0xFE) == (l & 0xFE)) by (bit_vector);
    assert(((l | 1u8) & 1) == 1) by (bit_vector);
    assert(((l | 0u8) & 0xFE) == (l & 0xFE)) by (bit_vector);
    assert((l | 0u8) == l) by (bit_vector);
}

/// Reading any register but the data register changes nothing.
pub proof fn law_uart_reads_keep_state(u: UartView, offset: u8)
    requires
        offset != 0,
    ensures
        uart_read_result(u, offset).1 == u,
{
}

/// The interrupt identification register reads as stored, with its two
/// top bits set exactly when the FIFO is enabled (FIFO control bit 0); the
/// modem status register reads as stored; offsets past the scratch
/// register read as 0xFF.
pub proof fn law_uart_status_reads(u: UartView, offset: u8)
    ensures
        ({
            let v = uart_read_result(u, 2).0;
            &&& 0 <= v < 256
            &&& (v as u8) & 0x3F == u.iir & 0x3F
            &&& u.fifo_control & 1 != 0 ==> (v as u8) & 0xC0 == 0xC0
            &&& u.fifo_control & 1 == 0 ==> v == u.iir as i32
        }),
        uart_read_result(u, 6).0 == u.modem_status as i32,
        offset >= 8 ==> uart_read_result(u, offset).0 == 0xFF,
{
    let i = u.iir;
    assert(((i | 0xC0u8) & 0x3F) == (i & 0x3F)) by (bit_vector);
    assert(((i | 0xC0u8) & 0xC0) == 0xC0) by (bit_vector);
    assert((i | 0u8) == i) by (bit_vector);
}

} // verus!
