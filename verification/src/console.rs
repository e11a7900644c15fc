//! The native console's screen rendering: the guest's VGA text page or
//! graphics framebuffer drawn as ANSI 24-bit colour escape sequences for a
//! terminal.
use vstd::prelude::*;
use vstd::utf8::encode_utf8;
use crate::error::X86Error;
use crate::image::{Image, ImageKind, hex_lower, sha256_of};
use crate::text::{decimal, push_decimal};

verus! {

/// The sixteen CGA colours as (red, green, blue).
pub open spec fn cga_palette() -> Seq<(u8, u8, u8)> {
    seq![
        (0u8, 0u8, 0u8),
        (0u8, 0u8, 170u8),
        (0u8, 170u8, 0u8),
        (0u8, 170u8, 170u8),
        (170u8, 0u8, 0u8),
        (170u8, 0u8, 170u8),
        (170u8, 85u8, 0u8),
        (170u8, 170u8, 170u8),
        (85u8, 85u8, 85u8),
        (85u8, 85u8, 255u8),
        (85u8, 255u8, 85u8),
        (85u8, 255u8, 255u8),
        (255u8, 85u8, 85u8),
        (255u8, 85u8, 255u8),
        (255u8, 255u8, 85u8),
        (255u8, 255u8, 255u8),
    ]
}

/// CGA colour `i`.
fn cga_color(i: u8) -> (c: (u8, u8, u8))
    requires
        i < 16,
    ensures
        c == cga_palette()[i as int],
{
    match i {
        0 => (0, 0, 0),
        1 => (0, 0, 170),
        2 => (0, 170, 0),
        3 => (0, 170, 170),
        4 => (170, 0, 0),
        5 => (170, 0, 170),
        6 => (170, 85, 0),
        7 => (170, 170, 170),
        8 => (85, 85, 85),
        9 => (85, 85, 255),
        10 => (85, 255, 85),
        11 => (85, 255, 255),
        12 => (255, 85, 85),
        13 => (255, 85, 255),
        14 => (255, 255, 85),
        _ => (255, 255, 255),
    }
}

/// The character shown for the guest's text byte `byte`: printable ASCII
/// as it is, anything else as a space.
pub open spec fn guest_char(byte: u8) -> char {
    if 0x20 <= byte <= 0x7E {
        byte as char
    } else {
        ' '
    }
}

/// The character shown for the guest's text byte `byte`.
pub fn printable_guest_char(byte: u8) -> (c: char)
    ensures
        c == guest_char(byte),
{
    if 0x20 <= byte && byte <= 0x7E {
        byte as char
    } else {
        ' '
    }
}

/// The escape sequences that set the foreground colour `fg` and the
/// background colour `bg`.
pub open spec fn color_text(fg: (u8, u8, u8), bg: (u8, u8, u8)) -> Seq<char> {
    "\x1b[38;2;"@ + decimal(fg.0 as nat) + ";"@ + decimal(fg.1 as nat) + ";"@ + decimal(fg.2 as nat) + "m\x1b[48;2;"@
        + decimal(bg.0 as nat) + ";"@ + decimal(bg.1 as nat) + ";"@ + decimal(bg.2 as nat) + "m"@
}

/// Appends the escape sequences that set `fg` and `bg`.
fn push_colors(s: &mut String, fg: (u8, u8, u8), bg: (u8, u8, u8))
    ensures
        final(s)@ == old(s)@ + color_text(fg, bg),
{
    s.append("\x1b[38;2;");
    push_decimal(s, fg.0 as u64);
    s.append(";");
    push_decimal(s, fg.1 as u64);
    s.append(";");
    push_decimal(s, fg.2 as u64);
    s.append("m\x1b[48;2;");
    push_decimal(s, bg.0 as u64);
    s.append(";");
    push_decimal(s, bg.1 as u64);
    s.append(";");
    push_decimal(s, bg.2 as u64);
    s.append("m");
}

/// Appends the bytes of `b`.
fn push_bytes(v: &mut Vec<u8>, b: &[u8])
    ensures
        final(v)@ == old(v)@ + b@,
{
    let mut i: usize = 0;
    while i < b.len()
        invariant
            i <= b@.len(),
            v@ == old(v)@ + b@.subrange(0, i as int),
        decreases b@.len() - i,
    {
        v.push(b[i]);
        i = i + 1;
        assert(v@ =~= old(v)@ + b@.subrange(0, i as int));
    }
    assert(b@.subrange(0, b@.len() as int) =~= b@);
}

/// Appends the UTF-8 encoding of `s`.
fn push_text(v: &mut Vec<u8>, s: &str)
    ensures
        final(v)@ == old(v)@ + encode_utf8(s@),
{
    push_bytes(v, s.as_bytes());
}

/// The terminal bytes of the text cell whose character is at `index` and
/// whose attribute follows it.
pub open spec fn text_cell(bytes: Seq<u8>, index: int) -> Seq<u8> {
    let attr = bytes[index + 1];
    encode_utf8(color_text(cga_palette()[(attr & 0x0F) as int], cga_palette()[((attr >> 4u8) & 0x07) as int]))
        + seq![guest_char(bytes[index]) as u8]
}

/// The first `c` cells of text row `row`.
pub open spec fn text_row(bytes: Seq<u8>, cols: nat, row: nat, c: nat) -> Seq<u8>
    decreases c,
{
    if c == 0 {
        seq![]
    } else {
        text_row(bytes, cols, row, (c - 1) as nat) + text_cell(bytes, (row * cols + c - 1) * 2)
    }
}

/// The first `r` text rows, each ended by a reset and a line break.
pub open spec fn text_rows(bytes: Seq<u8>, cols: nat, r: nat) -> Seq<u8>
    decreases r,
{
    if r == 0 {
        seq![]
    } else {
        text_rows(bytes, cols, (r - 1) as nat) + text_row(bytes, cols, (r - 1) as nat, cols) + encode_utf8("\x1b[0m\r\n"@)
    }
}

/// The terminal bytes of a text page of `cols` by `rows` character and
/// attribute pairs, or nothing when `bytes` is too short: clear the screen,
/// draw each cell in its CGA colours, reset.
pub open spec fn text_screen(bytes: Seq<u8>, cols: nat, rows: nat) -> Option<Seq<u8>> {
    if bytes.len() < cols * rows * 2 {
        None
    } else {
        Some(encode_utf8("\x1b[2J\x1b[H"@) + text_rows(bytes, cols, rows) + encode_utf8("\x1b[0m"@))
    }
}

/// Draws the guest's text page of `cols` by `rows` cells for the terminal.
pub fn render_vga_text(cols: u16, rows: u16, bytes: &[u8]) -> (r: Option<Vec<u8>>)
    ensures
        match text_screen(bytes@, cols as nat, rows as nat) {
            None => r is None,
            Some(t) => r matches Some(v) && v@ == t,
        },
{
    assert(cols as u64 * rows as u64 <= 0xFFFF_FFFF) by (nonlinear_arith)
        requires
            cols <= 0xFFFF,
            rows <= 0xFFFF,
    ;
    let cells: u64 = cols as u64 * rows as u64;
    let n = bytes.len();
    if (bytes.len() as u64) < cells * 2 {
        return None;
    }
    let ghost bs = bytes@;
    let mut out: Vec<u8> = Vec::new();
    push_text(&mut out, "\x1b[2J\x1b[H");
    let ghost head = out@;
    let mut row: usize = 0;
    while row < rows as usize
        invariant
            row <= rows,
            bs == bytes@,
            n == bs.len(),
            cols as nat * rows as nat * 2 <= bs.len(),
            out@ == head + text_rows(bs, cols as nat, row as nat),
        decreases rows - row,
    {
        let ghost start = out@;
        let mut col: usize = 0;
        while col < cols as usize
            invariant
                col <= cols,
                row < rows,
                bs == bytes@,
                n == bs.len(),
                cols as nat * rows as nat * 2 <= bs.len(),
                out@ == start + text_row(bs, cols as nat, row as nat, col as nat),
            decreases cols - col,
        {
            assert((row * cols + col) * 2 + 2 <= cols * rows * 2 && row * cols <= row * cols + col) by (nonlinear_arith)
                requires
                    row < rows,
                    col < cols,
            ;
            let index = (row * cols as usize + col) * 2;
            let ch = printable_guest_char(bytes[index]);
            let attr = bytes[index + 1];
            assert(attr & 0x0F < 16 && (attr >> 4u8) & 0x07 < 16) by (bit_vector);
            let fg = cga_color(attr & 0x0F);
            let bg = cga_color((attr >> 4) & 0x07);
            let mut cell = String::new();
            push_colors(&mut cell, fg, bg);
            push_text(&mut out, cell.as_str());
            out.push(ch as u8);
            col = col + 1;
            assert(out@ =~= start + text_row(bs, cols as nat, row as nat, col as nat));
        }
        push_text(&mut out, "\x1b[0m\r\n");
        row = row + 1;
        assert(out@ =~= head + text_rows(bs, cols as nat, row as nat));
    }
    push_text(&mut out, "\x1b[0m");
    Some(out)
}

/// Whether pixel (`x`, `y`) of a framebuffer `width` pixels wide lies
/// inside `pixels` (three bytes per pixel, row after row).
pub open spec fn pixel_inside(pixels: Seq<u8>, width: nat, x: nat, y: nat) -> bool {
    (y * width + x) * 3 + 2 < pixels.len()
}

/// The sum of colour channel `ch` over the pixels of row `y` from `xa` up
/// to `xb` that lie inside `pixels`.
pub open spec fn row_sum(pixels: Seq<u8>, width: nat, y: nat, xa: nat, xb: nat, ch: int) -> nat
    decreases xb,
{
    if xb <= xa {
        0
    } else {
        row_sum(pixels, width, y, xa, (xb - 1) as nat, ch) + if pixel_inside(pixels, width, (xb - 1) as nat, y) {
            pixels[((y * width + xb - 1) * 3 + ch) as int] as nat
        } else {
            0nat
        }
    }
}

/// How many pixels of row `y` from `xa` up to `xb` lie inside `pixels`.
pub open spec fn row_count(pixels: Seq<u8>, width: nat, y: nat, xa: nat, xb: nat) -> nat
    decreases xb,
{
    if xb <= xa {
        0
    } else {
        row_count(pixels, width, y, xa, (xb - 1) as nat) + if pixel_inside(pixels, width, (xb - 1) as nat, y) {
            1nat
        } else {
            0nat
        }
    }
}

/// The sum of channel `ch` over the rows from `ya` up to `yb`.
pub open spec fn area_sum(pixels: Seq<u8>, width: nat, ya: nat, yb: nat, xa: nat, xb: nat, ch: int) -> nat
    decreases yb,
{
    if yb <= ya {
        0
    } else {
        area_sum(pixels, width, ya, (yb - 1) as nat, xa, xb, ch) + row_sum(pixels, width, (yb - 1) as nat, xa, xb, ch)
    }
}

/// How many pixels of the rows from `ya` up to `yb` lie inside `pixels`.
pub open spec fn area_count(pixels: Seq<u8>, width: nat, ya: nat, yb: nat, xa: nat, xb: nat) -> nat
    decreases yb,
{
    if yb <= ya {
        0
    } else {
        area_count(pixels, width, ya, (yb - 1) as nat, xa, xb) + row_count(pixels, width, (yb - 1) as nat, xa, xb)
    }
}

/// The smaller of `a` and `b`.
pub open spec fn min_nat(a: nat, b: nat) -> nat {
    if a <= b {
        a
    } else {
        b
    }
}

/// The larger of `a` and `b`.
pub open spec fn max_nat(a: nat, b: nat) -> nat {
    if a >= b {
        a
    } else {
        b
    }
}

/// The region averaged for the box from (`x0`, `y0`) to (`x1`, `y1`): at
/// least one pixel wide and high, clipped to the framebuffer.
pub open spec fn region(width: nat, height: nat, x0: nat, x1: nat, y0: nat, y1: nat) -> (nat, nat, nat, nat) {
    (
        min_nat(x0, width),
        min_nat(max_nat(x1, x0 + 1), width),
        min_nat(y0, height),
        min_nat(max_nat(y1, y0 + 1), height),
    )
}

/// The mean colour of the pixels of the region that lie inside `pixels`,
/// black when there are none.
pub open spec fn average(pixels: Seq<u8>, width: nat, height: nat, x0: nat, x1: nat, y0: nat, y1: nat) -> (u8, u8, u8) {
    let (xs, xe, ys, ye) = region(width, height, x0, x1, y0, y1);
    let count = area_count(pixels, width, ys, ye, xs, xe);
    if count == 0 {
        (0, 0, 0)
    } else {
        (
            (area_sum(pixels, width, ys, ye, xs, xe, 0) / count) as u8,
            (area_sum(pixels, width, ys, ye, xs, xe, 1) / count) as u8,
            (area_sum(pixels, width, ys, ye, xs, xe, 2) / count) as u8,
        )
    }
}

/// Every offset the averaging computes fits a `usize`.
pub open spec fn offsets_fit(width: nat, height: nat, x0: nat, x1: nat, y0: nat, y1: nat) -> bool {
    let (xs, xe, ys, ye) = region(width, height, x0, x1, y0, y1);
    xs < xe && ys < ye ==> ((ye - 1) * width + xe - 1) * 3 + 2 <= usize::MAX
}

/// The mean colour of a box of an RGB framebuffer `width` by `height`.
pub fn average_rgb(pixels: &[u8], width: usize, height: usize, x0: usize, x1: usize, y0: usize, y1: usize) -> (c: (
    u8,
    u8,
    u8,
))
    requires
        x0 < usize::MAX,
        y0 < usize::MAX,
        offsets_fit(width as nat, height as nat, x0 as nat, x1 as nat, y0 as nat, y1 as nat),
    ensures
        c == average(pixels@, width as nat, height as nat, x0 as nat, x1 as nat, y0 as nat, y1 as nat),
{
    let x_end = if x1 >= x0 + 1 { x1 } else { x0 + 1 };
    let x_end = if x_end <= width { x_end } else { width };
    let y_end = if y1 >= y0 + 1 { y1 } else { y0 + 1 };
    let y_end = if y_end <= height { y_end } else { height };
    let xs = if x0 <= width { x0 } else { width };
    let ys = if y0 <= height { y0 } else { height };
    let ghost px = pixels@;
    let ghost w = width as nat;
    let mut s0: u128 = 0;
    let mut s1: u128 = 0;
    let mut s2: u128 = 0;
    let mut count: u64 = 0;
    let mut y: usize = ys;
    while y < y_end
        invariant
            ys <= y <= y_end || (y == ys && ys >= y_end),
            y_end <= height,
            x_end <= width,
            xs <= x_end || xs >= x_end,
            px == pixels@,
            w == width,
            offsets_fit(width as nat, height as nat, x0 as nat, x1 as nat, y0 as nat, y1 as nat),
            region(width as nat, height as nat, x0 as nat, x1 as nat, y0 as nat, y1 as nat) == (
                xs as nat,
                x_end as nat,
                ys as nat,
                y_end as nat,
            ),
            count <= y * w + xs,
            s0 <= 255 * count,
            s1 <= 255 * count,
            s2 <= 255 * count,
            s0 == area_sum(px, w, ys as nat, y as nat, xs as nat, x_end as nat, 0),
            s1 == area_sum(px, w, ys as nat, y as nat, xs as nat, x_end as nat, 1),
            s2 == area_sum(px, w, ys as nat, y as nat, xs as nat, x_end as nat, 2),
            count == area_count(px, w, ys as nat, y as nat, xs as nat, x_end as nat),
        decreases y_end - y,
    {
        let mut x: usize = xs;
        let ghost c0 = count;
        let ghost a0 = s0;
        let ghost a1 = s1;
        let ghost a2 = s2;
        while x < x_end
            invariant
                xs <= x <= x_end,
                ys <= y < y_end,
                y_end <= height,
                x_end <= width,
                px == pixels@,
                w == width,
                offsets_fit(width as nat, height as nat, x0 as nat, x1 as nat, y0 as nat, y1 as nat),
                region(width as nat, height as nat, x0 as nat, x1 as nat, y0 as nat, y1 as nat) == (
                    xs as nat,
                    x_end as nat,
                    ys as nat,
                    y_end as nat,
                ),
                count <= y * w + x,
                s0 <= 255 * count,
                s1 <= 255 * count,
                s2 <= 255 * count,
                s0 == a0 + row_sum(px, w, y as nat, xs as nat, x as nat, 0),
                s1 == a1 + row_sum(px, w, y as nat, xs as nat, x as nat, 1),
                s2 == a2 + row_sum(px, w, y as nat, xs as nat, x as nat, 2),
                count == c0 + row_count(px, w, y as nat, xs as nat, x as nat),
            decreases x_end - x,
        {
            assert((y * width + x) * 3 + 2 <= ((y_end - 1) * width + x_end - 1) * 3 + 2) by (nonlinear_arith)
                requires
                    y <= y_end - 1,
                    x <= x_end - 1,
            ;
            let offset = (y * width + x) * 3;
            if offset + 2 < pixels.len() {
                s0 = s0 + pixels[offset] as u128;
                s1 = s1 + pixels[offset + 1] as u128;
                s2 = s2 + pixels[offset + 2] as u128;
                count = count + 1;
            }
            x = x + 1;
        }
        assert(count + 0 <= (y + 1) * w + xs) by (nonlinear_arith)
            requires
                count <= y * w + x_end,
                x_end <= w,
        ;
        y = y + 1;
    }
    if count == 0 {
        return (0, 0, 0);
    }
    ((s0 / count as u128) as u8, (s1 / count as u128) as u8, (s2 / count as u128) as u8)
}

/// The terminal bytes of graphics cell (`row`, `col`): a half block whose
/// upper half has the mean colour of the upper source box and whose lower
/// half that of the lower one. The boxes are 80 by 80 and tile the whole
/// framebuffer: text row `row` shows box rows `2 * row` and `2 * row + 1`.
pub open spec fn graphics_cell(pixels: Seq<u8>, width: nat, height: nat, row: nat, col: nat) -> Seq<u8> {
    let x0 = col * width / 80;
    let x1 = (col + 1) * width / 80;
    let top = average(pixels, width, height, x0, x1, 2 * row * height / 80, (2 * row + 1) * height / 80);
    let bottom = average(pixels, width, height, x0, x1, (2 * row + 1) * height / 80, (2 * row + 2) * height / 80);
    encode_utf8(color_text(top, bottom) + "\u{2580}"@)
}

/// The first `c` cells of graphics row `row`.
pub open spec fn graphics_row(pixels: Seq<u8>, width: nat, height: nat, row: nat, c: nat) -> Seq<u8>
    decreases c,
{
    if c == 0 {
        seq![]
    } else {
        graphics_row(pixels, width, height, row, (c - 1) as nat) + graphics_cell(pixels, width, height, row, (c - 1) as nat)
    }
}

/// The first `r` graphics rows, each ended by a reset and a line break.
pub open spec fn graphics_rows(pixels: Seq<u8>, width: nat, height: nat, r: nat) -> Seq<u8>
    decreases r,
{
    if r == 0 {
        seq![]
    } else {
        graphics_rows(pixels, width, height, (r - 1) as nat) + graphics_row(pixels, width, height, (r - 1) as nat, 80)
            + encode_utf8("\x1b[0m\r\n"@)
    }
}

/// The terminal bytes of an RGB framebuffer of `width` by `height` pixels
/// drawn as 80 by 40 half-block cells, or nothing when the framebuffer is
/// empty or `pixels` is not exactly its size.
pub open spec fn graphics_screen(pixels: Seq<u8>, width: nat, height: nat) -> Option<Seq<u8>> {
    if width == 0 || height == 0 || pixels.len() != width * height * 3 {
        None
    } else {
        Some(encode_utf8("\x1b[2J\x1b[H"@) + graphics_rows(pixels, width, height, 40) + encode_utf8("\x1b[0m"@))
    }
}

proof fn lemma_offsets_fit(w: nat, h: nat, x0: nat, x1: nat, y0: nat, y1: nat)
    requires
        w * h * 3 <= usize::MAX,
    ensures
        offsets_fit(w, h, x0, x1, y0, y1),
{
    let (xs, xe, ys, ye) = region(w, h, x0, x1, y0, y1);
    if xs < xe && ys < ye {
        assert(((ye - 1) * w + xe - 1) * 3 + 2 < w * h * 3) by (nonlinear_arith)
            requires
                xe <= w,
                ye <= h,
                0 < xe,
                0 < ye,
        ;
    }
}

/// Draws the guest's RGB framebuffer of `width` by `height` pixels for the
/// terminal.
pub fn render_vga_graphics(width: u32, height: u32, pixels: &[u8]) -> (r: Option<Vec<u8>>)
    ensures
        match graphics_screen(pixels@, width as nat, height as nat) {
            None => r is None,
            Some(t) => r matches Some(v) && v@ == t,
        },
{
    assert(width as u128 * height as u128 * 3 <= 3 * 0xFFFF_FFFF * 0xFFFF_FFFF) by (nonlinear_arith)
        requires
            width <= 0xFFFF_FFFF,
            height <= 0xFFFF_FFFF,
    ;
    let size: u128 = width as u128 * height as u128 * 3;
    if width == 0 || height == 0 || pixels.len() as u128 != size {
        return None;
    }
    let plen = pixels.len();
    let ghost px = pixels@;
    let ghost w = width as nat;
    let ghost h = height as nat;
    let mut out: Vec<u8> = Vec::new();
    push_text(&mut out, "\x1b[2J\x1b[H");
    let ghost head = out@;
    let mut row: u64 = 0;
    while row < 40
        invariant
            row <= 40,
            px == pixels@,
            w == width,
            h == height,
            w > 0,
            h > 0,
            px.len() == w * h * 3,
            plen == px.len(),
            out@ == head + graphics_rows(px, w, h, row as nat),
        decreases 40 - row,
    {
        let ghost start = out@;
        assert(2 * row * height <= (2 * row + 1) * height <= (2 * row + 2) * height <= 80 * 0xFFFF_FFFF && (2 * row
            + 2) * height / 80 <= height && 2 * row * height / 80 <= height && (2 * row + 1) * height / 80 <= height)
            by (nonlinear_arith)
            requires
                row < 40,
                height <= 0xFFFF_FFFF,
        ;
        let top_y0 = (2 * row * height as u64 / 80) as usize;
        let top_y1 = ((2 * row + 1) * height as u64 / 80) as usize;
        let bottom_y1 = ((2 * row + 2) * height as u64 / 80) as usize;
        let mut col: u64 = 0;
        while col < 80
            invariant
                col <= 80,
                row < 40,
                px == pixels@,
                w == width,
                h == height,
                w > 0,
                h > 0,
                px.len() == w * h * 3,
                plen == px.len(),
                top_y0 == 2 * row * h / 80,
                top_y1 == (2 * row + 1) * h / 80,
                bottom_y1 == (2 * row + 2) * h / 80,
                top_y0 <= h,
                top_y1 <= h,
                bottom_y1 <= h,
                out@ == start + graphics_row(px, w, h, row as nat, col as nat),
            decreases 80 - col,
        {
            assert(col * width <= (col + 1) * width <= 80 * 0xFFFF_FFFF && col * width / 80 <= width && (col + 1)
                * width / 80 <= width) by (nonlinear_arith)
                requires
                    col < 80,
                    width <= 0xFFFF_FFFF,
            ;
            let x0 = (col * width as u64 / 80) as usize;
            let x1 = ((col + 1) * width as u64 / 80) as usize;
            proof {
                assert(w < w * h * 3 && h < w * h * 3) by (nonlinear_arith)
                    requires
                        w > 0,
                        h > 0,
                ;
                lemma_offsets_fit(w, h, x0 as nat, x1 as nat, top_y0 as nat, top_y1 as nat);
                lemma_offsets_fit(w, h, x0 as nat, x1 as nat, top_y1 as nat, bottom_y1 as nat);
            }
            let top = average_rgb(pixels, width as usize, height as usize, x0, x1, top_y0, top_y1);
            let bottom = average_rgb(pixels, width as usize, height as usize, x0, x1, top_y1, bottom_y1);
            let mut cell = String::new();
            push_colors(&mut cell, top, bottom);
            cell.append("\u{2580}");
            push_text(&mut out, cell.as_str());
            col = col + 1;
            assert(out@ =~= start + graphics_row(px, w, h, row as nat, col as nat));
        }
        push_text(&mut out, "\x1b[0m\r\n");
        row = row + 1;
        assert(out@ =~= head + graphics_rows(px, w, h, row as nat));
    }
    push_text(&mut out, "\x1b[0m");
    Some(out)
}

/// The name an image kind is shown with.
pub open spec fn kind_name(kind: ImageKind) -> Seq<char> {
    match kind {
        ImageKind::RawDisk => "RawDisk"@,
        ImageKind::Iso9660 => "Iso9660"@,
        ImageKind::Bios => "Bios"@,
        ImageKind::VgaBios => "VgaBios"@,
        ImageKind::Kernel => "Kernel"@,
        ImageKind::Initrd => "Initrd"@,
        ImageKind::Bootloader => "Bootloader"@,
        ImageKind::SavedState => "SavedState"@,
        ImageKind::Other => "Other"@,
    }
}

/// The name image kind `kind` is shown with.
fn kind_str(kind: ImageKind) -> (s: &'static str)
    ensures
        s@ == kind_name(kind),
{
    match kind {
        ImageKind::RawDisk => "RawDisk",
        ImageKind::Iso9660 => "Iso9660",
        ImageKind::Bios => "Bios",
        ImageKind::VgaBios => "VgaBios",
        ImageKind::Kernel => "Kernel",
        ImageKind::Initrd => "Initrd",
        ImageKind::Bootloader => "Bootloader",
        ImageKind::SavedState => "SavedState",
        ImageKind::Other => "Other",
    }
}

/// The console's line about an attached image: its name, size, kind and
/// digest, or that none is loaded.
pub fn image_line(label: &str, image: Option<&Image>) -> (s: String)
    ensures
        s@ == match image {
            Some(i) => label@ + ": "@ + i@.name + " ("@ + decimal(i@.bytes.len()) + " bytes, "@ + kind_name(i@.kind)
                + ", sha256="@ + hex_lower(sha256_of(i@.bytes)) + ")"@,
            None => label@ + ": <not loaded>"@,
        },
{
    let mut s = String::from_str(label);
    match image {
        Some(i) => {
            s.append(": ");
            s.append(i.name());
            s.append(" (");
            push_decimal(&mut s, i.len() as u64);
            s.append(" bytes, ");
            s.append(kind_str(i.kind()));
            s.append(", sha256=");
            let digest = i.sha256();
            s.append(digest.as_str());
            s.append(")");
        },
        None => {
            s.append(": <not loaded>");
        },
    }
    s
}

/// The PPM header of a `width` by `height` RGB image.
pub open spec fn ppm_header(width: u32, height: u32) -> Seq<char> {
    "P6\n"@ + decimal(width as nat) + " "@ + decimal(height as nat) + "\n255\n"@
}

/// The message when the guest shows no graphics framebuffer.
pub open spec fn no_framebuffer_message() -> Seq<char> {
    "guest is not currently exposing a 32-bit graphical VGA framebuffer"@
}

/// The screen dump of the guest's framebuffer (width, height, RGB pixels)
/// as a binary PPM image: refused when there is no framebuffer or the
/// pixels are not exactly its size.
pub fn screen_ppm(framebuffer: Option<(u32, u32, &[u8])>) -> (r: Result<Vec<u8>, X86Error>)
    ensures
        match framebuffer {
            None => r matches Err(X86Error::BackendUnavailable(m)) && m@ == no_framebuffer_message(),
            Some((w, h, px)) => if px@.len() != w * h * 3 {
                r matches Err(X86Error::InvalidImage(m)) && m@ == "invalid framebuffer length"@
            } else {
                r matches Ok(v) && v@ == encode_utf8(ppm_header(w, h)) + px@
            },
        },
{
    let (width, height, pixels) = match framebuffer {
        None => {
            return Err(
                X86Error::BackendUnavailable(
                    String::from_str("guest is not currently exposing a 32-bit graphical VGA framebuffer"),
                ),
            );
        },
        Some(f) => f,
    };
    assert(width as u128 * height as u128 * 3 <= 3 * 0xFFFF_FFFF * 0xFFFF_FFFF) by (nonlinear_arith)
        requires
            width <= 0xFFFF_FFFF,
            height <= 0xFFFF_FFFF,
    ;
    if pixels.len() as u128 != width as u128 * height as u128 * 3 {
        return Err(X86Error::InvalidImage(String::from_str("invalid framebuffer length")));
    }
    let mut header = String::from_str("P6\n");
    push_decimal(&mut header, width as u64);
    header.append(" ");
    push_decimal(&mut header, height as u64);
    header.append("\n255\n");
    let mut out: Vec<u8> = Vec::new();
    push_text(&mut out, header.as_str());
    push_bytes(&mut out, pixels);
    Ok(out)
}

/// The escape sequence that sets the terminal's foreground colour to `c`
/// (SGR 38, 24-bit colour).
pub open spec fn foreground(c: (u8, u8, u8)) -> Seq<char> {
    "\x1b[38;2;"@ + decimal(c.0 as nat) + ";"@ + decimal(c.1 as nat) + ";"@ + decimal(c.2 as nat) + "m"@
}

/// The escape sequence that sets the terminal's background colour to `c`
/// (SGR 48, 24-bit colour).
pub open spec fn background(c: (u8, u8, u8)) -> Seq<char> {
    "\x1b[48;2;"@ + decimal(c.0 as nat) + ";"@ + decimal(c.1 as nat) + ";"@ + decimal(c.2 as nat) + "m"@
}

/// A graphics cell draws the upper half block U+2580 with the mean colour
/// of its upper source box as the foreground (the block's upper half) and
/// that of its lower source box as the background (the lower half): for
/// text row `row`, source rows `2 * row * height / 80` up to
/// `(2 * row + 1) * height / 80` above, and from there up to
/// `(2 * row + 2) * height / 80` below, over the columns
/// `col * width / 80` up to `(col + 1) * width / 80`.
pub proof fn law_graphics_cell_halves(pixels: Seq<u8>, width: nat, height: nat, row: nat, col: nat)
    ensures
        ({
            let x0 = col * width / 80;
            let x1 = (col + 1) * width / 80;
            let upper = average(pixels, width, height, x0, x1, 2 * row * height / 80, (2 * row + 1) * height / 80);
            let lower = average(pixels, width, height, x0, x1, (2 * row + 1) * height / 80, (2 * row + 2) * height / 80);
            graphics_cell(pixels, width, height, row, col) == encode_utf8(foreground(upper) + background(lower) + seq!['\u{2580}'])
        }),
{
    reveal_strlit("\x1b[38;2;");
    reveal_strlit("\x1b[48;2;");
    reveal_strlit("m\x1b[48;2;");
    reveal_strlit("m");
    reveal_strlit("\u{2580}");
    let x0 = col * width / 80;
    let x1 = (col + 1) * width / 80;
    let upper = average(pixels, width, height, x0, x1, 2 * row * height / 80, (2 * row + 1) * height / 80);
    let lower = average(pixels, width, height, x0, x1, (2 * row + 1) * height / 80, (2 * row + 2) * height / 80);
    assert(color_text(upper, lower) + "\u{2580}"@ =~= foreground(upper) + background(lower) + seq!['\u{2580}']);
}

} // verus!
