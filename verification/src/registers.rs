//! The scalar CPU state arena and the register restore steps.
//!
//! The arena holds the CPU core's scalar state at fixed offsets. A restore
//! copies saved registers into it as a list of steps, each reading one slot
//! of the decoded state; the steps run in order and stop at the first that
//! fails.
use vstd::prelude::*;
use crate::le::{get16, get32};
use crate::memory::put_at;
use crate::state::{StateValue, as_i64_of, scalar_result, sized_buffer, sized_buffer_result, slot};

verus! {

/// Size of the scalar CPU state arena.
pub const STATE_ARENA_BYTES: usize = 4096;
/// Arena offset of the instruction pointer.
pub const OFFSET_INSTRUCTION_POINTER: usize = 556;
/// Arena offset of the halted flag.
pub const OFFSET_IN_HLT: usize = 616;
/// Arena offset of the guest memory size.
pub const OFFSET_MEMORY_SIZE: usize = 812;
/// Arena offset of the APIC-enabled flag.
pub const OFFSET_APIC_ENABLED: usize = 548;
/// Arena offset of the ACPI-enabled flag.
pub const OFFSET_ACPI_ENABLED: usize = 552;

/// One register restore: where in the state the value is and where in the
/// arena it goes.
#[derive(Clone, Copy)]
pub enum RestoreStep {
    /// The integer scalar of `slot`, its low `width` bytes.
    Scalar { slot: usize, offset: usize, width: usize },
    /// Whether the integer scalar of `slot` is non-zero, as one byte.
    Flag { slot: usize, offset: usize },
    /// The typed buffer of `slot`, which must hold exactly `len` bytes.
    Copy { slot: usize, offset: usize, len: usize },
    /// The 16-byte typed buffer of `slot`: its first half to `first`, its
    /// second half to `second`.
    Split { slot: usize, first: usize, second: usize },
    /// The integer of `slot` if there is one, else `default`; low `width`
    /// bytes.
    Optional { slot: usize, offset: usize, width: usize, default: i64 },
}

/// The low `width` bytes of `x`, least significant first.
pub open spec fn low_bytes(x: int, width: nat) -> Seq<u8> {
    Seq::new(width, |k: int| ((x as u64 as int / pow256(k)) % 256) as u8)
}

/// 256 to the power `k`, for `k` up to 3.
pub open spec fn pow256(k: int) -> int {
    if k <= 0 {
        1
    } else if k == 1 {
        256
    } else if k == 2 {
        65536
    } else {
        16777216
    }
}

/// The bytes a step writes, and where, or the message of its failure.
pub open spec fn step_result(arena: Seq<u8>, slots: Seq<StateValue>, buffers: Seq<Vec<u8>>, s: RestoreStep) -> Result<Seq<u8>, Seq<char>> {
    match s {
        RestoreStep::Scalar { slot, offset, width } => match scalar_result(slots, slot as nat) {
            Ok(x) => Ok(put_at(arena, offset as int, low_bytes(x as int, width as nat))),
            Err(e) => Err(e),
        },
        RestoreStep::Flag { slot, offset } => match scalar_result(slots, slot as nat) {
            Ok(x) => Ok(put_at(arena, offset as int, seq![if x != 0 { 1u8 } else { 0u8 }])),
            Err(e) => Err(e),
        },
        RestoreStep::Copy { slot, offset, len } => match sized_buffer_result(slots, buffers, slot as nat, len as nat) {
            Ok(b) => Ok(put_at(arena, offset as int, b)),
            Err(e) => Err(e),
        },
        RestoreStep::Split { slot, first, second } => match sized_buffer_result(slots, buffers, slot as nat, 16) {
            Ok(b) => Ok(put_at(put_at(arena, first as int, b.subrange(0, 8)), second as int, b.subrange(8, 16))),
            Err(e) => Err(e),
        },
        RestoreStep::Optional { slot: i, offset, width, default } => {
            let x = match slot(slots, i as int) {
                Some(v) => match as_i64_of(v) {
                    Some(n) => n,
                    None => default,
                },
                None => default,
            };
            Ok(put_at(arena, offset as int, low_bytes(x as int, width as nat)))
        },
    }
}

/// The arena after running `steps` in order, and the message of the first
/// that failed (the steps before it stay applied).
pub open spec fn run_steps(arena: Seq<u8>, slots: Seq<StateValue>, buffers: Seq<Vec<u8>>, steps: Seq<RestoreStep>) -> (Seq<u8>, Option<Seq<char>>)
    decreases steps.len(),
{
    if steps.len() == 0 {
        (arena, None)
    } else {
        match step_result(arena, slots, buffers, steps[0]) {
            Ok(a) => run_steps(a, slots, buffers, steps.drop_first()),
            Err(e) => (arena, Some(e)),
        }
    }
}

/// A step writes inside the arena.
pub open spec fn step_fits(s: RestoreStep) -> bool {
    match s {
        RestoreStep::Scalar { slot, offset, width } => 1 <= width <= 4 && offset + width <= STATE_ARENA_BYTES,
        RestoreStep::Flag { slot, offset } => offset + 1 <= STATE_ARENA_BYTES,
        RestoreStep::Copy { slot, offset, len } => offset + len <= STATE_ARENA_BYTES,
        RestoreStep::Split { slot, first, second } => first + 8 <= STATE_ARENA_BYTES && second + 8 <= STATE_ARENA_BYTES,
        RestoreStep::Optional { slot, offset, width, default } => 1 <= width <= 4 && offset + width
            <= STATE_ARENA_BYTES,
    }
}

/// The register steps of a restore, in the order they are restored:
/// segment state, descriptor tables, control registers, mode flags,
/// instruction pointers, general, segment, debug and PDPTE registers.
pub open spec fn register_steps() -> Seq<RestoreStep> {
    seq![
        RestoreStep::Split { slot: 1, first: 724, second: 512 },
        RestoreStep::Copy { slot: 2, offset: 736, len: 32 },
        RestoreStep::Copy { slot: 3, offset: 768, len: 32 },
        RestoreStep::Scalar { slot: 0, offset: 812, width: 4 },
        RestoreStep::Flag { slot: 4, offset: 800 },
        RestoreStep::Scalar { slot: 5, offset: 568, width: 4 },
        RestoreStep::Scalar { slot: 6, offset: 564, width: 4 },
        RestoreStep::Scalar { slot: 7, offset: 576, width: 4 },
        RestoreStep::Scalar { slot: 8, offset: 572, width: 4 },
        RestoreStep::Copy { slot: 10, offset: 580, len: 32 },
        RestoreStep::Scalar { slot: 11, offset: 612, width: 1 },
        RestoreStep::Flag { slot: 13, offset: 804 },
        RestoreStep::Flag { slot: 16, offset: 808 },
        RestoreStep::Flag { slot: 17, offset: 616 },
        RestoreStep::Scalar { slot: 18, offset: 620, width: 4 },
        RestoreStep::Scalar { slot: 19, offset: 624, width: 4 },
        RestoreStep::Scalar { slot: 22, offset: 636, width: 4 },
        RestoreStep::Scalar { slot: 23, offset: 644, width: 4 },
        RestoreStep::Scalar { slot: 24, offset: 640, width: 4 },
        RestoreStep::Scalar { slot: 25, offset: 648, width: 1 },
        RestoreStep::Scalar { slot: 26, offset: 120, width: 4 },
        RestoreStep::Scalar { slot: 27, offset: 100, width: 4 },
        RestoreStep::Scalar { slot: 28, offset: 104, width: 4 },
        RestoreStep::Scalar { slot: 30, offset: 96, width: 4 },
        RestoreStep::Scalar { slot: 37, offset: 556, width: 4 },
        RestoreStep::Scalar { slot: 38, offset: 560, width: 4 },
        RestoreStep::Copy { slot: 39, offset: 64, len: 32 },
        RestoreStep::Copy { slot: 40, offset: 668, len: 16 },
        RestoreStep::Copy { slot: 41, offset: 684, len: 32 },
        RestoreStep::Copy { slot: 42, offset: 968, len: 32 },
    ]
}

/// The FPU/SSE steps of a restore: TSS size, XMM and x87 registers, x87
/// control state, last result, status word and MXCSR (default 0x1F80).
pub open spec fn fpu_steps() -> Seq<RestoreStep> {
    seq![
        RestoreStep::Flag { slot: 64, offset: 1128 },
        RestoreStep::Copy { slot: 66, offset: 832, len: 128 },
        RestoreStep::Copy { slot: 67, offset: 1152, len: 128 },
        RestoreStep::Scalar { slot: 68, offset: 816, width: 1 },
        RestoreStep::Scalar { slot: 69, offset: 1032, width: 1 },
        RestoreStep::Scalar { slot: 70, offset: 1036, width: 2 },
        RestoreStep::Scalar { slot: 71, offset: 1048, width: 4 },
        RestoreStep::Scalar { slot: 72, offset: 1052, width: 4 },
        RestoreStep::Scalar { slot: 73, offset: 1056, width: 4 },
        RestoreStep::Scalar { slot: 74, offset: 1060, width: 4 },
        RestoreStep::Scalar { slot: 75, offset: 1044, width: 4 },
        RestoreStep::Optional { slot: 86, offset: 112, width: 4, default: 0 },
        RestoreStep::Optional { slot: 87, offset: 1040, width: 2, default: 0 },
        RestoreStep::Optional { slot: 88, offset: 824, width: 4, default: 0x1F80 },
    ]
}

/// Writes the low `width` bytes of `x` at `offset`.
pub(crate) fn put_low_bytes(arena: &mut Vec<u8>, offset: usize, width: usize, x: i64)
    requires
        1 <= width <= 4,
        offset + width <= old(arena)@.len(),
    ensures
        final(arena)@ == put_at(old(arena)@, offset as int, low_bytes(x as int, width as nat)),
{
    let n = arena.len();
    let u = x as u64;
    let b0 = (u & 0xff) as u8;
    let b1 = ((u >> 8u64) & 0xff) as u8;
    let b2 = ((u >> 16u64) & 0xff) as u8;
    let b3 = ((u >> 24u64) & 0xff) as u8;
    assert(b0 == (u % 256) as u8 && b1 == ((u / 256) % 256) as u8 && b2 == ((u / 65536) % 256) as u8
        && b3 == ((u / 16777216) % 256) as u8) by (bit_vector)
        requires
            b0 == (u & 0xff) as u8,
            b1 == ((u >> 8u64) & 0xff) as u8,
            b2 == ((u >> 16u64) & 0xff) as u8,
            b3 == ((u >> 24u64) & 0xff) as u8,
    ;
    let ghost lb = low_bytes(x as int, width as nat);
    assert(lb[0] == b0);
    arena.set(offset, b0);
    if width > 1 {
        assert(lb[1] == b1);
        arena.set(offset + 1, b1);
    }
    if width > 2 {
        assert(lb[2] == b2);
        arena.set(offset + 2, b2);
    }
    if width > 3 {
        assert(lb[3] == b3);
        arena.set(offset + 3, b3);
    }
    assert(arena@ =~= put_at(old(arena)@, offset as int, lb));
}

/// Writes `data` at `offset`.
fn put_bytes_at(arena: &mut Vec<u8>, offset: usize, data: &[u8])
    requires
        offset + data@.len() <= old(arena)@.len(),
    ensures
        final(arena)@ == put_at(old(arena)@, offset as int, data@),
{
    let n = data.len();
    let alen = arena.len();
    let mut i: usize = 0;
    while i < n
        invariant
            i <= n,
            n == data@.len(),
            alen == arena@.len(),
            offset + n <= arena@.len(),
            arena@ == put_at(old(arena)@, offset as int, data@.subrange(0, i as int)),
        decreases n - i,
    {
        arena.set(offset + i, data[i]);
        i = i + 1;
        assert(arena@ =~= put_at(old(arena)@, offset as int, data@.subrange(0, i as int)));
    }
    assert(data@.subrange(0, n as int) =~= data@);
}

/// Runs one restore step on the arena.
fn apply_step(arena: &mut Vec<u8>, slots: &[StateValue], buffers: &[Vec<u8>], s: RestoreStep) -> (r: Result<(), String>)
    requires
        step_fits(s),
        old(arena)@.len() == STATE_ARENA_BYTES,
    ensures
        final(arena)@.len() == STATE_ARENA_BYTES,
        match step_result(old(arena)@, slots@, buffers@, s) {
            Ok(a) => r is Ok && final(arena)@ == a,
            Err(e) => final(arena)@ == old(arena)@ && (r matches Err(m) && m@ == e),
        },
{
    match s {
        RestoreStep::Scalar { slot, offset, width } => {
            let x = crate::state::scalar(slots, slot)?;
            put_low_bytes(arena, offset, width, x);
            Ok(())
        },
        RestoreStep::Flag { slot, offset } => {
            let x = crate::state::scalar(slots, slot)?;
            arena.set(offset, if x != 0 { 1 } else { 0 });
            assert(arena@ =~= put_at(old(arena)@, offset as int, seq![if x != 0 { 1u8 } else { 0u8 }]));
            Ok(())
        },
        RestoreStep::Copy { slot, offset, len } => {
            let b = sized_buffer(slots, buffers, slot, len)?;
            put_bytes_at(arena, offset, b);
            Ok(())
        },
        RestoreStep::Split { slot, first, second } => {
            let b = sized_buffer(slots, buffers, slot, 16)?;
            put_bytes_at(arena, first, vstd::slice::slice_subrange(b, 0, 8));
            put_bytes_at(arena, second, vstd::slice::slice_subrange(b, 8, 16));
            Ok(())
        },
        RestoreStep::Optional { slot: i, offset, width, default } => {
            let x = if i < slots.len() {
                match slots[i].as_i64() {
                    Some(n) => n,
                    None => default,
                }
            } else {
                default
            };
            put_low_bytes(arena, offset, width, x);
            Ok(())
        },
    }
}

/// Runs restore steps in order, stopping at the first that fails.
pub(crate) fn apply_steps(arena: &mut Vec<u8>, slots: &[StateValue], buffers: &[Vec<u8>], steps: &[RestoreStep]) -> (r: Result<(), String>)
    requires
        forall|i: int| 0 <= i < steps@.len() ==> step_fits(#[trigger] steps@[i]),
        old(arena)@.len() == STATE_ARENA_BYTES,
    ensures
        final(arena)@.len() == STATE_ARENA_BYTES,
        final(arena)@ == run_steps(old(arena)@, slots@, buffers@, steps@).0,
        match run_steps(old(arena)@, slots@, buffers@, steps@).1 {
            None => r is Ok,
            Some(e) => r matches Err(m) && m@ == e,
        },
{
    let ghost a0 = arena@;
    let mut i: usize = 0;
    assert(steps@.skip(0) =~= steps@);
    while i < steps.len()
        invariant
            i <= steps@.len(),
            forall|j: int| 0 <= j < steps@.len() ==> step_fits(#[trigger] steps@[j]),
            arena@.len() == STATE_ARENA_BYTES,
            a0 == old(arena)@,
            run_steps(a0, slots@, buffers@, steps@) == run_steps(arena@, slots@, buffers@, steps@.skip(i as int)),
        decreases steps@.len() - i,
    {
        assert(steps@.skip(i as int)[0] == steps@[i as int]);
        assert(steps@.skip(i as int).drop_first() =~= steps@.skip(i + 1));
        let ghost before = arena@;
        assert(run_steps(before, slots@, buffers@, steps@.skip(i as int)) == match step_result(before, slots@, buffers@, steps@[i as int]) {
            Ok(a) => run_steps(a, slots@, buffers@, steps@.skip(i + 1)),
            Err(e) => (before, Some(e)),
        });
        let r = apply_step(arena, slots, buffers, steps[i]);
        match r {
            Ok(()) => {},
            Err(m) => {
                return Err(m);
            },
        }
        i = i + 1;
    }
    Ok(())
}

/// The register steps.
pub(crate) fn register_step_table() -> (v: Vec<RestoreStep>)
    ensures
        v@ == register_steps(),
{
    let v = vec![
        RestoreStep::Split { slot: 1, first: 724, second: 512 },
        RestoreStep::Copy { slot: 2, offset: 736, len: 32 },
        RestoreStep::Copy { slot: 3, offset: 768, len: 32 },
        RestoreStep::Scalar { slot: 0, offset: 812, width: 4 },
        RestoreStep::Flag { slot: 4, offset: 800 },
        RestoreStep::Scalar { slot: 5, offset: 568, width: 4 },
        RestoreStep::Scalar { slot: 6, offset: 564, width: 4 },
        RestoreStep::Scalar { slot: 7, offset: 576, width: 4 },
        RestoreStep::Scalar { slot: 8, offset: 572, width: 4 },
        RestoreStep::Copy { slot: 10, offset: 580, len: 32 },
        RestoreStep::Scalar { slot: 11, offset: 612, width: 1 },
        RestoreStep::Flag { slot: 13, offset: 804 },
        RestoreStep::Flag { slot: 16, offset: 808 },
        RestoreStep::Flag { slot: 17, offset: 616 },
        RestoreStep::Scalar { slot: 18, offset: 620, width: 4 },
        RestoreStep::Scalar { slot: 19, offset: 624, width: 4 },
        RestoreStep::Scalar { slot: 22, offset: 636, width: 4 },
        RestoreStep::Scalar { slot: 23, offset: 644, width: 4 },
        RestoreStep::Scalar { slot: 24, offset: 640, width: 4 },
        RestoreStep::Scalar { slot: 25, offset: 648, width: 1 },
        RestoreStep::Scalar { slot: 26, offset: 120, width: 4 },
        RestoreStep::Scalar { slot: 27, offset: 100, width: 4 },
        RestoreStep::Scalar { slot: 28, offset: 104, width: 4 },
        RestoreStep::Scalar { slot: 30, offset: 96, width: 4 },
        RestoreStep::Scalar { slot: 37, offset: 556, width: 4 },
        RestoreStep::Scalar { slot: 38, offset: 560, width: 4 },
        RestoreStep::Copy { slot: 39, offset: 64, len: 32 },
        RestoreStep::Copy { slot: 40, offset: 668, len: 16 },
        RestoreStep::Copy { slot: 41, offset: 684, len: 32 },
        RestoreStep::Copy { slot: 42, offset: 968, len: 32 },
    ];
    assert(v@ =~= register_steps());
    v
}

/// The FPU/SSE steps.
pub(crate) fn fpu_step_table() -> (v: Vec<RestoreStep>)
    ensures
        v@ == fpu_steps(),
{
    let v = vec![
        RestoreStep::Flag { slot: 64, offset: 1128 },
        RestoreStep::Copy { slot: 66, offset: 832, len: 128 },
        RestoreStep::Copy { slot: 67, offset: 1152, len: 128 },
        RestoreStep::Scalar { slot: 68, offset: 816, width: 1 },
        RestoreStep::Scalar { slot: 69, offset: 1032, width: 1 },
        RestoreStep::Scalar { slot: 70, offset: 1036, width: 2 },
        RestoreStep::Scalar { slot: 71, offset: 1048, width: 4 },
        RestoreStep::Scalar { slot: 72, offset: 1052, width: 4 },
        RestoreStep::Scalar { slot: 73, offset: 1056, width: 4 },
        RestoreStep::Scalar { slot: 74, offset: 1060, width: 4 },
        RestoreStep::Scalar { slot: 75, offset: 1044, width: 4 },
        RestoreStep::Optional { slot: 86, offset: 112, width: 4, default: 0 },
        RestoreStep::Optional { slot: 87, offset: 1040, width: 2, default: 0 },
        RestoreStep::Optional { slot: 88, offset: 824, width: 4, default: 0x1F80 },
    ];
    assert(v@ =~= fpu_steps());
    v
}

/// Whether step `s` writes arena byte `i`.
pub open spec fn step_touches(s: RestoreStep, i: int) -> bool {
    match s {
        RestoreStep::Scalar { slot, offset, width } => offset <= i < offset + width,
        RestoreStep::Flag { slot, offset } => i == offset,
        RestoreStep::Copy { slot, offset, len } => offset <= i < offset + len,
        RestoreStep::Split { slot, first, second } => first <= i < first + 8 || second <= i < second + 8,
        RestoreStep::Optional { slot, offset, width, default } => offset <= i < offset + width,
    }
}

proof fn lemma_run_frame(a: Seq<u8>, slots: Seq<StateValue>, buffers: Seq<Vec<u8>>, steps: Seq<RestoreStep>, i: int)
    requires
        0 <= i < a.len(),
        forall|k: int| 0 <= k < steps.len() ==> !step_touches(#[trigger] steps[k], i),
    ensures
        run_steps(a, slots, buffers, steps).0.len() == a.len(),
        run_steps(a, slots, buffers, steps).0[i] == a[i],
    decreases steps.len(),
{
    if steps.len() > 0 {
        assert(!step_touches(steps[0], i));
        match step_result(a, slots, buffers, steps[0]) {
            Ok(a1) => {
                assert(a1.len() == a.len() && a1[i] == a[i]);
                assert forall|k: int| 0 <= k < steps.drop_first().len() implies !step_touches(
                    #[trigger] steps.drop_first()[k],
                    i,
                ) by {
                    assert(steps.drop_first()[k] == steps[k + 1]);
                }
                lemma_run_frame(a1, slots, buffers, steps.drop_first(), i);
            },
            Err(_) => {},
        }
    }
}

proof fn lemma_run_split(a: Seq<u8>, slots: Seq<StateValue>, buffers: Seq<Vec<u8>>, s1: Seq<RestoreStep>, s2: Seq<RestoreStep>)
    ensures
        run_steps(a, slots, buffers, s1 + s2) == (if run_steps(a, slots, buffers, s1).1 is Some {
            run_steps(a, slots, buffers, s1)
        } else {
            run_steps(run_steps(a, slots, buffers, s1).0, slots, buffers, s2)
        }),
    decreases s1.len(),
{
    if s1.len() > 0 {
        assert((s1 + s2)[0] == s1[0]);
        assert((s1 + s2).drop_first() =~= s1.drop_first() + s2);
        match step_result(a, slots, buffers, s1[0]) {
            Ok(a1) => {
                lemma_run_split(a1, slots, buffers, s1.drop_first(), s2);
            },
            Err(_) => {},
        }
    } else {
        assert(s1 + s2 =~= s2);
    }
}

proof fn lemma_run_len(a: Seq<u8>, slots: Seq<StateValue>, buffers: Seq<Vec<u8>>, steps: Seq<RestoreStep>)
    ensures
        run_steps(a, slots, buffers, steps).0.len() == a.len(),
    decreases steps.len(),
{
    if steps.len() > 0 {
        match step_result(a, slots, buffers, steps[0]) {
            Ok(a1) => {
                lemma_run_len(a1, slots, buffers, steps.drop_first());
            },
            Err(_) => {},
        }
    }
}

proof fn lemma_le_sum(u: u64)
    ensures
        (u % 256) + 256 * ((u / 256) % 256) + 65536 * ((u / 65536) % 256) + 16777216 * ((u / 16777216) % 256) == (u
            % 0x1_0000_0000),
{
    assert((u % 256) + 256 * ((u / 256) % 256) + 65536 * ((u / 65536) % 256) + 16777216 * ((u / 16777216) % 256) == (u
        % 0x1_0000_0000)) by (bit_vector);
}

proof fn lemma_low_bytes_read_back(a: Seq<u8>, offset: int, x: i64)
    requires
        0 <= offset,
        offset + 4 <= a.len(),
    ensures
        get32(put_at(a, offset, low_bytes(x as int, 4)), offset) == x as u32,
{
    let u = x as u64;
    let lb = low_bytes(x as int, 4);
    let p = put_at(a, offset, lb);
    assert(lb[0] == (u % 256) as u8);
    assert(lb[1] == ((u / 256) % 256) as u8);
    assert(lb[2] == ((u / 65536) % 256) as u8);
    assert(lb[3] == ((u / 16777216) % 256) as u8);
    assert(p[offset] == lb[0]);
    assert(p[offset + 1] == lb[1]);
    assert(p[offset + 2] == lb[2]);
    assert(p[offset + 3] == lb[3]);
    lemma_le_sum(u);
    assert((u % 0x1_0000_0000) as u32 == x as u32) by (bit_vector)
        requires
            u == x as u64,
    ;
}

proof fn lemma_ip_untouched(
    b: Seq<u8>,
    slots: Seq<StateValue>,
    buffers: Seq<Vec<u8>>,
    steps: Seq<RestoreStep>,
    post: Seq<RestoreStep>,
    i: int,
)
    requires
        steps == register_steps(),
        post == steps.skip(25),
        b.len() == STATE_ARENA_BYTES,
        556 <= i < 560,
    ensures
        run_steps(b, slots, buffers, post).0[i] == b[i],
{
    assert forall|k: int| 0 <= k < post.len() implies !step_touches(#[trigger] post[k], i) by {
        assert(post[k] == steps[k + 25]);
    }
    lemma_run_frame(b, slots, buffers, post, i);
}

/// Registers restored without error read back as saved: the instruction
/// pointer is the low 32 bits of slot 37, and the CPU is halted exactly
/// when slot 17 is non-zero.
pub proof fn law_restored_registers_read_back(arena: Seq<u8>, slots: Seq<StateValue>, buffers: Seq<Vec<u8>>)
    requires
        arena.len() == STATE_ARENA_BYTES,
        run_steps(arena, slots, buffers, register_steps()).1 is None,
    ensures
        ({
            let restored = run_steps(arena, slots, buffers, register_steps()).0;
            &&& scalar_result(slots, 37) matches Ok(ip) && get32(restored, OFFSET_INSTRUCTION_POINTER as int) == ip as u32
            &&& scalar_result(slots, 17) matches Ok(h) && (restored[OFFSET_IN_HLT as int] != 0) == (h != 0)
        }),
{
    let steps = register_steps();
    // Slot 17 (halt flag) is step 13, slot 37 (instruction pointer) step 24.
    let pre13 = steps.take(13);
    let post13 = steps.skip(14);
    assert(steps =~= pre13 + (seq![steps[13]] + post13));
    lemma_run_split(arena, slots, buffers, pre13, seq![steps[13]] + post13);
    let a13 = run_steps(arena, slots, buffers, pre13).0;
    lemma_run_split(a13, slots, buffers, seq![steps[13]], post13);
    assert(seq![steps[13]].drop_first() =~= Seq::<RestoreStep>::empty());
    let b13 = run_steps(a13, slots, buffers, seq![steps[13]]).0;
    lemma_run_len(arena, slots, buffers, pre13);
    lemma_run_len(a13, slots, buffers, seq![steps[13]]);
    assert(steps[13] == RestoreStep::Flag { slot: 17, offset: 616 });
    assert(run_steps(arena, slots, buffers, pre13).1 is None);
    assert(run_steps(a13, slots, buffers, seq![steps[13]]).1 is None);
    assert(step_result(a13, slots, buffers, steps[13]) is Ok);
    let c13 = step_result(a13, slots, buffers, steps[13])->Ok_0;
    assert(run_steps(c13, slots, buffers, Seq::<RestoreStep>::empty()) == (c13, None::<Seq<char>>));
    assert(b13 == c13);
    assert(b13[616] == (if scalar_result(slots, 17)->Ok_0 != 0 { 1u8 } else { 0u8 }));
    assert forall|k: int| 0 <= k < post13.len() implies !step_touches(#[trigger] post13[k], OFFSET_IN_HLT as int) by {
        assert(post13[k] == steps[k + 14]);
    }
    lemma_run_frame(b13, slots, buffers, post13, OFFSET_IN_HLT as int);
    assert(run_steps(arena, slots, buffers, register_steps()).0 == run_steps(b13, slots, buffers, post13).0);
    let pre24 = steps.take(24);
    let post24 = steps.skip(25);
    assert(steps =~= pre24 + (seq![steps[24]] + post24));
    lemma_run_split(arena, slots, buffers, pre24, seq![steps[24]] + post24);
    let a24 = run_steps(arena, slots, buffers, pre24).0;
    lemma_run_split(a24, slots, buffers, seq![steps[24]], post24);
    assert(seq![steps[24]].drop_first() =~= Seq::<RestoreStep>::empty());
    let b24 = run_steps(a24, slots, buffers, seq![steps[24]]).0;
    lemma_run_len(arena, slots, buffers, pre24);
    lemma_run_len(a24, slots, buffers, seq![steps[24]]);
    assert(steps[24] == RestoreStep::Scalar { slot: 37, offset: 556, width: 4 });
    assert(step_result(a24, slots, buffers, steps[24]) is Ok);
    let c24 = step_result(a24, slots, buffers, steps[24])->Ok_0;
    assert(run_steps(c24, slots, buffers, Seq::<RestoreStep>::empty()) == (c24, None::<Seq<char>>));
    assert(b24 == c24);
    match scalar_result(slots, 37) {
        Ok(ip) => {
            lemma_low_bytes_read_back(a24, OFFSET_INSTRUCTION_POINTER as int, ip);
            lemma_ip_untouched(b24, slots, buffers, steps, post24, 556);
            lemma_ip_untouched(b24, slots, buffers, steps, post24, 557);
            lemma_ip_untouched(b24, slots, buffers, steps, post24, 558);
            lemma_ip_untouched(b24, slots, buffers, steps, post24, 559);
            let restored = run_steps(arena, slots, buffers, register_steps()).0;
            assert(restored == run_steps(b24, slots, buffers, post24).0);
            assert(restored[556] == b24[556]);
            assert(restored[557] == b24[557]);
            assert(restored[558] == b24[558]);
            assert(restored[559] == b24[559]);
            assert(get32(restored, 556) == get32(b24, 556));
        },
        Err(_) => {},
    }
}

/// The arena bytes a step writes, as up to two ranges `[lo, hi)`:
/// `(lo1, hi1, lo2, hi2)`, the second empty for all but split steps.
pub open spec fn step_spans(s: RestoreStep) -> (int, int, int, int) {
    match s {
        RestoreStep::Scalar { slot, offset, width } => (offset as int, offset + width, 0, 0),
        RestoreStep::Flag { slot, offset } => (offset as int, offset + 1, 0, 0),
        RestoreStep::Copy { slot, offset, len } => (offset as int, offset + len, 0, 0),
        RestoreStep::Split { slot, first, second } => (first as int, first + 8, second as int, second + 8),
        RestoreStep::Optional { slot, offset, width, default } => (offset as int, offset + width, 0, 0),
    }
}

/// Whether the ranges `[a0, a1)` and `[b0, b1)` may share a byte.
pub open spec fn spans_meet(a0: int, a1: int, b0: int, b1: int) -> bool {
    a0 < b1 && b0 < a1
}

/// Whether two steps write no byte in common.
pub open spec fn steps_apart(a: RestoreStep, b: RestoreStep) -> bool {
    let x = step_spans(a);
    let y = step_spans(b);
    &&& !spans_meet(x.0, x.1, y.0, y.1)
    &&& !spans_meet(x.0, x.1, y.2, y.3)
    &&& !spans_meet(x.2, x.3, y.0, y.1)
    &&& !spans_meet(x.2, x.3, y.2, y.3)
}

/// Whether `s` writes inside the arena, a split step's halves apart.
pub open spec fn step_laid_out(s: RestoreStep) -> bool {
    let x = step_spans(s);
    &&& step_fits(s)
    &&& 0 <= x.0
    &&& 0 <= x.2
    &&& !spans_meet(x.0, x.1, x.2, x.3)
}

/// Whether step `k` writes inside the arena and no later step writes any
/// byte it wrote.
pub open spec fn kept_after(steps: Seq<RestoreStep>, k: int) -> bool {
    &&& step_laid_out(steps[k])
    &&& forall|j: int| k < j < steps.len() ==> steps_apart(steps[k], #[trigger] steps[j])
}

proof fn lemma_touches_span(s: RestoreStep, i: int)
    ensures
        step_touches(s, i) == ({
            let x = step_spans(s);
            (x.0 <= i < x.1) || (x.2 <= i < x.3)
        }),
{
}

/// A restore that ran without error left, at every byte that step `k`
/// writes, what step `k` wrote there (no later step writes it again).
proof fn lemma_step_effect(a: Seq<u8>, slots: Seq<StateValue>, buffers: Seq<Vec<u8>>, steps: Seq<RestoreStep>, k: int)
    requires
        0 <= k < steps.len(),
        run_steps(a, slots, buffers, steps).1 is None,
        kept_after(steps, k),
    ensures
        ({
            let pre = run_steps(a, slots, buffers, steps.take(k)).0;
            &&& pre.len() == a.len()
            &&& step_result(pre, slots, buffers, steps[k]) is Ok
            &&& forall|i: int|
                0 <= i < a.len() && step_touches(steps[k], i) ==> #[trigger] run_steps(a, slots, buffers, steps).0[i]
                    == step_result(pre, slots, buffers, steps[k])->Ok_0[i]
        }),
{
    let head = steps.take(k);
    let post = steps.skip(k + 1);
    let one = seq![steps[k]];
    assert(steps =~= head + (one + post));
    lemma_run_split(a, slots, buffers, head, one + post);
    lemma_run_len(a, slots, buffers, head);
    let pre = run_steps(a, slots, buffers, head).0;
    assert(run_steps(a, slots, buffers, head).1 is None);
    lemma_run_split(pre, slots, buffers, one, post);
    assert(one[0] == steps[k]);
    assert(one.drop_first() =~= Seq::<RestoreStep>::empty());
    assert(step_result(pre, slots, buffers, steps[k]) is Ok);
    let c = step_result(pre, slots, buffers, steps[k])->Ok_0;
    assert(run_steps(c, slots, buffers, Seq::<RestoreStep>::empty()) == (c, None::<Seq<char>>));
    assert(run_steps(pre, slots, buffers, one) == (c, None::<Seq<char>>));
    assert(run_steps(a, slots, buffers, steps) == run_steps(c, slots, buffers, post));
    assert(c.len() == pre.len());
    assert forall|i: int| 0 <= i < a.len() && step_touches(steps[k], i) implies #[trigger] run_steps(
        a,
        slots,
        buffers,
        steps,
    ).0[i] == c[i] by {
        assert forall|j: int| 0 <= j < post.len() implies !step_touches(#[trigger] post[j], i) by {
            assert(post[j] == steps[k + 1 + j]);
            lemma_touches_span(steps[k], i);
            lemma_touches_span(steps[k + 1 + j], i);
        }
        lemma_run_frame(c, slots, buffers, post, i);
    }
}

/// The arena holds the integer of `slot` as a 32-bit value at `offset`.
pub open spec fn reads_u32(r: Seq<u8>, slots: Seq<StateValue>, slot: nat, offset: int) -> bool {
    scalar_result(slots, slot) matches Ok(x) && get32(r, offset) == x as u32
}

/// The arena holds the integer of `slot` as a 16-bit value at `offset`.
pub open spec fn reads_u16(r: Seq<u8>, slots: Seq<StateValue>, slot: nat, offset: int) -> bool {
    scalar_result(slots, slot) matches Ok(x) && get16(r, offset) == x as u16
}

/// The arena holds the integer of `slot` as one byte at `offset`.
pub open spec fn reads_u8(r: Seq<u8>, slots: Seq<StateValue>, slot: nat, offset: int) -> bool {
    scalar_result(slots, slot) matches Ok(x) && r[offset] == x as u8
}

/// The arena holds at `offset` the byte 1 when the integer of `slot` is
/// non-zero and 0 when it is zero.
pub open spec fn reads_flag(r: Seq<u8>, slots: Seq<StateValue>, slot: nat, offset: int) -> bool {
    scalar_result(slots, slot) matches Ok(x) && r[offset] == (if x != 0 { 1u8 } else { 0u8 })
}

/// The arena holds at `offset` the `len` bytes of the buffer of `slot`.
pub open spec fn reads_bytes(r: Seq<u8>, slots: Seq<StateValue>, buffers: Seq<Vec<u8>>, slot: nat, offset: int, len: nat) -> bool {
    sized_buffer_result(slots, buffers, slot, len) matches Ok(b) && r.subrange(offset, offset + len) == b
}

/// The arena holds the first 8 bytes of the 16-byte buffer of `slot` at
/// `first` and the last 8 at `second`.
pub open spec fn reads_halves(r: Seq<u8>, slots: Seq<StateValue>, buffers: Seq<Vec<u8>>, slot: nat, first: int, second: int) -> bool {
    sized_buffer_result(slots, buffers, slot, 16) matches Ok(b) && r.subrange(first, first + 8) == b.subrange(0, 8)
        && r.subrange(second, second + 8) == b.subrange(8, 16)
}

/// The integer of `slot`, or `default` where there is none.
pub open spec fn int_or(slots: Seq<StateValue>, i: nat, default: i64) -> i64 {
    match slot(slots, i as int) {
        Some(v) => match as_i64_of(v) {
            Some(n) => n,
            None => default,
        },
        None => default,
    }
}

/// What the arena `r` holds of step `s`'s slot after a restore.
pub open spec fn step_reads(r: Seq<u8>, slots: Seq<StateValue>, buffers: Seq<Vec<u8>>, s: RestoreStep) -> bool {
    match s {
        RestoreStep::Scalar { slot, offset, width } => if width == 4 {
            reads_u32(r, slots, slot as nat, offset as int)
        } else if width == 2 {
            reads_u16(r, slots, slot as nat, offset as int)
        } else if width == 1 {
            reads_u8(r, slots, slot as nat, offset as int)
        } else {
            true
        },
        RestoreStep::Flag { slot, offset } => reads_flag(r, slots, slot as nat, offset as int),
        RestoreStep::Copy { slot, offset, len } => reads_bytes(r, slots, buffers, slot as nat, offset as int, len as nat),
        RestoreStep::Split { slot, first, second } => reads_halves(r, slots, buffers, slot as nat, first as int, second as int),
        RestoreStep::Optional { slot, offset, width, default } => {
            let x = int_or(slots, slot as nat, default);
            if width == 4 {
                get32(r, offset as int) == x as u32
            } else if width == 2 {
                get16(r, offset as int) == x as u16
            } else if width == 1 {
                r[offset as int] == x as u8
            } else {
                true
            }
        },
    }
}

proof fn lemma_u8_read_back(a: Seq<u8>, offset: int, x: i64)
    requires
        0 <= offset,
        offset + 1 <= a.len(),
    ensures
        put_at(a, offset, low_bytes(x as int, 1))[offset] == x as u8,
{
    let u = x as u64;
    assert(low_bytes(x as int, 1)[0] == (u % 256) as u8);
    assert((u % 256) as u8 == x as u8) by (bit_vector)
        requires
            u == x as u64,
    ;
}

proof fn lemma_u16_read_back(a: Seq<u8>, offset: int, x: i64)
    requires
        0 <= offset,
        offset + 2 <= a.len(),
    ensures
        get16(put_at(a, offset, low_bytes(x as int, 2)), offset) == x as u16,
{
    let u = x as u64;
    let lb = low_bytes(x as int, 2);
    let p = put_at(a, offset, lb);
    assert(lb[0] == (u % 256) as u8);
    assert(lb[1] == ((u / 256) % 256) as u8);
    assert(p[offset] == lb[0]);
    assert(p[offset + 1] == lb[1]);
    assert(((u % 256) + 256 * ((u / 256) % 256)) as u16 == x as u16) by (bit_vector)
        requires
            u == x as u64,
    ;
}

/// The value a scalar-like step of width `width` leaves at `offset`, read
/// from the arena `r` that agrees with `c` on the written bytes.
proof fn lemma_width_reads(r: Seq<u8>, c: Seq<u8>, pre: Seq<u8>, offset: int, width: nat, x: i64)
    requires
        0 <= offset,
        offset + width <= pre.len(),
        1 <= width <= 4,
        r.len() == pre.len(),
        c == put_at(pre, offset, low_bytes(x as int, width)),
        forall|i: int| offset <= i < offset + width ==> #[trigger] r[i] == c[i],
    ensures
        width == 4 ==> get32(r, offset) == x as u32,
        width == 2 ==> get16(r, offset) == x as u16,
        width == 1 ==> r[offset] == x as u8,
{
    if width == 4 {
        assert(r[offset] == c[offset] && r[offset + 1] == c[offset + 1] && r[offset + 2] == c[offset + 2] && r[offset
            + 3] == c[offset + 3]);
        lemma_low_bytes_read_back(pre, offset, x);
    } else if width == 2 {
        assert(r[offset] == c[offset] && r[offset + 1] == c[offset + 1]);
        lemma_u16_read_back(pre, offset, x);
    } else if width == 1 {
        assert(r[offset] == c[offset]);
        lemma_u8_read_back(pre, offset, x);
    }
}

/// After a restore without error, every step's slot reads back from the
/// arena where that step wrote it.
proof fn lemma_step_reads(a: Seq<u8>, slots: Seq<StateValue>, buffers: Seq<Vec<u8>>, steps: Seq<RestoreStep>, k: int)
    requires
        a.len() == STATE_ARENA_BYTES,
        0 <= k < steps.len(),
        run_steps(a, slots, buffers, steps).1 is None,
        kept_after(steps, k),
    ensures
        step_reads(run_steps(a, slots, buffers, steps).0, slots, buffers, steps[k]),
{
    lemma_step_effect(a, slots, buffers, steps, k);
    lemma_run_len(a, slots, buffers, steps);
    let r = run_steps(a, slots, buffers, steps).0;
    let pre = run_steps(a, slots, buffers, steps.take(k)).0;
    let c = step_result(pre, slots, buffers, steps[k])->Ok_0;
    let s = steps[k];
    assert forall|i: int| 0 <= i < a.len() && step_touches(s, i) implies #[trigger] r[i] == c[i] by {}
    match s {
        RestoreStep::Scalar { slot, offset, width } => {
            let x = scalar_result(slots, slot as nat)->Ok_0;
            assert forall|i: int| offset <= i < offset + width implies #[trigger] r[i] == c[i] by {
                assert(step_touches(s, i));
            }
            lemma_width_reads(r, c, pre, offset as int, width as nat, x);
        },
        RestoreStep::Optional { slot: j, offset, width, default } => {
            let x = int_or(slots, j as nat, default);
            assert forall|i: int| offset <= i < offset + width implies #[trigger] r[i] == c[i] by {
                assert(step_touches(s, i));
            }
            lemma_width_reads(r, c, pre, offset as int, width as nat, x);
        },
        RestoreStep::Flag { slot, offset } => {
            assert(step_touches(s, offset as int));
        },
        RestoreStep::Copy { slot, offset, len } => {
            let b = sized_buffer_result(slots, buffers, slot as nat, len as nat)->Ok_0;
            assert forall|j: int| 0 <= j < len implies #[trigger] r.subrange(offset as int, offset + len)[j] == b[j] by {
                assert(step_touches(s, offset + j));
            }
            assert(r.subrange(offset as int, offset + len) =~= b);
        },
        RestoreStep::Split { slot, first, second } => {
            let b = sized_buffer_result(slots, buffers, slot as nat, 16)->Ok_0;
            assert forall|j: int| 0 <= j < 8 implies #[trigger] r.subrange(first as int, first + 8)[j] == b.subrange(0, 8)[j] by {
                assert(step_touches(s, first + j));
            }
            assert forall|j: int| 0 <= j < 8 implies #[trigger] r.subrange(second as int, second + 8)[j] == b.subrange(8, 16)[j] by {
                assert(step_touches(s, second + j));
            }
            assert(r.subrange(first as int, first + 8) =~= b.subrange(0, 8));
            assert(r.subrange(second as int, second + 8) =~= b.subrange(8, 16));
        },
    }
}

/// A register restore without error leaves every saved register at its
/// own place in the CPU core's state layout: each scalar slot reads back,
/// as the register's width, from that register's arena offset, each flag
/// is 1 exactly when its slot is non-zero, and each register block holds
/// its slot's bytes.
pub proof fn law_register_layout(arena: Seq<u8>, slots: Seq<StateValue>, buffers: Seq<Vec<u8>>)
    requires
        arena.len() == STATE_ARENA_BYTES,
        run_steps(arena, slots, buffers, register_steps()).1 is None,
    ensures
        ({
            let r = run_steps(arena, slots, buffers, register_steps()).0;
            // segment_is_null at 724 and segment_access_bytes at 512, the halves of slot 1
            &&& reads_halves(r, slots, buffers, 1, 724, 512)
            // segment_offsets
            &&& reads_bytes(r, slots, buffers, 2, 736, 32)
            // segment_limits
            &&& reads_bytes(r, slots, buffers, 3, 768, 32)
            // memory_size
            &&& reads_u32(r, slots, 0, 812)
            // protected_mode
            &&& reads_flag(r, slots, 4, 800)
            // idtr_offset
            &&& reads_u32(r, slots, 5, 568)
            // idtr_size
            &&& reads_u32(r, slots, 6, 564)
            // gdtr_offset
            &&& reads_u32(r, slots, 7, 576)
            // gdtr_size
            &&& reads_u32(r, slots, 8, 572)
            // cr
            &&& reads_bytes(r, slots, buffers, 10, 580, 32)
            // cpl
            &&& reads_u8(r, slots, 11, 612)
            // is_32
            &&& reads_flag(r, slots, 13, 804)
            // stack_size_32
            &&& reads_flag(r, slots, 16, 808)
            // in_hlt
            &&& reads_flag(r, slots, 17, 616)
            // last_virt_eip
            &&& reads_u32(r, slots, 18, 620)
            // eip_phys
            &&& reads_u32(r, slots, 19, 624)
            // sysenter_cs
            &&& reads_u32(r, slots, 22, 636)
            // sysenter_eip
            &&& reads_u32(r, slots, 23, 644)
            // sysenter_esp
            &&& reads_u32(r, slots, 24, 640)
            // prefixes
            &&& reads_u8(r, slots, 25, 648)
            // flags
            &&& reads_u32(r, slots, 26, 120)
            // flags_changed
            &&& reads_u32(r, slots, 27, 100)
            // last_op1
            &&& reads_u32(r, slots, 28, 104)
            // last_op_size
            &&& reads_u32(r, slots, 30, 96)
            // instruction_pointer
            &&& reads_u32(r, slots, 37, 556)
            // previous_ip
            &&& reads_u32(r, slots, 38, 560)
            // reg32
            &&& reads_bytes(r, slots, buffers, 39, 64, 32)
            // sreg
            &&& reads_bytes(r, slots, buffers, 40, 668, 16)
            // dreg
            &&& reads_bytes(r, slots, buffers, 41, 684, 32)
            // reg_pdpte
            &&& reads_bytes(r, slots, buffers, 42, 968, 32)
        }),
{
    let steps = register_steps();
    assert(kept_after(steps, 0));
    lemma_step_reads(arena, slots, buffers, steps, 0);
    assert(kept_after(steps, 1));
    lemma_step_reads(arena, slots, buffers, steps, 1);
    assert(kept_after(steps, 2));
    lemma_step_reads(arena, slots, buffers, steps, 2);
    assert(kept_after(steps, 3));
    lemma_step_reads(arena, slots, buffers, steps, 3);
    assert(kept_after(steps, 4));
    lemma_step_reads(arena, slots, buffers, steps, 4);
    assert(kept_after(steps, 5));
    lemma_step_reads(arena, slots, buffers, steps, 5);
    assert(kept_after(steps, 6));
    lemma_step_reads(arena, slots, buffers, steps, 6);
    assert(kept_after(steps, 7));
    lemma_step_reads(arena, slots, buffers, steps, 7);
    assert(kept_after(steps, 8));
    lemma_step_reads(arena, slots, buffers, steps, 8);
    assert(kept_after(steps, 9));
    lemma_step_reads(arena, slots, buffers, steps, 9);
    assert(kept_after(steps, 10));
    lemma_step_reads(arena, slots, buffers, steps, 10);
    assert(kept_after(steps, 11));
    lemma_step_reads(arena, slots, buffers, steps, 11);
    assert(kept_after(steps, 12));
    lemma_step_reads(arena, slots, buffers, steps, 12);
    assert(kept_after(steps, 13));
    lemma_step_reads(arena, slots, buffers, steps, 13);
    assert(kept_after(steps, 14));
    lemma_step_reads(arena, slots, buffers, steps, 14);
    assert(kept_after(steps, 15));
    lemma_step_reads(arena, slots, buffers, steps, 15);
    assert(kept_after(steps, 16));
    lemma_step_reads(arena, slots, buffers, steps, 16);
    assert(kept_after(steps, 17));
    lemma_step_reads(arena, slots, buffers, steps, 17);
    assert(kept_after(steps, 18));
    lemma_step_reads(arena, slots, buffers, steps, 18);
    assert(kept_after(steps, 19));
    lemma_step_reads(arena, slots, buffers, steps, 19);
    assert(kept_after(steps, 20));
    lemma_step_reads(arena, slots, buffers, steps, 20);
    assert(kept_after(steps, 21));
    lemma_step_reads(arena, slots, buffers, steps, 21);
    assert(kept_after(steps, 22));
    lemma_step_reads(arena, slots, buffers, steps, 22);
    assert(kept_after(steps, 23));
    lemma_step_reads(arena, slots, buffers, steps, 23);
    assert(kept_after(steps, 24));
    lemma_step_reads(arena, slots, buffers, steps, 24);
    assert(kept_after(steps, 25));
    lemma_step_reads(arena, slots, buffers, steps, 25);
    assert(kept_after(steps, 26));
    lemma_step_reads(arena, slots, buffers, steps, 26);
    assert(kept_after(steps, 27));
    lemma_step_reads(arena, slots, buffers, steps, 27);
    assert(kept_after(steps, 28));
    lemma_step_reads(arena, slots, buffers, steps, 28);
    assert(kept_after(steps, 29));
    lemma_step_reads(arena, slots, buffers, steps, 29);
}

/// An FPU restore without error leaves every saved FPU and SSE register at
/// its own place in the CPU core's state layout; the three registers whose
/// slots may be missing get their reset values (0, 0 and 0x1F80) then.
pub proof fn law_fpu_layout(arena: Seq<u8>, slots: Seq<StateValue>, buffers: Seq<Vec<u8>>)
    requires
        arena.len() == STATE_ARENA_BYTES,
        run_steps(arena, slots, buffers, fpu_steps()).1 is None,
    ensures
        ({
            let r = run_steps(arena, slots, buffers, fpu_steps()).0;
            // tss_size_32
            &&& reads_flag(r, slots, 64, 1128)
            // reg_xmm
            &&& reads_bytes(r, slots, buffers, 66, 832, 128)
            // fpu_st
            &&& reads_bytes(r, slots, buffers, 67, 1152, 128)
            // fpu_stack_empty
            &&& reads_u8(r, slots, 68, 816)
            // fpu_stack_ptr
            &&& reads_u8(r, slots, 69, 1032)
            // fpu_control_word
            &&& reads_u16(r, slots, 70, 1036)
            // fpu_ip
            &&& reads_u32(r, slots, 71, 1048)
            // fpu_ip_selector
            &&& reads_u32(r, slots, 72, 1052)
            // fpu_dp
            &&& reads_u32(r, slots, 73, 1056)
            // fpu_dp_selector
            &&& reads_u32(r, slots, 74, 1060)
            // fpu_opcode
            &&& reads_u32(r, slots, 75, 1044)
            // last_result, 0 when slot 86 holds no integer
            &&& get32(r, 112) == int_or(slots, 86, 0) as u32
            // fpu_status_word, 0 when slot 87 holds no integer
            &&& get16(r, 1040) == int_or(slots, 87, 0) as u16
            // mxcsr, 0x1F80 when slot 88 holds no integer
            &&& get32(r, 824) == int_or(slots, 88, 0x1F80) as u32
        }),
{
    let steps = fpu_steps();
    assert(kept_after(steps, 0));
    lemma_step_reads(arena, slots, buffers, steps, 0);
    assert(kept_after(steps, 1));
    lemma_step_reads(arena, slots, buffers, steps, 1);
    assert(kept_after(steps, 2));
    lemma_step_reads(arena, slots, buffers, steps, 2);
    assert(kept_after(steps, 3));
    lemma_step_reads(arena, slots, buffers, steps, 3);
    assert(kept_after(steps, 4));
    lemma_step_reads(arena, slots, buffers, steps, 4);
    assert(kept_after(steps, 5));
    lemma_step_reads(arena, slots, buffers, steps, 5);
    assert(kept_after(steps, 6));
    lemma_step_reads(arena, slots, buffers, steps, 6);
    assert(kept_after(steps, 7));
    lemma_step_reads(arena, slots, buffers, steps, 7);
    assert(kept_after(steps, 8));
    lemma_step_reads(arena, slots, buffers, steps, 8);
    assert(kept_after(steps, 9));
    lemma_step_reads(arena, slots, buffers, steps, 9);
    assert(kept_after(steps, 10));
    lemma_step_reads(arena, slots, buffers, steps, 10);
    assert(kept_after(steps, 11));
    lemma_step_reads(arena, slots, buffers, steps, 11);
    assert(kept_after(steps, 12));
    lemma_step_reads(arena, slots, buffers, steps, 12);
    assert(kept_after(steps, 13));
    lemma_step_reads(arena, slots, buffers, steps, 13);
}

} // verus!
