//! Machine-checked laws of the instruction set: what sequences of
//! instructions do, stated over the specification functions that the
//! executable core is proved to implement.

use crate::chip8::Fault;
use crate::chip8::VmState;
use crate::chip8::apply_toggles;
use crate::chip8::row_toggles;
use crate::chip8::spec_deliver;
use crate::chip8::spec_draw;
use crate::chip8::spec_interpret;
use crate::chip8::spec_paused;
use crate::chip8::spec_step;
use crate::chip8::sprite_toggles;
use crate::instr::Instr;
use crate::instr::spec_decode;
use crate::monitor::px_index;
use crate::monitor::toggled;
use vstd::prelude::*;

verus! {

/// The instruction word for an opcode class carrying register `x` and
/// immediate `kk`.
pub open spec fn encode_xkk(class: u16, x: u8, kk: u8) -> u16 {
    (class | ((x as u16) << 8u16)) | (kk as u16)
}

/// The instruction word for an opcode class carrying address `nnn`.
pub open spec fn encode_nnn(class: u16, nnn: u16) -> u16 {
    class | nnn
}

/// Encoding with `x` and `kk` decodes back to its fields.
pub proof fn lemma_encode_xkk_fields(class: u16, x: u8, kk: u8)
    requires
        x < 16,
        class & 0xFFF == 0,
    ensures
        encode_xkk(class, x, kk) & 0xF000 == class,
        (((encode_xkk(class, x, kk) >> 8u16) & 0xF) as u8) == x,
        ((encode_xkk(class, x, kk) & 0xFF) as u8) == kk,
        class != 0 ==> encode_xkk(class, x, kk) != 0x00E0 && encode_xkk(class, x, kk) != 0x00EE,
{
    let xx = x as u16;
    let kx = kk as u16;
    let w = encode_xkk(class, x, kk);
    assert((w & 0xF000 == class) && (((w >> 8u16) & 0xF) == xx) && ((w & 0xFF) == kx) && (class
        != 0 ==> w != 0x00E0 && w != 0x00EE)) by (bit_vector)
        requires
            w == ((class | (xx << 8u16)) | kx),
            xx < 16,
            kx < 256,
            class & 0xFFF == 0,
    ;
}

/// Encoding with `nnn` decodes back to its fields.
pub proof fn lemma_encode_nnn_fields(class: u16, nnn: u16)
    requires
        nnn <= 0xFFF,
        class & 0xFFF == 0,
    ensures
        encode_nnn(class, nnn) & 0xF000 == class,
        encode_nnn(class, nnn) & 0xFFF == nnn,
        class != 0 ==> encode_nnn(class, nnn) != 0x00E0 && encode_nnn(class, nnn) != 0x00EE,
{
    let w = encode_nnn(class, nnn);
    assert((w & 0xF000 == class) && (w & 0xFFF == nnn) && (class != 0 ==> w != 0x00E0 && w
        != 0x00EE)) by (bit_vector)
        requires
            w == (class | nnn),
            nnn <= 0xFFF,
            class & 0xFFF == 0,
    ;
}

/// Law: for every state and every register, `set Vx,kk` followed by
/// `add Vx,kk2` leaves Vx equal to `(kk + kk2) mod 256`.
pub proof fn lemma_set_then_add(s: VmState, x: u8, kk: u8, kk2: u8, r1: u8, r2: u8)
    requires
        s.wf(),
        x < 16,
    ensures
        ({
            let s1 = spec_interpret(s, encode_xkk(0x6000, x, kk), r1).0;
            let s2 = spec_interpret(s1, encode_xkk(0x7000, x, kk2), r2).0;
            s2.v[x as int] == (kk + kk2) % 256
        }),
{
    assert(0x6000u16 & 0xFFF == 0) by (bit_vector);
    assert(0x7000u16 & 0xFFF == 0) by (bit_vector);
    lemma_encode_xkk_fields(0x6000, x, kk);
    lemma_encode_xkk_fields(0x7000, x, kk2);
    assert(spec_decode(encode_xkk(0x6000, x, kk)) == (Instr::SetByte { x, kk }));
    assert(spec_decode(encode_xkk(0x7000, x, kk2)) == (Instr::AddByte { x, kk: kk2 }));
    let s1 = spec_interpret(s, encode_xkk(0x6000, x, kk), r1).0;
    assert(s1.v[x as int] == kk);
}

/// Law: `call nnn` followed immediately by `return` leaves the program
/// counter at the value it had right after the call's own advance, so
/// execution resumes at the instruction after the call.
pub proof fn lemma_call_then_return(s: VmState, nnn: u16, r1: u8, r2: u8)
    requires
        s.wf(),
        nnn <= 0xFFF,
        s.pc + 2 <= 0xFFFF,
    ensures
        ({
            let s1 = spec_interpret(s, encode_nnn(0x2000, nnn), r1).0;
            let s2 = spec_interpret(s1, 0x00EE, r2).0;
            s2.pc == s.pc + 2
        }),
{
    assert(0x2000u16 & 0xFFF == 0) by (bit_vector);
    lemma_encode_nnn_fields(0x2000, nnn);
    assert(spec_decode(encode_nnn(0x2000, nnn)) == (Instr::Call { nnn }));
    assert(spec_decode(0x00EE) == Instr::Return);
    let s1 = spec_interpret(s, encode_nnn(0x2000, nnn), r1).0;
    assert(s1.stack.last() == (s.pc + 2) as u16);
}

/// Law: `skip-if-equal Vx,kk` advances the program counter by 4 in all
/// when `Vx == kk` (2 for the fetch advance, 2 for the skip), and by 2
/// when not.
pub proof fn lemma_skip_eq_byte(s: VmState, x: u8, kk: u8, r1: u8)
    requires
        s.wf(),
        x < 16,
        s.pc + 4 <= 0xFFFF,
    ensures
        ({
            let s1 = spec_interpret(s, encode_xkk(0x3000, x, kk), r1).0;
            &&& (s.v[x as int] == kk ==> s1.pc == s.pc + 4)
            &&& (s.v[x as int] != kk ==> s1.pc == s.pc + 2)
        }),
{
    assert(0x3000u16 & 0xFFF == 0) by (bit_vector);
    lemma_encode_xkk_fields(0x3000, x, kk);
    assert(spec_decode(encode_xkk(0x3000, x, kk)) == (Instr::SkipEqByte { x, kk }));
}

/// An all-zero sprite row issues no toggle requests.
pub proof fn lemma_zero_row_no_toggles(x: u16, y: u16, col: int)
    ensures
        row_toggles(0u8, x, y, col, 8) == Seq::<(u16, u16)>::empty(),
    decreases 8 - col,
{
    if 0 <= col < 8 {
        let cu = col as u8;
        assert(((0u8 << cu) & 0x80) == 0) by (bit_vector);
        lemma_zero_row_no_toggles(x, y, col + 1);
    }
}

/// An all-zero sprite issues no toggle requests.
pub proof fn lemma_zero_sprite_no_toggles(
    mem: Seq<u8>,
    base: int,
    x: u16,
    y: u16,
    row: int,
    n: int,
)
    requires
        forall|r: int| row <= r < n ==> #[trigger] mem[base + r] == 0,
    ensures
        sprite_toggles(mem, base, x, y, row, n) == Seq::<(u16, u16)>::empty(),
    decreases n - row,
{
    if 0 <= row < n {
        lemma_zero_row_no_toggles(x, ((y + row) as u16), 0);
        lemma_zero_sprite_no_toggles(mem, base, x, y, row + 1, n);
        assert(Seq::<(u16, u16)>::empty() + Seq::<(u16, u16)>::empty() =~= Seq::<
            (u16, u16),
        >::empty());
    }
}

/// Law: drawing an all-zero sprite toggles no pixel, reports no
/// collision, and leaves VF = 0.
pub proof fn lemma_draw_zero_sprite(s: VmState, x: u8, y: u8, n: u8)
    requires
        s.wf(),
        x < 16,
        y < 16,
        n < 16,
        s.index + n <= 4096,
        forall|r: int| 0 <= r < n ==> #[trigger] s.memory[s.index + r] == 0,
    ensures
        spec_draw(s, x, y, n).1 == None::<Fault>,
        spec_draw(s, x, y, n).0.display == s.display,
        spec_draw(s, x, y, n).0.v[15] == 0,
{
    let cleared = s.v.update(15, 0u8);
    lemma_zero_sprite_no_toggles(
        s.memory,
        s.index as int,
        cleared[x as int] as u16,
        cleared[y as int] as u16,
        0,
        n as int,
    );
}

/// How often a toggle sequence hits one cell of the bitmap.
pub open spec fn hit_count(ts: Seq<(u16, u16)>, j: int) -> nat
    decreases ts.len(),
{
    if ts.len() == 0 {
        0nat
    } else {
        (if px_index(ts[0].0, ts[0].1) == j {
            1nat
        } else {
            0nat
        }) + hit_count(ts.drop_first(), j)
    }
}

/// A toggle sequence flips each cell exactly when it hits it an odd
/// number of times.
pub proof fn lemma_apply_parity(d: Seq<u16>, ts: Seq<(u16, u16)>, j: int)
    requires
        d.len() == 2048,
        0 <= j < 2048,
    ensures
        apply_toggles(d, ts).len() == 2048,
        apply_toggles(d, ts)[j] == if hit_count(ts, j) % 2 == 1 {
            d[j] ^ 1
        } else {
            d[j]
        },
    decreases ts.len(),
{
    if ts.len() > 0 {
        let t = ts[0];
        let idx = px_index(t.0, t.1);
        let d1 = toggled(d, t.0, t.1);
        lemma_apply_parity(d1, ts.drop_first(), j);
        if idx == j {
            let vv = d[j];
            assert(((vv ^ 1) ^ 1) == vv) by (bit_vector);
        }
    }
}

/// Law: applying the same toggle sequence twice restores the bitmap (XOR
/// idempotence over two applications).
pub proof fn lemma_apply_toggles_twice(d: Seq<u16>, ts: Seq<(u16, u16)>)
    requires
        d.len() == 2048,
    ensures
        apply_toggles(apply_toggles(d, ts), ts) == d,
{
    let d1 = apply_toggles(d, ts);
    assert forall|j: int| 0 <= j < 2048 implies apply_toggles(d1, ts)[j] == d[j] by {
        lemma_apply_parity(d, ts, j);
        lemma_apply_parity(d1, ts, j);
        let vv = d[j];
        assert(((vv ^ 1) ^ 1) == vv) by (bit_vector);
    }
    lemma_apply_parity(d, ts, 0);
    lemma_apply_parity(d1, ts, 0);
    assert(apply_toggles(d1, ts) =~= d);
}

/// Law: drawing the same sprite at the same location twice (with neither
/// coordinate register being VF) toggles every affected pixel back, so
/// the display ends as it began.
pub proof fn lemma_draw_twice_restores(s: VmState, x: u8, y: u8, n: u8)
    requires
        s.wf(),
        x < 16,
        y < 16,
        n < 16,
        x != 15,
        y != 15,
        s.index + n <= 4096,
    ensures
        ({
            let s1 = spec_draw(s, x, y, n).0;
            let s2 = spec_draw(s1, x, y, n).0;
            s2.display == s.display
        }),
{
    let cleared = s.v.update(15, 0u8);
    let ts = sprite_toggles(
        s.memory,
        s.index as int,
        cleared[x as int] as u16,
        cleared[y as int] as u16,
        0,
        n as int,
    );
    let s1 = spec_draw(s, x, y, n).0;
    let cleared2 = s1.v.update(15, 0u8);
    assert(cleared2[x as int] == cleared[x as int]);
    assert(cleared2[y as int] == cleared[y as int]);
    let ts2 = sprite_toggles(
        s1.memory,
        s1.index as int,
        cleared2[x as int] as u16,
        cleared2[y as int] as u16,
        0,
        n as int,
    );
    assert(ts2 == ts);
    lemma_apply_toggles_twice(s.display, ts);
}

/// Law: while the machine waits for a key, `step` changes nothing and
/// reports nothing; execution and all registers are frozen.
pub proof fn lemma_paused_step_no_op(s: VmState, rnd: u8)
    requires
        spec_paused(s),
    ensures
        spec_step(s, rnd).0 == s,
        spec_step(s, rnd).1 == None::<Fault>,
{
}

/// Law: delivering key `k` to a machine waiting on register `dest`
/// writes `k` to that register and resumes execution.
pub proof fn lemma_deliver_resumes(s: VmState, key: u8)
    requires
        s.wf(),
        key < 16,
    ensures
        ({
            let s1 = spec_deliver(s, key);
            &&& !spec_paused(s1)
            &&& (s.wait matches crate::chip8::WaitState::WaitingForKey { dest } ==> s1.v[dest as int]
                == key)
            &&& s1.keys[key as int]
        }),
{
}

} // verus!
