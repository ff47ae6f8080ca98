//! The virtual machine core: 4096 bytes of memory, sixteen 8-bit registers,
//! a 12-bit-significant index register, program counter, call stack, delay
//! timer and the wait-for-key state machine, with the fetch-decode-execute
//! cycle over the 35-instruction set.

use crate::instr::Instr;
use crate::instr::decode;
use crate::instr::spec_decode;
use crate::keyboard::Keyboard;
use crate::keyboard::lemma_logical_key_bound;
use crate::keyboard::logical_key_of;
use crate::keyboard::spec_logical_key;
use crate::monitor::Monitor;
use crate::monitor::toggle_collides;
use crate::monitor::toggled;
use rand::Rng;
use vstd::pervasive::VecAdditionalExecFns;
use vstd::prelude::*;

verus! {

pub const MEMORY_SIZE: usize = 4096;
pub const NUM_REGISTERS: usize = 16;
pub const PROGRAM_START: u16 = 0x200;
pub const FONT_BYTES: usize = 80;

/// Whether the machine is running freely or stopped on the wait-for-key
/// instruction. While waiting, instruction execution and the timer freeze,
/// and the first delivered key is written to register `dest`.
#[derive(Clone, Copy, PartialEq, Eq, Structural, Debug)]
pub enum WaitState {
    Running,
    WaitingForKey { dest: u8 },
}

/// How a single instruction can fail: an opcode the machine does not know,
/// or an access that would leave the 4096-byte memory (or the 16-entry key
/// table). Either way the instruction is a no-op beyond the program-counter
/// advance, and execution may continue.
#[derive(Clone, Copy, PartialEq, Eq, Structural, Debug)]
pub enum Fault {
    Decode,
    Memory,
}

/// The mathematical state of the machine: what every contract speaks about.
#[verifier::ext_equal]
pub ghost struct VmState {
    pub memory: Seq<u8>,
    pub v: Seq<u8>,
    pub index: u16,
    pub pc: u16,
    pub stack: Seq<u16>,
    pub sp: nat,
    pub delay_timer: u8,
    pub display: Seq<u16>,
    pub keys: Seq<bool>,
    pub speed: u8,
    pub wait: WaitState,
}

pub open spec fn spec_paused(s: VmState) -> bool {
    s.wait is WaitingForKey
}

impl VmState {
    pub open spec fn wf(self) -> bool {
        &&& self.memory.len() == 4096
        &&& self.v.len() == 16
        &&& self.display.len() == 2048
        &&& (forall|i: int| 0 <= i < 2048 ==> self.display[i] <= 1)
        &&& self.keys.len() == 16
        &&& (self.wait matches WaitState::WaitingForKey { dest } ==> dest < 16)
    }
}

/// The built-in sprite table: sixteen hexadecimal-digit glyphs of five bytes
/// each, resident at address 0. `font-char` relies on glyph `d` starting at
/// address `5 * d`.
pub open spec fn font() -> Seq<u8> {
    seq![
        0xF0u8, 0x90, 0x90, 0x90, 0xF0, // 0
        0x20, 0x60, 0x20, 0x20, 0x70, // 1
        0xF0, 0x10, 0xF0, 0x80, 0xF0, // 2
        0xF0, 0x10, 0xF0, 0x10, 0xF0, // 3
        0x90, 0x90, 0xF0, 0x10, 0x10, // 4
        0xF0, 0x80, 0xF0, 0x10, 0xF0, // 5
        0xF0, 0x80, 0xF0, 0x90, 0xF0, // 6
        0xF0, 0x10, 0x20, 0x40, 0x40, // 7
        0xF0, 0x90, 0xF0, 0x90, 0xF0, // 8
        0xF0, 0x90, 0xF0, 0x10, 0xF0, // 9
        0xF0, 0x90, 0xF0, 0x90, 0x90, // A
        0xE0, 0x90, 0xE0, 0x90, 0xE0, // B
        0xF0, 0x80, 0x80, 0x80, 0xF0, // C
        0xE0, 0x90, 0x90, 0x90, 0xE0, // D
        0xF0, 0x80, 0xF0, 0x80, 0xF0, // E
        0xF0, 0x80, 0xF0, 0x80, 0x80, // F
    ]
}

/// The sprite table as a vector, for writing it into memory.
fn font_bytes() -> (f: Vec<u8>)
    ensures
        f@ == font(),
{
    let mut f: Vec<u8> = Vec::new();
    f.push(0xF0); f.push(0x90); f.push(0x90); f.push(0x90); f.push(0xF0);
    f.push(0x20); f.push(0x60); f.push(0x20); f.push(0x20); f.push(0x70);
    f.push(0xF0); f.push(0x10); f.push(0xF0); f.push(0x80); f.push(0xF0);
    f.push(0xF0); f.push(0x10); f.push(0xF0); f.push(0x10); f.push(0xF0);
    f.push(0x90); f.push(0x90); f.push(0xF0); f.push(0x10); f.push(0x10);
    f.push(0xF0); f.push(0x80); f.push(0xF0); f.push(0x10); f.push(0xF0);
    f.push(0xF0); f.push(0x80); f.push(0xF0); f.push(0x90); f.push(0xF0);
    f.push(0xF0); f.push(0x10); f.push(0x20); f.push(0x40); f.push(0x40);
    f.push(0xF0); f.push(0x90); f.push(0xF0); f.push(0x90); f.push(0xF0);
    f.push(0xF0); f.push(0x90); f.push(0xF0); f.push(0x10); f.push(0xF0);
    f.push(0xF0); f.push(0x90); f.push(0xF0); f.push(0x90); f.push(0x90);
    f.push(0xE0); f.push(0x90); f.push(0xE0); f.push(0x90); f.push(0xE0);
    f.push(0xF0); f.push(0x80); f.push(0x80); f.push(0x80); f.push(0xF0);
    f.push(0xE0); f.push(0x90); f.push(0x90); f.push(0x90); f.push(0xE0);
    f.push(0xF0); f.push(0x80); f.push(0xF0); f.push(0x80); f.push(0xF0);
    f.push(0xF0); f.push(0x80); f.push(0xF0); f.push(0x80); f.push(0x80);
    f
}

/// The state of a machine as constructed: font at address 0, the rest of
/// memory zero, all registers zero, PC at the program start, empty stack,
/// blank display, no key held, running.
pub open spec fn initial_state() -> VmState {
    VmState {
        memory: font() + Seq::new(4016, |i: int| 0u8),
        v: Seq::new(16, |i: int| 0u8),
        index: 0,
        pc: 0x200,
        stack: Seq::empty(),
        sp: 0,
        delay_timer: 0,
        display: Seq::new(2048, |i: int| 0u16),
        keys: Seq::new(16, |i: int| false),
        speed: 10,
        wait: WaitState::Running,
    }
}

/// The delay timer after one external tick: down by one while the machine
/// is running and the timer is positive; otherwise untouched.
pub open spec fn spec_tick(s: VmState) -> VmState {
    if !spec_paused(s) && s.delay_timer > 0 {
        VmState { delay_timer: (s.delay_timer - 1) as u8, ..s }
    } else {
        s
    }
}

/// The state after a logical key is delivered: the key is marked held, and
/// if the machine was waiting for a key, the key is written to the waiting
/// register and the machine resumes.
pub open spec fn spec_deliver(s: VmState, key: u8) -> VmState {
    let pressed = VmState { keys: s.keys.update(key as int, true), ..s };
    match s.wait {
        WaitState::WaitingForKey { dest } => VmState {
            v: pressed.v.update(dest as int, key),
            wait: WaitState::Running,
            ..pressed
        },
        WaitState::Running => pressed,
    }
}

/// The machine core.
pub struct Chip8 {
    pub memory: Vec<u8>,
    pub v: Vec<u8>,
    pub index: u16,
    pub pc: u16,
    pub stack: Vec<u16>,
    pub sp: usize,
    pub delay_timer: u8,
    pub monitor: Monitor,
    pub speed: u8,
    pub keyboard: Keyboard,
    pub wait: WaitState,
}

impl View for Chip8 {
    type V = VmState;

    open spec fn view(&self) -> VmState {
        VmState {
            memory: self.memory@,
            v: self.v@,
            index: self.index,
            pc: self.pc,
            stack: self.stack@,
            sp: self.sp as nat,
            delay_timer: self.delay_timer,
            display: self.monitor@,
            keys: self.keyboard@,
            speed: self.speed,
            wait: self.wait,
        }
    }
}

/// A vector holding `n` copies of `value`.
fn filled<T: Copy>(value: T, n: usize) -> (r: Vec<T>)
    ensures
        r@ == Seq::new(n as nat, |i: int| value),
{
    let mut r: Vec<T> = Vec::new();
    while r.len() < n
        invariant
            r@.len() <= n,
            forall|i: int| 0 <= i < r@.len() ==> r@[i] == value,
        decreases n - r@.len(),
    {
        r.push(value);
    }
    proof {
        assert(r@ =~= Seq::new(n as nat, |i: int| value));
    }
    r
}

impl Chip8 {
    pub open spec fn wf(&self) -> bool {
        &&& self@.wf()
        &&& self.monitor.wf()
        &&& self.keyboard.wf()
    }

    /// A fresh machine in `initial_state`.
    pub fn new() -> (c: Chip8)
        ensures
            c.wf(),
            c@ == initial_state(),
    {
        let mut c = Chip8 {
            memory: filled(0u8, MEMORY_SIZE),
            v: filled(0u8, NUM_REGISTERS),
            index: 0,
            pc: PROGRAM_START,
            stack: Vec::new(),
            sp: 0,
            delay_timer: 0,
            monitor: Monitor::new(),
            speed: 10,
            keyboard: Keyboard::new(),
            wait: WaitState::Running,
        };
        c.load_sprites();
        proof {
            assert(c@.memory =~= initial_state().memory);
            assert(c@.display =~= initial_state().display);
            assert(c@.keys =~= initial_state().keys);
            assert(c@.stack =~= initial_state().stack);
            assert(c@ =~= initial_state());
        }
        c
    }

    /// Write the built-in sprite table over the first 80 bytes of memory.
    pub fn load_sprites(&mut self)
        requires
            old(self).wf(),
        ensures
            final(self).wf(),
            final(self)@ == (VmState {
                memory: font() + old(self)@.memory.skip(FONT_BYTES as int),
                ..old(self)@
            }),
    {
        let f = font_bytes();
        let mut i: usize = 0;
        while i < FONT_BYTES
            invariant
                old(self).wf(),
                f@ == font(),
                i <= FONT_BYTES,
                self.memory@.len() == 4096,
                forall|j: int| 0 <= j < i ==> self.memory@[j] == font()[j],
                forall|j: int| i <= j < 4096 ==> self.memory@[j] == old(self).memory@[j],
                self.v == old(self).v,
                self.index == old(self).index,
                self.pc == old(self).pc,
                self.stack == old(self).stack,
                self.sp == old(self).sp,
                self.delay_timer == old(self).delay_timer,
                self.monitor == old(self).monitor,
                self.speed == old(self).speed,
                self.keyboard == old(self).keyboard,
                self.wait == old(self).wait,
            decreases FONT_BYTES - i,
        {
            let b = f[i];
            self.memory.set(i, b);
            i = i + 1;
        }
        proof {
            assert(self.memory@ =~= font() + old(self)@.memory.skip(FONT_BYTES as int));
            assert(self@ =~= (VmState {
                memory: font() + old(self)@.memory.skip(FONT_BYTES as int),
                ..old(self)@
            }));
        }
    }

    /// Copy a program image into memory starting at the program start
    /// address. The image must fit below the end of memory.
    pub fn load_program(&mut self, program: Vec<u8>)
        requires
            old(self).wf(),
            program@.len() <= 4096 - 0x200,
        ensures
            final(self).wf(),
            final(self)@ == (VmState {
                memory: old(self)@.memory.take(0x200)
                    + program@
                    + old(self)@.memory.skip(0x200 + program@.len() as int),
                ..old(self)@
            }),
    {
        let mut i: usize = 0;
        while i < program.len()
            invariant
                old(self).wf(),
                program@.len() <= 4096 - 0x200,
                i <= program@.len(),
                self.memory@.len() == 4096,
                forall|j: int| 0x200 <= j < 0x200 + i ==> self.memory@[j] == program@[j - 0x200],
                forall|j: int|
                    (0 <= j < 0x200 || 0x200 + i <= j < 4096) ==> self.memory@[j] == old(
                        self,
                    ).memory@[j],
                self.v == old(self).v,
                self.index == old(self).index,
                self.pc == old(self).pc,
                self.stack == old(self).stack,
                self.sp == old(self).sp,
                self.delay_timer == old(self).delay_timer,
                self.monitor == old(self).monitor,
                self.speed == old(self).speed,
                self.keyboard == old(self).keyboard,
                self.wait == old(self).wait,
            decreases program@.len() - i,
        {
            let b = program[i];
            self.memory.set(0x200 + i, b);
            i = i + 1;
        }
        proof {
            assert(self.memory@ =~= old(self)@.memory.take(0x200) + program@ + old(
                self,
            )@.memory.skip(0x200 + program@.len() as int));
            assert(self@ =~= (VmState {
                memory: old(self)@.memory.take(0x200) + program@ + old(self)@.memory.skip(
                    0x200 + program@.len() as int,
                ),
                ..old(self)@
            }));
        }
    }

    /// Whether the machine is stopped waiting for a key.
    pub fn paused(&self) -> (b: bool)
        ensures
            b == spec_paused(self@),
    {
        match self.wait {
            WaitState::Running => false,
            WaitState::WaitingForKey { .. } => true,
        }
    }

    /// One external timer tick.
    pub fn update_timer(&mut self)
        requires
            old(self).wf(),
        ensures
            final(self).wf(),
            final(self)@ == spec_tick(old(self)@),
    {
        if !self.paused() && self.delay_timer > 0 {
            self.delay_timer = self.delay_timer - 1;
        }
    }

    /// Deliver a logical key press to the machine.
    pub fn deliver_key(&mut self, key: u8)
        requires
            old(self).wf(),
            key < 16,
        ensures
            final(self).wf(),
            final(self)@ == spec_deliver(old(self)@, key),
    {
        self.keyboard.press(key);
        match self.wait {
            WaitState::WaitingForKey { dest } => {
                self.v.set(dest as usize, key);
                self.wait = WaitState::Running;
            },
            WaitState::Running => {},
        }
    }

    /// A physical key went down: deliver its logical key, if the code is
    /// mapped; an unmapped code changes nothing.
    pub fn on_key_down(&mut self, code: u16)
        requires
            old(self).wf(),
        ensures
            final(self).wf(),
            (match spec_logical_key(code) {
                Some(k) => final(self)@ == spec_deliver(old(self)@, k),
                None => final(self)@ == old(self)@,
            }),
    {
        match logical_key_of(code) {
            Some(k) => {
                proof {
                    lemma_logical_key_bound(code);
                }
                self.deliver_key(k);
            },
            None => {},
        }
    }
}

/// The toggle requests one sprite row issues, left to right: one request per
/// set bit of `b`, for columns `col` up to `cend`, at screen row `y`.
pub open spec fn row_toggles(b: u8, x: u16, y: u16, col: int, cend: int) -> Seq<(u16, u16)>
    decreases cend - col,
{
    if col < 0 || col >= cend || cend > 8 {
        Seq::empty()
    } else {
        let rest = row_toggles(b, x, y, col + 1, cend);
        if ((b << (col as u8)) & 0x80) != 0 {
            seq![(((x + col) as u16, y))] + rest
        } else {
            rest
        }
    }
}

/// The toggle requests a whole sprite issues: rows `row` up to `n`, each an
/// 8-wide row read from `mem` at `base + row`.
pub open spec fn sprite_toggles(mem: Seq<u8>, base: int, x: u16, y: u16, row: int, n: int) -> Seq<
    (u16, u16),
>
    decreases n - row,
{
    if row < 0 || row >= n {
        Seq::empty()
    } else {
        row_toggles(mem[base + row], x, ((y + row) as u16), 0, 8) + sprite_toggles(
            mem,
            base,
            x,
            y,
            row + 1,
            n,
        )
    }
}

/// The bitmap after a sequence of toggle requests, applied in order.
pub open spec fn apply_toggles(d: Seq<u16>, ts: Seq<(u16, u16)>) -> Seq<u16>
    decreases ts.len(),
{
    if ts.len() == 0 {
        d
    } else {
        apply_toggles(toggled(d, ts[0].0, ts[0].1), ts.drop_first())
    }
}

/// Whether any toggle of the sequence reports a collision, each judged
/// against the bitmap as already toggled by its predecessors.
pub open spec fn toggles_collide(d: Seq<u16>, ts: Seq<(u16, u16)>) -> bool
    decreases ts.len(),
{
    if ts.len() == 0 {
        false
    } else {
        toggle_collides(d, ts[0].0, ts[0].1) || toggles_collide(
            toggled(d, ts[0].0, ts[0].1),
            ts.drop_first(),
        )
    }
}

/// Applying a concatenation of toggle sequences is applying the first, then
/// the second; a collision in the whole is a collision in either part.
pub proof fn lemma_apply_concat(d: Seq<u16>, t1: Seq<(u16, u16)>, t2: Seq<(u16, u16)>)
    ensures
        apply_toggles(d, t1 + t2) == apply_toggles(apply_toggles(d, t1), t2),
        toggles_collide(d, t1 + t2) == (toggles_collide(d, t1) || toggles_collide(
            apply_toggles(d, t1),
            t2,
        )),
    decreases t1.len(),
{
    if t1.len() == 0 {
        assert(t1 + t2 =~= t2);
    } else {
        let t = t1[0];
        assert((t1 + t2)[0] == t);
        assert((t1 + t2).drop_first() =~= t1.drop_first() + t2);
        lemma_apply_concat(toggled(d, t.0, t.1), t1.drop_first(), t2);
    }
}

/// Splitting the rows of a sprite at `m` splits its toggle sequence.
pub proof fn lemma_sprite_toggles_split(
    mem: Seq<u8>,
    base: int,
    x: u16,
    y: u16,
    a: int,
    m: int,
    b: int,
)
    requires
        0 <= a <= m <= b,
    ensures
        sprite_toggles(mem, base, x, y, a, b) == sprite_toggles(mem, base, x, y, a, m)
            + sprite_toggles(mem, base, x, y, m, b),
    decreases m - a,
{
    if a == m {
        assert(sprite_toggles(mem, base, x, y, a, m) =~= Seq::empty());
        assert(Seq::empty() + sprite_toggles(mem, base, x, y, m, b) =~= sprite_toggles(
            mem,
            base,
            x,
            y,
            m,
            b,
        ));
    } else {
        lemma_sprite_toggles_split(mem, base, x, y, a + 1, m, b);
        assert((row_toggles(mem[base + a], x, ((y + a) as u16), 0, 8) + sprite_toggles(
            mem,
            base,
            x,
            y,
            a + 1,
            m,
        )) + sprite_toggles(mem, base, x, y, m, b) =~= row_toggles(
            mem[base + a],
            x,
            ((y + a) as u16),
            0,
            8,
        ) + (sprite_toggles(mem, base, x, y, a + 1, m) + sprite_toggles(mem, base, x, y, m, b)));
    }
}

/// Splitting the columns of a sprite row at `m` splits its toggle sequence.
pub proof fn lemma_row_toggles_split(b: u8, x: u16, y: u16, a: int, m: int, c: int)
    requires
        0 <= a <= m <= c <= 8,
    ensures
        row_toggles(b, x, y, a, c) == row_toggles(b, x, y, a, m) + row_toggles(b, x, y, m, c),
    decreases m - a,
{
    if a == m {
        assert(row_toggles(b, x, y, a, m) =~= Seq::empty());
        assert(Seq::empty() + row_toggles(b, x, y, m, c) =~= row_toggles(b, x, y, m, c));
    } else {
        lemma_row_toggles_split(b, x, y, a + 1, m, c);
        if ((b << (a as u8)) & 0x80) != 0 {
            assert((seq![(((x + a) as u16, y))] + row_toggles(b, x, y, a + 1, m)) + row_toggles(
                b,
                x,
                y,
                m,
                c,
            ) =~= seq![(((x + a) as u16, y))] + (row_toggles(b, x, y, a + 1, m) + row_toggles(
                b,
                x,
                y,
                m,
                c,
            )));
        }
    }
}

/// Applying a single toggle request.
pub proof fn lemma_apply_single(d: Seq<u16>, t: (u16, u16))
    ensures
        apply_toggles(d, seq![t]) == toggled(d, t.0, t.1),
        toggles_collide(d, seq![t]) == toggle_collides(d, t.0, t.1),
{
    let ts = seq![t];
    assert(ts.len() == 1);
    assert(ts[0] == t);
    assert(ts.drop_first() =~= Seq::<(u16, u16)>::empty());
    assert(apply_toggles(toggled(d, t.0, t.1), ts.drop_first()) == toggled(d, t.0, t.1));
    assert(!toggles_collide(toggled(d, t.0, t.1), ts.drop_first()));
}

/// The state change of the draw instruction: VF is cleared, then the
/// sprite at `memory[I .. I+n]` is XOR-drawn at `(Vx, Vy)` and VF reports
/// whether any toggle turned a pixel off. A sprite that would be read from
/// beyond the end of memory is a memory fault and draws nothing.
pub open spec fn spec_draw(s: VmState, x: u8, y: u8, n: u8) -> (VmState, Option<Fault>) {
    if s.index + n > 4096 {
        (s, Some(Fault::Memory))
    } else {
        let cleared = s.v.update(15, 0u8);
        let ts = sprite_toggles(
            s.memory,
            s.index as int,
            cleared[x as int] as u16,
            cleared[y as int] as u16,
            0,
            n as int,
        );
        let flag: u8 = if toggles_collide(s.display, ts) {
            1u8
        } else {
            0u8
        };
        (
            (VmState {
                display: apply_toggles(s.display, ts),
                v: cleared.update(15, flag),
                ..s
            }),
            None,
        )
    }
}

/// The state change of store-bcd: the decimal digits of Vx written at
/// `I`, `I+1`, `I+2`, or a memory fault if those leave memory.
pub open spec fn spec_store_bcd(s: VmState, x: u8) -> (VmState, Option<Fault>) {
    if s.index + 3 > 4096 {
        (s, Some(Fault::Memory))
    } else {
        let val = s.v[x as int];
        (
            (VmState {
                memory: s.memory.update(s.index as int, val / 100).update(
                    s.index as int + 1,
                    (val % 100) / 10,
                ).update(s.index as int + 2, val % 10),
                ..s
            }),
            None,
        )
    }
}

/// The state change of reg-dump: V0..=Vx written at `I..`, or a memory
/// fault if the range leaves memory.
pub open spec fn spec_reg_dump(s: VmState, x: u8) -> (VmState, Option<Fault>) {
    if s.index + x + 1 > 4096 {
        (s, Some(Fault::Memory))
    } else {
        (
            (VmState {
                memory: Seq::new(
                    4096,
                    |j: int|
                        if s.index <= j < s.index + x + 1 {
                            s.v[j - s.index]
                        } else {
                            s.memory[j]
                        },
                ),
                ..s
            }),
            None,
        )
    }
}

/// The state change of reg-load: V0..=Vx read from `I..`, or a memory
/// fault if the range leaves memory.
pub open spec fn spec_reg_load(s: VmState, x: u8) -> (VmState, Option<Fault>) {
    if s.index + x + 1 > 4096 {
        (s, Some(Fault::Memory))
    } else {
        (
            (VmState {
                v: Seq::new(
                    16,
                    |j: int|
                        if 0 <= j <= x {
                            s.memory[s.index + j]
                        } else {
                            s.v[j]
                        },
                ),
                ..s
            }),
            None,
        )
    }
}

/// The state with the program counter advanced past the fetched word.
pub open spec fn advanced(s: VmState) -> VmState {
    VmState { pc: (s.pc + 2) as u16, ..s }
}

/// What one decoded instruction does to the machine, starting from the
/// state with the program counter already advanced. `rnd` is the byte the
/// random source supplied; only the random instruction reads it.
pub open spec fn spec_execute(s: VmState, i: Instr, rnd: u8) -> (VmState, Option<Fault>) {
    match i {
        Instr::ClearScreen => ((VmState { display: Seq::new(2048, |j: int| 0u16), ..s }), None),
        Instr::Return => if s.stack.len() == 0 {
            (s, None)
        } else {
            (
                (VmState {
                    pc: s.stack.last(),
                    stack: s.stack.drop_last(),
                    sp: if s.sp > 0 {
                        (s.sp - 1) as nat
                    } else {
                        0nat
                    },
                    ..s
                }),
                None,
            )
        },
        Instr::Jump { nnn } => ((VmState { pc: nnn, ..s }), None),
        Instr::Call { nnn } => ((VmState { stack: s.stack.push(s.pc), pc: nnn, ..s }), None),
        Instr::SkipEqByte { x, kk } => (
            (VmState {
                pc: if s.v[x as int] == kk {
                    (s.pc + 2) as u16
                } else {
                    s.pc
                },
                ..s
            }),
            None,
        ),
        Instr::SkipNeByte { x, kk } => (
            (VmState {
                pc: if s.v[x as int] != kk {
                    (s.pc + 2) as u16
                } else {
                    s.pc
                },
                ..s
            }),
            None,
        ),
        Instr::SkipEqReg { x, y } => (
            (VmState {
                pc: if s.v[x as int] == s.v[y as int] {
                    (s.pc + 2) as u16
                } else {
                    s.pc
                },
                ..s
            }),
            None,
        ),
        Instr::SetByte { x, kk } => ((VmState { v: s.v.update(x as int, kk), ..s }), None),
        Instr::AddByte { x, kk } => (
            (VmState { v: s.v.update(x as int, ((s.v[x as int] + kk) % 256) as u8), ..s }),
            None,
        ),
        Instr::CopyReg { x, y } => ((VmState { v: s.v.update(x as int, s.v[y as int]), ..s }), None),
        Instr::OrReg { x, y } => (
            (VmState { v: s.v.update(x as int, s.v[x as int] | s.v[y as int]), ..s }),
            None,
        ),
        Instr::AndReg { x, y } => (
            (VmState { v: s.v.update(x as int, s.v[x as int] & s.v[y as int]), ..s }),
            None,
        ),
        Instr::XorReg { x, y } => (
            (VmState { v: s.v.update(x as int, s.v[x as int] ^ s.v[y as int]), ..s }),
            None,
        ),
        Instr::AddReg { x, y } => {
            let sum = s.v[x as int] + s.v[y as int];
            let v1 = s.v.update(x as int, (sum % 256) as u8);
            let v2 = v1.update(15, if sum > 255 { 1u8 } else { 0u8 });
            ((VmState { v: v2, ..s }), None)
        },
        Instr::SubReg { x, y } => {
            let flag: u8 = if s.v[x as int] > s.v[y as int] { 1u8 } else { 0u8 };
            let v1 = s.v.update(15, flag);
            let v2 = v1.update(x as int, v1[x as int].wrapping_sub(v1[y as int]));
            ((VmState { v: v2, ..s }), None)
        },
        Instr::ShiftRight { x } => {
            let v1 = s.v.update(15, s.v[x as int] & 1);
            let v2 = v1.update(x as int, v1[x as int] >> 1u8);
            ((VmState { v: v2, ..s }), None)
        },
        Instr::SubFrom { x, y } => {
            let flag: u8 = if s.v[y as int] > s.v[x as int] { 1u8 } else { 0u8 };
            let v1 = s.v.update(15, flag);
            let v2 = v1.update(x as int, v1[y as int].wrapping_sub(v1[x as int]));
            ((VmState { v: v2, ..s }), None)
        },
        Instr::ShiftLeft { x } => {
            let v1 = s.v.update(15, (s.v[x as int] & 0x80) >> 7u8);
            let v2 = v1.update(x as int, v1[x as int] << 1u8);
            ((VmState { v: v2, ..s }), None)
        },
        Instr::SkipNeReg { x, y } => (
            (VmState {
                pc: if s.v[x as int] != s.v[y as int] {
                    (s.pc + 2) as u16
                } else {
                    s.pc
                },
                ..s
            }),
            None,
        ),
        Instr::SetIndex { nnn } => ((VmState { index: nnn, ..s }), None),
        Instr::JumpPlusV0 { nnn } => ((VmState { pc: (nnn + s.v[0]) as u16, ..s }), None),
        Instr::Random { x, kk } => ((VmState { v: s.v.update(x as int, rnd & kk), ..s }), None),
        Instr::Draw { x, y, n } => spec_draw(s, x, y, n),
        Instr::SkipIfKey { x } => {
            let key = s.v[x as int];
            if key >= 16 {
                (s, Some(Fault::Memory))
            } else {
                (
                    (VmState {
                        pc: if s.keys[key as int] {
                            (s.pc + 2) as u16
                        } else {
                            s.pc
                        },
                        ..s
                    }),
                    None,
                )
            }
        },
        Instr::SkipIfNotKey { x } => {
            let key = s.v[x as int];
            if key >= 16 {
                (s, Some(Fault::Memory))
            } else {
                (
                    (VmState {
                        pc: if !s.keys[key as int] {
                            (s.pc + 2) as u16
                        } else {
                            s.pc
                        },
                        ..s
                    }),
                    None,
                )
            }
        },
        Instr::GetDelay { x } => ((VmState { v: s.v.update(x as int, s.delay_timer), ..s }), None),
        Instr::WaitForKey { x } => (
            (VmState { wait: WaitState::WaitingForKey { dest: x }, ..s }),
            None,
        ),
        Instr::SetDelay { x } => ((VmState { delay_timer: s.v[x as int], ..s }), None),
        Instr::SetSound { x: _ } => (s, None),
        Instr::AddIndex { x } => {
            let ni = s.index.wrapping_add(s.v[x as int] as u16);
            (
                (VmState {
                    index: ni,
                    v: s.v.update(15, if ni > 0x0F00 { 1u8 } else { 0u8 }),
                    ..s
                }),
                None,
            )
        },
        Instr::FontChar { x } => ((VmState { index: (5 * s.v[x as int]) as u16, ..s }), None),
        Instr::StoreBcd { x } => spec_store_bcd(s, x),
        Instr::RegDump { x } => spec_reg_dump(s, x),
        Instr::RegLoad { x } => spec_reg_load(s, x),
        Instr::Unknown => (s, Some(Fault::Decode)),
    }
}

/// What interpreting one 16-bit instruction word does: advance the program
/// counter by two, decode, execute.
pub open spec fn spec_interpret(s: VmState, w: u16, rnd: u8) -> (VmState, Option<Fault>) {
    spec_execute(advanced(s), spec_decode(w), rnd)
}

/// The big-endian instruction word at the program counter.
pub open spec fn fetch_word(s: VmState) -> u16 {
    (s.memory[s.pc as int] * 256 + s.memory[s.pc as int + 1]) as u16
}

/// One call of `step`: nothing while waiting for a key; a memory fault,
/// with nothing changed, if the program counter has left memory; otherwise
/// fetch, advance and execute, with `rnd` as the byte the random source
/// would supply.
pub open spec fn spec_step(s: VmState, rnd: u8) -> (VmState, Option<Fault>) {
    if spec_paused(s) {
        (s, None)
    } else if s.pc + 1 >= 4096 {
        (s, Some(Fault::Memory))
    } else {
        spec_interpret(s, fetch_word(s), rnd)
    }
}

/// The machine after one `step` per entry of `rnds`, faults and all.
pub open spec fn spec_run(s: VmState, rnds: Seq<u8>) -> VmState
    decreases rnds.len(),
{
    if rnds.len() == 0 {
        s
    } else {
        spec_run(spec_step(s, rnds[0]).0, rnds.drop_first())
    }
}

/// Running one more step extends a run at its end.
pub proof fn lemma_run_push(s: VmState, rnds: Seq<u8>, rnd: u8)
    ensures
        spec_run(s, rnds.push(rnd)) == spec_step(spec_run(s, rnds), rnd).0,
    decreases rnds.len(),
{
    if rnds.len() == 0 {
        let ts = rnds.push(rnd);
        assert(ts.len() == 1);
        assert(ts[0] == rnd);
        assert(ts.drop_first() =~= Seq::<u8>::empty());
        assert(spec_run(spec_step(s, rnd).0, ts.drop_first()) == spec_step(s, rnd).0);
        assert(spec_run(s, rnds) == s);
    } else {
        assert(rnds.push(rnd)[0] == rnds[0]);
        assert(rnds.push(rnd).drop_first() =~= rnds.drop_first().push(rnd));
        lemma_run_push(spec_step(s, rnds[0]).0, rnds.drop_first(), rnd);
    }
}

/// Relies on rand::thread_rng and rand::Rng::gen: one byte from the
/// thread-local random generator. Nothing is assumed about its value.
#[verifier::external_body]
fn random_byte() -> u8 {
    rand::thread_rng().gen()
}

impl Chip8 {
    /// XOR-draw one 8-pixel sprite row `b` with its left edge at `(sx, sy)`,
    /// setting VF to 1 on any collision (and never clearing it).
    fn draw_row(&mut self, b: u8, sx: u16, sy: u16)
        requires
            old(self).wf(),
            sx <= 255,
            sy <= 270,
        ensures
            final(self).wf(),
            final(self)@ == (VmState {
                display: apply_toggles(old(self)@.display, row_toggles(b, sx, sy, 0, 8)),
                v: if toggles_collide(old(self)@.display, row_toggles(b, sx, sy, 0, 8)) {
                    old(self)@.v.update(15, 1u8)
                } else {
                    old(self)@.v
                },
                ..old(self)@
            }),
    {
        let ghost d0 = old(self)@.display;
        let ghost v0 = old(self)@.v;
        let mut sprite = b;
        let mut col: u16 = 0;
        proof {
            assert(b << 0u8 == b) by (bit_vector);
        }
        while col < 8
            invariant
                col <= 8,
                sx <= 255,
                sy <= 270,
                old(self).wf(),
                d0 == old(self)@.display,
                v0 == old(self)@.v,
                sprite == b << (col as u8),
                self.memory@ == old(self)@.memory,
                self.index == old(self).index,
                self.pc == old(self).pc,
                self.stack == old(self).stack,
                self.sp == old(self).sp,
                self.delay_timer == old(self).delay_timer,
                self.speed == old(self).speed,
                self.wait == old(self).wait,
                self.keyboard == old(self).keyboard,
                self.monitor.wf(),
                self.monitor@ == apply_toggles(d0, row_toggles(b, sx, sy, 0, col as int)),
                self.v@ == (if toggles_collide(d0, row_toggles(b, sx, sy, 0, col as int)) {
                    v0.update(15, 1u8)
                } else {
                    v0
                }),
            decreases 8 - col,
        {
            let ghost done = row_toggles(b, sx, sy, 0, col as int);
            let ghost pre_d = self.monitor@;
            proof {
                lemma_row_toggles_split(b, sx, sy, 0, col as int, col as int + 1);
            }
            if (sprite & 0x80) > 0 {
                let tx = sx + col;
                let ghost t = (tx, sy);
                proof {
                    assert(row_toggles(b, sx, sy, col as int + 1, col as int + 1)
                        == Seq::<(u16, u16)>::empty());
                    assert(((b << (col as u8)) & 0x80) != 0);
                    assert(((sx + col as int) as u16) == tx);
                    assert(row_toggles(b, sx, sy, col as int, col as int + 1) == seq![t]
                        + row_toggles(b, sx, sy, col as int + 1, col as int + 1));
                    assert(seq![t] + Seq::<(u16, u16)>::empty() =~= seq![t]);
                    assert(row_toggles(b, sx, sy, col as int, col as int + 1) == seq![t]);
                    lemma_apply_concat(d0, done, seq![t]);
                    lemma_apply_single(pre_d, t);
                }
                let collided = self.monitor.set_pixel(tx, sy);
                if collided {
                    self.v.set(15, 1);
                }
                proof {
                    assert(v0.update(15, 1u8).update(15, 1u8) =~= v0.update(15, 1u8));
                }
            } else {
                proof {
                    assert(row_toggles(b, sx, sy, col as int + 1, col as int + 1)
                        == Seq::<(u16, u16)>::empty());
                    assert(((b << (col as u8)) & 0x80) == 0);
                    assert(row_toggles(b, sx, sy, col as int, col as int + 1)
                        == Seq::<(u16, u16)>::empty());
                    assert(done + Seq::<(u16, u16)>::empty() =~= done);
                }
            }
            proof {
                let cu = col as u8;
                assert(((b << cu) << 1u8) == (b << (cu + 1) as u8)) by (bit_vector)
                    requires
                        cu < 8,
                ;
            }
            sprite = sprite << 1u8;
            col = col + 1;
        }
        proof {
            assert(self@ =~= (VmState {
                display: apply_toggles(old(self)@.display, row_toggles(b, sx, sy, 0, 8)),
                v: if toggles_collide(old(self)@.display, row_toggles(b, sx, sy, 0, 8)) {
                    old(self)@.v.update(15, 1u8)
                } else {
                    old(self)@.v
                },
                ..old(self)@
            }));
        }
    }

    /// The draw instruction: clear VF, XOR-draw the `n`-row sprite at
    /// `memory[I..I+n]` at `(Vx, Vy)`, set VF to 1 exactly when some toggle
    /// turned a pixel off.
    fn draw_sprite(&mut self, x: u8, y: u8, n: u8) -> (r: Option<Fault>)
        requires
            old(self).wf(),
            x < 16,
            y < 16,
            n < 16,
        ensures
            final(self).wf(),
            final(self)@ == spec_draw(old(self)@, x, y, n).0,
            r == spec_draw(old(self)@, x, y, n).1,
    {
        if self.index as usize + n as usize > MEMORY_SIZE {
            return Some(Fault::Memory);
        }
        self.v.set(15, 0);
        let vx = self.v[x as usize] as u16;
        let vy = self.v[y as usize] as u16;
        let ghost s0 = old(self)@;
        let ghost cleared = s0.v.update(15, 0u8);
        let ghost ts = sprite_toggles(s0.memory, s0.index as int, vx, vy, 0, n as int);
        let mut row: u16 = 0;
        while row < n as u16
            invariant
                row <= n as u16,
                x < 16,
                y < 16,
                n < 16,
                old(self).wf(),
                s0 == old(self)@,
                cleared == s0.v.update(15, 0u8),
                s0.index + n <= 4096,
                vx <= 255,
                vy <= 255,
                vx == cleared[x as int] as u16,
                vy == cleared[y as int] as u16,
                ts == sprite_toggles(s0.memory, s0.index as int, vx, vy, 0, n as int),
                self.memory@ == s0.memory,
                self.index == old(self).index,
                self.pc == old(self).pc,
                self.stack@ == s0.stack,
                self.sp == old(self).sp,
                self.delay_timer == old(self).delay_timer,
                self.speed == old(self).speed,
                self.wait == old(self).wait,
                self.keyboard@ == s0.keys,
                self.monitor.wf(),
                self.keyboard.wf(),
                self.v@.len() == 16,
                self.monitor@ == apply_toggles(
                    s0.display,
                    sprite_toggles(s0.memory, s0.index as int, vx, vy, 0, row as int),
                ),
                self.v@ == (if toggles_collide(
                    s0.display,
                    sprite_toggles(s0.memory, s0.index as int, vx, vy, 0, row as int),
                ) {
                    cleared.update(15, 1u8)
                } else {
                    cleared
                }),
            decreases n as u16 - row,
        {
            let b = self.memory[self.index as usize + row as usize];
            let sy = vy + row;
            let ghost done = sprite_toggles(s0.memory, s0.index as int, vx, vy, 0, row as int);
            let ghost rowt = row_toggles(b, vx, sy, 0, 8);
            proof {
                lemma_sprite_toggles_split(
                    s0.memory,
                    s0.index as int,
                    vx,
                    vy,
                    0,
                    row as int,
                    row as int + 1,
                );
                assert(sprite_toggles(
                    s0.memory,
                    s0.index as int,
                    vx,
                    vy,
                    row as int + 1,
                    row as int + 1,
                ) == Seq::<(u16, u16)>::empty());
                assert(s0.memory[s0.index as int + row as int] == b);
                assert(((vy + row as int) as u16) == sy);
                assert(sprite_toggles(
                    s0.memory,
                    s0.index as int,
                    vx,
                    vy,
                    row as int,
                    row as int + 1,
                ) == row_toggles(b, vx, sy, 0, 8) + sprite_toggles(
                    s0.memory,
                    s0.index as int,
                    vx,
                    vy,
                    row as int + 1,
                    row as int + 1,
                ));
                assert(rowt + Seq::<(u16, u16)>::empty() =~= rowt);
                lemma_apply_concat(s0.display, done, rowt);
            }
            self.draw_row(b, vx, sy);
            proof {
                assert(cleared.update(15, 1u8).update(15, 1u8) =~= cleared.update(15, 1u8));
            }
            row = row + 1;
        }
        proof {
            assert(cleared.update(15, 0u8) =~= cleared);
            assert(self@ =~= spec_draw(s0, x, y, n).0);
        }
        None
    }

    /// The store-bcd instruction.
    fn store_bcd(&mut self, x: u8) -> (r: Option<Fault>)
        requires
            old(self).wf(),
            x < 16,
        ensures
            final(self).wf(),
            final(self)@ == spec_store_bcd(old(self)@, x).0,
            r == spec_store_bcd(old(self)@, x).1,
    {
        if self.index as usize + 3 > MEMORY_SIZE {
            return Some(Fault::Memory);
        }
        let val = self.v[x as usize];
        let i = self.index as usize;
        self.memory.set(i, val / 100);
        self.memory.set(i + 1, (val % 100) / 10);
        self.memory.set(i + 2, val % 10);
        proof {
            assert(self@ =~= spec_store_bcd(old(self)@, x).0);
        }
        None
    }

    /// The reg-dump instruction.
    fn reg_dump(&mut self, x: u8) -> (r: Option<Fault>)
        requires
            old(self).wf(),
            x < 16,
        ensures
            final(self).wf(),
            final(self)@ == spec_reg_dump(old(self)@, x).0,
            r == spec_reg_dump(old(self)@, x).1,
    {
        if self.index as usize + x as usize + 1 > MEMORY_SIZE {
            return Some(Fault::Memory);
        }
        let mut i: usize = 0;
        while i <= x as usize
            invariant
                i <= x as usize + 1,
                x < 16,
                old(self).wf(),
                old(self)@.index + x + 1 <= 4096,
                self.memory@.len() == 4096,
                forall|j: int|
                    old(self)@.index <= j < old(self)@.index + i ==> self.memory@[j] == old(
                        self,
                    )@.v[j - old(self)@.index],
                forall|j: int|
                    0 <= j < 4096 && !(old(self)@.index <= j < old(self)@.index + i)
                        ==> self.memory@[j] == old(self)@.memory[j],
                self.v == old(self).v,
                self.index == old(self).index,
                self.pc == old(self).pc,
                self.stack == old(self).stack,
                self.sp == old(self).sp,
                self.delay_timer == old(self).delay_timer,
                self.speed == old(self).speed,
                self.wait == old(self).wait,
                self.keyboard == old(self).keyboard,
                self.monitor == old(self).monitor,
            decreases x as usize + 1 - i,
        {
            let val = self.v[i];
            self.memory.set(self.index as usize + i, val);
            i = i + 1;
        }
        proof {
            let s = old(self)@;
            assert(self.memory@ =~= Seq::new(
                4096,
                |j: int|
                    if s.index <= j < s.index + x + 1 {
                        s.v[j - s.index]
                    } else {
                        s.memory[j]
                    },
            ));
            assert(self@ =~= spec_reg_dump(old(self)@, x).0);
        }
        None
    }

    /// The reg-load instruction.
    fn reg_load(&mut self, x: u8) -> (r: Option<Fault>)
        requires
            old(self).wf(),
            x < 16,
        ensures
            final(self).wf(),
            final(self)@ == spec_reg_load(old(self)@, x).0,
            r == spec_reg_load(old(self)@, x).1,
    {
        if self.index as usize + x as usize + 1 > MEMORY_SIZE {
            return Some(Fault::Memory);
        }
        let mut i: usize = 0;
        while i <= x as usize
            invariant
                i <= x as usize + 1,
                x < 16,
                old(self).wf(),
                old(self)@.index + x + 1 <= 4096,
                self.v@.len() == 16,
                forall|j: int| 0 <= j < i ==> self.v@[j] == old(self)@.memory[old(self)@.index + j],
                forall|j: int| i <= j < 16 ==> self.v@[j] == old(self)@.v[j],
                self.memory == old(self).memory,
                self.index == old(self).index,
                self.pc == old(self).pc,
                self.stack == old(self).stack,
                self.sp == old(self).sp,
                self.delay_timer == old(self).delay_timer,
                self.speed == old(self).speed,
                self.wait == old(self).wait,
                self.keyboard == old(self).keyboard,
                self.monitor == old(self).monitor,
            decreases x as usize + 1 - i,
        {
            let val = self.memory[self.index as usize + i];
            self.v.set(i, val);
            i = i + 1;
        }
        proof {
            let s = old(self)@;
            assert(self.v@ =~= Seq::new(
                16,
                |j: int|
                    if 0 <= j <= x {
                        s.memory[s.index + j]
                    } else {
                        s.v[j]
                    },
            ));
            assert(self@ =~= spec_reg_load(old(self)@, x).0);
        }
        None
    }

    /// Interpret one decoded instruction word, with `rnd` standing in for
    /// the random source: the state change is exactly `spec_interpret`, for
    /// every value of `rnd`.
    #[verifier::rlimit(100)]
    pub fn execute(&mut self, instruction: u16, rnd: u8) -> (r: Option<Fault>)
        requires
            old(self).wf(),
            old(self).pc <= 0xFFFB,
        ensures
            final(self).wf(),
            final(self)@ == spec_interpret(old(self)@, instruction, rnd).0,
            r == spec_interpret(old(self)@, instruction, rnd).1,
    {
        self.pc = self.pc + 2;
        let ghost s = advanced(old(self)@);
        proof {
            assert(self@ =~= s);
        }
        let i = decode(instruction);
        match i {
            Instr::ClearScreen => {
                self.monitor.clear();
                proof {
                    assert(self@.display =~= Seq::new(2048, |j: int| 0u16));
                    assert(self@ =~= spec_execute(s, i, rnd).0);
                }
                None
            },
            Instr::Return => {
                match self.stack.pop() {
                    Some(addr) => {
                        self.pc = addr;
                        if self.sp > 0 {
                            self.sp = self.sp - 1;
                        }
                        proof {
                            assert(self.stack@ =~= s.stack.drop_last());
                            assert(self@ =~= spec_execute(s, i, rnd).0);
                        }
                    },
                    None => {
                        proof {
                            assert(self@ =~= spec_execute(s, i, rnd).0);
                        }
                    },
                }
                None
            },
            Instr::Jump { nnn } => {
                self.pc = nnn;
                proof {
                    assert(self@ =~= spec_execute(s, i, rnd).0);
                }
                None
            },
            Instr::Call { nnn } => {
                self.stack.push(self.pc);
                self.pc = nnn;
                proof {
                    assert(self@ =~= spec_execute(s, i, rnd).0);
                }
                None
            },
            Instr::SkipEqByte { x, kk } => {
                if self.v[x as usize] == kk {
                    self.pc = self.pc + 2;
                }
                None
            },
            Instr::SkipNeByte { x, kk } => {
                if self.v[x as usize] != kk {
                    self.pc = self.pc + 2;
                }
                None
            },
            Instr::SkipEqReg { x, y } => {
                if self.v[x as usize] == self.v[y as usize] {
                    self.pc = self.pc + 2;
                }
                None
            },
            Instr::SetByte { x, kk } => {
                self.v.set(x as usize, kk);
                proof {
                    assert(self@ =~= spec_execute(s, i, rnd).0);
                }
                None
            },
            Instr::AddByte { x, kk } => {
                let sum = self.v[x as usize] as u16 + kk as u16;
                self.v.set(x as usize, (sum % 256) as u8);
                proof {
                    assert(self@ =~= spec_execute(s, i, rnd).0);
                }
                None
            },
            Instr::CopyReg { x, y } => {
                let val = self.v[y as usize];
                self.v.set(x as usize, val);
                proof {
                    assert(self@ =~= spec_execute(s, i, rnd).0);
                }
                None
            },
            Instr::OrReg { x, y } => {
                let val = self.v[x as usize] | self.v[y as usize];
                self.v.set(x as usize, val);
                proof {
                    assert(self@ =~= spec_execute(s, i, rnd).0);
                }
                None
            },
            Instr::AndReg { x, y } => {
                let val = self.v[x as usize] & self.v[y as usize];
                self.v.set(x as usize, val);
                proof {
                    assert(self@ =~= spec_execute(s, i, rnd).0);
                }
                None
            },
            Instr::XorReg { x, y } => {
                let val = self.v[x as usize] ^ self.v[y as usize];
                self.v.set(x as usize, val);
                proof {
                    assert(self@ =~= spec_execute(s, i, rnd).0);
                }
                None
            },
            Instr::AddReg { x, y } => {
                let sum = self.v[x as usize] as u16 + self.v[y as usize] as u16;
                self.v.set(x as usize, (sum % 256) as u8);
                self.v.set(15, if sum > 255 { 1 } else { 0 });
                proof {
                    assert(self@ =~= spec_execute(s, i, rnd).0);
                }
                None
            },
            Instr::SubReg { x, y } => {
                let flag: u8 = if self.v[x as usize] > self.v[y as usize] { 1 } else { 0 };
                self.v.set(15, flag);
                let a = self.v[x as usize];
                let b = self.v[y as usize];
                self.v.set(x as usize, a.wrapping_sub(b));
                proof {
                    assert(self@ =~= spec_execute(s, i, rnd).0);
                }
                None
            },
            Instr::ShiftRight { x } => {
                let low = self.v[x as usize] & 1;
                self.v.set(15, low);
                let a = self.v[x as usize];
                self.v.set(x as usize, a >> 1u8);
                proof {
                    assert(self@ =~= spec_execute(s, i, rnd).0);
                }
                None
            },
            Instr::SubFrom { x, y } => {
                let flag: u8 = if self.v[y as usize] > self.v[x as usize] { 1 } else { 0 };
                self.v.set(15, flag);
                let a = self.v[x as usize];
                let b = self.v[y as usize];
                self.v.set(x as usize, b.wrapping_sub(a));
                proof {
                    assert(self@ =~= spec_execute(s, i, rnd).0);
                }
                None
            },
            Instr::ShiftLeft { x } => {
                let high = (self.v[x as usize] & 0x80) >> 7u8;
                self.v.set(15, high);
                let a = self.v[x as usize];
                self.v.set(x as usize, a << 1u8);
                proof {
                    assert(self@ =~= spec_execute(s, i, rnd).0);
                }
                None
            },
            Instr::SkipNeReg { x, y } => {
                if self.v[x as usize] != self.v[y as usize] {
                    self.pc = self.pc + 2;
                }
                None
            },
            Instr::SetIndex { nnn } => {
                self.index = nnn;
                proof {
                    assert(self@ =~= spec_execute(s, i, rnd).0);
                }
                None
            },
            Instr::JumpPlusV0 { nnn } => {
                self.pc = nnn + self.v[0] as u16;
                proof {
                    assert(self@ =~= spec_execute(s, i, rnd).0);
                }
                None
            },
            Instr::Random { x, kk } => {
                self.v.set(x as usize, rnd & kk);
                proof {
                    assert(self@ =~= spec_execute(s, i, rnd).0);
                }
                None
            },
            Instr::Draw { x, y, n } => {
                let r = self.draw_sprite(x, y, n);
                proof {
                    assert(self@ == spec_execute(s, i, rnd).0);
                }
                r
            },
            Instr::SkipIfKey { x } => {
                let key = self.v[x as usize];
                if key >= 16 {
                    proof {
                        assert(self@ =~= spec_execute(s, i, rnd).0);
                    }
                    Some(Fault::Memory)
                } else {
                    if self.keyboard.is_key_pressed(key) {
                        self.pc = self.pc + 2;
                    }
                    proof {
                        assert(self@ =~= spec_execute(s, i, rnd).0);
                    }
                    None
                }
            },
            Instr::SkipIfNotKey { x } => {
                let key = self.v[x as usize];
                if key >= 16 {
                    proof {
                        assert(self@ =~= spec_execute(s, i, rnd).0);
                    }
                    Some(Fault::Memory)
                } else {
                    if !self.keyboard.is_key_pressed(key) {
                        self.pc = self.pc + 2;
                    }
                    proof {
                        assert(self@ =~= spec_execute(s, i, rnd).0);
                    }
                    None
                }
            },
            Instr::GetDelay { x } => {
                let val = self.delay_timer;
                self.v.set(x as usize, val);
                proof {
                    assert(self@ =~= spec_execute(s, i, rnd).0);
                }
                None
            },
            Instr::WaitForKey { x } => {
                self.wait = WaitState::WaitingForKey { dest: x };
                proof {
                    assert(self@ =~= spec_execute(s, i, rnd).0);
                }
                None
            },
            Instr::SetDelay { x } => {
                self.delay_timer = self.v[x as usize];
                proof {
                    assert(self@ =~= spec_execute(s, i, rnd).0);
                }
                None
            },
            Instr::SetSound { x: _ } => { None },
            Instr::AddIndex { x } => {
                let ni = self.index.wrapping_add(self.v[x as usize] as u16);
                self.index = ni;
                self.v.set(15, if ni > 0x0F00 { 1 } else { 0 });
                proof {
                    assert(self@ =~= spec_execute(s, i, rnd).0);
                }
                None
            },
            Instr::FontChar { x } => {
                self.index = 5 * (self.v[x as usize] as u16);
                proof {
                    assert(self@ =~= spec_execute(s, i, rnd).0);
                }
                None
            },
            Instr::StoreBcd { x } => {
                let r = self.store_bcd(x);
                proof {
                    assert(self@ == spec_execute(s, i, rnd).0);
                }
                r
            },
            Instr::RegDump { x } => {
                let r = self.reg_dump(x);
                proof {
                    assert(self@ == spec_execute(s, i, rnd).0);
                }
                r
            },
            Instr::RegLoad { x } => {
                let r = self.reg_load(x);
                proof {
                    assert(self@ == spec_execute(s, i, rnd).0);
                }
                r
            },
            Instr::Unknown => {
                proof {
                    assert(self@ =~= spec_execute(s, i, rnd).0);
                }
                Some(Fault::Decode)
            },
        }
    }

    /// Interpret one instruction word, drawing the random byte from the
    /// machine's random source.
    pub fn interpret_instruction(&mut self, instruction: usize) -> (r: Option<Fault>)
        requires
            old(self).wf(),
            instruction <= 0xFFFF,
            old(self).pc <= 0xFFFB,
        ensures
            final(self).wf(),
            exists|rnd: u8|
                #![trigger spec_interpret(old(self)@, instruction as u16, rnd)]
                final(self)@ == spec_interpret(old(self)@, instruction as u16, rnd).0 && r
                    == spec_interpret(old(self)@, instruction as u16, rnd).1,
    {
        let rnd = random_byte();
        let f = self.execute(instruction as u16, rnd);
        proof {
            assert(self@ == spec_interpret(old(self)@, instruction as u16, rnd).0 && f
                == spec_interpret(old(self)@, instruction as u16, rnd).1);
        }
        f
    }

    /// Execute exactly one instruction: nothing while waiting for a key; a
    /// memory fault, with nothing changed, if the program counter has left
    /// memory; otherwise fetch at PC, advance PC by 2, execute.
    pub fn step(&mut self) -> (r: Option<Fault>)
        requires
            old(self).wf(),
        ensures
            final(self).wf(),
            exists|rnd: u8|
                #![trigger spec_step(old(self)@, rnd)]
                final(self)@ == spec_step(old(self)@, rnd).0 && r == spec_step(
                    old(self)@,
                    rnd,
                ).1,
    {
        if self.paused() {
            proof {
                assert(self@ == spec_step(old(self)@, 0u8).0 && None::<Fault> == spec_step(
                    old(self)@,
                    0u8,
                ).1);
            }
            return None;
        }
        if self.pc >= 4095 {
            proof {
                assert(self@ == spec_step(old(self)@, 0u8).0 && Some(Fault::Memory) == spec_step(
                    old(self)@,
                    0u8,
                ).1);
            }
            return Some(Fault::Memory);
        }
        let hi = self.memory[self.pc as usize];
        let lo = self.memory[self.pc as usize + 1];
        let h16 = hi as u16;
        let l16 = lo as u16;
        let w: u16 = (h16 << 8u16) | l16;
        proof {
            assert((h16 << 8u16) | l16 == h16 * 256 + l16) by (bit_vector)
                requires
                    h16 < 256,
                    l16 < 256,
            ;
            assert(w == fetch_word(old(self)@));
        }
        let rnd = random_byte();
        let f = self.execute(w, rnd);
        proof {
            assert(self@ == spec_step(old(self)@, rnd).0 && f == spec_step(old(self)@, rnd).1);
        }
        f
    }

    /// One driver frame: run `speed` steps (each a no-op while waiting for
    /// a key), then tick the timer once.
    pub fn cycle(&mut self)
        requires
            old(self).wf(),
        ensures
            final(self).wf(),
            exists|rnds: Seq<u8>|
                #![trigger spec_run(old(self)@, rnds)]
                rnds.len() == old(self)@.speed && final(self)@ == spec_tick(
                    spec_run(old(self)@, rnds),
                ),
    {
        let speed = self.speed;
        let ghost mut rnds: Seq<u8> = Seq::empty();
        let mut i: u8 = 0;
        while i < speed
            invariant
                self.wf(),
                i <= speed,
                rnds.len() == i as nat,
                self@ == spec_run(old(self)@, rnds),
            decreases speed - i,
        {
            let ghost pre = self@;
            let _f = self.step();
            proof {
                let rnd = choose|rnd: u8|
                    self@ == spec_step(pre, rnd).0 && _f == spec_step(pre, rnd).1;
                lemma_run_push(old(self)@, rnds, rnd);
                rnds = rnds.push(rnd);
            }
            i = i + 1;
        }
        self.update_timer();
        proof {
            assert(rnds.len() == old(self)@.speed);
            assert(self@ == spec_tick(spec_run(old(self)@, rnds)));
        }
    }
}

} // verus!
