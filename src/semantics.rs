//! The machine's state as mathematical values, and what each instruction does
//! to it.
use vstd::prelude::*;

verus! {

/// A fault the machine reports instead of acting. A faulting instruction leaves
/// the machine as it was before it was fetched; a refused program leaves memory
/// as it was.
#[derive(Clone, Copy, Debug, PartialEq, Eq, Structural)]
pub enum Fault {
    /// The word at `pc` is no instruction of the set.
    UnknownOpcode { opcode: u16, pc: u16 },
    /// A call at `pc` with all sixteen stack slots in use.
    StackOverflow { pc: u16 },
    /// A return at `pc` with an empty stack.
    StackUnderflow { pc: u16 },
    /// The instruction at `pc` reaches memory at or past 4096, starting at `addr`.
    MemoryOutOfBounds { pc: u16, addr: u16 },
    /// The instruction at `pc` names key `key`, which the keypad does not have.
    KeyOutOfRange { pc: u16, key: u8 },
    /// A program of `len` bytes does not fit above the start address.
    RomTooLarge { len: usize },
}

/// The whole observable state of the machine.
pub struct MachineState {
    /// 64 x 32 pixels, row by row.
    pub screen: Seq<bool>,
    /// 4096 bytes.
    pub memory: Seq<u8>,
    /// V0 to VF.
    pub v: Seq<u8>,
    pub pc: u16,
    pub i: u16,
    pub delay: u8,
    pub sound: u8,
    /// Sixteen return-address slots; the first `sp` are in use.
    pub stack: Seq<u16>,
    pub sp: u16,
    pub keys: Seq<bool>,
}

impl MachineState {
    /// The sizes that the machine's parts always have.
    pub open spec fn wf(self) -> bool {
        &&& self.screen.len() == 2048
        &&& self.memory.len() == 4096
        &&& self.v.len() == 16
        &&& self.stack.len() == 16
        &&& self.keys.len() == 16
        &&& self.sp <= 16
    }
}

/// The sixteen hex-digit glyphs, five bytes each; glyph `d` starts at `5 * d`.
pub open spec fn font() -> Seq<u8> {
    seq![
        0xF0u8, 0x90, 0x90, 0x90, 0xF0,
        0x20, 0x60, 0x20, 0x20, 0x70,
        0xF0, 0x10, 0xF0, 0x80, 0xF0,
        0xF0, 0x10, 0xF0, 0x10, 0xF0,
        0x90, 0x90, 0xF0, 0x10, 0x10,
        0xF0, 0x80, 0xF0, 0x10, 0xF0,
        0xF0, 0x80, 0xF0, 0x90, 0xF0,
        0xF0, 0x10, 0x20, 0x40, 0x40,
        0xF0, 0x90, 0xF0, 0x90, 0xF0,
        0xF0, 0x90, 0xF0, 0x10, 0xF0,
        0xF0, 0x90, 0xF0, 0x90, 0x90,
        0xE0, 0x90, 0xE0, 0x90, 0xE0,
        0xF0, 0x80, 0x80, 0x80, 0xF0,
        0xE0, 0x90, 0x90, 0x90, 0xE0,
        0xF0, 0x80, 0xF0, 0x80, 0xF0,
        0xF0, 0x80, 0xF0, 0x80, 0x80,
    ]
}

/// Memory as it is after power-on or reset: the font at address 0, zeros after it.
pub open spec fn initial_memory() -> Seq<u8> {
    Seq::new(4096, |a: int| if a < 80 { font()[a] } else { 0u8 })
}

/// The state after power-on or reset.
pub open spec fn initial_state() -> MachineState {
    MachineState {
        screen: Seq::new(2048, |p: int| false),
        memory: initial_memory(),
        v: Seq::new(16, |r: int| 0u8),
        pc: 0x200,
        i: 0,
        delay: 0,
        sound: 0,
        stack: Seq::new(16, |k: int| 0u16),
        sp: 0,
        keys: Seq::new(16, |k: int| false),
    }
}

/// Memory with `rom` copied in at the start address.
pub open spec fn loaded_memory(memory: Seq<u8>, rom: Seq<u8>) -> Seq<u8> {
    Seq::new(
        memory.len(),
        |a: int| if 0x200 <= a < 0x200 + rom.len() { rom[a - 0x200] } else { memory[a] },
    )
}

/// The highest nibble of an opcode, which selects the instruction group.
pub open spec fn nibble1(op: u16) -> int {
    op as int / 4096
}

/// The second nibble: register x.
pub open spec fn nibble2(op: u16) -> int {
    (op as int / 256) % 16
}

/// The third nibble: register y.
pub open spec fn nibble3(op: u16) -> int {
    (op as int / 16) % 16
}

/// The lowest nibble: n.
pub open spec fn nibble4(op: u16) -> int {
    op as int % 16
}

/// The low byte: kk.
pub open spec fn low_byte(op: u16) -> u8 {
    (op as int % 256) as u8
}

/// The low twelve bits: the address nnn.
pub open spec fn address(op: u16) -> u16 {
    (op as int % 4096) as u16
}

/// The big-endian word at `pc`.
pub open spec fn fetch(s: MachineState) -> u16 {
    (s.memory[s.pc as int] as int * 256 + s.memory[s.pc as int + 1] as int) as u16
}

/// Whether column `col` (0 is leftmost) of sprite row `b` is set.
pub open spec fn sprite_bit(b: u8, col: int) -> bool {
    (b >> ((7 - col) as u8)) & 1u8 == 1u8
}

/// Column of pixel `p`, counted rightwards from `x` with wraparound.
pub open spec fn sprite_dx(x: int, p: int) -> int {
    (p % 64 - x) % 64
}

/// Row of pixel `p`, counted downwards from `y` with wraparound.
pub open spec fn sprite_dy(y: int, p: int) -> int {
    (p / 64 - y) % 32
}

/// Whether a set bit of the `n`-row sprite at `memory[i..i + n]`, placed at
/// `(x, y)`, lands on pixel `p`.
pub open spec fn covers(memory: Seq<u8>, i: int, x: int, y: int, n: int, p: int) -> bool {
    let dx = sprite_dx(x, p);
    let dy = sprite_dy(y, p);
    dx < 8 && dy < n && sprite_bit(memory[i + dy], dx)
}

/// The screen after the sprite is XORed onto it.
pub open spec fn drawn_screen(s: MachineState, x: int, y: int, n: int) -> Seq<bool> {
    Seq::new(2048, |p: int| s.screen[p] != covers(s.memory, s.i as int, x, y, n, p))
}

/// Whether drawing the sprite turns some lit pixel off.
pub open spec fn collides(s: MachineState, x: int, y: int, n: int) -> bool {
    exists|p: int| 0 <= p < 2048 && #[trigger] covers(s.memory, s.i as int, x, y, n, p) && s.screen[p]
}

/// Registers with `vx` written to Vx and then `flag` to VF.
pub open spec fn with_flag(s: MachineState, x: int, vx: u8, flag: bool) -> MachineState {
    MachineState { v: s.v.update(x, vx).update(15, if flag { 1u8 } else { 0u8 }), ..s }
}

/// `s` with Vx set to `val`.
pub open spec fn set_v(s: MachineState, x: int, val: u8) -> MachineState {
    MachineState { v: s.v.update(x, val), ..s }
}

/// `s` with the next instruction skipped when `cond` holds.
pub open spec fn skip_if(s: MachineState, cond: bool) -> MachineState {
    if cond {
        MachineState { pc: (s.pc + 2) as u16, ..s }
    } else {
        s
    }
}

/// The arithmetic and logic group, 8xyN.
pub open spec fn execute_alu(s: MachineState, op: u16) -> Result<MachineState, Fault> {
    let x = nibble2(op);
    let y = nibble3(op);
    let a = s.v[x];
    let b = s.v[y];
    let n = nibble4(op);
    if n == 0 {
        Ok(set_v(s, x, b))
    } else if n == 1 {
        Ok(set_v(s, x, a | b))
    } else if n == 2 {
        Ok(set_v(s, x, a & b))
    } else if n == 3 {
        Ok(set_v(s, x, a ^ b))
    } else if n == 4 {
        Ok(with_flag(s, x, ((a + b) % 256) as u8, a + b > 255))
    } else if n == 5 {
        Ok(with_flag(s, x, ((a - b) % 256) as u8, a >= b))
    } else if n == 6 {
        Ok(with_flag(s, x, (a / 2) as u8, a % 2 == 1))
    } else if n == 7 {
        Ok(with_flag(s, x, ((b - a) % 256) as u8, b >= a))
    } else if n == 0xE {
        Ok(with_flag(s, x, ((a * 2) % 256) as u8, a >= 128))
    } else {
        Err(Fault::UnknownOpcode { opcode: op, pc: (s.pc - 2) as u16 })
    }
}

/// The timer, keypad and memory group, FxNN.
pub open spec fn execute_misc(s: MachineState, op: u16) -> Result<MachineState, Fault> {
    let x = nibble2(op);
    let kk = low_byte(op);
    let vx = s.v[x];
    let at = (s.pc - 2) as u16;
    if kk == 0x07 {
        Ok(set_v(s, x, s.delay))
    } else if kk == 0x0A {
        if exists|k: int| 0 <= k < 16 && #[trigger] s.keys[k] {
            Ok(set_v(s, x, 1))
        } else {
            Ok(MachineState { pc: (s.pc - 2) as u16, ..s })
        }
    } else if kk == 0x15 {
        Ok(MachineState { delay: vx, ..s })
    } else if kk == 0x18 {
        Ok(MachineState { sound: vx, ..s })
    } else if kk == 0x1E {
        Ok(MachineState { i: ((s.i + vx) % 65536) as u16, ..s })
    } else if kk == 0x29 {
        Ok(MachineState { i: (vx * 5) as u16, ..s })
    } else if kk == 0x33 || kk == 0x55 || kk == 0x65 {
        let len = if kk == 0x33 { 3 } else { x + 1 };
        if s.i + len > 4096 {
            Err(Fault::MemoryOutOfBounds { pc: at, addr: s.i })
        } else if kk == 0x33 {
            Ok(MachineState {
                memory: s.memory.update(s.i as int, vx / 100).update(
                    s.i + 1,
                    (vx / 10) % 10,
                ).update(s.i + 2, vx % 10),
                ..s
            })
        } else if kk == 0x55 {
            Ok(MachineState {
                memory: Seq::new(
                    4096,
                    |a: int| if s.i <= a <= s.i + x { s.v[a - s.i] } else { s.memory[a] },
                ),
                ..s
            })
        } else {
            Ok(MachineState {
                v: Seq::new(16, |r: int| if r <= x { s.memory[s.i + r] } else { s.v[r] }),
                ..s
            })
        }
    } else {
        Err(Fault::UnknownOpcode { opcode: op, pc: at })
    }
}

/// What instruction `op` does to `s`, whose program counter has already moved
/// past it; `rnd` is the random byte that Cxkk uses. A fault names the
/// instruction's own address.
pub open spec fn execute(s: MachineState, op: u16, rnd: u8) -> Result<MachineState, Fault> {
    let d1 = nibble1(op);
    let x = nibble2(op);
    let y = nibble3(op);
    let n = nibble4(op);
    let kk = low_byte(op);
    let nnn = address(op);
    let at = (s.pc - 2) as u16;
    if op == 0x0000 {
        Ok(s)
    } else if op == 0x00E0 {
        Ok(MachineState { screen: Seq::new(2048, |p: int| false), ..s })
    } else if op == 0x00EE {
        if s.sp == 0 {
            Err(Fault::StackUnderflow { pc: at })
        } else {
            Ok(MachineState { pc: s.stack[s.sp - 1], sp: (s.sp - 1) as u16, ..s })
        }
    } else if d1 == 1 {
        Ok(MachineState { pc: nnn, ..s })
    } else if d1 == 2 {
        if s.sp >= 16 {
            Err(Fault::StackOverflow { pc: at })
        } else {
            Ok(
                MachineState {
                    stack: s.stack.update(s.sp as int, s.pc),
                    sp: (s.sp + 1) as u16,
                    pc: nnn,
                    ..s
                },
            )
        }
    } else if d1 == 3 {
        Ok(skip_if(s, s.v[x] == kk))
    } else if d1 == 4 {
        Ok(skip_if(s, s.v[x] != kk))
    } else if d1 == 5 && n == 0 {
        Ok(skip_if(s, s.v[x] == s.v[y]))
    } else if d1 == 6 {
        Ok(set_v(s, x, kk))
    } else if d1 == 7 {
        Ok(set_v(s, x, ((s.v[x] + kk) % 256) as u8))
    } else if d1 == 8 {
        execute_alu(s, op)
    } else if d1 == 9 && n == 0 {
        Ok(skip_if(s, s.v[x] != s.v[y]))
    } else if d1 == 0xA {
        Ok(MachineState { i: nnn, ..s })
    } else if d1 == 0xB {
        Ok(MachineState { pc: (s.v[0] + nnn) as u16, ..s })
    } else if d1 == 0xC {
        Ok(set_v(s, x, rnd & kk))
    } else if d1 == 0xD {
        if n > 0 && s.i + n > 4096 {
            Err(Fault::MemoryOutOfBounds { pc: at, addr: s.i })
        } else {
            let cx = s.v[x] as int;
            let cy = s.v[y] as int;
            Ok(
                MachineState {
                    screen: drawn_screen(s, cx, cy, n),
                    v: s.v.update(15, if collides(s, cx, cy, n) { 1u8 } else { 0u8 }),
                    ..s
                },
            )
        }
    } else if d1 == 0xE && (kk == 0x9E || kk == 0xA1) {
        if s.v[x] >= 16 {
            Err(Fault::KeyOutOfRange { pc: at, key: s.v[x] })
        } else if kk == 0x9E {
            Ok(skip_if(s, s.keys[s.v[x] as int]))
        } else {
            Ok(skip_if(s, !s.keys[s.v[x] as int]))
        }
    } else if d1 == 0xF {
        execute_misc(s, op)
    } else {
        Err(Fault::UnknownOpcode { opcode: op, pc: at })
    }
}

/// The state that an instruction leaves behind, or its fault.
pub open spec fn outcome(r: Result<(), Fault>, s: MachineState) -> Result<MachineState, Fault> {
    match r {
        Ok(_) => Ok(s),
        Err(f) => Err(f),
    }
}

/// Whether `op` is the one instruction that reads a random byte (Cxkk).
pub open spec fn uses_random(op: u16) -> bool {
    nibble1(op) == 0xC
}

/// One fetch-decode-execute cycle. On a fault the state stays as it was.
pub open spec fn step(s: MachineState, rnd: u8) -> Result<MachineState, Fault> {
    if s.pc as int + 1 >= 4096 {
        Err(Fault::MemoryOutOfBounds { pc: s.pc, addr: s.pc })
    } else {
        execute(MachineState { pc: (s.pc + 2) as u16, ..s }, fetch(s), rnd)
    }
}

/// One timer tick: both timers count down towards zero.
pub open spec fn tick_timers_state(s: MachineState) -> MachineState {
    MachineState {
        delay: if s.delay > 0 { (s.delay - 1) as u8 } else { 0u8 },
        sound: if s.sound > 0 { (s.sound - 1) as u8 } else { 0u8 },
        ..s
    }
}

/// Whether a timer tick from `s` requests a tone: the sound timer's last active tick.
pub open spec fn tone_requested(s: MachineState) -> bool {
    s.sound == 1
}

} // verus!
