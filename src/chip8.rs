//! The machine itself: its state and the execution engine over it.
use crate::constants::{
    FONTSET_SIZE, MAX_ROM_SIZE, NUM_KEYS, NUM_REGS, RAM_SIZE, SCREEN_SIZE, STACK_SIZE, START_ADDR,
};
use crate::random::random_byte;
use crate::semantics::{
    collides, covers, drawn_screen, execute, execute_alu, execute_misc, fetch, font, initial_memory,
    initial_state, loaded_memory, sprite_bit, sprite_dx, sprite_dy, step, tick_timers_state,
    tone_requested, outcome, uses_random, Fault, MachineState,
};
use crate::sprite::{lemma_pixel_index, pixel_index};
use crate::text::{append_decimal, decimal};
use vstd::prelude::*;
use vstd::string::StringExecFns;

verus! {

/// A CHIP-8 machine.
#[derive(Debug)]
pub struct Chip8 {
    screen: [bool; SCREEN_SIZE],
    memory: [u8; RAM_SIZE],
    v_reg: [u8; NUM_REGS],
    pc: u16,
    i_reg: u16,
    delay_timer_reg: u8,
    sound_timer_reg: u8,
    stack: [u16; STACK_SIZE],
    stack_pointer: u16,
    keyboard: [bool; NUM_KEYS],
    rng: rand::rngs::ThreadRng,
}

impl View for Chip8 {
    type V = MachineState;

    closed spec fn view(&self) -> MachineState {
        MachineState {
            screen: self.screen@,
            memory: self.memory@,
            v: self.v_reg@,
            pc: self.pc,
            i: self.i_reg,
            delay: self.delay_timer_reg,
            sound: self.sound_timer_reg,
            stack: self.stack@,
            sp: self.stack_pointer,
            keys: self.keyboard@,
        }
    }
}

/// The one-line summary of a machine with program counter `pc` and stack
/// pointer `sp`.
pub open spec fn summary_text(pc: u16, sp: u16) -> Seq<char> {
    "Chip8[program_counter: "@ + decimal(pc as nat) + ", stack_pointer: "@ + decimal(sp as nat)
        + "]"@
}

/// The font as bytes.
fn fontset() -> (r: [u8; FONTSET_SIZE])
    ensures
        r@ == font(),
{
    let r: [u8; FONTSET_SIZE] = [
        0xF0, 0x90, 0x90, 0x90, 0xF0,
        0x20, 0x60, 0x20, 0x20, 0x70,
        0xF0, 0x10, 0xF0, 0x80, 0xF0,
        0xF0, 0x10, 0xF0, 0x10, 0xF0,
        0x90, 0x90, 0xF0, 0x10, 0x10,
        0xF0, 0x80, 0xF0, 0x10, 0xF0,
        0xF0, 0x80, 0xF0, 0x90, 0xF0,
        0xF0, 0x10, 0x20, 0x40, 0x40,
        0xF0, 0x90, 0xF0, 0x90, 0xF0,
        0xF0, 0x90, 0xF0, 0x10, 0xF0,
        0xF0, 0x90, 0xF0, 0x90, 0x90,
        0xE0, 0x90, 0xE0, 0x90, 0xE0,
        0xF0, 0x80, 0x80, 0x80, 0xF0,
        0xE0, 0x90, 0x90, 0x90, 0xE0,
        0xF0, 0x80, 0xF0, 0x80, 0xF0,
        0xF0, 0x80, 0xF0, 0x80, 0x80,
    ];
    assert(r@ =~= font());
    r
}

/// Memory holding the font at address 0 and zeros after it.
fn initial_ram() -> (r: [u8; RAM_SIZE])
    ensures
        r@ == initial_memory(),
{
    let glyphs = fontset();
    let mut memory = [0u8; RAM_SIZE];
    let mut a: usize = 0;
    while a < FONTSET_SIZE
        invariant
            a <= FONTSET_SIZE,
            glyphs@ == font(),
            forall|b: int| 0 <= b < a ==> memory@[b] == font()[b],
            forall|b: int| a <= b < RAM_SIZE ==> memory@[b] == 0u8,
        decreases FONTSET_SIZE - a,
    {
        memory[a] = glyphs[a];
        a += 1;
    }
    assert(memory@ =~= initial_memory());
    memory
}

impl Chip8 {
    /// The sizes and bounds that every machine keeps.
    pub open spec fn wf(&self) -> bool {
        self@.wf()
    }

    /// A machine in its initial state, with the font loaded.
    pub fn new() -> (r: Self)
        ensures
            r@ == initial_state(),
            r.wf(),
    {
        let r = Chip8 {
            pc: START_ADDR,
            memory: initial_ram(),
            screen: [false; SCREEN_SIZE],
            v_reg: [0; NUM_REGS],
            i_reg: 0,
            stack_pointer: 0,
            stack: [0; STACK_SIZE],
            keyboard: [false; NUM_KEYS],
            delay_timer_reg: 0,
            sound_timer_reg: 0,
            rng: rand::thread_rng(),
        };
        assert(r@.screen =~= initial_state().screen);
        assert(r@.v =~= initial_state().v);
        assert(r@.stack =~= initial_state().stack);
        assert(r@.keys =~= initial_state().keys);
        r
    }

    /// Puts every part of the machine back into its initial state.
    pub fn reset(&mut self)
        ensures
            final(self)@ == initial_state(),
            final(self).wf(),
    {
        self.pc = START_ADDR;
        self.memory = initial_ram();
        self.screen = [false; SCREEN_SIZE];
        self.v_reg = [0; NUM_REGS];
        self.i_reg = 0;
        self.stack_pointer = 0;
        self.stack = [0; STACK_SIZE];
        self.keyboard = [false; NUM_KEYS];
        self.delay_timer_reg = 0;
        self.sound_timer_reg = 0;
        assert(self@.screen =~= initial_state().screen);
        assert(self@.v =~= initial_state().v);
        assert(self@.stack =~= initial_state().stack);
        assert(self@.keys =~= initial_state().keys);
    }

    /// The display, 64 pixels per row, 32 rows.
    pub fn get_screen(&self) -> (r: &[bool])
        ensures
            r@ == self@.screen,
    {
        self.screen.as_slice()
    }

    /// Records whether key `idx` of the keypad is held down.
    pub fn keypress(&mut self, idx: usize, pressed: bool)
        requires
            idx < NUM_KEYS,
        ensures
            final(self)@ == (MachineState { keys: old(self)@.keys.update(idx as int, pressed), ..old(self)@ }),
    {
        self.keyboard[idx] = pressed;
    }

    /// Copies a program into memory at the start address. A program longer than
    /// the memory above that address is refused and nothing changes.
    pub fn load(&mut self, data: &[u8]) -> (r: Result<(), Fault>)
        ensures
            data@.len() > MAX_ROM_SIZE ==> r == Err::<(), Fault>(
                Fault::RomTooLarge { len: data@.len() as usize },
            ) && final(self)@ == old(self)@,
            data@.len() <= MAX_ROM_SIZE ==> r is Ok && final(self)@ == (MachineState {
                memory: loaded_memory(old(self)@.memory, data@),
                ..old(self)@
            }),
    {
        if data.len() > MAX_ROM_SIZE {
            return Err(Fault::RomTooLarge { len: data.len() });
        }
        let mut memory = self.memory;
        let mut k: usize = 0;
        while k < data.len()
            invariant
                data@.len() <= MAX_ROM_SIZE,
                k <= data@.len(),
                forall|a: int|
                    0 <= a < RAM_SIZE ==> memory@[a] == (if 0x200 <= a < 0x200 + k {
                        data@[a - 0x200]
                    } else {
                        self.memory@[a]
                    }),
            decreases data@.len() - k,
        {
            memory[START_ADDR as usize + k] = data[k];
            k += 1;
        }
        assert(memory@ =~= loaded_memory(self.memory@, data@));
        self.memory = memory;
        Ok(())
    }
}

/// Whether bit `(row, col)` of a sprite at `(x, y)` has already been drawn on pixel
/// `p` when drawing goes row by row, left to right, and has reached `(row, col)`.
spec fn drawn_before(x: int, y: int, row: int, col: int, p: int) -> bool {
    sprite_dy(y, p) < row || (sprite_dy(y, p) == row && sprite_dx(x, p) < col)
}

/// Whether some pixel that is lit in `s` and covered by the sprite has been reached.
spec fn hit_before(s: MachineState, x: int, y: int, n: int, row: int, col: int) -> bool {
    exists|p: int|
        0 <= p < 2048 && #[trigger] covers(s.memory, s.i as int, x, y, n, p) && drawn_before(
            x,
            y,
            row,
            col,
            p,
        ) && s.screen[p]
}

impl Chip8 {
    /// Dxyn: XORs the `n`-row sprite at memory[I..I + n] onto the display at
    /// (Vx, Vy), wrapping at the edges; VF tells whether a lit pixel went dark.
    fn draw(&mut self, x: usize, y: usize, n: usize)
        requires
            old(self).wf(),
            x < 16,
            y < 16,
            n < 16,
            n == 0 || old(self)@.i + n <= 4096,
        ensures
            final(self)@ == (MachineState {
                screen: drawn_screen(
                    old(self)@,
                    old(self)@.v[x as int] as int,
                    old(self)@.v[y as int] as int,
                    n as int,
                ),
                v: old(self)@.v.update(
                    15,
                    if collides(
                        old(self)@,
                        old(self)@.v[x as int] as int,
                        old(self)@.v[y as int] as int,
                        n as int,
                    ) {
                        1u8
                    } else {
                        0u8
                    },
                ),
                ..old(self)@
            }),
    {
        let cx = self.v_reg[x] as usize;
        let cy = self.v_reg[y] as usize;
        let ghost s = self@;
        let ghost gx = cx as int;
        let ghost gy = cy as int;
        let ghost gn = n as int;
        let ghost gi = s.i as int;
        let mut screen = self.screen;
        let mut flipped = false;
        let mut row: usize = 0;
        while row < n
            invariant
                s == self@,
                s.wf(),
                row <= n,
                n < 16,
                n == 0 || gi + n <= 4096,
                gx == cx && cx < 256,
                gy == cy && cy < 256,
                gn == n,
                gi == self.i_reg,
                forall|p: int|
                    0 <= p < 2048 ==> screen@[p] == (s.screen[p] != (covers(
                        s.memory,
                        gi,
                        gx,
                        gy,
                        gn,
                        p,
                    ) && drawn_before(gx, gy, row as int, 0, p))),
                flipped == hit_before(s, gx, gy, gn, row as int, 0),
            decreases n - row,
        {
            let pixels = self.memory[self.i_reg as usize + row];
            let mut col: u8 = 0;
            while col < 8
                invariant
                    s == self@,
                    s.wf(),
                    row < n,
                    n < 16,
                    n == 0 || gi + n <= 4096,
                    gx == cx && cx < 256,
                    gy == cy && cy < 256,
                    gn == n,
                    gi == self.i_reg,
                    pixels == s.memory[gi + row],
                    col <= 8,
                    forall|p: int|
                        0 <= p < 2048 ==> screen@[p] == (s.screen[p] != (covers(
                            s.memory,
                            gi,
                            gx,
                            gy,
                            gn,
                            p,
                        ) && drawn_before(gx, gy, row as int, col as int, p))),
                    flipped == hit_before(s, gx, gy, gn, row as int, col as int),
                decreases 8 - col,
            {
                let ghost before = screen@;
                let ghost was = flipped;
                let ghost p0 = pixel_index(gx, gy, row as int, col as int);
                proof {
                    lemma_pixel_index(gx, gy, row as int, col as int);
                    assert(!drawn_before(gx, gy, row as int, col as int, p0));
                    assert(before[p0] == s.screen[p0]);
                }
                let set = (pixels >> (7 - col)) & 1 == 1;
                assert(set == sprite_bit(s.memory[gi + row], col as int));
                assert(covers(s.memory, gi, gx, gy, gn, p0) == set);
                if set {
                    let idx = (cx + col as usize) % 64 + 64 * ((cy + row) % 32);
                    assert(idx == p0);
                    flipped = flipped || screen[idx];
                    screen[idx] = !screen[idx];
                }
                proof {
                    let c = col as int + 1;
                    assert forall|p: int| 0 <= p < 2048 implies screen@[p] == (s.screen[p] != (
                    covers(s.memory, gi, gx, gy, gn, p) && drawn_before(gx, gy, row as int, c, p)))
                        by {
                        if p != p0 {
                            assert(drawn_before(gx, gy, row as int, c, p) == drawn_before(
                                gx,
                                gy,
                                row as int,
                                col as int,
                                p,
                            ));
                        }
                    }
                    if flipped {
                        if !was {
                            assert(covers(s.memory, gi, gx, gy, gn, p0) && drawn_before(
                                gx,
                                gy,
                                row as int,
                                c,
                                p0,
                            ) && s.screen[p0]);
                            assert(0 <= p0 < 2048 && covers(s.memory, s.i as int, gx, gy, gn, p0)
                                && drawn_before(gx, gy, row as int, c, p0) && s.screen[p0]);
                        } else {
                            let w = choose|w: int|
                                0 <= w < 2048 && #[trigger] covers(s.memory, gi, gx, gy, gn, w)
                                    && drawn_before(gx, gy, row as int, col as int, w)
                                    && s.screen[w];
                            assert(drawn_before(gx, gy, row as int, c, w));
                        }
                        assert(hit_before(s, gx, gy, gn, row as int, c));
                    } else {
                        assert forall|p: int|
                            0 <= p < 2048 && #[trigger] covers(s.memory, gi, gx, gy, gn, p)
                                && drawn_before(gx, gy, row as int, c, p) implies !s.screen[p] by {
                            assert(!hit_before(s, gx, gy, gn, row as int, col as int));
                            if p != p0 {
                                assert(drawn_before(gx, gy, row as int, col as int, p));
                                if s.screen[p] {
                                    assert(covers(s.memory, s.i as int, gx, gy, gn, p));
                                    assert(hit_before(s, gx, gy, gn, row as int, col as int));
                                }
                            } else {
                                assert(!s.screen[p0]);
                            }
                        }
                    }
                }
                col += 1;
            }
            proof {
                let r = row as int;
                assert forall|p: int|
                    0 <= p < 2048 && #[trigger] covers(s.memory, gi, gx, gy, gn, p) implies
                    drawn_before(gx, gy, r, 8, p) == drawn_before(gx, gy, r + 1, 0, p) by {}
                if flipped {
                    let w = choose|w: int|
                        0 <= w < 2048 && #[trigger] covers(s.memory, gi, gx, gy, gn, w)
                            && drawn_before(gx, gy, r, 8, w) && s.screen[w];
                    assert(drawn_before(gx, gy, r + 1, 0, w));
                }
            }
            row += 1;
        }
        proof {
            assert forall|p: int|
                0 <= p < 2048 && #[trigger] covers(s.memory, gi, gx, gy, gn, p) implies
                drawn_before(gx, gy, gn, 0, p) by {}
            assert(screen@ =~= drawn_screen(s, gx, gy, gn));
            if flipped {
                let w = choose|w: int|
                    0 <= w < 2048 && #[trigger] covers(s.memory, gi, gx, gy, gn, w)
                        && drawn_before(gx, gy, gn, 0, w) && s.screen[w];
                assert(collides(s, gx, gy, gn));
            }
        }
        self.screen = screen;
        self.v_reg[15] = if flipped { 1 } else { 0 };
    }
}

impl Chip8 {
    /// Pushes a return address.
    fn push(&mut self, val: u16) -> (r: Result<(), Fault>)
        requires
            old(self).wf(),
            old(self)@.pc >= 2,
        ensures
            old(self)@.sp >= 16 ==> r == Err::<(), Fault>(
                Fault::StackOverflow { pc: (old(self)@.pc - 2) as u16 },
            ) && final(self)@ == old(self)@,
            old(self)@.sp < 16 ==> r is Ok && final(self)@ == (MachineState {
                stack: old(self)@.stack.update(old(self)@.sp as int, val),
                sp: (old(self)@.sp + 1) as u16,
                ..old(self)@
            }),
    {
        if self.stack_pointer as usize >= STACK_SIZE {
            return Err(Fault::StackOverflow { pc: self.pc - 2 });
        }
        self.stack[self.stack_pointer as usize] = val;
        self.stack_pointer += 1;
        Ok(())
    }

    /// Pops the most recent return address.
    fn pop(&mut self) -> (r: Result<u16, Fault>)
        requires
            old(self).wf(),
            old(self)@.pc >= 2,
        ensures
            old(self)@.sp == 0 ==> r == Err::<u16, Fault>(
                Fault::StackUnderflow { pc: (old(self)@.pc - 2) as u16 },
            ) && final(self)@ == old(self)@,
            old(self)@.sp > 0 ==> r == Ok::<u16, Fault>(old(self)@.stack[old(self)@.sp - 1])
                && final(self)@ == (MachineState {
                sp: (old(self)@.sp - 1) as u16,
                ..old(self)@
            }),
    {
        if self.stack_pointer == 0 {
            return Err(Fault::StackUnderflow { pc: self.pc - 2 });
        }
        self.stack_pointer -= 1;
        Ok(self.stack[self.stack_pointer as usize])
    }

    /// The big-endian instruction word at the program counter, left in place.
    fn peek_operation_code(&self) -> (op: u16)
        requires
            self.wf(),
            self@.pc + 1 < 4096,
        ensures
            op == fetch(self@),
    {
        let higher_byte = self.memory[self.pc as usize] as u16;
        let lower_byte = self.memory[self.pc as usize + 1] as u16;
        higher_byte * 256 + lower_byte
    }

    /// Fetches the big-endian instruction word at the program counter and moves
    /// the counter past it.
    fn get_operation_code(&mut self) -> (op: u16)
        requires
            old(self).wf(),
            old(self)@.pc + 1 < 4096,
        ensures
            op == fetch(old(self)@),
            final(self)@ == (MachineState { pc: (old(self)@.pc + 2) as u16, ..old(self)@ }),
    {
        let op = self.peek_operation_code();
        self.pc += 2;
        op
    }

    /// The arithmetic and logic group, 8xyN.
    fn execute_alu(&mut self, op: u16) -> (r: Result<(), Fault>)
        requires
            old(self).wf(),
            old(self)@.pc >= 2,
            op / 4096 == 8,
        ensures
            outcome(r, final(self)@) == execute_alu(old(self)@, op),
            r is Err ==> final(self)@ == old(self)@,
    {
        let x = ((op / 256) % 16) as usize;
        let y = ((op / 16) % 16) as usize;
        let a = self.v_reg[x];
        let b = self.v_reg[y];
        let n = op % 16;
        if n == 0 {
            self.v_reg[x] = b;
        } else if n == 1 {
            self.v_reg[x] = a | b;
        } else if n == 2 {
            self.v_reg[x] = a & b;
        } else if n == 3 {
            self.v_reg[x] = a ^ b;
        } else if n == 4 {
            let sum = a as u16 + b as u16;
            self.v_reg[x] = (sum % 256) as u8;
            self.v_reg[15] = if sum > 255 { 1 } else { 0 };
        } else if n == 5 {
            self.v_reg[x] = a.wrapping_sub(b);
            self.v_reg[15] = if a >= b { 1 } else { 0 };
        } else if n == 6 {
            // VF takes the bit that is shifted out; Vy plays no part.
            self.v_reg[x] = a / 2;
            self.v_reg[15] = a % 2;
        } else if n == 7 {
            self.v_reg[x] = b.wrapping_sub(a);
            self.v_reg[15] = if b >= a { 1 } else { 0 };
        } else if n == 0xE {
            self.v_reg[x] = ((a as u16 * 2) % 256) as u8;
            self.v_reg[15] = a / 128;
        } else {
            return Err(Fault::UnknownOpcode { opcode: op, pc: self.pc - 2 });
        }
        Ok(())
    }

    /// The timer, keypad and memory group, FxNN.
    fn execute_misc(&mut self, op: u16) -> (r: Result<(), Fault>)
        requires
            old(self).wf(),
            old(self)@.pc >= 2,
            op / 4096 == 0xF,
        ensures
            outcome(r, final(self)@) == execute_misc(old(self)@, op),
            r is Err ==> final(self)@ == old(self)@,
    {
        let x = ((op / 256) % 16) as usize;
        let kk = op % 256;
        let vx = self.v_reg[x];
        let at = self.pc - 2;
        if kk == 0x07 {
            self.v_reg[x] = self.delay_timer_reg;
        } else if kk == 0x0A {
            let mut k: usize = 0;
            while k < NUM_KEYS && !self.keyboard[k]
                invariant
                    k <= NUM_KEYS,
                    forall|j: int| 0 <= j < k ==> !self.keyboard@[j],
                decreases NUM_KEYS - k,
            {
                k += 1;
            }
            if k < NUM_KEYS {
                // The register receives the key's pressed state, not its index.
                self.v_reg[x] = 1;
            } else {
                // No key is down: run this instruction again on the next tick.
                self.pc -= 2;
            }
        } else if kk == 0x15 {
            self.delay_timer_reg = vx;
        } else if kk == 0x18 {
            self.sound_timer_reg = vx;
        } else if kk == 0x1E {
            self.i_reg = self.i_reg.wrapping_add(vx as u16);
        } else if kk == 0x29 {
            self.i_reg = (vx as u16) * 5;
        } else if kk == 0x33 || kk == 0x55 || kk == 0x65 {
            let base = self.i_reg as usize;
            let len: usize = if kk == 0x33 { 3 } else { x + 1 };
            if base + len > RAM_SIZE {
                return Err(Fault::MemoryOutOfBounds { pc: at, addr: self.i_reg });
            }
            if kk == 0x33 {
                self.memory[base] = vx / 100;
                self.memory[base + 1] = (vx / 10) % 10;
                self.memory[base + 2] = vx % 10;
            } else if kk == 0x55 {
                let mut memory = self.memory;
                let mut k: usize = 0;
                while k <= x
                    invariant
                        x < 16,
                        k <= x + 1,
                        base + x + 1 <= RAM_SIZE,
                        base == self.i_reg,
                        forall|a: int|
                            0 <= a < RAM_SIZE ==> memory@[a] == (if base <= a < base + k {
                                self.v_reg@[a - base]
                            } else {
                                self.memory@[a]
                            }),
                    decreases x + 1 - k,
                {
                    memory[base + k] = self.v_reg[k];
                    k += 1;
                }
                assert(memory@ =~= execute_misc(self@, op).unwrap().memory);
                self.memory = memory;
            } else {
                let mut regs = self.v_reg;
                let mut k: usize = 0;
                while k <= x
                    invariant
                        x < 16,
                        k <= x + 1,
                        base + x + 1 <= RAM_SIZE,
                        base == self.i_reg,
                        forall|r: int|
                            0 <= r < NUM_REGS ==> regs@[r] == (if r < k {
                                self.memory@[base + r]
                            } else {
                                self.v_reg@[r]
                            }),
                    decreases x + 1 - k,
                {
                    regs[k] = self.memory[base + k];
                    k += 1;
                }
                assert(regs@ =~= execute_misc(self@, op).unwrap().v);
                self.v_reg = regs;
            }
        } else {
            return Err(Fault::UnknownOpcode { opcode: op, pc: at });
        }
        Ok(())
    }
}

impl Chip8 {
    /// Decodes and executes `op`, whose address the program counter has already
    /// moved past. `rnd` is the random byte for Cxkk. On a fault the machine is
    /// left as it was.
    pub fn execute(&mut self, op: u16, rnd: u8) -> (r: Result<(), Fault>)
        requires
            old(self).wf(),
            2 <= old(self)@.pc <= 4096,
        ensures
            final(self).wf(),
            outcome(r, final(self)@) == execute(old(self)@, op, rnd),
            r is Err ==> final(self)@ == old(self)@,
    {
        let d1 = op / 4096;
        let x = ((op / 256) % 16) as usize;
        let y = ((op / 16) % 16) as usize;
        let n = (op % 16) as usize;
        let kk = (op % 256) as u8;
        let nnn = op % 4096;
        let at = self.pc - 2;
        if op == 0x0000 {
        } else if op == 0x00E0 {
            self.screen = [false; SCREEN_SIZE];
            assert(self@.screen =~= Seq::new(2048, |p: int| false));
        } else if op == 0x00EE {
            match self.pop() {
                Ok(ret_addr) => self.pc = ret_addr,
                Err(fault) => return Err(fault),
            }
        } else if d1 == 1 {
            self.pc = nnn;
        } else if d1 == 2 {
            let pushed = self.push(self.pc);
            if pushed.is_err() {
                return pushed;
            }
            self.pc = nnn;
        } else if d1 == 3 {
            if self.v_reg[x] == kk {
                self.pc += 2;
            }
        } else if d1 == 4 {
            if self.v_reg[x] != kk {
                self.pc += 2;
            }
        } else if d1 == 5 && n == 0 {
            if self.v_reg[x] == self.v_reg[y] {
                self.pc += 2;
            }
        } else if d1 == 6 {
            self.v_reg[x] = kk;
        } else if d1 == 7 {
            self.v_reg[x] = self.v_reg[x].wrapping_add(kk);
        } else if d1 == 8 {
            return self.execute_alu(op);
        } else if d1 == 9 && n == 0 {
            if self.v_reg[x] != self.v_reg[y] {
                self.pc += 2;
            }
        } else if d1 == 0xA {
            self.i_reg = nnn;
        } else if d1 == 0xB {
            self.pc = (self.v_reg[0] as u16) + nnn;
        } else if d1 == 0xC {
            self.v_reg[x] = rnd & kk;
        } else if d1 == 0xD {
            if n > 0 && self.i_reg as usize + n > RAM_SIZE {
                return Err(Fault::MemoryOutOfBounds { pc: at, addr: self.i_reg });
            }
            self.draw(x, y, n);
        } else if d1 == 0xE && (kk == 0x9E || kk == 0xA1) {
            let key = self.v_reg[x];
            if key as usize >= NUM_KEYS {
                return Err(Fault::KeyOutOfRange { pc: at, key });
            }
            let pressed = self.keyboard[key as usize];
            if (kk == 0x9E && pressed) || (kk == 0xA1 && !pressed) {
                self.pc += 2;
            }
        } else if d1 == 0xF {
            return self.execute_misc(op);
        } else {
            return Err(Fault::UnknownOpcode { opcode: op, pc: at });
        }
        Ok(())
    }

    /// Runs one fetch-decode-execute cycle with `rnd` as the random byte that
    /// Cxkk would use. On a fault the machine is left as it was.
    pub fn step(&mut self, rnd: u8) -> (r: Result<(), Fault>)
        requires
            old(self).wf(),
        ensures
            final(self).wf(),
            outcome(r, final(self)@) == step(old(self)@, rnd),
            r is Err ==> final(self)@ == old(self)@,
    {
        if self.pc as usize + 1 >= RAM_SIZE {
            return Err(Fault::MemoryOutOfBounds { pc: self.pc, addr: self.pc });
        }
        let at = self.pc;
        let op = self.get_operation_code();
        let r = self.execute(op, rnd);
        if r.is_err() {
            self.pc = at;
        }
        r
    }

    /// Runs one fetch-decode-execute cycle, drawing a random byte from the
    /// machine's generator when the instruction is Cxkk. On a fault the machine
    /// is left as it was.
    pub fn tick(&mut self) -> (r: Result<(), Fault>)
        requires
            old(self).wf(),
        ensures
            final(self).wf(),
            exists|rnd: u8| outcome(r, final(self)@) == #[trigger] step(old(self)@, rnd),
            !uses_random(fetch(old(self)@)) ==> outcome(r, final(self)@) == step(old(self)@, 0),
            r is Err ==> final(self)@ == old(self)@,
    {
        let mut rnd: u8 = 0;
        if self.pc as usize + 1 < RAM_SIZE && self.peek_operation_code() / 4096 == 0xC {
            rnd = random_byte(&mut self.rng);
        }
        let ghost before = self@;
        let r = self.step(rnd);
        assert(outcome(r, self@) == step(before, rnd));
        r
    }

    /// Counts both timers down by one towards zero, once per frame. Returns
    /// whether a tone should sound now: on the sound timer's last active tick.
    pub fn tick_timers(&mut self) -> (tone: bool)
        ensures
            final(self)@ == tick_timers_state(old(self)@),
            tone == tone_requested(old(self)@),
    {
        if self.delay_timer_reg > 0 {
            self.delay_timer_reg -= 1;
        }
        let tone = self.sound_timer_reg == 1;
        if self.sound_timer_reg > 0 {
            self.sound_timer_reg -= 1;
        }
        tone
    }
}

impl Chip8 {
    /// The program counter.
    pub fn pc(&self) -> (r: u16)
        ensures
            r == self@.pc,
    {
        self.pc
    }

    /// Register Vx.
    pub fn register(&self, x: usize) -> (r: u8)
        requires
            x < NUM_REGS,
        ensures
            r == self@.v[x as int],
    {
        self.v_reg[x]
    }

    /// The index register I.
    pub fn index_register(&self) -> (r: u16)
        ensures
            r == self@.i,
    {
        self.i_reg
    }

    /// The delay timer.
    pub fn delay_timer(&self) -> (r: u8)
        ensures
            r == self@.delay,
    {
        self.delay_timer_reg
    }

    /// The sound timer.
    pub fn sound_timer(&self) -> (r: u8)
        ensures
            r == self@.sound,
    {
        self.sound_timer_reg
    }

    /// How many return addresses the call stack holds.
    pub fn stack_depth(&self) -> (r: u16)
        ensures
            r == self@.sp,
    {
        self.stack_pointer
    }

    /// The byte at address `addr`.
    pub fn memory_at(&self, addr: usize) -> (r: u8)
        requires
            addr < RAM_SIZE,
        ensures
            r == self@.memory[addr as int],
    {
        self.memory[addr]
    }

    /// Whether key `idx` is held down.
    pub fn is_key_pressed(&self, idx: usize) -> (r: bool)
        requires
            idx < NUM_KEYS,
        ensures
            r == self@.keys[idx as int],
    {
        self.keyboard[idx]
    }
}

impl Chip8 {
    /// A one-line summary: the program counter and the stack pointer.
    pub fn summary(&self) -> (r: String)
        ensures
            r@ == summary_text(self@.pc, self@.sp),
    {
        let mut out = String::from_str("Chip8[program_counter: ");
        append_decimal(&mut out, self.pc);
        out.append(", stack_pointer: ");
        append_decimal(&mut out, self.stack_pointer);
        out.append("]");
        out
    }
}

} // verus!
