use crate::display::{grid_of, Display};
use crate::keyboard::Keyboard;
use crate::machine::{
    PROGRAM_START, MAX_PROGRAM_LEN,
    cleared, decode, exec_spec, fresh_machine, load_spec, loaded_regs, outcome, reset_spec,
    sprite_collides, sprite_grid, step_spec, stored_regs, tick_spec, Chip8Error, Instruction,
    MachineView,
};
use rand::rngs::ThreadRng;
use rand::Rng;
use vstd::prelude::*;

verus! {

#[verifier::external_type_specification]
#[verifier::external_body]
pub struct ExThreadRng(ThreadRng);

/// Relies on rand::thread_rng: a handle to the thread-local generator that the
/// system seeds. Nothing is stated of it.
#[verifier::external_body]
fn new_rng() -> ThreadRng {
    rand::thread_rng()
}

/// Relies on rand::Rng::gen_range over `0..=255`, which is never empty: a
/// uniformly drawn byte. Nothing can be stated of its value.
#[verifier::external_body]
fn random_byte(rng: &mut ThreadRng) -> u8 {
    rng.gen_range(0..=255u8)
}

/// The hexadecimal digit glyphs.
fn font_table() -> (r: [u8; 80])
    ensures
        r@ == crate::machine::font(),
{
    let r: [u8; 80] = [
        0xF0, 0x90, 0x90, 0x90, 0xF0,
        0x20, 0x60, 0x20, 0x20, 0x70,
        0xF0, 0x10, 0xF0, 0x80, 0xF0,
        0xF0, 0x10, 0xF0, 0x10, 0xF0,
        0x90, 0x90, 0xF0, 0x10, 0x10,
        0xF0, 0x80, 0xF0, 0x10, 0xF0,
        0xF0, 0x80, 0xF0, 0x90, 0xF0,
        0xF0, 0x10, 0x20, 0x40, 0x40,
        0xF0, 0x90, 0xF0, 0x90, 0xF0,
        0xF0, 0x90, 0xF0, 0x10, 0xF0,
        0xF0, 0x90, 0xF0, 0x90, 0x90,
        0xE0, 0x90, 0xE0, 0x90, 0xE0,
        0xF0, 0x80, 0x80, 0x80, 0xF0,
        0xE0, 0x90, 0x90, 0x90, 0xE0,
        0xF0, 0x80, 0xF0, 0x80, 0xF0,
        0xF0, 0x80, 0xF0, 0x80, 0x80,
    ];
    assert(r@ =~= crate::machine::font());
    r
}

/// A CHIP-8 interpreter: memory, registers, call stack, timers, a random
/// source, the keypad state and the display.
///
/// The call stack has no depth limit. The timers count down only through
/// `update_timers`, never by executing instructions, so a host may run any
/// number of steps per tick.
pub struct Chip8 {
    pub keyboard: Keyboard,
    pub display: Display,
    ram: [u8; 4096],
    v: [u8; 16],
    i: u16,
    dt: u8,
    st: u8,
    pc: usize,
    stack: Vec<usize>,
    rng: ThreadRng,
}

impl View for Chip8 {
    type V = MachineView;

    closed spec fn view(&self) -> MachineView {
        MachineView {
            ram: self.ram@,
            v: self.v@,
            i: self.i,
            dt: self.dt,
            st: self.st,
            pc: self.pc as int,
            stack: self.stack@,
            screen: self.display@,
            wrap: self.display.wrap_on(),
            keys: self.keyboard.keys(),
            pressed: self.keyboard.pressed(),
        }
    }
}

impl Chip8 {
    /// The display and keypad are well formed.
    pub closed spec fn wf(&self) -> bool {
        self.display.wf() && self.keyboard.wf()
    }

    /// An interpreter with the font loaded, the program counter at
    /// `PROGRAM_START`, and everything else zero.
    pub fn new() -> (r: Self)
        ensures
            r.wf(),
            r@ == fresh_machine(),
    {
        let font = font_table();
        let mut r = Chip8 {
            keyboard: Keyboard::new(),
            display: Display::new(),
            ram: [0u8; 4096],
            v: [0u8; 16],
            i: 0,
            dt: 0,
            st: 0,
            pc: PROGRAM_START,
            stack: Vec::new(),
            rng: new_rng(),
        };
        r.load_font(&font);
        assert(r.v@ =~= Seq::new(16, |k: int| 0u8));
        assert(r@ =~~= fresh_machine());
        r
    }

    /// The program counter.
    pub fn pc(&self) -> (r: usize)
        ensures
            r == self@.pc,
    {
        self.pc
    }

    /// Register `x`.
    pub fn register(&self, x: u8) -> (r: u8)
        requires
            x < 16,
        ensures
            r == self@.v[x as int],
    {
        self.v[x as usize]
    }

    /// The index register.
    pub fn index_register(&self) -> (r: u16)
        ensures
            r == self@.i,
    {
        self.i
    }

    /// The delay timer.
    pub fn delay_timer(&self) -> (r: u8)
        ensures
            r == self@.dt,
    {
        self.dt
    }

    /// The sound timer; a tone should sound while it is nonzero.
    pub fn sound_timer(&self) -> (r: u8)
        ensures
            r == self@.st,
    {
        self.st
    }

    /// The byte at address `addr`.
    pub fn memory(&self, addr: usize) -> (r: u8)
        requires
            addr < 4096,
        ensures
            r == self@.ram[addr as int],
    {
        self.ram[addr]
    }

    /// How many return addresses the call stack holds.
    pub fn stack_depth(&self) -> (r: usize)
        ensures
            r == self@.stack.len(),
    {
        self.stack.len()
    }

    /// The state of a well-formed interpreter meets the machine invariant.
    pub proof fn lemma_wf_view(&self)
        requires
            self.wf(),
        ensures
            crate::machine::machine_wf(self@),
    {
        assert(self.ram@.len() == 4096);
        assert(self.v@.len() == 16);
    }

    /// Writes the font to the start of memory and zeroes the rest.
    fn load_font(&mut self, font: &[u8; 80])
        requires
            font@ == crate::machine::font(),
        ensures
            final(self).ram@ == crate::machine::initial_ram(),
            final(self).keyboard == old(self).keyboard,
            final(self).display == old(self).display,
            final(self).v == old(self).v,
            final(self).i == old(self).i,
            final(self).dt == old(self).dt,
            final(self).st == old(self).st,
            final(self).pc == old(self).pc,
            final(self).stack == old(self).stack,
    {
        let mut a: usize = 0;
        while a < 4096
            invariant
                0 <= a <= 4096,
                font@ == crate::machine::font(),
                self.ram@.len() == 4096,
                forall|b: int| 0 <= b < a ==> self.ram@[b] == crate::machine::initial_ram()[b],
                self.keyboard == old(self).keyboard,
                self.display == old(self).display,
                self.v == old(self).v,
                self.i == old(self).i,
                self.dt == old(self).dt,
                self.st == old(self).st,
                self.pc == old(self).pc,
                self.stack == old(self).stack,
            decreases 4096 - a,
        {
            if a < 80 {
                self.ram[a] = font[a];
            } else {
                self.ram[a] = 0;
            }
            a = a + 1;
        }
        assert(self.ram@ =~= crate::machine::initial_ram());
    }

    /// Copies `bytes` into memory from `PROGRAM_START` on.
    pub fn load_rom(&mut self, bytes: &Vec<u8>)
        requires
            old(self).wf(),
            bytes@.len() <= MAX_PROGRAM_LEN,
        ensures
            final(self).wf(),
            final(self)@ == load_spec(old(self)@, bytes@),
    {
        let ghost ram0 = self.ram@;
        let mut k: usize = 0;
        while k < bytes.len()
            invariant
                0 <= k <= bytes@.len() <= 3584,
                self.ram@.len() == 4096,
                forall|a: int|
                    0 <= a < 4096 ==> self.ram@[a] == if 0x200 <= a < 0x200 + k {
                        bytes@[a - 0x200]
                    } else {
                        ram0[a]
                    },
                self.keyboard == old(self).keyboard,
                self.display == old(self).display,
                self.v == old(self).v,
                self.i == old(self).i,
                self.dt == old(self).dt,
                self.st == old(self).st,
                self.pc == old(self).pc,
                self.stack == old(self).stack,
            decreases bytes@.len() - k,
        {
            self.ram[PROGRAM_START + k] = bytes[k];
            k = k + 1;
        }
        assert(self.ram@ =~= crate::machine::with_program(ram0, bytes@));
    }

    /// Returns the interpreter to its constructed state: display, memory,
    /// registers, timers, stack and program counter. Wrap mode and the keypad
    /// are the host's and stay as they are.
    pub fn reset(&mut self)
        requires
            old(self).wf(),
        ensures
            final(self).wf(),
            final(self)@ == reset_spec(old(self)@),
    {
        self.display.clear();
        let font = font_table();
        self.load_font(&font);
        self.v = [0u8; 16];
        self.i = 0;
        self.dt = 0;
        self.st = 0;
        self.pc = PROGRAM_START;
        self.stack.clear();
        assert(self.v@ =~= Seq::new(16, |k: int| 0u8));
        assert(self.stack@ =~= Seq::<usize>::empty());
        assert(self@ =~~= reset_spec(old(self)@));
    }

    /// One timer tick: each nonzero timer counts down by one.
    pub fn update_timers(&mut self)
        requires
            old(self).wf(),
        ensures
            final(self).wf(),
            final(self)@ == tick_spec(old(self)@),
    {
        if self.dt > 0 {
            self.dt = self.dt - 1;
        }
        if self.st > 0 {
            self.st = self.st - 1;
        }
    }

    /// A copy of the display grid.
    pub fn get_display(&self) -> (r: [[u8; 64]; 32])
        ensures
            grid_of(r) == self@.screen,
    {
        self.display.get_screen()
    }

    /// Draws the `height`-row sprite stored at the index register at `(x, y)`
    /// and reports whether a set pixel was turned off.
    pub fn draw_sprite(&mut self, x: u8, y: u8, height: u8) -> (col: bool)
        requires
            old(self).wf(),
            height == 0 || old(self)@.i + height <= 4096,
        ensures
            final(self).wf(),
            final(self)@ == (MachineView {
                screen: sprite_grid(
                    old(self)@.screen,
                    old(self)@.ram,
                    old(self)@.i as int,
                    x as int,
                    y as int,
                    old(self)@.wrap,
                    height as nat,
                ),
                ..old(self)@
            }),
            col == sprite_collides(
                old(self)@.screen,
                old(self)@.ram,
                old(self)@.i as int,
                x as int,
                y as int,
                old(self)@.wrap,
                height as nat,
            ),
    {
        let ghost s0 = self@;
        let mut col = false;
        let mut k: u8 = 0;
        while k < height
            invariant
                k <= height,
                height == 0 || s0.i + height <= 4096,
                self.wf(),
                self@ == (MachineView {
                    screen: sprite_grid(s0.screen, s0.ram, s0.i as int, x as int, y as int, s0.wrap, k as nat),
                    ..s0
                }),
                col == sprite_collides(s0.screen, s0.ram, s0.i as int, x as int, y as int, s0.wrap, k as nat),
            decreases height - k,
        {
            let byte = self.ram[self.i as usize + k as usize];
            if self.display.draw_byte(byte, x as usize, y as usize + k as usize) {
                col = true;
            }
            k = k + 1;
        }
        col
    }

    /// Stores registers `0..count` to memory from the index register on.
    fn store_regs(&mut self, count: usize)
        requires
            old(self).wf(),
            1 <= count <= 16,
            old(self).i + count <= 4096,
        ensures
            final(self).wf(),
            final(self)@ == (MachineView {
                ram: stored_regs(old(self)@.ram, old(self)@.v, old(self)@.i as int, count as int),
                ..old(self)@
            }),
    {
        let ghost s0 = self@;
        let base = self.i as usize;
        let mut r: usize = 0;
        assert(s0.ram =~= stored_regs(s0.ram, s0.v, base as int, 0));
        while r < count
            invariant
                r <= count <= 16,
                base == s0.i,
                base + count <= 4096,
                self.wf(),
                self@ == (MachineView { ram: stored_regs(s0.ram, s0.v, base as int, r as int), ..s0 }),
            decreases count - r,
        {
            self.ram[base + r] = self.v[r];
            r = r + 1;
            assert(self.ram@ =~= stored_regs(s0.ram, s0.v, base as int, r as int));
        }
    }

    /// Loads registers `0..count` from memory from the index register on.
    fn load_regs(&mut self, count: usize)
        requires
            old(self).wf(),
            1 <= count <= 16,
            old(self).i + count <= 4096,
        ensures
            final(self).wf(),
            final(self)@ == (MachineView {
                v: loaded_regs(old(self)@.v, old(self)@.ram, old(self)@.i as int, count as int),
                ..old(self)@
            }),
    {
        let ghost s0 = self@;
        let base = self.i as usize;
        let mut r: usize = 0;
        assert(s0.v =~= loaded_regs(s0.v, s0.ram, base as int, 0));
        while r < count
            invariant
                r <= count <= 16,
                base == s0.i,
                base + count <= 4096,
                self.wf(),
                self@ == (MachineView { v: loaded_regs(s0.v, s0.ram, base as int, r as int), ..s0 }),
            decreases count - r,
        {
            self.v[r] = self.ram[base + r];
            r = r + 1;
            assert(self.v@ =~= loaded_regs(s0.v, s0.ram, base as int, r as int));
        }
    }

    /// Carries out `ins` with `next` as the address of the following
    /// instruction; leaves the state as it was when it fails.
    #[verifier::rlimit(60)]
    fn execute(&mut self, ins: Instruction, next: usize, random: u8) -> (r: Result<(), Chip8Error>)
        requires
            old(self).wf(),
            crate::machine::regs_in_range(ins),
            2 <= next <= 4096,
        ensures
            final(self).wf(),
            outcome(
                exec_spec(MachineView { pc: next as int, ..old(self)@ }, ins, random),
                old(self)@,
                final(self)@,
                r,
            ),
    {
        match ins {
            Instruction::ClearScreen => {
                self.display.clear();
                self.pc = next;
            },
            Instruction::Return => {
                if self.stack.len() == 0 {
                    return Err(Chip8Error::StackUnderflow);
                }
                let a = self.stack.pop().unwrap();
                self.pc = a;
            },
            Instruction::Jump { nnn } => {
                self.pc = nnn as usize;
            },
            Instruction::Call { nnn } => {
                self.stack.push(next);
                self.pc = nnn as usize;
            },
            Instruction::SkipEqImm { x, nn } => {
                self.pc = if self.v[x as usize] == nn { next + 2 } else { next };
            },
            Instruction::SkipNeImm { x, nn } => {
                self.pc = if self.v[x as usize] != nn { next + 2 } else { next };
            },
            Instruction::SkipEqReg { x, y } => {
                self.pc = if self.v[x as usize] == self.v[y as usize] { next + 2 } else { next };
            },
            Instruction::LoadImm { x, nn } => {
                self.v[x as usize] = nn;
                self.pc = next;
            },
            Instruction::AddImm { x, nn } => {
                self.v[x as usize] = ((self.v[x as usize] as u16 + nn as u16) % 256) as u8;
                self.pc = next;
            },
            Instruction::Move { x, y } => {
                self.v[x as usize] = self.v[y as usize];
                self.pc = next;
            },
            Instruction::Or { x, y } => {
                self.v[x as usize] = self.v[x as usize] | self.v[y as usize];
                self.pc = next;
            },
            Instruction::And { x, y } => {
                self.v[x as usize] = self.v[x as usize] & self.v[y as usize];
                self.pc = next;
            },
            Instruction::Xor { x, y } => {
                self.v[x as usize] = self.v[x as usize] ^ self.v[y as usize];
                self.pc = next;
            },
            Instruction::AddReg { x, y } => {
                let sum = self.v[x as usize] as u16 + self.v[y as usize] as u16;
                self.v[15] = if sum > 255 { 1 } else { 0 };
                self.v[x as usize] = (sum % 256) as u8;
                self.pc = next;
            },
            Instruction::SubReg { x, y } => {
                let (a, b) = (self.v[x as usize], self.v[y as usize]);
                self.v[15] = if a >= b { 1 } else { 0 };
                self.v[x as usize] = ((a as u16 + 256 - b as u16) % 256) as u8;
                self.pc = next;
            },
            Instruction::ShiftRight { x, y } => {
                let a = self.v[x as usize];
                self.v[15] = a % 2;
                self.v[x as usize] = a / 2;
                self.pc = next;
            },
            Instruction::SubRev { x, y } => {
                let (a, b) = (self.v[x as usize], self.v[y as usize]);
                self.v[15] = if b >= a { 1 } else { 0 };
                self.v[x as usize] = ((b as u16 + 256 - a as u16) % 256) as u8;
                self.pc = next;
            },
            Instruction::ShiftLeft { x, y } => {
                let a = self.v[x as usize];
                self.v[15] = a / 128;
                self.v[x as usize] = ((a as u16 * 2) % 256) as u8;
                self.pc = next;
            },
            Instruction::SkipNeReg { x, y } => {
                self.pc = if self.v[x as usize] != self.v[y as usize] { next + 2 } else { next };
            },
            Instruction::LoadIndex { nnn } => {
                self.i = nnn;
                self.pc = next;
            },
            Instruction::JumpOffset { nnn } => {
                self.pc = (nnn as usize + self.v[0] as usize) % 65536;
            },
            Instruction::Random { x, nn } => {
                self.v[x as usize] = random & nn;
                self.pc = next;
            },
            Instruction::Draw { x, y, n } => {
                if n > 0 && self.i as usize + n as usize > 4096 {
                    return Err(Chip8Error::AddressOutOfRange(self.i as usize));
                }
                let (vx, vy) = (self.v[x as usize], self.v[y as usize]);
                let col = self.draw_sprite(vx, vy, n);
                self.v[15] = if col { 1 } else { 0 };
                self.pc = next;
            },
            Instruction::SkipKeyDown { x } => {
                let k = self.v[x as usize];
                if k >= 16 {
                    return Err(Chip8Error::KeyOutOfRange(k));
                }
                self.pc = if self.keyboard.is_down(k) { next + 2 } else { next };
            },
            Instruction::SkipKeyUp { x } => {
                let k = self.v[x as usize];
                if k >= 16 {
                    return Err(Chip8Error::KeyOutOfRange(k));
                }
                self.pc = if !self.keyboard.is_down(k) { next + 2 } else { next };
            },
            Instruction::LoadDelay { x } => {
                self.v[x as usize] = self.dt;
                self.pc = next;
            },
            Instruction::WaitKey { x } => {
                match self.keyboard.just_pressed() {
                    Some(k) => {
                        self.v[x as usize] = k;
                        self.pc = next;
                    },
                    None => {
                        self.pc = next - 2;
                    },
                }
            },
            Instruction::SetDelay { x } => {
                self.dt = self.v[x as usize];
                self.pc = next;
            },
            Instruction::SetSound { x } => {
                self.st = self.v[x as usize];
                self.pc = next;
            },
            Instruction::AddIndex { x } => {
                self.i = ((self.i as u32 + self.v[x as usize] as u32) % 65536) as u16;
                self.pc = next;
            },
            Instruction::LoadGlyph { x } => {
                self.i = self.v[x as usize] as u16 * 5;
                self.pc = next;
            },
            Instruction::StoreBcd { x } => {
                let base = self.i as usize;
                if base + 2 >= 4096 {
                    return Err(Chip8Error::AddressOutOfRange(base));
                }
                let a = self.v[x as usize];
                self.ram[base] = a / 100;
                self.ram[base + 1] = (a / 10) % 10;
                self.ram[base + 2] = a % 10;
                self.pc = next;
            },
            Instruction::StoreRegs { x } => {
                if self.i as usize + x as usize >= 4096 {
                    return Err(Chip8Error::AddressOutOfRange(self.i as usize));
                }
                self.store_regs(x as usize + 1);
                self.pc = next;
            },
            Instruction::LoadRegs { x } => {
                if self.i as usize + x as usize >= 4096 {
                    return Err(Chip8Error::AddressOutOfRange(self.i as usize));
                }
                self.load_regs(x as usize + 1);
                self.pc = next;
            },
        }
        Ok(())
    }

    /// Fetches the instruction at the program counter, decodes it and carries
    /// it out; `random` is the byte that a random instruction draws. On an
    /// error the state is left as it was.
    pub fn step(&mut self, random: u8) -> (r: Result<(), Chip8Error>)
        requires
            old(self).wf(),
        ensures
            final(self).wf(),
            outcome(step_spec(old(self)@, random), old(self)@, final(self)@, r),
    {
        if self.pc >= 4095 {
            return Err(Chip8Error::AddressOutOfRange(self.pc));
        }
        let w: u16 = self.ram[self.pc] as u16 * 256 + self.ram[self.pc + 1] as u16;
        match decode(w) {
            None => Err(Chip8Error::UnrecognizedInstruction(w)),
            Some(ins) => {
                let next = self.pc + 2;
                self.execute(ins, next, random)
            },
        }
    }

    /// One step, with the random byte drawn from the interpreter's generator.
    pub fn run_instruction(&mut self) -> (r: Result<(), Chip8Error>)
        requires
            old(self).wf(),
        ensures
            final(self).wf(),
            exists|random: u8| outcome(step_spec(old(self)@, random), old(self)@, final(self)@, r),
    {
        let random = random_byte(&mut self.rng);
        let r = self.step(random);
        assert(outcome(step_spec(old(self)@, random), old(self)@, self@, r));
        r
    }
}

} // verus!
