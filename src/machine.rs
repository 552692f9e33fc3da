use crate::display::{blank_grid, collides, drawn, is_binary, is_grid, Grid};
use vstd::prelude::*;

verus! {

/// Address at which programs are loaded and execution starts.
pub const PROGRAM_START: usize = 0x200;

/// Largest program that fits between `PROGRAM_START` and the end of memory.
pub const MAX_PROGRAM_LEN: usize = 3584;

/// Why an instruction could not be carried out.
#[derive(Debug, Clone, Copy, PartialEq, Eq, Structural)]
pub enum Chip8Error {
    /// The instruction word has no defined meaning.
    UnrecognizedInstruction(u16),
    /// A return was executed with an empty call stack.
    StackUnderflow,
    /// An access starting at this address runs past the end of memory.
    AddressOutOfRange(usize),
    /// A register named this key, which is not one of the sixteen keypad keys.
    KeyOutOfRange(u8),
}

/// A decoded instruction with its fields: `x`, `y` register numbers, `n` a
/// nibble, `nn` a byte, `nnn` a 12-bit address.
#[derive(Debug, Clone, Copy, PartialEq, Eq, Structural)]
pub enum Instruction {
    ClearScreen,
    Return,
    Jump { nnn: u16 },
    Call { nnn: u16 },
    SkipEqImm { x: u8, nn: u8 },
    SkipNeImm { x: u8, nn: u8 },
    SkipEqReg { x: u8, y: u8 },
    LoadImm { x: u8, nn: u8 },
    AddImm { x: u8, nn: u8 },
    Move { x: u8, y: u8 },
    Or { x: u8, y: u8 },
    And { x: u8, y: u8 },
    Xor { x: u8, y: u8 },
    AddReg { x: u8, y: u8 },
    SubReg { x: u8, y: u8 },
    ShiftRight { x: u8, y: u8 },
    SubRev { x: u8, y: u8 },
    ShiftLeft { x: u8, y: u8 },
    SkipNeReg { x: u8, y: u8 },
    LoadIndex { nnn: u16 },
    JumpOffset { nnn: u16 },
    Random { x: u8, nn: u8 },
    Draw { x: u8, y: u8, n: u8 },
    SkipKeyDown { x: u8 },
    SkipKeyUp { x: u8 },
    LoadDelay { x: u8 },
    WaitKey { x: u8 },
    SetDelay { x: u8 },
    SetSound { x: u8 },
    AddIndex { x: u8 },
    LoadGlyph { x: u8 },
    StoreBcd { x: u8 },
    StoreRegs { x: u8 },
    LoadRegs { x: u8 },
}

/// The whole observable state of an interpreter.
pub struct MachineView {
    pub ram: Seq<u8>,
    pub v: Seq<u8>,
    pub i: u16,
    pub dt: u8,
    pub st: u8,
    pub pc: int,
    pub stack: Seq<usize>,
    pub screen: Grid,
    pub wrap: bool,
    pub keys: Seq<bool>,
    pub pressed: Option<u8>,
}

/// Sizes and ranges that every reachable state has.
pub open spec fn machine_wf(s: MachineView) -> bool {
    &&& s.ram.len() == 4096
    &&& s.v.len() == 16
    &&& 0 <= s.pc
    &&& is_grid(s.screen)
    &&& is_binary(s.screen)
    &&& s.keys.len() == 16
    &&& s.pressed matches Some(k) ==> k < 16
}

/// The hexadecimal digit glyphs 0 to F, five rows of one byte each.
pub open spec fn font() -> Seq<u8> {
    seq![
        0xF0u8, 0x90, 0x90, 0x90, 0xF0,
        0x20, 0x60, 0x20, 0x20, 0x70,
        0xF0, 0x10, 0xF0, 0x80, 0xF0,
        0xF0, 0x10, 0xF0, 0x10, 0xF0,
        0x90, 0x90, 0xF0, 0x10, 0x10,
        0xF0, 0x80, 0xF0, 0x10, 0xF0,
        0xF0, 0x80, 0xF0, 0x90, 0xF0,
        0xF0, 0x10, 0x20, 0x40, 0x40,
        0xF0, 0x90, 0xF0, 0x90, 0xF0,
        0xF0, 0x90, 0xF0, 0x10, 0xF0,
        0xF0, 0x90, 0xF0, 0x90, 0x90,
        0xE0, 0x90, 0xE0, 0x90, 0xE0,
        0xF0, 0x80, 0x80, 0x80, 0xF0,
        0xE0, 0x90, 0x90, 0x90, 0xE0,
        0xF0, 0x80, 0xF0, 0x80, 0xF0,
        0xF0, 0x80, 0xF0, 0x80, 0x80,
    ]
}

/// Memory as constructed: the font at address 0, zero elsewhere.
pub open spec fn initial_ram() -> Seq<u8> {
    Seq::new(4096, |a: int| if a < 80 { font()[a] } else { 0u8 })
}

/// The machine-state part of a freshly constructed interpreter; wrap mode,
/// keys and newly pressed key are given.
pub open spec fn cleared(wrap: bool, keys: Seq<bool>, pressed: Option<u8>) -> MachineView {
    MachineView {
        ram: initial_ram(),
        v: Seq::new(16, |r: int| 0u8),
        i: 0,
        dt: 0,
        st: 0,
        pc: 0x200,
        stack: Seq::empty(),
        screen: blank_grid(),
        wrap,
        keys,
        pressed,
    }
}

/// A freshly constructed interpreter.
pub open spec fn fresh_machine() -> MachineView {
    cleared(true, Seq::new(16, |k: int| false), None)
}

/// `s` after a reset: everything but the host's settings back to construction.
pub open spec fn reset_spec(s: MachineView) -> MachineView {
    cleared(s.wrap, s.keys, s.pressed)
}

/// `ram` with `rom` copied to `PROGRAM_START` onwards.
pub open spec fn with_program(ram: Seq<u8>, rom: Seq<u8>) -> Seq<u8> {
    Seq::new(
        ram.len(),
        |a: int| if 0x200 <= a < 0x200 + rom.len() { rom[a - 0x200] } else { ram[a] },
    )
}

/// `s` after loading the program `rom`.
pub open spec fn load_spec(s: MachineView, rom: Seq<u8>) -> MachineView {
    MachineView { ram: with_program(s.ram, rom), ..s }
}

/// `s` after one timer tick: each nonzero timer counts down by one.
pub open spec fn tick_spec(s: MachineView) -> MachineView {
    MachineView {
        dt: if s.dt > 0 { (s.dt - 1) as u8 } else { 0 },
        st: if s.st > 0 { (s.st - 1) as u8 } else { 0 },
        ..s
    }
}

/// The instruction word at address `a`, first byte high-order.
pub open spec fn word_at(ram: Seq<u8>, a: int) -> u16 {
    (ram[a] as int * 256 + ram[a + 1] as int) as u16
}

/// The instruction that `w` encodes, if any.
pub open spec fn decode_spec(w: u16) -> Option<Instruction> {
    let family = w / 4096;
    let x = ((w / 256) % 16) as u8;
    let y = ((w / 16) % 16) as u8;
    let n = (w % 16) as u8;
    let nn = (w % 256) as u8;
    let nnn = w % 4096;
    if family == 0 {
        if nn == 0xE0 {
            Some(Instruction::ClearScreen)
        } else if nn == 0xEE {
            Some(Instruction::Return)
        } else {
            None
        }
    } else if family == 1 {
        Some(Instruction::Jump { nnn })
    } else if family == 2 {
        Some(Instruction::Call { nnn })
    } else if family == 3 {
        Some(Instruction::SkipEqImm { x, nn })
    } else if family == 4 {
        Some(Instruction::SkipNeImm { x, nn })
    } else if family == 5 {
        Some(Instruction::SkipEqReg { x, y })
    } else if family == 6 {
        Some(Instruction::LoadImm { x, nn })
    } else if family == 7 {
        Some(Instruction::AddImm { x, nn })
    } else if family == 8 {
        if n == 0 {
            Some(Instruction::Move { x, y })
        } else if n == 1 {
            Some(Instruction::Or { x, y })
        } else if n == 2 {
            Some(Instruction::And { x, y })
        } else if n == 3 {
            Some(Instruction::Xor { x, y })
        } else if n == 4 {
            Some(Instruction::AddReg { x, y })
        } else if n == 5 {
            Some(Instruction::SubReg { x, y })
        } else if n == 6 {
            Some(Instruction::ShiftRight { x, y })
        } else if n == 7 {
            Some(Instruction::SubRev { x, y })
        } else if n == 0xE {
            Some(Instruction::ShiftLeft { x, y })
        } else {
            None
        }
    } else if family == 9 {
        Some(Instruction::SkipNeReg { x, y })
    } else if family == 0xA {
        Some(Instruction::LoadIndex { nnn })
    } else if family == 0xB {
        Some(Instruction::JumpOffset { nnn })
    } else if family == 0xC {
        Some(Instruction::Random { x, nn })
    } else if family == 0xD {
        Some(Instruction::Draw { x, y, n })
    } else if family == 0xE {
        if nn == 0x9E {
            Some(Instruction::SkipKeyDown { x })
        } else if nn == 0xA1 {
            Some(Instruction::SkipKeyUp { x })
        } else {
            None
        }
    } else {
        if nn == 0x07 {
            Some(Instruction::LoadDelay { x })
        } else if nn == 0x0A {
            Some(Instruction::WaitKey { x })
        } else if nn == 0x15 {
            Some(Instruction::SetDelay { x })
        } else if nn == 0x18 {
            Some(Instruction::SetSound { x })
        } else if nn == 0x1E {
            Some(Instruction::AddIndex { x })
        } else if nn == 0x29 {
            Some(Instruction::LoadGlyph { x })
        } else if nn == 0x33 {
            Some(Instruction::StoreBcd { x })
        } else if nn == 0x55 {
            Some(Instruction::StoreRegs { x })
        } else if nn == 0x65 {
            Some(Instruction::LoadRegs { x })
        } else {
            None
        }
    }
}

/// `s` with register `x` set to `val`.
pub open spec fn set_v(s: MachineView, x: u8, val: u8) -> MachineView {
    MachineView { v: s.v.update(x as int, val), ..s }
}

/// `s` with the flag register set to `flag`, and then register `x` to `val`.
pub open spec fn set_flag_then(s: MachineView, x: u8, flag: u8, val: u8) -> MachineView {
    set_v(set_v(s, 15, flag), x, val)
}

/// `s`, with the next instruction skipped when `cond` holds.
pub open spec fn skip_if(s: MachineView, cond: bool) -> MachineView {
    if cond {
        MachineView { pc: s.pc + 2, ..s }
    } else {
        s
    }
}

/// 1 when `b` holds, else 0.
pub open spec fn flag(b: bool) -> u8 {
    if b { 1 } else { 0 }
}

/// `g` after drawing the first `k` rows of the sprite stored at `i` at `(x, y)`.
pub open spec fn sprite_grid(g: Grid, ram: Seq<u8>, i: int, x: int, y: int, wrap: bool, k: nat) -> Grid
    decreases k,
{
    if k == 0 {
        g
    } else {
        let k1 = (k - 1) as nat;
        drawn(sprite_grid(g, ram, i, x, y, wrap, k1), ram[i + k1], x, y + k1, wrap)
    }
}

/// Drawing the first `k` rows of the sprite stored at `i` at `(x, y)` on `g`
/// turns a set pixel off.
pub open spec fn sprite_collides(g: Grid, ram: Seq<u8>, i: int, x: int, y: int, wrap: bool, k: nat) -> bool
    decreases k,
{
    if k == 0 {
        false
    } else {
        let k1 = (k - 1) as nat;
        sprite_collides(g, ram, i, x, y, wrap, k1) || collides(
            sprite_grid(g, ram, i, x, y, wrap, k1),
            ram[i + k1],
            x,
            y + k1,
            wrap,
        )
    }
}

/// `ram` with the first `count` registers of `v` stored from address `i` on.
pub open spec fn stored_regs(ram: Seq<u8>, v: Seq<u8>, i: int, count: int) -> Seq<u8> {
    Seq::new(ram.len(), |a: int| if i <= a < i + count { v[a - i] } else { ram[a] })
}

/// `v` with the first `count` registers loaded from address `i` on.
pub open spec fn loaded_regs(v: Seq<u8>, ram: Seq<u8>, i: int, count: int) -> Seq<u8> {
    Seq::new(v.len(), |r: int| if r < count { ram[i + r] } else { v[r] })
}

/// The effect of `ins` on `s`, whose program counter already points past the
/// instruction; `random` is the byte that a random instruction draws.
pub open spec fn exec_spec(s: MachineView, ins: Instruction, random: u8) -> Result<
    MachineView,
    Chip8Error,
> {
    match ins {
        Instruction::ClearScreen => Ok(MachineView { screen: blank_grid(), ..s }),
        Instruction::Return => if s.stack.len() == 0 {
            Err(Chip8Error::StackUnderflow)
        } else {
            Ok(MachineView { pc: s.stack.last() as int, stack: s.stack.drop_last(), ..s })
        },
        Instruction::Jump { nnn } => Ok(MachineView { pc: nnn as int, ..s }),
        Instruction::Call { nnn } => Ok(
            MachineView { pc: nnn as int, stack: s.stack.push(s.pc as usize), ..s },
        ),
        Instruction::SkipEqImm { x, nn } => Ok(skip_if(s, s.v[x as int] == nn)),
        Instruction::SkipNeImm { x, nn } => Ok(skip_if(s, s.v[x as int] != nn)),
        Instruction::SkipEqReg { x, y } => Ok(skip_if(s, s.v[x as int] == s.v[y as int])),
        Instruction::LoadImm { x, nn } => Ok(set_v(s, x, nn)),
        Instruction::AddImm { x, nn } => Ok(set_v(s, x, ((s.v[x as int] + nn) % 256) as u8)),
        Instruction::Move { x, y } => Ok(set_v(s, x, s.v[y as int])),
        Instruction::Or { x, y } => Ok(set_v(s, x, s.v[x as int] | s.v[y as int])),
        Instruction::And { x, y } => Ok(set_v(s, x, s.v[x as int] & s.v[y as int])),
        Instruction::Xor { x, y } => Ok(set_v(s, x, s.v[x as int] ^ s.v[y as int])),
        Instruction::AddReg { x, y } => {
            let sum = s.v[x as int] + s.v[y as int];
            Ok(set_flag_then(s, x, flag(sum > 255), (sum % 256) as u8))
        },
        Instruction::SubReg { x, y } => {
            let (a, b) = (s.v[x as int], s.v[y as int]);
            Ok(set_flag_then(s, x, flag(a >= b), ((a - b + 256) % 256) as u8))
        },
        Instruction::ShiftRight { x, y } => {
            let a = s.v[x as int];
            Ok(set_flag_then(s, x, a % 2, a / 2))
        },
        Instruction::SubRev { x, y } => {
            let (a, b) = (s.v[x as int], s.v[y as int]);
            Ok(set_flag_then(s, x, flag(b >= a), ((b - a + 256) % 256) as u8))
        },
        Instruction::ShiftLeft { x, y } => {
            let a = s.v[x as int];
            Ok(set_flag_then(s, x, a / 128, ((a * 2) % 256) as u8))
        },
        Instruction::SkipNeReg { x, y } => Ok(skip_if(s, s.v[x as int] != s.v[y as int])),
        Instruction::LoadIndex { nnn } => Ok(MachineView { i: nnn, ..s }),
        Instruction::JumpOffset { nnn } => Ok(
            MachineView { pc: (nnn + s.v[0]) % 65536, ..s },
        ),
        Instruction::Random { x, nn } => Ok(set_v(s, x, random & nn)),
        Instruction::Draw { x, y, n } => if n > 0 && s.i + n > 4096 {
            Err(Chip8Error::AddressOutOfRange(s.i as usize))
        } else {
            let (xi, yi) = (s.v[x as int] as int, s.v[y as int] as int);
            let g = sprite_grid(s.screen, s.ram, s.i as int, xi, yi, s.wrap, n as nat);
            let col = sprite_collides(s.screen, s.ram, s.i as int, xi, yi, s.wrap, n as nat);
            Ok(set_v(MachineView { screen: g, ..s }, 15, flag(col)))
        },
        Instruction::SkipKeyDown { x } => if s.v[x as int] >= 16 {
            Err(Chip8Error::KeyOutOfRange(s.v[x as int]))
        } else {
            Ok(skip_if(s, s.keys[s.v[x as int] as int]))
        },
        Instruction::SkipKeyUp { x } => if s.v[x as int] >= 16 {
            Err(Chip8Error::KeyOutOfRange(s.v[x as int]))
        } else {
            Ok(skip_if(s, !s.keys[s.v[x as int] as int]))
        },
        Instruction::LoadDelay { x } => Ok(set_v(s, x, s.dt)),
        Instruction::WaitKey { x } => match s.pressed {
            Some(k) => Ok(set_v(s, x, k)),
            None => Ok(MachineView { pc: s.pc - 2, ..s }),
        },
        Instruction::SetDelay { x } => Ok(MachineView { dt: s.v[x as int], ..s }),
        Instruction::SetSound { x } => Ok(MachineView { st: s.v[x as int], ..s }),
        Instruction::AddIndex { x } => Ok(
            MachineView { i: ((s.i + s.v[x as int]) % 65536) as u16, ..s },
        ),
        Instruction::LoadGlyph { x } => Ok(MachineView { i: (s.v[x as int] * 5) as u16, ..s }),
        Instruction::StoreBcd { x } => if s.i + 2 >= 4096 {
            Err(Chip8Error::AddressOutOfRange(s.i as usize))
        } else {
            let a = s.v[x as int];
            let ram = s.ram.update(s.i as int, a / 100).update(s.i + 1, (a / 10) % 10).update(
                s.i + 2,
                a % 10,
            );
            Ok(MachineView { ram, ..s })
        },
        Instruction::StoreRegs { x } => if s.i + x >= 4096 {
            Err(Chip8Error::AddressOutOfRange(s.i as usize))
        } else {
            Ok(MachineView { ram: stored_regs(s.ram, s.v, s.i as int, x + 1), ..s })
        },
        Instruction::LoadRegs { x } => if s.i + x >= 4096 {
            Err(Chip8Error::AddressOutOfRange(s.i as usize))
        } else {
            Ok(MachineView { v: loaded_regs(s.v, s.ram, s.i as int, x + 1), ..s })
        },
    }
}

/// One fetch-decode-execute step from `s`.
pub open spec fn step_spec(s: MachineView, random: u8) -> Result<MachineView, Chip8Error> {
    if s.pc + 1 >= 4096 {
        Err(Chip8Error::AddressOutOfRange(s.pc as usize))
    } else {
        let w = word_at(s.ram, s.pc);
        match decode_spec(w) {
            None => Err(Chip8Error::UnrecognizedInstruction(w)),
            Some(ins) => exec_spec(MachineView { pc: s.pc + 2, ..s }, ins, random),
        }
    }
}

/// Every register number in `ins` names one of the sixteen registers.
pub open spec fn regs_in_range(ins: Instruction) -> bool {
    match ins {
        Instruction::ClearScreen => true,
        Instruction::Return => true,
        Instruction::Jump { .. } => true,
        Instruction::Call { .. } => true,
        Instruction::LoadIndex { .. } => true,
        Instruction::JumpOffset { .. } => true,
        Instruction::SkipEqImm { x, .. } => x < 16,
        Instruction::SkipNeImm { x, .. } => x < 16,
        Instruction::LoadImm { x, .. } => x < 16,
        Instruction::AddImm { x, .. } => x < 16,
        Instruction::Random { x, .. } => x < 16,
        Instruction::SkipEqReg { x, y } => x < 16 && y < 16,
        Instruction::Move { x, y } => x < 16 && y < 16,
        Instruction::Or { x, y } => x < 16 && y < 16,
        Instruction::And { x, y } => x < 16 && y < 16,
        Instruction::Xor { x, y } => x < 16 && y < 16,
        Instruction::AddReg { x, y } => x < 16 && y < 16,
        Instruction::SubReg { x, y } => x < 16 && y < 16,
        Instruction::ShiftRight { x, y } => x < 16 && y < 16,
        Instruction::SubRev { x, y } => x < 16 && y < 16,
        Instruction::ShiftLeft { x, y } => x < 16 && y < 16,
        Instruction::SkipNeReg { x, y } => x < 16 && y < 16,
        Instruction::Draw { x, y, .. } => x < 16 && y < 16,
        Instruction::SkipKeyDown { x } => x < 16,
        Instruction::SkipKeyUp { x } => x < 16,
        Instruction::LoadDelay { x } => x < 16,
        Instruction::WaitKey { x } => x < 16,
        Instruction::SetDelay { x } => x < 16,
        Instruction::SetSound { x } => x < 16,
        Instruction::AddIndex { x } => x < 16,
        Instruction::LoadGlyph { x } => x < 16,
        Instruction::StoreBcd { x } => x < 16,
        Instruction::StoreRegs { x } => x < 16,
        Instruction::LoadRegs { x } => x < 16,
    }
}

/// `r` reports `expected`: on success the state became `after`, on an error
/// the state `before` was left as it was.
pub open spec fn outcome(
    expected: Result<MachineView, Chip8Error>,
    before: MachineView,
    after: MachineView,
    r: Result<(), Chip8Error>,
) -> bool {
    match r {
        Ok(_) => expected == Ok::<MachineView, Chip8Error>(after),
        Err(e) => expected == Err::<MachineView, Chip8Error>(e) && after == before,
    }
}

/// Decodes an instruction word; `None` for a word with no defined meaning.
pub fn decode(w: u16) -> (r: Option<Instruction>)
    ensures
        r == decode_spec(w),
        r matches Some(ins) ==> regs_in_range(ins),
{
    let family: u16 = w / 4096;
    let x = ((w / 256) % 16) as u8;
    let y = ((w / 16) % 16) as u8;
    let n = (w % 16) as u8;
    let nn = (w % 256) as u8;
    let nnn: u16 = w % 4096;
    if family == 0 {
        if nn == 0xE0 {
            Some(Instruction::ClearScreen)
        } else if nn == 0xEE {
            Some(Instruction::Return)
        } else {
            None
        }
    } else if family == 1 {
        Some(Instruction::Jump { nnn })
    } else if family == 2 {
        Some(Instruction::Call { nnn })
    } else if family == 3 {
        Some(Instruction::SkipEqImm { x, nn })
    } else if family == 4 {
        Some(Instruction::SkipNeImm { x, nn })
    } else if family == 5 {
        Some(Instruction::SkipEqReg { x, y })
    } else if family == 6 {
        Some(Instruction::LoadImm { x, nn })
    } else if family == 7 {
        Some(Instruction::AddImm { x, nn })
    } else if family == 8 {
        if n == 0 {
            Some(Instruction::Move { x, y })
        } else if n == 1 {
            Some(Instruction::Or { x, y })
        } else if n == 2 {
            Some(Instruction::And { x, y })
        } else if n == 3 {
            Some(Instruction::Xor { x, y })
        } else if n == 4 {
            Some(Instruction::AddReg { x, y })
        } else if n == 5 {
            Some(Instruction::SubReg { x, y })
        } else if n == 6 {
            Some(Instruction::ShiftRight { x, y })
        } else if n == 7 {
            Some(Instruction::SubRev { x, y })
        } else if n == 0xE {
            Some(Instruction::ShiftLeft { x, y })
        } else {
            None
        }
    } else if family == 9 {
        Some(Instruction::SkipNeReg { x, y })
    } else if family == 0xA {
        Some(Instruction::LoadIndex { nnn })
    } else if family == 0xB {
        Some(Instruction::JumpOffset { nnn })
    } else if family == 0xC {
        Some(Instruction::Random { x, nn })
    } else if family == 0xD {
        Some(Instruction::Draw { x, y, n })
    } else if family == 0xE {
        if nn == 0x9E {
            Some(Instruction::SkipKeyDown { x })
        } else if nn == 0xA1 {
            Some(Instruction::SkipKeyUp { x })
        } else {
            None
        }
    } else {
        if nn == 0x07 {
            Some(Instruction::LoadDelay { x })
        } else if nn == 0x0A {
            Some(Instruction::WaitKey { x })
        } else if nn == 0x15 {
            Some(Instruction::SetDelay { x })
        } else if nn == 0x18 {
            Some(Instruction::SetSound { x })
        } else if nn == 0x1E {
            Some(Instruction::AddIndex { x })
        } else if nn == 0x29 {
            Some(Instruction::LoadGlyph { x })
        } else if nn == 0x33 {
            Some(Instruction::StoreBcd { x })
        } else if nn == 0x55 {
            Some(Instruction::StoreRegs { x })
        } else if nn == 0x65 {
            Some(Instruction::LoadRegs { x })
        } else {
            None
        }
    }
}

} // verus!
