use crate::display::blank_grid;
use crate::machine::{
    decode_spec, flag, fresh_machine, load_spec, machine_wf, reset_spec, step_spec, word_at,
    MachineView,
};
use vstd::arithmetic::div_mod::lemma_fundamental_div_mod_converse;
use vstd::prelude::*;

verus! {

/// The instruction word `family x y n`, built from its four nibbles.
pub open spec fn word_of(family: int, x: int, y: int, n: int) -> int {
    family * 4096 + x * 256 + y * 16 + n
}

proof fn lemma_fields(family: int, x: int, y: int, n: int)
    requires
        0 <= family < 16,
        0 <= x < 16,
        0 <= y < 16,
        0 <= n < 16,
    ensures
        ({
            let w = word_of(family, x, y, n) as u16;
            &&& w as int == word_of(family, x, y, n)
            &&& w / 4096 == family
            &&& (w / 256) % 16 == x
            &&& (w / 16) % 16 == y
            &&& w % 16 == n
            &&& w % 256 == y * 16 + n
            &&& w % 4096 == x * 256 + y * 16 + n
        }),
{
    let w = word_of(family, x, y, n);
    assert(0 <= w < 65536);
    lemma_fundamental_div_mod_converse(w, 4096, family, x * 256 + y * 16 + n);
    lemma_fundamental_div_mod_converse(w, 256, family * 16 + x, y * 16 + n);
    lemma_fundamental_div_mod_converse(family * 16 + x, 16, family, x);
    lemma_fundamental_div_mod_converse(w, 16, family * 256 + x * 16 + y, n);
    lemma_fundamental_div_mod_converse(family * 256 + x * 16 + y, 16, family * 16 + x, y);
}

/// Adding register `y` into register `x` (`8xy4`) sets the flag register to 1
/// exactly when the sum exceeds 255, and leaves the sum modulo 256 in `x`
/// (for `x` other than the flag register itself).
pub proof fn lemma_add_sets_carry(s: MachineView, x: u8, y: u8, random: u8)
    requires
        machine_wf(s),
        s.pc + 1 < 4096,
        x < 15,
        y < 16,
        word_at(s.ram, s.pc) == word_of(8, x as int, y as int, 4),
    ensures
        step_spec(s, random) matches Ok(t) && t.v[15] == flag(s.v[x as int] + s.v[y as int] > 255)
            && t.v[x as int] == (s.v[x as int] + s.v[y as int]) % 256 && t.pc == s.pc + 2,
{
    lemma_fields(8, x as int, y as int, 4);
}

/// Subtracting register `y` from register `x` (`8xy5`) sets the flag register
/// to 1 exactly when no borrow occurs, and leaves the difference modulo 256 in
/// `x` (for `x` other than the flag register itself).
pub proof fn lemma_sub_sets_borrow(s: MachineView, x: u8, y: u8, random: u8)
    requires
        machine_wf(s),
        s.pc + 1 < 4096,
        x < 15,
        y < 16,
        word_at(s.ram, s.pc) == word_of(8, x as int, y as int, 5),
    ensures
        step_spec(s, random) matches Ok(t) && t.v[15] == flag(s.v[x as int] >= s.v[y as int])
            && t.v[x as int] == (s.v[x as int] - s.v[y as int]) % 256 && t.pc == s.pc + 2,
{
    lemma_fields(8, x as int, y as int, 5);
}

/// The shifts (`8xy6`, `8xyE`) put the bit shifted out of register `x`, as it
/// was before the shift, in the flag register, while `x` receives the shifted
/// value (for `x` other than the flag register itself).
pub proof fn lemma_shift_keeps_old_bit(s: MachineView, x: u8, y: u8, random: u8)
    requires
        machine_wf(s),
        s.pc + 1 < 4096,
        x < 15,
        y < 16,
    ensures
        word_at(s.ram, s.pc) == word_of(8, x as int, y as int, 6) ==> (step_spec(s, random) matches Ok(
            t,
        ) && t.v[15] == s.v[x as int] & 1u8 && t.v[x as int] == s.v[x as int] >> 1u8),
        word_at(s.ram, s.pc) == word_of(8, x as int, y as int, 0xE) ==> (step_spec(s, random) matches Ok(
            t,
        ) && t.v[15] == s.v[x as int] >> 7u8 && t.v[x as int] == s.v[x as int] << 1u8),
{
    lemma_fields(8, x as int, y as int, 6);
    lemma_fields(8, x as int, y as int, 0xE);
    let a = s.v[x as int];
    assert(a % 2 == a & 1u8) by (bit_vector);
    assert(a / 2 == a >> 1u8) by (bit_vector);
    assert(a / 128 == a >> 7u8) by (bit_vector);
    assert(((a as u16 * 2) % 256) as u8 == a << 1u8) by (bit_vector);
}

/// Clearing the screen (`00E0`) leaves every pixel 0.
pub proof fn lemma_clear_blanks(s: MachineView, random: u8)
    requires
        machine_wf(s),
        s.pc + 1 < 4096,
        word_at(s.ram, s.pc) == 0x00E0,
    ensures
        step_spec(s, random) matches Ok(t) && t.screen == blank_grid() && t.pc == s.pc + 2,
{
    lemma_fields(0, 0, 0xE, 0);
}

/// Whether the conditional skip `w` (`3xkk`, `4xkk`, `5xy0`, `9xy0`) skips in `s`.
pub open spec fn skip_taken(s: MachineView, w: u16) -> bool {
    let x = (w / 256) % 16;
    let y = (w / 16) % 16;
    let kk = (w % 256) as u8;
    if w / 4096 == 3 {
        s.v[x as int] == kk
    } else if w / 4096 == 4 {
        s.v[x as int] != kk
    } else if w / 4096 == 5 {
        s.v[x as int] == s.v[y as int]
    } else {
        s.v[x as int] != s.v[y as int]
    }
}

/// A conditional skip advances the program counter by 4 when its condition
/// holds and by 2 when it does not, and changes nothing else.
pub proof fn lemma_skip_advances(s: MachineView, random: u8)
    requires
        machine_wf(s),
        s.pc + 1 < 4096,
        ({
            let f = word_at(s.ram, s.pc) / 4096;
            f == 3 || f == 4 || f == 5 || f == 9
        }),
    ensures
        step_spec(s, random) == Ok::<MachineView, crate::machine::Chip8Error>(
            MachineView { pc: s.pc + if skip_taken(s, word_at(s.ram, s.pc)) { 4int } else { 2 }, ..s },
        ),
{
    let w = word_at(s.ram, s.pc);
    assert(decode_spec(w) is Some);
}

/// Resetting and then loading a program gives the same state as loading it
/// into a freshly constructed interpreter, but for wrap mode and the keypad,
/// which belong to the host; in particular the same display.
pub proof fn lemma_reset_then_load(s: MachineView, rom: Seq<u8>)
    ensures
        load_spec(reset_spec(s), rom) == (MachineView {
            wrap: s.wrap,
            keys: s.keys,
            pressed: s.pressed,
            ..load_spec(fresh_machine(), rom)
        }),
        load_spec(reset_spec(s), rom).screen == load_spec(fresh_machine(), rom).screen,
{
}

/// Waiting for a key (`Fx0A`) leaves the whole state as it was, program
/// counter included, while no key is newly pressed, so the same instruction
/// runs again; once a key is newly pressed it stores that key in register `x`
/// and moves on to the next instruction.
pub proof fn lemma_wait_key(s: MachineView, x: u8, random: u8)
    requires
        machine_wf(s),
        s.pc + 1 < 4096,
        x < 16,
        word_at(s.ram, s.pc) == word_of(0xF, x as int, 0, 0xA),
    ensures
        s.pressed is None ==> step_spec(s, random) == Ok::<MachineView, crate::machine::Chip8Error>(s),
        s.pressed matches Some(k) ==> step_spec(s, random) == Ok::<
            MachineView,
            crate::machine::Chip8Error,
        >(MachineView { v: s.v.update(x as int, k), pc: s.pc + 2, ..s }),
{
    lemma_fields(0xF, x as int, 0, 0xA);
}

} // verus!
