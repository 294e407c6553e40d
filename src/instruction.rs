use crate::display::{collides, drawn, Display, Sprite};
use crate::keyboard::DataKeys;
use crate::memory::{written, Memory, CAPACITY, FONT_START};
use crate::registers::{Registers, RegistersModel, FLAG};
use vstd::prelude::*;

verus! {

/// Opcode family: bits 12 to 15 of an instruction word.
pub open spec fn op_code_of(w: u16) -> u8 {
    (w / 0x1000) as u8
}

/// Register selector X: bits 8 to 11.
pub open spec fn reg_of(w: u16) -> u8 {
    ((w / 0x100) % 0x10) as u8
}

/// Register selector Y: bits 4 to 7.
pub open spec fn nibble_of(w: u16) -> u8 {
    ((w / 0x10) % 0x10) as u8
}

/// Count or function code: bits 0 to 3.
pub open spec fn func_of(w: u16) -> u8 {
    (w % 0x10) as u8
}

/// Immediate byte: bits 0 to 7.
pub open spec fn byte_of(w: u16) -> u8 {
    (w % 0x100) as u8
}

/// Address: bits 0 to 11.
pub open spec fn addr_of(w: u16) -> u16 {
    (w % 0x1000) as u16
}

/// One fetched 16-bit instruction word.
#[derive(Clone, Copy, Debug, PartialEq, Eq, Structural)]
pub struct Istruction {
    i: u16,
}

impl View for Istruction {
    type V = u16;

    closed spec fn view(&self) -> u16 {
        self.i
    }
}

impl Istruction {
    pub fn new(value: u16) -> (r: Istruction)
        ensures
            r@ == value,
    {
        Istruction { i: value }
    }

    /// The whole instruction word.
    pub fn get_word(&self) -> (r: u16)
        ensures
            r == self@,
    {
        self.i
    }

    pub fn get_op_code(&self) -> (r: u8)
        ensures
            r == op_code_of(self@),
            r < 0x10,
    {
        let w = self.i;
        assert((w >> 12u16) as u8 == (w / 0x1000) as u8) by (bit_vector);
        assert(w / 0x1000 < 0x10) by (bit_vector);
        (w >> 12u16) as u8
    }

    pub fn get_reg(&self) -> (r: u8)
        ensures
            r == reg_of(self@),
            r < 0x10,
    {
        let w = self.i;
        assert(((w & 0x0F00) >> 8u16) as u8 == ((w / 0x100) % 0x10) as u8) by (bit_vector);
        assert((w / 0x100) % 0x10 < 0x10) by (bit_vector);
        ((w & 0x0F00) >> 8u16) as u8
    }

    pub fn get_2_nibble(&self) -> (r: u8)
        ensures
            r == nibble_of(self@),
            r < 0x10,
    {
        let w = self.i;
        assert(((w & 0x00F0) >> 4u16) as u8 == ((w / 0x10) % 0x10) as u8) by (bit_vector);
        assert((w / 0x10) % 0x10 < 0x10) by (bit_vector);
        ((w & 0x00F0) >> 4u16) as u8
    }

    pub fn get_func_code(&self) -> (r: u8)
        ensures
            r == func_of(self@),
            r < 0x10,
    {
        let w = self.i;
        assert((w & 0x000F) as u8 == (w % 0x10) as u8) by (bit_vector);
        (w & 0x000F) as u8
    }

    pub fn get_byte(&self) -> (r: u8)
        ensures
            r == byte_of(self@),
    {
        let w = self.i;
        assert(w as u8 == (w % 0x100) as u8) by (bit_vector);
        w as u8
    }

    pub fn get_addr(&self) -> (r: u16)
        ensures
            r == addr_of(self@),
            r < 0x1000,
    {
        let w = self.i;
        assert(w & 0x0FFF == (w % 0x1000) as u16) by (bit_vector);
        w & 0x0FFF
    }
}

impl Default for Istruction {
    fn default() -> (r: Istruction)
        ensures
            r@ == 0,
    {
        Istruction { i: 0 }
    }
}

/// `r` with the program counter moved past one more instruction when `cond` holds.
pub open spec fn skipped_if(r: RegistersModel, cond: bool) -> RegistersModel {
    if cond {
        RegistersModel { pc: (r.pc + 2) as u16, ..r }
    } else {
        r
    }
}

/// `r` with `val` in register `x`, then the flag register set from `flag`.
pub open spec fn with_flag(r: RegistersModel, x: int, val: u8, flag: bool) -> RegistersModel {
    RegistersModel { v: r.v.update(x, val).update(FLAG as int, if flag { 1u8 } else { 0u8 }), ..r }
}

/// `r` with `val` in register `x`.
pub open spec fn with_reg(r: RegistersModel, x: int, val: u8) -> RegistersModel {
    RegistersModel { v: r.v.update(x, val), ..r }
}

pub open spec fn jump_result(r: RegistersModel, w: u16) -> RegistersModel {
    RegistersModel { pc: addr_of(w), ..r }
}

pub open spec fn call_result(r: RegistersModel, w: u16) -> RegistersModel {
    RegistersModel { stack: r.stack.push(r.pc), pc: addr_of(w), ..r }
}

pub open spec fn add_regs_result(r: RegistersModel, w: u16) -> RegistersModel {
    let (x, y) = (reg_of(w) as int, nibble_of(w) as int);
    let sum = r.v[x] + r.v[y];
    with_flag(r, x, (sum % 256) as u8, sum > 255)
}

pub open spec fn sub_regs_result(r: RegistersModel, w: u16) -> RegistersModel {
    let (x, y) = (reg_of(w) as int, nibble_of(w) as int);
    with_flag(r, x, ((r.v[x] - r.v[y]) % 256) as u8, r.v[x] >= r.v[y])
}

pub open spec fn subn_regs_result(r: RegistersModel, w: u16) -> RegistersModel {
    let (x, y) = (reg_of(w) as int, nibble_of(w) as int);
    with_flag(r, x, ((r.v[y] - r.v[x]) % 256) as u8, r.v[y] >= r.v[x])
}

/// Vy is copied into Vx, then shifted right; the flag gets the bit shifted out.
pub open spec fn shift_right_result(r: RegistersModel, w: u16) -> RegistersModel {
    let (x, y) = (reg_of(w) as int, nibble_of(w) as int);
    with_flag(r, x, (r.v[y] / 2) as u8, r.v[y] % 2 == 1)
}

/// Vy is copied into Vx, then shifted left; the flag gets the bit shifted out.
pub open spec fn shift_left_result(r: RegistersModel, w: u16) -> RegistersModel {
    let (x, y) = (reg_of(w) as int, nibble_of(w) as int);
    with_flag(r, x, ((r.v[y] * 2) % 256) as u8, r.v[y] >= 128)
}

/// The three decimal digits of `b`, hundreds first.
pub open spec fn decimal_digits(b: u8) -> Seq<u8> {
    seq![(b / 100) as u8, ((b / 10) % 10) as u8, (b % 10) as u8]
}

/// Registers after loading V0 to Vx from memory at I.
pub open spec fn loaded_regs(r: RegistersModel, m: Seq<u8>, x: int) -> RegistersModel {
    RegistersModel {
        v: Seq::new(16, |k: int| if k <= x { m[r.i + k] } else { r.v[k] }),
        ..r
    }
}

/// `ADD Vx, Vy` with Vx = a and Vy = b leaves (a + b) mod 256 in Vx and sets
/// the flag to 1 exactly when a + b exceeds 255; no other register changes.
pub proof fn add_sets_sum_and_carry(r: RegistersModel, w: u16)
    requires
        r.v.len() == 16,
        reg_of(w) != FLAG,
    ensures
        ({
            let (x, y) = (reg_of(w) as int, nibble_of(w) as int);
            let (a, b) = (r.v[x], r.v[y]);
            let after = add_regs_result(r, w);
            &&& after.v[x] == (a + b) % 256
            &&& after.v[FLAG as int] == if a + b > 255 { 1u8 } else { 0u8 }
            &&& forall|k: int| 0 <= k < 16 && k != x && k != FLAG ==> after.v[k] == r.v[k]
            &&& after.v.len() == 16
        }),
{
}

/// Storing V0 to Vx at I and loading them back from that same address gives
/// V0 to Vx their stored values, whatever the registers held in between.
pub proof fn save_then_load_restores(
    r: RegistersModel,
    m: Seq<u8>,
    w: u16,
    between: RegistersModel,
)
    requires
        r.v.len() == 16,
        between.v.len() == 16,
        m.len() == CAPACITY,
        r.i + reg_of(w) + 1 <= CAPACITY,
        between.i == r.i,
    ensures
        ({
            let x = reg_of(w) as int;
            let stored = written(m, r.i as int, r.v.subrange(0, x + 1));
            forall|k: int| 0 <= k <= x ==> #[trigger] loaded_regs(between, stored, x).v[k] == r.v[k]
        }),
{
}

pub fn jump(istro: Istruction, regs: &mut Registers)
    ensures
        final(regs)@ == jump_result(old(regs)@, istro@),
{
    regs.set_pc(istro.get_addr());
}

pub fn call_subroutine(istro: Istruction, regs: &mut Registers)
    ensures
        final(regs)@ == call_result(old(regs)@, istro@),
{
    regs.stack_push();
    regs.set_pc(istro.get_addr());
}

pub fn skip_if_equal_reg_byte(istro: Istruction, regs: &mut Registers)
    requires
        old(regs)@.pc + 2 <= u16::MAX,
    ensures
        final(regs)@ == skipped_if(
            old(regs)@,
            old(regs)@.v[reg_of(istro@) as int] == byte_of(istro@),
        ),
{
    let x_value = regs.get_v(istro.get_reg() as usize);
    if x_value == istro.get_byte() {
        regs.increment_pc();
    }
}

pub fn skip_if_not_equal_reg_byte(istro: Istruction, regs: &mut Registers)
    requires
        old(regs)@.pc + 2 <= u16::MAX,
    ensures
        final(regs)@ == skipped_if(
            old(regs)@,
            old(regs)@.v[reg_of(istro@) as int] != byte_of(istro@),
        ),
{
    let x_value = regs.get_v(istro.get_reg() as usize);
    if x_value != istro.get_byte() {
        regs.increment_pc();
    }
}

pub fn skip_if_equal_regs(istro: Istruction, regs: &mut Registers)
    requires
        old(regs)@.pc + 2 <= u16::MAX,
    ensures
        final(regs)@ == skipped_if(
            old(regs)@,
            old(regs)@.v[reg_of(istro@) as int] == old(regs)@.v[nibble_of(istro@) as int],
        ),
{
    let x = istro.get_reg() as usize;
    let y = istro.get_2_nibble() as usize;
    if regs.get_v(x) == regs.get_v(y) {
        regs.increment_pc();
    }
}

pub fn skip_if_not_equal_regs(istro: Istruction, regs: &mut Registers)
    requires
        old(regs)@.pc + 2 <= u16::MAX,
    ensures
        final(regs)@ == skipped_if(
            old(regs)@,
            old(regs)@.v[reg_of(istro@) as int] != old(regs)@.v[nibble_of(istro@) as int],
        ),
{
    let x = istro.get_reg() as usize;
    let y = istro.get_2_nibble() as usize;
    if regs.get_v(x) != regs.get_v(y) {
        regs.increment_pc();
    }
}

pub fn load_byte(istro: Istruction, regs: &mut Registers)
    ensures
        final(regs)@ == with_reg(old(regs)@, reg_of(istro@) as int, byte_of(istro@)),
{
    let x = istro.get_reg() as usize;
    regs.set_v(x, istro.get_byte());
}

/// Adds the immediate byte to Vx, wrapping around; the flag is left alone.
pub fn add_reg_byte(istro: Istruction, regs: &mut Registers)
    ensures
        final(regs)@ == with_reg(
            old(regs)@,
            reg_of(istro@) as int,
            ((old(regs)@.v[reg_of(istro@) as int] + byte_of(istro@)) % 256) as u8,
        ),
{
    let x = istro.get_reg() as usize;
    let new_val = istro.get_byte() as u16 + regs.get_v(x) as u16;
    regs.set_v(x, (new_val % 256) as u8);
}

pub fn move_regs(istro: Istruction, regs: &mut Registers)
    ensures
        final(regs)@ == with_reg(
            old(regs)@,
            reg_of(istro@) as int,
            old(regs)@.v[nibble_of(istro@) as int],
        ),
{
    let x = istro.get_reg();
    let y = istro.get_2_nibble();
    let y_value = regs.get_v(y as usize);
    regs.set_v(x as usize, y_value);
}

pub fn or_regs(istro: Istruction, regs: &mut Registers)
    ensures
        final(regs)@ == with_flag(
            old(regs)@,
            reg_of(istro@) as int,
            old(regs)@.v[reg_of(istro@) as int] | old(regs)@.v[nibble_of(istro@) as int],
            false,
        ),
{
    let x = istro.get_reg() as usize;
    let y = istro.get_2_nibble() as usize;
    let new_val = regs.get_v(x) | regs.get_v(y);
    regs.set_v(x, new_val);
    regs.set_flag(false);
}

pub fn and_regs(istro: Istruction, regs: &mut Registers)
    ensures
        final(regs)@ == with_flag(
            old(regs)@,
            reg_of(istro@) as int,
            old(regs)@.v[reg_of(istro@) as int] & old(regs)@.v[nibble_of(istro@) as int],
            false,
        ),
{
    let x = istro.get_reg() as usize;
    let y = istro.get_2_nibble() as usize;
    let new_val = regs.get_v(x) & regs.get_v(y);
    regs.set_v(x, new_val);
    regs.set_flag(false);
}

pub fn xor_regs(istro: Istruction, regs: &mut Registers)
    ensures
        final(regs)@ == with_flag(
            old(regs)@,
            reg_of(istro@) as int,
            old(regs)@.v[reg_of(istro@) as int] ^ old(regs)@.v[nibble_of(istro@) as int],
            false,
        ),
{
    let x = istro.get_reg() as usize;
    let y = istro.get_2_nibble() as usize;
    let new_val = regs.get_v(x) ^ regs.get_v(y);
    regs.set_v(x, new_val);
    regs.set_flag(false);
}

pub fn add_regs(istro: Istruction, regs: &mut Registers)
    ensures
        final(regs)@ == add_regs_result(old(regs)@, istro@),
{
    let x = istro.get_reg() as usize;
    let y = istro.get_2_nibble() as usize;
    let x_value = regs.get_v(x);
    let y_value = regs.get_v(y);
    let sum = x_value as u16 + y_value as u16;
    regs.set_v(x, (sum % 256) as u8);
    regs.set_flag(sum > 255);
}

pub fn sub_regs(istro: Istruction, regs: &mut Registers)
    ensures
        final(regs)@ == sub_regs_result(old(regs)@, istro@),
{
    let x = istro.get_reg() as usize;
    let y = istro.get_2_nibble() as usize;
    let x_value = regs.get_v(x);
    let y_value = regs.get_v(y);
    if x_value >= y_value {
        regs.set_v(x, x_value - y_value);
        regs.set_flag(true);
    } else {
        let x_with_underflow = x_value as u16 + 0b1_0000_0000;
        let result = x_with_underflow - y_value as u16;
        regs.set_v(x, result as u8);
        regs.set_flag(false);
    }
}

pub fn shift_right_regs(istro: Istruction, regs: &mut Registers)
    ensures
        final(regs)@ == shift_right_result(old(regs)@, istro@),
{
    let x = istro.get_reg() as usize;
    let x_value = regs.get_v(istro.get_2_nibble() as usize);
    assert(x_value >> 1u8 == x_value / 2) by (bit_vector);
    assert(((x_value & 0x01u8) != 0) == (x_value % 2 == 1)) by (bit_vector);
    regs.set_v(x, x_value >> 1u8);
    regs.set_flag((x_value & 0x01u8) != 0);
}

pub fn subn_regs(istro: Istruction, regs: &mut Registers)
    ensures
        final(regs)@ == subn_regs_result(old(regs)@, istro@),
{
    let x = istro.get_reg() as usize;
    let y = istro.get_2_nibble() as usize;
    let x_value = regs.get_v(x);
    let y_value = regs.get_v(y);
    if y_value >= x_value {
        regs.set_v(x, y_value - x_value);
        regs.set_flag(true);
    } else {
        let y_with_underflow = y_value as u16 + 0b1_0000_0000;
        let result = y_with_underflow - x_value as u16;
        regs.set_v(x, result as u8);
        regs.set_flag(false);
    }
}

pub fn shift_left_regs(istro: Istruction, regs: &mut Registers)
    ensures
        final(regs)@ == shift_left_result(old(regs)@, istro@),
{
    let x = istro.get_reg() as usize;
    let x_value = regs.get_v(istro.get_2_nibble() as usize);
    assert(x_value << 1u8 == ((x_value * 2) % 256) as u8) by (bit_vector);
    assert(((x_value & 0x80u8) != 0) == (x_value >= 128)) by (bit_vector);
    regs.set_v(x, x_value << 1u8);
    regs.set_flag((x_value & 0x80u8) != 0);
}

pub fn load_addr(istro: Istruction, regs: &mut Registers)
    ensures
        final(regs)@ == (RegistersModel { i: addr_of(istro@), ..old(regs)@ }),
{
    regs.set_i(istro.get_addr());
}

pub fn jump_rel_to_0(istro: Istruction, regs: &mut Registers)
    ensures
        final(regs)@ == (RegistersModel { pc: (addr_of(istro@) + old(regs)@.v[0]) as u16, ..old(regs)@ }),
{
    let v0 = regs.get_v(0);
    regs.set_pc(istro.get_addr() + v0 as u16);
}

/// Vx gets the random byte masked by the immediate byte.
pub fn rand(istro: Istruction, regs: &mut Registers, random_byte: u8)
    ensures
        final(regs)@ == with_reg(old(regs)@, reg_of(istro@) as int, random_byte & byte_of(istro@)),
{
    let bit_mask = istro.get_byte();
    let x = istro.get_reg();
    regs.set_v(x as usize, random_byte & bit_mask);
}

/// Draws the N-byte sprite at I onto the display at (Vx, Vy); VF reports a collision.
pub fn draw(
    istro: Istruction,
    regs: &mut Registers,
    mem: &Memory,
    disp: &mut Display,
    to_draw: &mut bool,
)
    requires
        mem.wf(),
        old(disp).wf(),
        old(regs)@.i + func_of(istro@) <= CAPACITY,
    ensures
        ({
            let r = old(regs)@;
            let bytes = mem@.subrange(r.i as int, r.i + func_of(istro@));
            let (x, y) = (r.v[reg_of(istro@) as int], r.v[nibble_of(istro@) as int]);
            &&& final(disp).wf()
            &&& final(disp)@ == drawn(old(disp)@, bytes, x, y)
            &&& final(regs)@ == with_reg(
                r,
                FLAG as int,
                if collides(old(disp)@, bytes, x, y) { 1u8 } else { 0u8 },
            )
        }),
        *final(to_draw),
{
    let mut buff: Vec<u8> = vec![0; istro.get_func_code() as usize];
    mem.read_slice(regs.get_i(), buff.as_mut_slice());
    let x = regs.get_v(istro.get_reg() as usize);
    let y = regs.get_v(istro.get_2_nibble() as usize);
    let collision = disp.add_sprite(Sprite::from_slice(buff.as_slice(), x, y));
    *to_draw = true;
    regs.set_flag(collision);
}

/// Skips the next instruction when the key numbered Vx is held down.
pub fn skip_pressed(istro: Istruction, regs: &mut Registers, keys_pressed: &DataKeys)
    requires
        old(regs)@.pc + 2 <= u16::MAX,
    ensures
        final(regs)@ == skipped_if(
            old(regs)@,
            keys_pressed@.pressed.contains(old(regs)@.v[reg_of(istro@) as int]),
        ),
{
    let key = regs.get_v(istro.get_reg() as usize);
    if keys_pressed.key_pressed(key) {
        regs.increment_pc();
    }
}

/// Skips the next instruction when the key numbered Vx is not held down.
pub fn skip_not_pressed(istro: Istruction, regs: &mut Registers, keys_pressed: &DataKeys)
    requires
        old(regs)@.pc + 2 <= u16::MAX,
    ensures
        final(regs)@ == skipped_if(
            old(regs)@,
            !keys_pressed@.pressed.contains(old(regs)@.v[reg_of(istro@) as int]),
        ),
{
    let key = regs.get_v(istro.get_reg() as usize);
    if !keys_pressed.key_pressed(key) {
        regs.increment_pc();
    }
}

pub fn read_dalay(istro: Istruction, regs: &mut Registers)
    ensures
        final(regs)@ == with_reg(old(regs)@, reg_of(istro@) as int, old(regs)@.delay),
{
    let delay = regs.get_delay();
    regs.set_v(istro.get_reg() as usize, delay);
}

pub fn set_sound_timer(istro: Istruction, regs: &mut Registers)
    ensures
        final(regs)@ == (RegistersModel { sound: old(regs)@.v[reg_of(istro@) as int], ..old(regs)@ }),
{
    let x_value = regs.get_v(istro.get_reg() as usize);
    regs.set_sound(x_value);
}

pub fn set_delay_timer(istro: Istruction, regs: &mut Registers)
    ensures
        final(regs)@ == (RegistersModel { delay: old(regs)@.v[reg_of(istro@) as int], ..old(regs)@ }),
{
    let x_value = regs.get_v(istro.get_reg() as usize);
    regs.set_delay(x_value);
}

/// I grows by Vx, wrapping around at 16 bits.
pub fn add_i_reg(istro: Istruction, regs: &mut Registers)
    ensures
        final(regs)@ == (RegistersModel {
            i: ((old(regs)@.i + old(regs)@.v[reg_of(istro@) as int]) % 0x10000) as u16,
            ..old(regs)@
        }),
{
    let x_value = regs.get_v(istro.get_reg() as usize);
    let i = regs.get_i();
    regs.set_i(i.wrapping_add(x_value as u16));
}

/// I points at the font glyph of digit Vx.
pub fn get_location_sprite(istro: Istruction, regs: &mut Registers)
    ensures
        final(regs)@ == (RegistersModel {
            i: (FONT_START + old(regs)@.v[reg_of(istro@) as int] * 5) as u16,
            ..old(regs)@
        }),
{
    let x_value = regs.get_v(istro.get_reg() as usize) as u16;
    regs.set_i(FONT_START + x_value * 5);
}

/// Writes the decimal digits of Vx to memory at I, I + 1 and I + 2.
pub fn convert_binary_to_dec(istro: Istruction, regs: &Registers, mem: &mut Memory)
    requires
        old(mem).wf(),
        regs@.i + 3 <= CAPACITY,
    ensures
        final(mem).wf(),
        final(mem)@ == written(
            old(mem)@,
            regs@.i as int,
            decimal_digits(regs@.v[reg_of(istro@) as int]),
        ),
{
    let mut buff: Vec<u8> = Vec::new();
    let x_value = regs.get_v(istro.get_reg() as usize);
    buff.push(x_value / 100);
    buff.push(x_value / 10 - buff[0] * 10);
    buff.push(x_value - buff[1] * 10 - buff[0] * 100);
    assert(buff@ =~= decimal_digits(x_value));
    mem.write_slice(regs.get_i(), buff.as_slice());
}

/// Stores V0 to Vx in memory from I on, then moves I past them.
pub fn save_regs(istro: Istruction, regs: &mut Registers, mem: &mut Memory)
    requires
        old(mem).wf(),
        old(regs).wf(),
        old(regs)@.i + reg_of(istro@) + 1 <= CAPACITY,
    ensures
        final(mem).wf(),
        final(mem)@ == written(
            old(mem)@,
            old(regs)@.i as int,
            old(regs)@.v.subrange(0, reg_of(istro@) + 1),
        ),
        final(regs)@ == (RegistersModel {
            i: (old(regs)@.i + reg_of(istro@) + 1) as u16,
            ..old(regs)@
        }),
{
    let x = istro.get_reg() as usize;
    let mut values: Vec<u8> = Vec::new();
    let mut r: usize = 0;
    while r <= x
        invariant
            x < 16,
            r <= x + 1,
            regs.wf(),
            values@ == regs@.v.subrange(0, r as int),
        decreases x + 1 - r,
    {
        values.push(regs.get_v(r));
        r = r + 1;
        assert(values@ =~= regs@.v.subrange(0, r as int));
    }
    let i = regs.get_i();
    mem.write_slice(i, values.as_slice());
    regs.set_i(i + (x as u16) + 1);
}

/// Loads V0 to Vx from memory at I; I is left alone.
pub fn load_regs(istro: Istruction, regs: &mut Registers, mem: &Memory)
    requires
        mem.wf(),
        old(regs).wf(),
        old(regs)@.i + reg_of(istro@) + 1 <= CAPACITY,
    ensures
        final(regs).wf(),
        final(regs)@ == loaded_regs(old(regs)@, mem@, reg_of(istro@) as int),
{
    let x = istro.get_reg() as usize;
    let mut buff: Vec<u8> = vec![0; x + 1];
    mem.read_slice(regs.get_i(), buff.as_mut_slice());
    let ghost start = regs@;
    let mut r: usize = 0;
    while r <= x
        invariant
            x < 16,
            r <= x + 1,
            regs.wf(),
            mem.wf(),
            start.i + x + 1 <= CAPACITY,
            buff@ == mem@.subrange(start.i as int, start.i + x + 1),
            regs@ == (RegistersModel {
                v: Seq::new(16, |k: int| if k < r { mem@[start.i + k] } else { start.v[k] }),
                ..start
            }),
        decreases x + 1 - r,
    {
        regs.set_v(r, buff[r]);
        r = r + 1;
        assert(regs@.v =~= Seq::new(16, |k: int| if k < r { mem@[start.i + k] } else { start.v[k] }));
    }
    assert(regs@.v =~= loaded_regs(start, mem@, x as int).v);
}

} // verus!
