use chip8::instruction::{
    add_i_reg, add_regs, call_subroutine, convert_binary_to_dec, get_location_sprite, jump,
    load_regs, save_regs, shift_left_regs, shift_right_regs, skip_if_equal_reg_byte,
    skip_if_equal_regs, sub_regs, subn_regs, xor_regs, Istruction,
};
use chip8::memory::Memory;
use chip8::registers::Registers;

#[test]
fn test_istruction() {
    let i = Istruction::new(0xABCD);
    assert_eq!(i.get_op_code(), 0x0A);
    assert_eq!(i.get_reg(), 0xB);
    assert_eq!(i.get_2_nibble(), 0xC);
    assert_eq!(i.get_func_code(), 0xD);
    assert_eq!(i.get_byte(), 0xCD);
    assert_eq!(i.get_addr(), 0xBCD)
}

#[test]
fn test_jump() {
    let istro = Istruction::new(0xABCD);
    let mut regs = Registers::default();
    jump(istro, &mut regs);
    assert_eq!(0xBCD, regs.get_pc())
}

#[test]
fn test_skip_if_equal_reg_byte() {
    let istro = Istruction::new(0xABCD);
    let mut regs = Registers::default();
    regs.set_v(0xB, 0xCD);
    skip_if_equal_reg_byte(istro, &mut regs);
    let istro = Istruction::new(0xABDD);
    skip_if_equal_reg_byte(istro, &mut regs);
    assert_eq!(regs.get_pc(), 0x202)
}

#[test]
fn test_skip_if_equal_regs() {
    let istro = Istruction::new(0xABCD);
    let mut regs = Registers::default();
    regs.set_v(0xB, 0xCD);
    regs.set_v(0xC, 0xCD);
    skip_if_equal_regs(istro.clone(), &mut regs);
    regs.set_v(0xC, 0xDD);
    skip_if_equal_regs(istro, &mut regs);
    assert_eq!(regs.get_pc(), 0x202)
}

#[test]
fn add_regs_sets_carry_on_overflow() {
    let mut regs = Registers::default();
    regs.set_v(1, 200);
    regs.set_v(2, 100);
    add_regs(Istruction::new(0x8124), &mut regs);
    assert_eq!(regs.get_v(1), 44);
    assert_eq!(regs.get_v(15), 1);
    assert_eq!(regs.get_v(2), 100);
}

#[test]
fn add_regs_clears_carry_without_overflow() {
    let mut regs = Registers::default();
    regs.set_v(15, 1);
    regs.set_v(3, 0x7F);
    regs.set_v(4, 0x80);
    add_regs(Istruction::new(0x8344), &mut regs);
    assert_eq!(regs.get_v(3), 0xFF);
    assert_eq!(regs.get_v(15), 0);
}

#[test]
fn sub_regs_without_borrow() {
    let mut regs = Registers::default();
    regs.set_v(1, 0x10);
    regs.set_v(2, 0x05);
    sub_regs(Istruction::new(0x8125), &mut regs);
    assert_eq!(regs.get_v(1), 0x0B);
    assert_eq!(regs.get_v(15), 1);
}

#[test]
fn sub_regs_with_borrow_wraps() {
    let mut regs = Registers::default();
    regs.set_v(1, 0x05);
    regs.set_v(2, 0x10);
    sub_regs(Istruction::new(0x8125), &mut regs);
    assert_eq!(regs.get_v(1), 0xF5);
    assert_eq!(regs.get_v(15), 0);
}

#[test]
fn sub_regs_equal_operands_set_no_borrow() {
    let mut regs = Registers::default();
    regs.set_v(1, 0x42);
    regs.set_v(2, 0x42);
    sub_regs(Istruction::new(0x8125), &mut regs);
    assert_eq!(regs.get_v(1), 0);
    assert_eq!(regs.get_v(15), 1);
}

#[test]
fn subn_regs_reverses_operands() {
    let mut regs = Registers::default();
    regs.set_v(1, 0x05);
    regs.set_v(2, 0x10);
    subn_regs(Istruction::new(0x8127), &mut regs);
    assert_eq!(regs.get_v(1), 0x0B);
    assert_eq!(regs.get_v(15), 1);
    regs.set_v(1, 0x10);
    regs.set_v(2, 0x05);
    subn_regs(Istruction::new(0x8127), &mut regs);
    assert_eq!(regs.get_v(1), 0xF5);
    assert_eq!(regs.get_v(15), 0);
}

#[test]
fn shift_right_copies_vy_first() {
    let mut regs = Registers::default();
    regs.set_v(1, 0xF0);
    regs.set_v(2, 0x03);
    shift_right_regs(Istruction::new(0x8126), &mut regs);
    assert_eq!(regs.get_v(1), 0x01);
    assert_eq!(regs.get_v(15), 1);
}

#[test]
fn shift_left_copies_vy_first() {
    let mut regs = Registers::default();
    regs.set_v(1, 0x01);
    regs.set_v(2, 0x81);
    shift_left_regs(Istruction::new(0x812E), &mut regs);
    assert_eq!(regs.get_v(1), 0x02);
    assert_eq!(regs.get_v(15), 1);
}

#[test]
fn logical_ops_clear_flag() {
    let mut regs = Registers::default();
    regs.set_v(15, 1);
    regs.set_v(1, 0b1100);
    regs.set_v(2, 0b1010);
    xor_regs(Istruction::new(0x8123), &mut regs);
    assert_eq!(regs.get_v(1), 0b0110);
    assert_eq!(regs.get_v(15), 0);
}

#[test]
fn jump_takes_twelve_bit_address() {
    let mut regs = Registers::default();
    jump(Istruction::new(0x1ABC), &mut regs);
    assert_eq!(regs.get_pc(), 0xABC);
}

#[test]
fn call_then_return_restores_pc() {
    let mut regs = Registers::default();
    call_subroutine(Istruction::new(0x2ABC), &mut regs);
    assert_eq!(regs.get_pc(), 0xABC);
    assert_eq!(regs.stack_depth(), 1);
    regs.stack_pop();
    assert_eq!(regs.get_pc(), 0x200);
    assert_eq!(regs.stack_depth(), 0);
}

#[test]
fn font_address_of_digit_a() {
    let mut regs = Registers::default();
    regs.set_v(3, 0xA);
    get_location_sprite(Istruction::new(0xF329), &mut regs);
    assert_eq!(regs.get_i(), 0x82);
}

#[test]
fn add_i_wraps_at_sixteen_bits() {
    let mut regs = Registers::default();
    regs.set_i(0xFFFF);
    regs.set_v(0, 2);
    add_i_reg(Istruction::new(0xF01E), &mut regs);
    assert_eq!(regs.get_i(), 1);
}

#[test]
fn decimal_digits_written_at_i() {
    let mut regs = Registers::default();
    let mut mem = Memory::new();
    regs.set_v(5, 254);
    regs.set_i(0x300);
    convert_binary_to_dec(Istruction::new(0xF533), &regs, &mut mem);
    let mut out = [0u8; 3];
    mem.read_slice(0x300, &mut out);
    assert_eq!(out, [2, 5, 4]);
}

#[test]
fn store_then_load_round_trip() {
    let mut regs = Registers::default();
    let mut mem = Memory::new();
    for r in 0..4usize {
        regs.set_v(r, (r as u8) * 3 + 7);
    }
    regs.set_i(0x400);
    save_regs(Istruction::new(0xF355), &mut regs, &mut mem);
    assert_eq!(regs.get_i(), 0x404);
    regs.set_v(0, 0xEE);
    regs.set_v(2, 0x11);
    regs.set_i(0x400);
    load_regs(Istruction::new(0xF365), &mut regs, &mem);
    for r in 0..4usize {
        assert_eq!(regs.get_v(r), (r as u8) * 3 + 7);
    }
    assert_eq!(regs.get_i(), 0x400);
}

#[test]
fn timer_ticks_stop_at_zero() {
    let mut regs = Registers::default();
    regs.set_delay(5);
    for _ in 0..10 {
        regs.tick_timers();
    }
    assert_eq!(regs.get_delay(), 0);
}
