use chip8::interpreter::{Fault, Interpreter};
use chip8::interrupt::{Interrupt, KeyInterrupt};
use chip8::keyboard::DataKeys;

fn machine(rom: &[u8]) -> Interpreter {
    let mut m = Interpreter::new();
    m.write_rom_on_mem(rom).unwrap();
    m
}

fn run(m: &mut Interpreter, cycles: usize) {
    for _ in 0..cycles {
        m.step(0).unwrap();
    }
}

#[test]
fn engine_add_sets_carry() {
    let mut m = machine(&[0x61, 0xFF, 0x62, 0x02, 0x81, 0x24]);
    run(&mut m, 3);
    assert_eq!(m.regs().get_v(1), 0x01);
    assert_eq!(m.regs().get_v(15), 1);
    assert_eq!(m.regs().get_pc(), 0x206);
}

#[test]
fn engine_jump_and_call_return() {
    let mut m = machine(&[0x22, 0x06, 0x00, 0x00, 0x00, 0x00, 0x00, 0xEE]);
    run(&mut m, 1);
    assert_eq!(m.regs().get_pc(), 0x206);
    assert_eq!(m.regs().stack_depth(), 1);
    run(&mut m, 1);
    assert_eq!(m.regs().get_pc(), 0x202);
    assert_eq!(m.regs().stack_depth(), 0);

    let mut j = machine(&[0x1A, 0xBC]);
    run(&mut j, 1);
    assert_eq!(j.regs().get_pc(), 0xABC);
}

#[test]
fn engine_skips_on_equal_immediate() {
    let mut m = machine(&[0x63, 0x07, 0x33, 0x07, 0x00, 0x00, 0x43, 0x07]);
    run(&mut m, 2);
    assert_eq!(m.regs().get_pc(), 0x206);
    run(&mut m, 1);
    assert_eq!(m.regs().get_pc(), 0x208);
}

#[test]
fn engine_font_address() {
    let mut m = machine(&[0x65, 0x0A, 0xF5, 0x29]);
    run(&mut m, 2);
    assert_eq!(m.regs().get_i(), 0x82);
}

#[test]
fn engine_draw_sets_redraw_and_collision() {
    // I = font glyph of 0, draw it twice at (0, 0)
    let mut m = machine(&[0xA0, 0x50, 0xD0, 0x05, 0xD0, 0x05]);
    run(&mut m, 2);
    assert!(m.to_draw());
    assert_eq!(m.regs().get_v(15), 0);
    assert!(m.disp().pixel(0, 0));
    m.reset_to_draw();
    assert!(!m.to_draw());
    run(&mut m, 1);
    assert_eq!(m.regs().get_v(15), 1);
    assert!(!m.disp().pixel(0, 0));
}

#[test]
fn engine_store_load_round_trip() {
    let rom = [
        0x60, 0x11, 0x61, 0x22, 0x62, 0x33, // V0..V2
        0xA3, 0x00, 0xF2, 0x55, // I = 0x300, store V0..V2
        0x60, 0x99, 0x62, 0x00, // change registers
        0xA3, 0x00, 0xF2, 0x65, // I = 0x300, load V0..V2
    ];
    let mut m = machine(&rom);
    run(&mut m, 5);
    assert_eq!(m.regs().get_i(), 0x303);
    run(&mut m, 4);
    assert_eq!(m.regs().get_v(0), 0x11);
    assert_eq!(m.regs().get_v(1), 0x22);
    assert_eq!(m.regs().get_v(2), 0x33);
}

#[test]
fn engine_timers_count_down() {
    let mut m = machine(&[0x60, 0x05, 0xF0, 0x15, 0xF0, 0x18, 0xF1, 0x07]);
    run(&mut m, 3);
    assert!(m.sound_is_playing());
    for _ in 0..10 {
        m.tick_timers();
    }
    run(&mut m, 1);
    assert_eq!(m.regs().get_v(1), 0);
    assert_eq!(m.regs().get_delay(), 0);
    assert!(!m.sound_is_playing());
}

#[test]
fn engine_waits_for_key() {
    let mut m = machine(&[0xF4, 0x0A, 0x64, 0x00]);
    run(&mut m, 1);
    assert!(m.is_waiting_key());
    assert!(m.keyboard().new_press() == false);
    run(&mut m, 3);
    assert_eq!(m.regs().get_pc(), 0x202);
    m.set_key_state(0x20, true);
    assert!(m.is_waiting_key());
    m.set_key_state(0xB, true);
    assert!(!m.is_waiting_key());
    assert_eq!(m.regs().get_v(4), 0xB);
    run(&mut m, 1);
    assert_eq!(m.regs().get_v(4), 0);
}

#[test]
fn engine_key_skips() {
    // skip if V2 pressed, then skip if V2 not pressed
    let mut m = machine(&[0x62, 0x07, 0xE2, 0x9E, 0x00, 0x00, 0xE2, 0xA1]);
    m.set_key_state(7, true);
    run(&mut m, 2);
    assert_eq!(m.regs().get_pc(), 0x206);
    run(&mut m, 1);
    assert_eq!(m.regs().get_pc(), 0x208);
    m.set_key_state(7, false);
    assert!(!m.keyboard().key_pressed(7));
}

#[test]
fn engine_random_is_masked() {
    let mut m = machine(&[0xC0, 0x0F, 0xC1, 0x00]);
    m.next_istr().unwrap();
    m.next_istr().unwrap();
    assert!(m.regs().get_v(0) <= 0x0F);
    assert_eq!(m.regs().get_v(1), 0);

    let mut fixed = machine(&[0xC3, 0x3C]);
    fixed.step(0xFF).unwrap();
    assert_eq!(fixed.regs().get_v(3), 0x3C);
}

#[test]
fn engine_clear_screen() {
    let mut m = machine(&[0xA0, 0x50, 0xD0, 0x05, 0x00, 0xE0]);
    run(&mut m, 3);
    assert!(!m.disp().pixel(0, 0));
}

#[test]
fn fault_on_return_with_empty_stack() {
    let mut m = machine(&[0x00, 0xEE]);
    assert_eq!(m.step(0), Err(Fault::StackUnderflow { address: 0x200 }));
    assert_eq!(m.regs().get_pc(), 0x200);
}

#[test]
fn fault_on_unknown_instruction() {
    let mut m = machine(&[0x80, 0x08]);
    assert_eq!(m.step(0), Err(Fault::UnknownInstruction { address: 0x200, word: 0x8008 }));
    let mut k = machine(&[0xE0, 0x00]);
    assert_eq!(k.step(0), Err(Fault::UnknownInstruction { address: 0x200, word: 0xE000 }));
    let mut f = machine(&[0xF0, 0xFF]);
    assert_eq!(f.step(0), Err(Fault::UnknownInstruction { address: 0x200, word: 0xF0FF }));
}

#[test]
fn fault_on_memory_bounds() {
    let mut m = machine(&[0xAF, 0xFE, 0xD0, 0x05]);
    run(&mut m, 1);
    assert_eq!(m.step(0), Err(Fault::MemoryBounds { address: 0xFFE, len: 5 }));

    let mut s = machine(&[0xAF, 0xFE, 0xF3, 0x55]);
    run(&mut s, 1);
    assert_eq!(s.step(0), Err(Fault::MemoryBounds { address: 0xFFE, len: 4 }));

    let mut b = machine(&[0xAF, 0xFE, 0xF3, 0x33]);
    run(&mut b, 1);
    assert_eq!(b.step(0), Err(Fault::MemoryBounds { address: 0xFFE, len: 3 }));

    let mut j = machine(&[0x1F, 0xFF]);
    run(&mut j, 1);
    assert_eq!(j.step(0), Err(Fault::MemoryBounds { address: 0xFFF, len: 2 }));
}

#[test]
fn rom_too_large_is_refused() {
    let mut m = Interpreter::new();
    let fits = vec![0u8; 4096 - 0x200];
    assert_eq!(m.write_rom_on_mem(&fits), Ok(()));
    let big = vec![0u8; 4096 - 0x200 + 1];
    assert_eq!(m.write_rom_on_mem(&big), Err(Fault::MemoryBounds { address: 0x200, len: 3585 }));
}

#[test]
fn keypad_ignores_unknown_keys() {
    let mut k = DataKeys::new();
    k.set_key_state(16, true);
    assert_eq!(k.last_key(), None);
    k.set_key_state(3, true);
    assert!(k.key_pressed(3));
    assert_eq!(k.last_key(), Some(3));
    k.start_waiting();
    k.set_key_state(3, false);
    assert!(!k.key_pressed(3));
    assert!(k.new_press());
    k.reset_new_pressed_flag();
    k.stop_waiting();
    assert!(!k.new_press());
}

#[test]
fn key_interrupt_presses_and_releases() {
    let mut m = machine(&[0xF1, 0x0A]);
    run(&mut m, 1);
    KeyInterrupt::new(5, false).handler(&mut m).unwrap();
    assert!(m.keyboard().key_pressed(5));
    assert_eq!(m.regs().get_v(1), 5);
    KeyInterrupt::new(5, true).handler(&mut m).unwrap();
    assert!(!m.keyboard().key_pressed(5));
}
