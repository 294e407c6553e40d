use crate::display::{blank, collides, drawn, presented, Display, REAL_HEIGHT, REAL_WIDTH};
use crate::instruction::{
    add_i_reg, add_reg_byte, add_regs, add_regs_result, addr_of, and_regs, byte_of,
    call_result, call_subroutine, convert_binary_to_dec, decimal_digits, draw, func_of,
    get_location_sprite, jump, jump_rel_to_0, jump_result, load_addr, load_byte, load_regs,
    loaded_regs, move_regs, nibble_of, op_code_of, or_regs, read_dalay, reg_of, save_regs,
    set_delay_timer, set_sound_timer, shift_left_regs, shift_left_result, shift_right_regs,
    shift_right_result, skip_if_equal_reg_byte, skip_if_equal_regs, skip_if_not_equal_reg_byte,
    skip_if_not_equal_regs, skip_not_pressed, skip_pressed, skipped_if, sub_regs,
    sub_regs_result, subn_regs, subn_regs_result, with_flag, with_reg, xor_regs, Istruction,
};
use crate::keyboard::{key_state_result, DataKeys, KeysModel, KEY_COUNT};
use crate::memory::{initial_memory, word_at, written, Memory, CAPACITY, FONT_START, PROGRAM_START};
use crate::registers::{initial_registers, ticked, Registers, RegistersModel, FLAG};
use vstd::prelude::*;

verus! {

/// Relies on rand::random, here for a `u8` drawn from the thread-local
/// generator: nothing is known of the value.
#[verifier::external_body]
fn random_byte() -> u8 {
    rand::random::<u8>()
}

/// Whether the engine fetches instructions or waits for a key to land in a register.
#[derive(Clone, Copy, Debug, PartialEq, Eq, Structural)]
pub enum EngineState {
    Running,
    AwaitingKey(u8),
}

/// Why the engine stopped: each fault is fatal to the program that raised it.
#[derive(Clone, Copy, Debug, PartialEq, Eq, Structural)]
pub enum Fault {
    /// An access of `len` bytes at `address` would run past the end of memory.
    MemoryBounds { address: u16, len: usize },
    /// The word fetched at `address` is no instruction.
    UnknownInstruction { address: u16, word: u16 },
    /// The return at `address` found the call stack empty.
    StackUnderflow { address: u16 },
}

/// The whole machine, as mathematical values.
#[verifier::ext_equal]
pub struct MachineModel {
    pub regs: RegistersModel,
    pub mem: Seq<u8>,
    pub disp: Seq<Seq<bool>>,
    pub to_draw: bool,
    pub keys: KeysModel,
    pub state: EngineState,
}

/// The fault, if any, that the instruction `w` at the program counter raises in `m`.
pub open spec fn fault_of(m: MachineModel, w: u16) -> Option<Fault> {
    let r = m.regs;
    let address = r.pc;
    let unknown = Some(Fault::UnknownInstruction { address, word: w });
    let (op, n, x) = (op_code_of(w), func_of(w), reg_of(w));
    let bounds = |len: int|
        if r.i + len > CAPACITY {
            Some(Fault::MemoryBounds { address: r.i, len: len as usize })
        } else {
            None
        };
    if op == 0x0 {
        if n == 0x0 {
            None
        } else if n == 0xE {
            if r.stack.len() == 0 {
                Some(Fault::StackUnderflow { address })
            } else {
                None
            }
        } else {
            unknown
        }
    } else if op == 0x8 {
        if n <= 0x7 || n == 0xE {
            None
        } else {
            unknown
        }
    } else if op == 0xD {
        bounds(n as int)
    } else if op == 0xE {
        if n == 0x1 || n == 0xE {
            None
        } else {
            unknown
        }
    } else if op == 0xF {
        let b = byte_of(w);
        if b == 0x07 || b == 0x0A || b == 0x15 || b == 0x18 || b == 0x1E || b == 0x29 {
            None
        } else if b == 0x33 {
            bounds(3)
        } else if b == 0x55 || b == 0x65 {
            bounds(x + 1)
        } else {
            unknown
        }
    } else {
        None
    }
}

/// `m` with new registers.
pub open spec fn with_regs(m: MachineModel, r: RegistersModel) -> MachineModel {
    MachineModel { regs: r, ..m }
}

/// The effect of the register-to-register family `8xyn`.
pub open spec fn alu_result(r: RegistersModel, w: u16) -> RegistersModel {
    let (x, y, n) = (reg_of(w) as int, nibble_of(w) as int, func_of(w));
    if n == 0x0 {
        with_reg(r, x, r.v[y])
    } else if n == 0x1 {
        with_flag(r, x, r.v[x] | r.v[y], false)
    } else if n == 0x2 {
        with_flag(r, x, r.v[x] & r.v[y], false)
    } else if n == 0x3 {
        with_flag(r, x, r.v[x] ^ r.v[y], false)
    } else if n == 0x4 {
        add_regs_result(r, w)
    } else if n == 0x5 {
        sub_regs_result(r, w)
    } else if n == 0x6 {
        shift_right_result(r, w)
    } else if n == 0x7 {
        subn_regs_result(r, w)
    } else {
        shift_left_result(r, w)
    }
}

/// The effect of the `Fxkk` family.
pub open spec fn misc_result(m: MachineModel, w: u16) -> MachineModel {
    let r = m.regs;
    let x = reg_of(w) as int;
    let b = byte_of(w);
    if b == 0x07 {
        with_regs(m, with_reg(r, x, r.delay))
    } else if b == 0x0A {
        MachineModel {
            state: EngineState::AwaitingKey(x as u8),
            keys: KeysModel { waiting: true, ..m.keys },
            ..m
        }
    } else if b == 0x15 {
        with_regs(m, RegistersModel { delay: r.v[x], ..r })
    } else if b == 0x18 {
        with_regs(m, RegistersModel { sound: r.v[x], ..r })
    } else if b == 0x1E {
        with_regs(m, RegistersModel { i: ((r.i + r.v[x]) % 0x10000) as u16, ..r })
    } else if b == 0x29 {
        with_regs(m, RegistersModel { i: (FONT_START + r.v[x] * 5) as u16, ..r })
    } else if b == 0x33 {
        MachineModel { mem: written(m.mem, r.i as int, decimal_digits(r.v[x])), ..m }
    } else if b == 0x55 {
        MachineModel {
            mem: written(m.mem, r.i as int, r.v.subrange(0, x + 1)),
            regs: RegistersModel { i: (r.i + x + 1) as u16, ..r },
            ..m
        }
    } else {
        with_regs(m, loaded_regs(r, m.mem, x))
    }
}

/// The effect of an instruction `w` that raises no fault, on a machine whose
/// program counter already points past it; `random_byte` feeds `Cxkk`.
pub open spec fn execute_result(m: MachineModel, w: u16, random_byte: u8) -> MachineModel {
    let r = m.regs;
    let (op, x, y, n) = (op_code_of(w), reg_of(w) as int, nibble_of(w) as int, func_of(w));
    if op == 0x0 {
        if n == 0x0 {
            MachineModel { disp: blank(), ..m }
        } else {
            with_regs(m, RegistersModel { pc: r.stack.last(), stack: r.stack.drop_last(), ..r })
        }
    } else if op == 0x1 {
        with_regs(m, jump_result(r, w))
    } else if op == 0x2 {
        with_regs(m, call_result(r, w))
    } else if op == 0x3 {
        with_regs(m, skipped_if(r, r.v[x] == byte_of(w)))
    } else if op == 0x4 {
        with_regs(m, skipped_if(r, r.v[x] != byte_of(w)))
    } else if op == 0x5 {
        with_regs(m, skipped_if(r, r.v[x] == r.v[y]))
    } else if op == 0x6 {
        with_regs(m, with_reg(r, x, byte_of(w)))
    } else if op == 0x7 {
        with_regs(m, with_reg(r, x, ((r.v[x] + byte_of(w)) % 256) as u8))
    } else if op == 0x8 {
        with_regs(m, alu_result(r, w))
    } else if op == 0x9 {
        with_regs(m, skipped_if(r, r.v[x] != r.v[y]))
    } else if op == 0xA {
        with_regs(m, RegistersModel { i: addr_of(w), ..r })
    } else if op == 0xB {
        with_regs(m, RegistersModel { pc: (addr_of(w) + r.v[0]) as u16, ..r })
    } else if op == 0xC {
        with_regs(m, with_reg(r, x, random_byte & byte_of(w)))
    } else if op == 0xD {
        let bytes = m.mem.subrange(r.i as int, r.i + n);
        MachineModel {
            disp: drawn(m.disp, bytes, r.v[x], r.v[y]),
            regs: with_reg(
                r,
                FLAG as int,
                if collides(m.disp, bytes, r.v[x], r.v[y]) { 1u8 } else { 0u8 },
            ),
            to_draw: true,
            ..m
        }
    } else if op == 0xE {
        if n == 0xE {
            with_regs(m, skipped_if(r, m.keys.pressed.contains(r.v[x])))
        } else {
            with_regs(m, skipped_if(r, !m.keys.pressed.contains(r.v[x])))
        }
    } else {
        misc_result(m, w)
    }
}

/// `m` with its program counter moved past the instruction it points at.
pub open spec fn advanced(m: MachineModel) -> MachineModel {
    with_regs(m, RegistersModel { pc: (m.regs.pc + 2) as u16, ..m.regs })
}

/// One cycle: nothing while waiting for a key; otherwise fetch the word at the
/// program counter, move past it, and execute it, unless a fault stops it first.
pub open spec fn step_result(m: MachineModel, random_byte: u8) -> Result<MachineModel, Fault> {
    match m.state {
        EngineState::AwaitingKey(_) => Ok(m),
        EngineState::Running => {
            if m.regs.pc + 2 > CAPACITY {
                Err(Fault::MemoryBounds { address: m.regs.pc, len: 2 })
            } else {
                let w = word_at(m.mem, m.regs.pc as int);
                match fault_of(m, w) {
                    Some(f) => Err(f),
                    None => Ok(execute_result(advanced(m), w, random_byte)),
                }
            }
        },
    }
}

/// Whether a cycle from `before` with `random_byte` returns `r` and leaves `after`;
/// a fault leaves the machine as it was.
pub open spec fn step_outcome(
    before: MachineModel,
    random_byte: u8,
    r: Result<(), Fault>,
    after: MachineModel,
) -> bool {
    match step_result(before, random_byte) {
        Ok(m) => r == Ok::<(), Fault>(()) && after == m,
        Err(f) => r == Err::<(), Fault>(f) && after == before,
    }
}

/// The machine right after start-up.
pub open spec fn initial_machine() -> MachineModel {
    MachineModel {
        regs: initial_registers(),
        mem: initial_memory(),
        disp: blank(),
        to_draw: false,
        keys: KeysModel { pressed: Set::empty(), last: None, new_pressed: false, waiting: false },
        state: EngineState::Running,
    }
}

/// The machine after the caller hands it a pressed key: a wait for a key ends
/// with the key's value in the waiting register; otherwise nothing changes.
pub open spec fn key_delivered(m: MachineModel, key: u8) -> MachineModel {
    match m.state {
        EngineState::AwaitingKey(x) => if key < KEY_COUNT {
            MachineModel {
                regs: with_reg(m.regs, x as int, key),
                state: EngineState::Running,
                keys: KeysModel { waiting: false, ..m.keys },
                ..m
            }
        } else {
            m
        },
        EngineState::Running => m,
    }
}

/// A call, then a return at the call's target, comes back to the instruction
/// after the call with the call stack as it was; in between, the program
/// counter is the target and the stack holds the address after the call.
pub proof fn call_then_return(m: MachineModel, first_byte: u8, second_byte: u8)
    requires
        machine_wf(m),
        m.state == EngineState::Running,
        m.regs.pc + 2 <= CAPACITY,
        op_code_of(word_at(m.mem, m.regs.pc as int)) == 0x2,
        addr_of(word_at(m.mem, m.regs.pc as int)) + 2 <= CAPACITY,
        word_at(m.mem, addr_of(word_at(m.mem, m.regs.pc as int)) as int) == 0x00EE,
    ensures
        match step_result(m, first_byte) {
            Ok(called) => {
                &&& called.regs.pc == addr_of(word_at(m.mem, m.regs.pc as int))
                &&& called.regs.stack == m.regs.stack.push((m.regs.pc + 2) as u16)
                &&& match step_result(called, second_byte) {
                    Ok(back) => back.regs == (RegistersModel { pc: (m.regs.pc + 2) as u16, ..m.regs }),
                    Err(_) => false,
                }
            },
            Err(_) => false,
        },
{
    let w = word_at(m.mem, m.regs.pc as int);
    assert(func_of(0x00EE) == 0xE && op_code_of(0x00EE) == 0);
    let called = execute_result(advanced(m), w, first_byte);
    assert(called.regs.stack.drop_last() =~= m.regs.stack);
}

/// What holds of every machine state.
pub open spec fn machine_wf(m: MachineModel) -> bool {
    &&& m.regs.v.len() == 16
    &&& m.mem.len() == CAPACITY
    &&& m.disp.len() == 32
    &&& forall|r: int| 0 <= r < 32 ==> (#[trigger] m.disp[r]).len() == 64
    &&& forall|k: u8| #[trigger] m.keys.pressed.contains(k) ==> k < KEY_COUNT
    &&& m.keys.waiting == (m.state is AwaitingKey)
    &&& forall|x: u8| m.state == EngineState::AwaitingKey(x) ==> x < 16
}

/// The CHIP-8 engine: memory, registers, display and keypad state, run one
/// instruction at a time.
pub struct Interpreter {
    regs: Registers,
    mem: Memory,
    disp: Display,
    to_draw: bool,
    keyboard: DataKeys,
    state: EngineState,
}

impl View for Interpreter {
    type V = MachineModel;

    closed spec fn view(&self) -> MachineModel {
        MachineModel {
            regs: self.regs@,
            mem: self.mem@,
            disp: self.disp@,
            to_draw: self.to_draw,
            keys: self.keyboard@,
            state: self.state,
        }
    }
}

impl Interpreter {
    pub open spec fn wf(&self) -> bool {
        machine_wf(self@)
    }

    proof fn lemma_parts_wf(&self)
        requires
            self.wf(),
        ensures
            self.regs.wf(),
            self.mem.wf(),
            self.disp.wf(),
            self.keyboard.wf(),
    {
    }

    pub fn new() -> (r: Interpreter)
        ensures
            r.wf(),
            r@ == initial_machine(),
    {
        let r = Interpreter {
            regs: Registers::new(),
            mem: Memory::new(),
            disp: Display::new(),
            to_draw: false,
            keyboard: DataKeys::new(),
            state: EngineState::Running,
        };
        assert(r@ == initial_machine());
        r
    }

    /// Copies a program image into memory from `PROGRAM_START` on.
    pub fn write_rom_on_mem(&mut self, rom: &[u8]) -> (r: Result<(), Fault>)
        requires
            old(self).wf(),
        ensures
            final(self).wf(),
            PROGRAM_START + rom@.len() <= CAPACITY ==> r == Ok::<(), Fault>(()) && final(self)@ == (
            MachineModel { mem: written(old(self)@.mem, PROGRAM_START as int, rom@), ..old(self)@ }),
            PROGRAM_START + rom@.len() > CAPACITY ==> r == Err::<(), Fault>(
                Fault::MemoryBounds { address: PROGRAM_START, len: rom@.len() as usize },
            ) && final(self)@ == old(self)@,
    {
        proof {
            self.lemma_parts_wf();
        }
        if rom.len() > CAPACITY - PROGRAM_START as usize {
            return Err(Fault::MemoryBounds { address: PROGRAM_START, len: rom.len() });
        }
        self.mem.write_slice(PROGRAM_START, rom);
        Ok(())
    }

    /// Brings a `REAL_WIDTH` by `REAL_HEIGHT` screen buffer up to date with the display.
    pub fn draw(&mut self, buf: &mut [u32])
        requires
            old(self).wf(),
            old(buf)@.len() == REAL_HEIGHT * REAL_WIDTH,
        ensures
            final(self)@ == old(self)@,
            final(buf)@ == presented(old(buf)@, old(self)@.disp),
    {
        proof {
            self.lemma_parts_wf();
        }
        self.disp.draw(buf);
    }

    /// Whether the sound timer is running.
    pub fn sound_is_playing(&self) -> (r: bool)
        ensures
            r == (self@.regs.sound != 0),
    {
        self.regs.get_sound() != 0
    }

    /// Ends a wait for a key with `key` in the waiting register.
    pub fn set_key(&mut self, key: u8)
        requires
            old(self).wf(),
        ensures
            final(self).wf(),
            final(self)@ == key_delivered(old(self)@, key),
    {
        match self.state {
            EngineState::AwaitingKey(x) => {
                if key < KEY_COUNT {
                    self.regs.set_v(x as usize, key);
                    self.state = EngineState::Running;
                    self.keyboard.stop_waiting();
                }
            },
            EngineState::Running => {},
        }
    }

    /// Records key `key` going down (`pressed`) or up; a key going down also
    /// ends a wait for a key.
    pub fn set_key_state(&mut self, key: u8, pressed: bool)
        requires
            old(self).wf(),
        ensures
            final(self).wf(),
            ({
                let m = MachineModel { keys: key_state_result(old(self)@.keys, key, pressed), ..old(self)@ };
                final(self)@ == if pressed { key_delivered(m, key) } else { m }
            }),
    {
        self.keyboard.set_key_state(key, pressed);
        if pressed {
            self.set_key(key);
        }
    }

    /// Whether a sprite was drawn since the flag was last reset.
    pub fn to_draw(&self) -> (r: bool)
        ensures
            r == self@.to_draw,
    {
        self.to_draw
    }

    /// Clears the redraw flag once a frame has been presented.
    pub fn reset_to_draw(&mut self)
        ensures
            final(self)@ == (MachineModel { to_draw: false, ..old(self)@ }),
    {
        self.to_draw = false;
    }

    /// Whether the engine waits for a key.
    pub fn is_waiting_key(&self) -> (r: bool)
        ensures
            r == (self@.state is AwaitingKey),
    {
        match self.state {
            EngineState::AwaitingKey(_) => true,
            EngineState::Running => false,
        }
    }

    /// One tick of the 60 Hz clock: both timers count down toward zero and the
    /// release-while-waiting flag is cleared.
    pub fn tick_timers(&mut self)
        requires
            old(self).wf(),
        ensures
            final(self).wf(),
            final(self)@ == (MachineModel {
                regs: RegistersModel {
                    delay: ticked(old(self)@.regs.delay),
                    sound: ticked(old(self)@.regs.sound),
                    ..old(self)@.regs
                },
                keys: KeysModel { new_pressed: false, ..old(self)@.keys },
                ..old(self)@
            }),
    {
        self.regs.tick_timers();
        self.keyboard.reset_new_pressed_flag();
    }

    pub fn regs(&self) -> (r: &Registers)
        ensures
            r@ == self@.regs,
    {
        &self.regs
    }

    pub fn mem(&self) -> (r: &Memory)
        ensures
            r@ == self@.mem,
    {
        &self.mem
    }

    pub fn disp(&self) -> (r: &Display)
        ensures
            r@ == self@.disp,
    {
        &self.disp
    }

    pub fn keyboard(&self) -> (r: &DataKeys)
        ensures
            r@ == self@.keys,
    {
        &self.keyboard
    }

    /// One fetch-decode-execute cycle, with `random_byte` as the outcome of a
    /// random draw should the instruction ask for one.
    pub fn step(&mut self, random_byte: u8) -> (r: Result<(), Fault>)
        requires
            old(self).wf(),
        ensures
            final(self).wf(),
            step_outcome(old(self)@, random_byte, r, final(self)@),
    {
        proof {
            self.lemma_parts_wf();
        }
        match self.state {
            EngineState::AwaitingKey(_) => {
                return Ok(());
            },
            EngineState::Running => {},
        }
        let pc = self.regs.get_pc();
        if pc as usize + 2 > CAPACITY {
            return Err(Fault::MemoryBounds { address: pc, len: 2 });
        }
        let istro = Istruction::new(self.mem.read_16bit(pc));
        match self.check(istro) {
            Some(f) => Err(f),
            None => {
                self.execute(istro, random_byte);
                Ok(())
            },
        }
    }

    /// One fetch-decode-execute cycle; a random instruction gets a fresh random byte.
    pub fn next_istr(&mut self) -> (r: Result<(), Fault>)
        requires
            old(self).wf(),
        ensures
            final(self).wf(),
            exists|random_byte: u8| step_outcome(old(self)@, random_byte, r, final(self)@),
    {
        let random_byte = random_byte();
        self.step(random_byte)
    }

    /// Moves past the instruction and runs it.
    fn execute(&mut self, istro: Istruction, random_byte: u8)
        requires
            old(self).wf(),
            old(self)@.state == EngineState::Running,
            old(self)@.regs.pc + 2 <= CAPACITY,
            fault_of(old(self)@, istro@) is None,
        ensures
            final(self).wf(),
            final(self)@ == execute_result(advanced(old(self)@), istro@, random_byte),
    {
        proof {
            self.lemma_parts_wf();
        }
        self.regs.increment_pc();
        let op = istro.get_op_code();
        let n = istro.get_func_code();
        if op == 0x0 {
            if n == 0x0 {
                self.disp.clear_display();
            } else {
                self.regs.stack_pop();
            }
        } else if op == 0x1 {
            jump(istro, &mut self.regs);
        } else if op == 0x2 {
            call_subroutine(istro, &mut self.regs);
        } else if op == 0x3 {
            skip_if_equal_reg_byte(istro, &mut self.regs);
        } else if op == 0x4 {
            skip_if_not_equal_reg_byte(istro, &mut self.regs);
        } else if op == 0x5 {
            skip_if_equal_regs(istro, &mut self.regs);
        } else if op == 0x6 {
            load_byte(istro, &mut self.regs);
        } else if op == 0x7 {
            add_reg_byte(istro, &mut self.regs);
        } else if op == 0x8 {
            self.execute_alu(istro);
        } else if op == 0x9 {
            skip_if_not_equal_regs(istro, &mut self.regs);
        } else if op == 0xA {
            load_addr(istro, &mut self.regs);
        } else if op == 0xB {
            jump_rel_to_0(istro, &mut self.regs);
        } else if op == 0xC {
            crate::instruction::rand(istro, &mut self.regs, random_byte);
        } else if op == 0xD {
            draw(istro, &mut self.regs, &self.mem, &mut self.disp, &mut self.to_draw);
        } else if op == 0xE {
            if n == 0xE {
                skip_pressed(istro, &mut self.regs, &self.keyboard);
            } else {
                skip_not_pressed(istro, &mut self.regs, &self.keyboard);
            }
        } else {
            self.execute_misc(istro);
        }
    }

    /// Runs a register-to-register instruction `8xyn`.
    fn execute_alu(&mut self, istro: Istruction)
        requires
            old(self).wf(),
            op_code_of(istro@) == 0x8,
            fault_of(old(self)@, istro@) is None,
        ensures
            final(self).wf(),
            final(self)@ == with_regs(old(self)@, alu_result(old(self)@.regs, istro@)),
    {
        let n = istro.get_func_code();
        if n == 0x0 {
            move_regs(istro, &mut self.regs);
        } else if n == 0x1 {
            or_regs(istro, &mut self.regs);
        } else if n == 0x2 {
            and_regs(istro, &mut self.regs);
        } else if n == 0x3 {
            xor_regs(istro, &mut self.regs);
        } else if n == 0x4 {
            add_regs(istro, &mut self.regs);
        } else if n == 0x5 {
            sub_regs(istro, &mut self.regs);
        } else if n == 0x6 {
            shift_right_regs(istro, &mut self.regs);
        } else if n == 0x7 {
            subn_regs(istro, &mut self.regs);
        } else {
            shift_left_regs(istro, &mut self.regs);
        }
    }

    /// Runs an instruction of the `Fxkk` family.
    fn execute_misc(&mut self, istro: Istruction)
        requires
            old(self).wf(),
            old(self)@.state == EngineState::Running,
            op_code_of(istro@) == 0xF,
            fault_of(old(self)@, istro@) is None,
        ensures
            final(self).wf(),
            final(self)@ == misc_result(old(self)@, istro@),
    {
        proof {
            self.lemma_parts_wf();
        }
        let b = istro.get_byte();
        if b == 0x07 {
            read_dalay(istro, &mut self.regs);
        } else if b == 0x0A {
            self.state = EngineState::AwaitingKey(istro.get_reg());
            self.keyboard.start_waiting();
        } else if b == 0x15 {
            set_delay_timer(istro, &mut self.regs);
        } else if b == 0x18 {
            set_sound_timer(istro, &mut self.regs);
        } else if b == 0x1E {
            add_i_reg(istro, &mut self.regs);
        } else if b == 0x29 {
            get_location_sprite(istro, &mut self.regs);
        } else if b == 0x33 {
            convert_binary_to_dec(istro, &self.regs, &mut self.mem);
        } else if b == 0x55 {
            save_regs(istro, &mut self.regs, &mut self.mem);
        } else {
            load_regs(istro, &mut self.regs, &self.mem);
        }
    }

    /// Checks the instruction at the program counter for a fault before it runs.
    fn check(&self, istro: Istruction) -> (r: Option<Fault>)
        requires
            self.wf(),
        ensures
            r == fault_of(self@, istro@),
    {
        let address = self.regs.get_pc();
        let op = istro.get_op_code();
        let n = istro.get_func_code();
        let i = self.regs.get_i();
        let unknown = Some(Fault::UnknownInstruction { address, word: istro.get_word() });
        if op == 0x0 {
            if n == 0x0 {
                None
            } else if n == 0xE {
                if self.regs.stack_depth() == 0 {
                    Some(Fault::StackUnderflow { address })
                } else {
                    None
                }
            } else {
                unknown
            }
        } else if op == 0x8 {
            if n <= 0x7 || n == 0xE {
                None
            } else {
                unknown
            }
        } else if op == 0xD {
            bounds_fault(i, n as usize)
        } else if op == 0xE {
            if n == 0x1 || n == 0xE {
                None
            } else {
                unknown
            }
        } else if op == 0xF {
            let b = istro.get_byte();
            if b == 0x07 || b == 0x0A || b == 0x15 || b == 0x18 || b == 0x1E || b == 0x29 {
                None
            } else if b == 0x33 {
                bounds_fault(i, 3)
            } else if b == 0x55 || b == 0x65 {
                bounds_fault(i, istro.get_reg() as usize + 1)
            } else {
                unknown
            }
        } else {
            None
        }
    }
}

/// The fault of an access of `len` bytes at `address`, if it runs past the end of memory.
fn bounds_fault(address: u16, len: usize) -> (r: Option<Fault>)
    requires
        len <= 16,
    ensures
        r == if address + len > CAPACITY {
            Some(Fault::MemoryBounds { address, len })
        } else {
            None
        },
{
    if address as usize + len > CAPACITY {
        Some(Fault::MemoryBounds { address, len })
    } else {
        None
    }
}

} // verus!
