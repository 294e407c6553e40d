use vstd::prelude::*;

verus! {

/// Index of the flag register VF.
pub const FLAG: usize = 15;

/// What a register file holds, as mathematical values.
#[verifier::ext_equal]
pub struct RegistersModel {
    /// V0 to VF.
    pub v: Seq<u8>,
    pub i: u16,
    pub pc: u16,
    /// Return addresses, the most recent last.
    pub stack: Seq<u16>,
    pub delay: u8,
    pub sound: u8,
}

/// One tick of a countdown timer: down by one, never below zero.
pub open spec fn ticked(t: u8) -> u8 {
    if t == 0 { 0 } else { (t - 1) as u8 }
}

/// `t` after `n` ticks of the clock.
pub open spec fn after_ticks(t: u8, n: nat) -> u8
    decreases n,
{
    if n == 0 {
        t
    } else {
        after_ticks(ticked(t), (n - 1) as nat)
    }
}

/// `n` ticks take `n` off a timer, stopping at zero: a timer never wraps around.
pub proof fn timer_ticks_saturate(t: u8, n: nat)
    ensures
        after_ticks(t, n) == if n >= t { 0 } else { (t - n) as u8 },
    decreases n,
{
    if n > 0 {
        timer_ticks_saturate(ticked(t), (n - 1) as nat);
    }
}

/// The register file of a freshly started machine.
pub open spec fn initial_registers() -> RegistersModel {
    RegistersModel {
        v: Seq::new(16, |k: int| 0u8),
        i: 0,
        pc: 0x200,
        stack: Seq::empty(),
        delay: 0,
        sound: 0,
    }
}

/// Sixteen 8-bit registers, the index register, the program counter,
/// the call stack and the two countdown timers.
pub struct Registers {
    v: [u8; 16],
    i: u16,
    pc: u16,
    stack: Vec<u16>,
    sound_timer: u8,
    delay_timer: u8,
}

impl View for Registers {
    type V = RegistersModel;

    closed spec fn view(&self) -> RegistersModel {
        RegistersModel {
            v: self.v@,
            i: self.i,
            pc: self.pc,
            stack: self.stack@,
            delay: self.delay_timer,
            sound: self.sound_timer,
        }
    }
}

impl Registers {
    /// There are always sixteen general registers.
    pub open spec fn wf(&self) -> bool {
        self@.v.len() == 16
    }

    pub fn new() -> (r: Registers)
        ensures
            r.wf(),
            r@ == initial_registers(),
    {
        let r = Registers {
            v: [0u8; 16],
            i: 0,
            pc: 0x200,
            stack: Vec::new(),
            sound_timer: 0,
            delay_timer: 0,
        };
        assert(r@.v =~= initial_registers().v);
        assert(r@ =~= initial_registers());
        r
    }

    pub fn get_v(&self, v_reg: usize) -> (r: u8)
        requires
            v_reg < 16,
        ensures
            r == self@.v[v_reg as int],
    {
        self.v[v_reg]
    }

    pub fn set_v(&mut self, v_reg: usize, value: u8)
        requires
            v_reg < 16,
        ensures
            final(self)@ == (RegistersModel { v: old(self)@.v.update(v_reg as int, value), ..old(self)@ }),
    {
        self.v[v_reg] = value;
    }

    /// Writes 1 or 0 into VF.
    pub fn set_flag(&mut self, flag: bool)
        ensures
            final(self)@ == (RegistersModel {
                v: old(self)@.v.update(FLAG as int, if flag { 1u8 } else { 0u8 }),
                ..old(self)@
            }),
    {
        self.v[FLAG] = if flag { 1 } else { 0 };
    }

    pub fn get_i(&self) -> (r: u16)
        ensures
            r == self@.i,
    {
        self.i
    }

    pub fn set_i(&mut self, address: u16)
        ensures
            final(self)@ == (RegistersModel { i: address, ..old(self)@ }),
    {
        self.i = address;
    }

    pub fn get_pc(&self) -> (r: u16)
        ensures
            r == self@.pc,
    {
        self.pc
    }

    pub fn set_pc(&mut self, address: u16)
        ensures
            final(self)@ == (RegistersModel { pc: address, ..old(self)@ }),
    {
        self.pc = address;
    }

    /// Moves the program counter to the next instruction.
    pub fn increment_pc(&mut self)
        requires
            old(self)@.pc + 2 <= u16::MAX,
        ensures
            final(self)@ == (RegistersModel { pc: (old(self)@.pc + 2) as u16, ..old(self)@ }),
    {
        self.pc = self.pc + 2;
    }

    /// Pushes the program counter onto the call stack.
    pub fn stack_push(&mut self)
        ensures
            final(self)@ == (RegistersModel { stack: old(self)@.stack.push(old(self)@.pc), ..old(self)@ }),
    {
        self.stack.push(self.pc);
    }

    /// Number of return addresses on the call stack.
    pub fn stack_depth(&self) -> (r: usize)
        ensures
            r == self@.stack.len(),
    {
        self.stack.len()
    }

    /// Pops the most recent return address into the program counter.
    pub fn stack_pop(&mut self)
        requires
            old(self)@.stack.len() > 0,
        ensures
            final(self)@ == (RegistersModel {
                pc: old(self)@.stack.last(),
                stack: old(self)@.stack.drop_last(),
                ..old(self)@
            }),
    {
        let pc = self.stack.pop();
        match pc {
            Some(pc) => {
                self.pc = pc;
            },
            None => {},
        }
    }

    pub fn set_delay(&mut self, val: u8)
        ensures
            final(self)@ == (RegistersModel { delay: val, ..old(self)@ }),
    {
        self.delay_timer = val;
    }

    pub fn get_delay(&self) -> (r: u8)
        ensures
            r == self@.delay,
    {
        self.delay_timer
    }

    pub fn set_sound(&mut self, val: u8)
        ensures
            final(self)@ == (RegistersModel { sound: val, ..old(self)@ }),
    {
        self.sound_timer = val;
    }

    pub fn get_sound(&self) -> (r: u8)
        ensures
            r == self@.sound,
    {
        self.sound_timer
    }

    /// One tick of the 60 Hz clock: both timers count down toward zero.
    pub fn tick_timers(&mut self)
        ensures
            final(self)@ == (RegistersModel {
                delay: ticked(old(self)@.delay),
                sound: ticked(old(self)@.sound),
                ..old(self)@
            }),
    {
        if self.delay_timer > 0 {
            self.delay_timer = self.delay_timer - 1;
        }
        if self.sound_timer > 0 {
            self.sound_timer = self.sound_timer - 1;
        }
    }
}

impl Default for Registers {
    fn default() -> (r: Registers)
        ensures
            r.wf(),
            r@ == initial_registers(),
    {
        Registers::new()
    }
}

} // verus!
