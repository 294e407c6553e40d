use crate::interpreter::{Interpreter, MachineModel};
use crate::keyboard::key_state_result;
use vstd::prelude::*;

verus! {

/// An event from outside that the engine takes in between cycles.
pub trait Interrupt {
    /// Whether handling the event may turn machine `before` into `after`.
    spec fn handled(&self, before: MachineModel, after: MachineModel) -> bool;

    fn handler(&self, inter: &mut Interpreter) -> (r: Result<(), ()>)
        requires
            old(inter).wf(),
        ensures
            final(inter).wf(),
            r is Ok,
            self.handled(old(inter)@, final(inter)@),
    ;
}

/// A key going down or, with `release`, up.
pub struct KeyInterrupt {
    pub key: u8,
    pub release: bool,
}

impl KeyInterrupt {
    pub fn new(key: u8, release: bool) -> (r: KeyInterrupt)
        ensures
            r.key == key,
            r.release == release,
    {
        KeyInterrupt { key: key, release: release }
    }
}

impl Interrupt for KeyInterrupt {
    /// The key state changes as `Interpreter::set_key_state` says, and a key
    /// going down ends a wait for a key.
    open spec fn handled(&self, before: MachineModel, after: MachineModel) -> bool {
        let m = MachineModel { keys: key_state_result(before.keys, self.key, !self.release), ..before };
        after == if !self.release {
            crate::interpreter::key_delivered(m, self.key)
        } else {
            m
        }
    }

    fn handler(&self, inter: &mut Interpreter) -> (r: Result<(), ()>) {
        if self.release {
            inter.set_key_state(self.key, false);
        } else {
            inter.set_key_state(self.key, true);
        }
        Ok(())
    }
}

} // verus!
