use vstd::prelude::*;

verus! {

/// Number of keys on the hex keypad.
pub const KEY_COUNT: u8 = 16;

/// What the keypad state holds, as mathematical values.
#[verifier::ext_equal]
pub struct KeysModel {
    /// Keys held down.
    pub pressed: Set<u8>,
    /// The most recently pressed key.
    pub last: Option<u8>,
    /// Set when a key is released while the engine waits for one.
    pub new_pressed: bool,
    /// Whether the engine waits for a key.
    pub waiting: bool,
}

/// The keypad state after key `key` goes down (`state`) or up. Identifiers
/// outside the keypad are ignored; a key that is already down stays as it is;
/// a key going down becomes the most recent one.
pub open spec fn key_state_result(k: KeysModel, key: u8, state: bool) -> KeysModel {
    if key >= KEY_COUNT {
        k
    } else if state {
        if k.pressed.contains(key) {
            k
        } else {
            KeysModel { pressed: k.pressed.insert(key), last: Some(key), ..k }
        }
    } else {
        KeysModel { pressed: k.pressed.remove(key), new_pressed: k.new_pressed || k.waiting, ..k }
    }
}

/// Keys currently held down and the most recently pressed one.
pub struct DataKeys {
    buf: [bool; 16],
    last_key_pressed: Option<u8>,
    new_pressed: bool,
    waiting: bool,
}

impl View for DataKeys {
    type V = KeysModel;

    closed spec fn view(&self) -> KeysModel {
        KeysModel {
            pressed: Set::new(|k: u8| k < KEY_COUNT && self.buf@[k as int]),
            last: self.last_key_pressed,
            new_pressed: self.new_pressed,
            waiting: self.waiting,
        }
    }
}

impl DataKeys {
    /// Only keypad keys are ever held down.
    pub open spec fn wf(&self) -> bool {
        forall|k: u8| #[trigger] self@.pressed.contains(k) ==> k < KEY_COUNT
    }

    pub fn new() -> (r: DataKeys)
        ensures
            r.wf(),
            r@ == (KeysModel { pressed: Set::empty(), last: None, new_pressed: false, waiting: false }),
    {
        let r = DataKeys { buf: [false; 16], last_key_pressed: None, new_pressed: false, waiting: false };
        assert(r@.pressed =~= Set::empty());
        r
    }

    pub fn key_pressed(&self, key: u8) -> (r: bool)
        ensures
            r == self@.pressed.contains(key),
    {
        if key < KEY_COUNT {
            self.buf[key as usize]
        } else {
            false
        }
    }

    pub fn new_press(&self) -> (r: bool)
        ensures
            r == self@.new_pressed,
    {
        self.new_pressed
    }

    pub fn last_key(&self) -> (r: Option<u8>)
        ensures
            r == self@.last,
    {
        self.last_key_pressed
    }

    pub fn reset_new_pressed_flag(&mut self)
        ensures
            final(self)@ == (KeysModel { new_pressed: false, ..old(self)@ }),
    {
        self.new_pressed = false;
    }

    fn push(&mut self, key: u8)
        requires
            key < KEY_COUNT,
        ensures
            final(self)@ == (KeysModel { pressed: old(self)@.pressed.insert(key), ..old(self)@ }),
    {
        self.buf[key as usize] = true;
        assert(self@.pressed =~= old(self)@.pressed.insert(key));
    }

    fn remove(&mut self, key: u8)
        requires
            key < KEY_COUNT,
        ensures
            final(self)@ == (KeysModel {
                pressed: old(self)@.pressed.remove(key),
                new_pressed: old(self)@.new_pressed || old(self)@.waiting,
                ..old(self)@
            }),
    {
        if self.waiting {
            self.new_pressed = true;
        }
        self.buf[key as usize] = false;
        assert(self@.pressed =~= old(self)@.pressed.remove(key));
    }

    fn set_new_key(&mut self, key: u8)
        ensures
            final(self)@ == (KeysModel { last: Some(key), ..old(self)@ }),
    {
        self.last_key_pressed = Some(key);
    }

    pub fn start_waiting(&mut self)
        ensures
            final(self)@ == (KeysModel { waiting: true, ..old(self)@ }),
    {
        self.waiting = true;
    }

    pub fn stop_waiting(&mut self)
        ensures
            final(self)@ == (KeysModel { waiting: false, ..old(self)@ }),
    {
        self.waiting = false;
    }

    /// Records a key going down (`state`) or up.
    pub fn set_key_state(&mut self, key: u8, state: bool)
        ensures
            final(self).wf(),
            final(self)@ == key_state_result(old(self)@, key, state),
    {
        if key >= KEY_COUNT {
            return;
        }
        if state {
            if !self.key_pressed(key) {
                self.push(key);
                self.set_new_key(key);
            }
        } else {
            self.remove(key);
        }
    }
}

impl Default for DataKeys {
    fn default() -> (r: DataKeys)
        ensures
            r.wf(),
            r@ == (KeysModel { pressed: Set::empty(), last: None, new_pressed: false, waiting: false }),
    {
        DataKeys::new()
    }
}

} // verus!
