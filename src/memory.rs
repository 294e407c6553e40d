use vstd::prelude::*;

verus! {

/// Size of the addressable byte store.
pub const CAPACITY: usize = 4096;

/// Address of the first glyph of the built-in hex font.
pub const FONT_START: u16 = 0x50;

/// Address at which programs are loaded.
pub const PROGRAM_START: u16 = 0x200;

/// Sixteen 5-byte glyphs for the hex digits 0 to F.
pub const FONT: [u8; 80] = [
    0xF0, 0x90, 0x90, 0x90, 0xF0, // 0
    0x20, 0x60, 0x20, 0x20, 0x70, // 1
    0xF0, 0x10, 0xF0, 0x80, 0xF0, // 2
    0xF0, 0x10, 0xF0, 0x10, 0xF0, // 3
    0x90, 0x90, 0xF0, 0x10, 0x10, // 4
    0xF0, 0x80, 0xF0, 0x10, 0xF0, // 5
    0xF0, 0x80, 0xF0, 0x90, 0xF0, // 6
    0xF0, 0x10, 0x20, 0x40, 0x40, // 7
    0xF0, 0x90, 0xF0, 0x90, 0xF0, // 8
    0xF0, 0x90, 0xF0, 0x10, 0xF0, // 9
    0xF0, 0x90, 0xF0, 0x90, 0x90, // A
    0xE0, 0x90, 0xE0, 0x90, 0xE0, // B
    0xF0, 0x80, 0x80, 0x80, 0xF0, // C
    0xE0, 0x90, 0x90, 0x90, 0xE0, // D
    0xF0, 0x80, 0xF0, 0x80, 0xF0, // E
    0xF0, 0x80, 0xF0, 0x80, 0x80, // F
];

/// `m` with the bytes of `data` written from address `a` on.
pub open spec fn written(m: Seq<u8>, a: int, data: Seq<u8>) -> Seq<u8> {
    Seq::new(m.len(), |k: int| if a <= k < a + data.len() { data[k - a] } else { m[k] })
}

/// The big-endian word made of the bytes at `a` and `a + 1`.
pub open spec fn word_at(m: Seq<u8>, a: int) -> u16 {
    (m[a] * 0x100 + m[a + 1]) as u16
}

/// Contents of a freshly created memory: zeros, with the font at `FONT_START`.
pub open spec fn initial_memory() -> Seq<u8> {
    written(Seq::new(CAPACITY as nat, |k: int| 0u8), FONT_START as int, FONT@)
}

/// The 4096-byte store of the machine.
pub struct Memory {
    buf: Vec<u8>,
}

impl View for Memory {
    type V = Seq<u8>;

    closed spec fn view(&self) -> Seq<u8> {
        self.buf@
    }
}

impl Memory {
    /// Every memory has exactly `CAPACITY` bytes.
    pub open spec fn wf(&self) -> bool {
        self@.len() == CAPACITY
    }

    pub fn new() -> (r: Memory)
        ensures
            r.wf(),
            r@ == initial_memory(),
    {
        let mut mem = Memory { buf: vec![0; CAPACITY] };
        mem.write_slice(FONT_START, &FONT);
        proof {
            assert(mem@ =~= initial_memory());
        }
        mem
    }

    pub fn read_16bit(&self, address: u16) -> (r: u16)
        requires
            self.wf(),
            address + 2 <= CAPACITY,
        ensures
            r == word_at(self@, address as int),
    {
        let a = address as usize;
        let hi = self.buf[a] as u16;
        let lo = self.buf[a + 1] as u16;
        hi * 0x100 + lo
    }

    pub fn read_slice(&self, address: u16, buff: &mut [u8])
        requires
            self.wf(),
            address + old(buff)@.len() <= CAPACITY,
        ensures
            final(buff)@ == self@.subrange(address as int, address + old(buff)@.len()),
    {
        let start = address as usize;
        let n = buff.len();
        let mut k: usize = 0;
        while k < n
            invariant
                self.wf(),
                start + n <= CAPACITY,
                n == buff@.len(),
                k <= n,
                forall|j: int| 0 <= j < k ==> buff@[j] == self@[start + j],
            decreases n - k,
        {
            buff[k] = self.buf[start + k];
            k = k + 1;
        }
        assert(buff@ =~= self@.subrange(start as int, start + n));
    }

    pub fn write_slice(&mut self, address: u16, slice: &[u8])
        requires
            old(self).wf(),
            address + slice@.len() <= CAPACITY,
        ensures
            final(self).wf(),
            final(self)@ == written(old(self)@, address as int, slice@),
    {
        let start = address as usize;
        let n = slice.len();
        let mut k: usize = 0;
        while k < n
            invariant
                self.wf(),
                start + n <= CAPACITY,
                n == slice@.len(),
                k <= n,
                forall|j: int|
                    #![trigger self@[j]]
                    0 <= j < CAPACITY ==> self@[j] == if start <= j < start + k {
                        slice@[j - start]
                    } else {
                        old(self)@[j]
                    },
            decreases n - k,
        {
            self.buf[start + k] = slice[k];
            k = k + 1;
        }
        assert(self@ =~= written(old(self)@, start as int, slice@));
    }
}

impl Default for Memory {
    fn default() -> (r: Memory)
        ensures
            r.wf(),
            r@ == initial_memory(),
    {
        Memory::new()
    }
}

} // verus!
