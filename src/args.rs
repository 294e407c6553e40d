use vstd::prelude::*;

verus! {

/// Command-line arguments of the emulator.
pub struct ChipArgs {
    /// The path to the program image.
    pub path: String,
}

} // verus!
