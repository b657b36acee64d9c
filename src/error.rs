use vstd::prelude::*;

verus! {

/// What can go wrong while building or running the machine.
#[derive(Clone, Copy, Debug, PartialEq, Eq, Structural)]
pub enum Chip8Error {
    /// The ROM holds more bytes than fit between 0x200 and the end of memory.
    RomTooLarge(usize),
    /// The word does not encode any instruction; it was fetched at the given address.
    UnknownOpcode(u16, u16),
    /// A call was made with every stack slot in use.
    StackOverflow,
    /// A return was made with no call to return from.
    StackUnderflow,
    /// The first address an instruction needed that lies past the end of memory.
    AddressOutOfRange(u32),
}

} // verus!
