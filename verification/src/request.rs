use vstd::prelude::*;
use crate::error::Error;

verus! {

/// One thing an engine asks of whoever holds the device.
#[derive(Debug, Clone, Copy, PartialEq, Eq)]
pub enum Request {
    /// A full data memory barrier: what was stored before it is seen by
    /// every bus master before what is stored after it, and likewise for
    /// loads.
    Barrier,
    /// A volatile 32-bit store into the register window, `offset` bytes in.
    WriteReg { offset: usize, value: u32 },
    /// A volatile 32-bit load from the register window, `offset` bytes in.
    /// The reply carries the word.
    ReadReg { offset: usize },
    /// A 32-bit store into the descriptor whose home is at the user virtual
    /// address `base`, `offset` bytes in.
    StoreDescriptor { base: usize, offset: usize, value: u32 },
    /// A volatile 32-bit load from the descriptor whose home is at `base`,
    /// `offset` bytes in. The reply carries the word.
    LoadDescriptor { base: usize, offset: usize },
    /// A write of `value` to the UIO device file, as four bytes with the
    /// least significant first. Writing one unmasks the interrupt.
    WriteUio { value: u32 },
    /// A blocking read of four bytes from the UIO device file, which
    /// returns once an interrupt has arrived. The reply may carry the
    /// count read; nobody looks at it.
    ReadUio,
}

/// What came of a request.
#[derive(Debug, Clone, Copy, PartialEq, Eq)]
pub enum Reply {
    /// It was carried out and there is nothing to report.
    Done,
    /// It was carried out and this is the word that was read.
    Word(u32),
    /// The device file could not be read or written.
    Failed,
}

impl Reply {
    /// The word a reply carries; zero where it carries none.
    pub open spec fn word(self) -> u32 {
        match self {
            Reply::Word(w) => w,
            _ => 0,
        }
    }
}

/// What an engine does next.
#[derive(Debug, Clone, Copy, PartialEq, Eq)]
pub enum Step {
    /// It waits for this request to be carried out and answered.
    Ask(Request),
    /// The operation is over, and this is how it ended.
    Finished(Result<(), Error>),
}

} // verus!
