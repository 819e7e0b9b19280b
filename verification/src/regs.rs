use vstd::prelude::*;
use crate::error::Error;

verus! {

/// Byte offsets of the registers inside the mapped window.
pub const MM2S_DMACR: usize = 0x00;
pub const MM2S_DMASR: usize = 0x04;
pub const MM2S_CURRDESC: usize = 0x08;
pub const MM2S_CURRDESC_MSB: usize = 0x0C;
pub const MM2S_TAILDESC: usize = 0x10;
pub const MM2S_TAILDESC_MSB: usize = 0x14;
pub const MM2S_SA: usize = 0x18;
pub const MM2S_SA_MSB: usize = 0x1C;
pub const MM2S_LENGTH: usize = 0x28;
pub const S2MM_DMACR: usize = 0x30;
pub const S2MM_DMASR: usize = 0x34;
pub const S2MM_CURRDESC: usize = 0x38;
pub const S2MM_CURRDESC_MSB: usize = 0x3C;
pub const S2MM_TAILDESC: usize = 0x40;
pub const S2MM_TAILDESC_MSB: usize = 0x44;
pub const S2MM_DA: usize = 0x48;
pub const S2MM_DA_MSB: usize = 0x4C;
pub const S2MM_LENGTH: usize = 0x58;

/// One byte past the last register the driver touches.
pub const REGISTER_SPAN: usize = 0x5C;

/// DMACR value that starts a simple transfer: run, with the completion,
/// delay and error interrupts enabled.
pub const DMACR_RUN_SIMPLE: u32 = 0x7001;
/// DMACR value that starts descriptor processing: run, interrupt threshold
/// one, completion and error interrupts enabled.
pub const DMACR_RUN_SG: u32 = 0x0001_5001;
/// DMACR value that resets the core; the bit clears itself when done.
pub const DMACR_RESET: u32 = 0x0004;
/// DMASR value that clears the three latched interrupt bits.
pub const DMASR_IRQ_CLEAR: u32 = 0x7000;

/// The two directions of one engine.
#[derive(Debug, Clone, Copy, PartialEq, Eq)]
pub enum Channel {
    /// Memory to stream (MM2S): host to device.
    H2d,
    /// Stream to memory (S2MM): device to host.
    D2h,
}

/// Where the registers of one channel lie in the window.
#[derive(Debug, Clone, Copy, PartialEq, Eq)]
pub struct Registers {
    pub dmacr: usize,
    pub dmasr: usize,
    pub currdesc: usize,
    pub currdesc_msb: usize,
    pub taildesc: usize,
    pub taildesc_msb: usize,
    /// Where the buffer's address goes in a simple transfer.
    pub address: usize,
    pub address_msb: usize,
    pub length: usize,
}

impl Channel {
    pub open spec fn spec_registers(self) -> Registers {
        match self {
            Channel::H2d => Registers {
                dmacr: MM2S_DMACR,
                dmasr: MM2S_DMASR,
                currdesc: MM2S_CURRDESC,
                currdesc_msb: MM2S_CURRDESC_MSB,
                taildesc: MM2S_TAILDESC,
                taildesc_msb: MM2S_TAILDESC_MSB,
                address: MM2S_SA,
                address_msb: MM2S_SA_MSB,
                length: MM2S_LENGTH,
            },
            Channel::D2h => Registers {
                dmacr: S2MM_DMACR,
                dmasr: S2MM_DMASR,
                currdesc: S2MM_CURRDESC,
                currdesc_msb: S2MM_CURRDESC_MSB,
                taildesc: S2MM_TAILDESC,
                taildesc_msb: S2MM_TAILDESC_MSB,
                address: S2MM_DA,
                address_msb: S2MM_DA_MSB,
                length: S2MM_LENGTH,
            },
        }
    }

    /// The registers of this channel.
    #[verifier::when_used_as_spec(spec_registers)]
    pub fn registers(self) -> (r: Registers)
        ensures
            r == self.spec_registers(),
    {
        match self {
            Channel::H2d => Registers {
                dmacr: MM2S_DMACR,
                dmasr: MM2S_DMASR,
                currdesc: MM2S_CURRDESC,
                currdesc_msb: MM2S_CURRDESC_MSB,
                taildesc: MM2S_TAILDESC,
                taildesc_msb: MM2S_TAILDESC_MSB,
                address: MM2S_SA,
                address_msb: MM2S_SA_MSB,
                length: MM2S_LENGTH,
            },
            Channel::D2h => Registers {
                dmacr: S2MM_DMACR,
                dmasr: S2MM_DMASR,
                currdesc: S2MM_CURRDESC,
                currdesc_msb: S2MM_CURRDESC_MSB,
                taildesc: S2MM_TAILDESC,
                taildesc_msb: S2MM_TAILDESC_MSB,
                address: S2MM_DA,
                address_msb: S2MM_DA_MSB,
                length: S2MM_LENGTH,
            },
        }
    }
}

/// DMACR bit 2: a reset is still in progress.
pub open spec fn resetting(control: u32) -> bool {
    control & 0x4 != 0
}

/// DMASR bit 0: the channel is stopped, so CURRDESC may be written.
pub open spec fn halted(status: u32) -> bool {
    status & 0x1 != 0
}

/// DMASR bit 3: the core was built with Scatter-Gather.
pub open spec fn sg_included(status: u32) -> bool {
    status & 0x8 != 0
}

/// The fault a DMASR word reports, if any. Where several flags are set the
/// data-path faults come before the descriptor-fetch faults, and within each
/// group internal before slave before decode.
pub open spec fn fault(status: u32) -> Option<Error> {
    if status & 0x10 != 0 {
        Some(Error::DmaInternal(status))
    } else if status & 0x20 != 0 {
        Some(Error::DmaSlave(status))
    } else if status & 0x40 != 0 {
        Some(Error::DmaDecode(status))
    } else if status & 0x100 != 0 {
        Some(Error::SgInternal(status))
    } else if status & 0x200 != 0 {
        Some(Error::SgSlave(status))
    } else if status & 0x400 != 0 {
        Some(Error::SgDecode(status))
    } else {
        None
    }
}

/// A DMASR word reports a fault exactly when one of the six error bits is
/// set. The error then carries the whole word, and the word has the bit
/// that the error is named after.
pub proof fn lemma_fault_bits(status: u32)
    ensures
        fault(status) is None <==> status & 0x770 == 0,
        match fault(status) {
            Some(Error::DmaInternal(word)) => word == status && status & 0x10 != 0,
            Some(Error::DmaSlave(word)) => word == status && status & 0x20 != 0,
            Some(Error::DmaDecode(word)) => word == status && status & 0x40 != 0,
            Some(Error::SgInternal(word)) => word == status && status & 0x100 != 0,
            Some(Error::SgSlave(word)) => word == status && status & 0x200 != 0,
            Some(Error::SgDecode(word)) => word == status && status & 0x400 != 0,
            Some(_) => false,
            None => true,
        },
{
    assert((status & 0x770 == 0) <==> (status & 0x10 == 0 && status & 0x20 == 0 && status & 0x40
        == 0 && status & 0x100 == 0 && status & 0x200 == 0 && status & 0x400 == 0))
        by (bit_vector);
}

} // verus!
