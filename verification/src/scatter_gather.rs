use vstd::prelude::*;
use crate::address::{high_half, join, joined, low_half, split};

verus! {

/// Byte offsets of the fields inside a descriptor.
pub const NXTDESC: usize = 0x00;
pub const NXTDESC_MSB: usize = 0x04;
pub const BUFFER_ADDRESS: usize = 0x08;
pub const BUFFER_ADDRESS_MSB: usize = 0x0C;
pub const CONTROL: usize = 0x18;
pub const STATUS: usize = 0x1C;

/// Descriptors are aligned to sixteen words, though they use fewer.
pub const SG_DESCRIPTOR_LEN: usize = 64;

/// The largest length a descriptor accepts.
pub const MAX_BUFFER_LENGTH: u32 = 0x400_0000;

/// STATUS bit 31: the engine is done with the descriptor.
pub open spec fn completed(status: u32) -> bool {
    status & 0x8000_0000 != 0
}

/// The bit of a flag at the place `mask` names.
pub open spec fn flag_bit(flag: bool, mask: u32) -> u32 {
    if flag {
        mask
    } else {
        0
    }
}

/// One 32-bit store into a descriptor's home.
#[derive(Debug, Clone, Copy, PartialEq, Eq)]
pub struct Store {
    /// Byte offset from the descriptor's first byte.
    pub offset: usize,
    pub value: u32,
}

/// What an `SgDescriptor` holds: where the descriptor lives and the words
/// of it that the engine defines.
pub struct Image {
    /// The user virtual address of the descriptor's first byte.
    pub base: usize,
    /// Its physical address, which is what the engine is given.
    pub phys: usize,
    pub nxtdesc: u32,
    pub nxtdesc_msb: u32,
    pub buffer_address: u32,
    pub buffer_address_msb: u32,
    pub control: u32,
    pub status: u32,
}

impl Image {
    pub open spec fn next_descriptor(self) -> usize {
        join(self.nxtdesc, self.nxtdesc_msb)
    }

    pub open spec fn buffer(self) -> usize {
        join(self.buffer_address, self.buffer_address_msb)
    }

    /// CONTROL bits 25 to 0.
    pub open spec fn buffer_length(self) -> u32 {
        self.control & 0x3ff_ffff
    }

    /// CONTROL bit 26.
    pub open spec fn eof(self) -> bool {
        self.control & 0x400_0000 != 0
    }

    /// CONTROL bit 27.
    pub open spec fn sof(self) -> bool {
        self.control & 0x800_0000 != 0
    }

    /// STATUS bits 25 to 0.
    pub open spec fn transferred_bytes(self) -> u32 {
        self.status & 0x3ff_ffff
    }

    /// STATUS bit 26.
    pub open spec fn status_rxeof(self) -> bool {
        self.status & 0x400_0000 != 0
    }

    /// STATUS bit 27.
    pub open spec fn status_rxsof(self) -> bool {
        self.status & 0x800_0000 != 0
    }

    /// STATUS bit 28.
    pub open spec fn dma_internal_error(self) -> bool {
        self.status & 0x1000_0000 != 0
    }

    /// STATUS bit 29.
    pub open spec fn dma_slave_error(self) -> bool {
        self.status & 0x2000_0000 != 0
    }

    /// STATUS bit 30.
    pub open spec fn dma_decode_error(self) -> bool {
        self.status & 0x4000_0000 != 0
    }

    /// STATUS bit 31.
    pub open spec fn completed(self) -> bool {
        completed(self.status)
    }

    /// Everything STATUS says but `completed`.
    pub open spec fn outcome(self) -> u32 {
        self.status & 0x7fff_ffff
    }
}

/// Putting a length below the limit into CONTROL changes the length and
/// nothing else. The limit itself does not fit the field: it reads back as
/// zero with EOF set.
proof fn lemma_control_length(control: u32, length: u32)
    by (bit_vector)
    requires
        length <= 0x400_0000,
    ensures
        ({
            let word = (control & 0xfc00_0000) | length;
            &&& length < 0x400_0000 ==> word & 0x3ff_ffff == length
            &&& length < 0x400_0000 ==> word & 0x400_0000 == control & 0x400_0000
            &&& length == 0x400_0000 ==> word & 0x3ff_ffff == 0
            &&& length == 0x400_0000 ==> word & 0x400_0000 != 0
            &&& word & 0x800_0000 == control & 0x800_0000
        }),
{
}

/// An address has its low six bits clear exactly when it is a multiple of
/// 64.
pub proof fn lemma_alignment(addr: usize)
    by (bit_vector)
    ensures
        addr & 0x3f == 0 <==> addr % 64 == 0,
{
}

/// A field of 26 bits holds less than `MAX_BUFFER_LENGTH`, and the low
/// half of an address aligned to 64 bytes is aligned to 64 bytes.
proof fn lemma_field_bounds(word: u32, addr: usize)
    by (bit_vector)
    ensures
        word & 0x3ff_ffff < 0x400_0000,
        addr & 0x3f == 0 ==> ((addr as u64 % 0x1_0000_0000) as u32) & 0x3f == 0,
{
}

/// Putting EOF, SOF or `completed` into its word changes that bit and
/// nothing else.
proof fn lemma_flag_fields(word: u32, flag: bool)
    by (bit_vector)
    ensures
        ({
            let eof = (word & !0x400_0000u32) | (if flag { 0x400_0000u32 } else { 0u32 });
            &&& eof & 0x400_0000 != 0 <==> flag
            &&& eof & 0x800_0000 == word & 0x800_0000
            &&& eof & 0x3ff_ffff == word & 0x3ff_ffff
        }),
        ({
            let sof = (word & !0x800_0000u32) | (if flag { 0x800_0000u32 } else { 0u32 });
            &&& sof & 0x800_0000 != 0 <==> flag
            &&& sof & 0x400_0000 == word & 0x400_0000
            &&& sof & 0x3ff_ffff == word & 0x3ff_ffff
        }),
        ({
            let done = (word & !0x8000_0000u32) | (if flag { 0x8000_0000u32 } else { 0u32 });
            &&& done & 0x8000_0000 != 0 <==> flag
            &&& done & 0x7fff_ffff == word & 0x7fff_ffff
        }),
{
}

/// A descriptor as the processor sees it: the two addresses of its 64-byte
/// home and an image of its fields.
///
/// Setters change the image and name the stores that bring the home up to
/// date. STATUS belongs to the engine as well: `refresh` takes in what a
/// volatile load of it found.
#[derive(Debug)]
pub struct SgDescriptor {
    base: usize,
    phys: usize,
    nxtdesc: u32,
    nxtdesc_msb: u32,
    buffer_address: u32,
    buffer_address_msb: u32,
    control: u32,
    status: u32,
}

impl View for SgDescriptor {
    type V = Image;

    closed spec fn view(&self) -> Image {
        Image {
            base: self.base,
            phys: self.phys,
            nxtdesc: self.nxtdesc,
            nxtdesc_msb: self.nxtdesc_msb,
            buffer_address: self.buffer_address,
            buffer_address_msb: self.buffer_address_msb,
            control: self.control,
            status: self.status,
        }
    }
}

impl SgDescriptor {
    /// A descriptor whose home is at the user virtual address `base` and at
    /// the physical address `phys_addr`. Its image starts out zeroed.
    pub fn from_base_ptr(base: usize, phys_addr: usize) -> (d: SgDescriptor)
        ensures
            d@ == (Image {
                base,
                phys: phys_addr,
                nxtdesc: 0,
                nxtdesc_msb: 0,
                buffer_address: 0,
                buffer_address_msb: 0,
                control: 0,
                status: 0,
            }),
    {
        SgDescriptor {
            base,
            phys: phys_addr,
            nxtdesc: 0,
            nxtdesc_msb: 0,
            buffer_address: 0,
            buffer_address_msb: 0,
            control: 0,
            status: 0,
        }
    }

    pub fn base_ptr(&self) -> (base: usize)
        ensures
            base == self@.base,
    {
        self.base
    }

    pub fn phys_addr(&self) -> (phys: usize)
        ensures
            phys == self@.phys,
    {
        self.phys
    }

    /// Takes into the image the word that a load at `offset` found in the
    /// descriptor's home. Offsets that hold no field change nothing.
    pub fn refresh(&mut self, offset: usize, value: u32)
        ensures
            final(self)@ == if offset == NXTDESC {
                Image { nxtdesc: value, ..old(self)@ }
            } else if offset == NXTDESC_MSB {
                Image { nxtdesc_msb: value, ..old(self)@ }
            } else if offset == BUFFER_ADDRESS {
                Image { buffer_address: value, ..old(self)@ }
            } else if offset == BUFFER_ADDRESS_MSB {
                Image { buffer_address_msb: value, ..old(self)@ }
            } else if offset == CONTROL {
                Image { control: value, ..old(self)@ }
            } else if offset == STATUS {
                Image { status: value, ..old(self)@ }
            } else {
                old(self)@
            },
    {
        if offset == NXTDESC {
            self.nxtdesc = value;
        } else if offset == NXTDESC_MSB {
            self.nxtdesc_msb = value;
        } else if offset == BUFFER_ADDRESS {
            self.buffer_address = value;
        } else if offset == BUFFER_ADDRESS_MSB {
            self.buffer_address_msb = value;
        } else if offset == CONTROL {
            self.control = value;
        } else if offset == STATUS {
            self.status = value;
        }
    }

    /// The physical address of the descriptor that follows this one.
    pub fn next_descriptor(&self) -> (addr: usize)
        ensures
            addr == self@.next_descriptor(),
    {
        joined(self.nxtdesc, self.nxtdesc_msb)
    }

    /// Links this descriptor to the one at the physical address `addr`,
    /// which must be aligned to 64 bytes. The low half is stored first.
    pub fn set_next_descriptor(&mut self, addr: usize) -> (stores: (Store, Store))
        requires
            addr & 0x3f == 0,
        ensures
            final(self)@ == (Image {
                nxtdesc: low_half(addr),
                nxtdesc_msb: high_half(addr),
                ..old(self)@
            }),
            final(self)@.next_descriptor() == addr,
            final(self)@.nxtdesc & 0x3f == 0,
            stores.0 == (Store { offset: NXTDESC, value: low_half(addr) }),
            stores.1 == (Store { offset: NXTDESC_MSB, value: high_half(addr) }),
    {
        let (low, high) = split(addr);
        proof {
            lemma_field_bounds(0, addr);
        }
        self.nxtdesc = low;
        self.nxtdesc_msb = high;
        (Store { offset: NXTDESC, value: low }, Store { offset: NXTDESC_MSB, value: high })
    }

    /// Links this descriptor to the one at `addr` if that address is aligned
    /// to 64 bytes. If it is not, nothing is changed and nothing is to be
    /// stored.
    pub fn try_set_next_descriptor(&mut self, addr: usize) -> (stores: Option<(Store, Store)>)
        ensures
            addr & 0x3f != 0 ==> stores is None && final(self)@ == old(self)@,
            addr & 0x3f == 0 ==> final(self)@ == (Image {
                nxtdesc: low_half(addr),
                nxtdesc_msb: high_half(addr),
                ..old(self)@
            }) && final(self)@.next_descriptor() == addr && stores == Some(
                (
                    Store { offset: NXTDESC, value: low_half(addr) },
                    Store { offset: NXTDESC_MSB, value: high_half(addr) },
                ),
            ),
    {
        if addr & 0x3f == 0 {
            Some(self.set_next_descriptor(addr))
        } else {
            None
        }
    }

    /// The physical address of the payload.
    pub fn buffer_address(&self) -> (addr: usize)
        ensures
            addr == self@.buffer(),
    {
        joined(self.buffer_address, self.buffer_address_msb)
    }

    /// Points the descriptor at the payload at the physical address `addr`.
    /// The low half is stored first.
    pub fn set_buffer_address(&mut self, addr: usize) -> (stores: (Store, Store))
        ensures
            final(self)@ == (Image {
                buffer_address: low_half(addr),
                buffer_address_msb: high_half(addr),
                ..old(self)@
            }),
            final(self)@.buffer() == addr,
            stores.0 == (Store { offset: BUFFER_ADDRESS, value: low_half(addr) }),
            stores.1 == (Store { offset: BUFFER_ADDRESS_MSB, value: high_half(addr) }),
    {
        let (low, high) = split(addr);
        self.buffer_address = low;
        self.buffer_address_msb = high;
        (
            Store { offset: BUFFER_ADDRESS, value: low },
            Store { offset: BUFFER_ADDRESS_MSB, value: high },
        )
    }

    /// How many bytes of payload the descriptor covers.
    pub fn buffer_length(&self) -> (length: u32)
        ensures
            length == self@.buffer_length(),
            length < MAX_BUFFER_LENGTH,
    {
        proof {
            lemma_field_bounds(self.control, 0);
        }
        self.control & 0x3ff_ffff
    }

    /// Sets the number of payload bytes, at most `MAX_BUFFER_LENGTH`. A
    /// length below the limit reads back as it was set and leaves SOF and
    /// EOF alone. The limit itself overflows the field into EOF.
    pub fn set_buffer_length(&mut self, length: u32) -> (store: Store)
        requires
            length <= MAX_BUFFER_LENGTH,
        ensures
            final(self)@ == (Image {
                control: (old(self)@.control & 0xfc00_0000) | length,
                ..old(self)@
            }),
            store == (Store { offset: CONTROL, value: final(self)@.control }),
            final(self)@.sof() == old(self)@.sof(),
            length < MAX_BUFFER_LENGTH ==> final(self)@.buffer_length() == length,
            length < MAX_BUFFER_LENGTH ==> final(self)@.eof() == old(self)@.eof(),
            length == MAX_BUFFER_LENGTH ==> final(self)@.buffer_length() == 0,
            length == MAX_BUFFER_LENGTH ==> final(self)@.eof(),
    {
        proof {
            lemma_control_length(self.control, length);
        }
        self.control = (self.control & 0xfc00_0000) | length;
        Store { offset: CONTROL, value: self.control }
    }

    /// Whether the descriptor ends a frame.
    pub fn eof(&self) -> (eof: bool)
        ensures
            eof == self@.eof(),
    {
        self.control & 0x400_0000 != 0
    }

    pub fn set_eof(&mut self, eof: bool) -> (store: Store)
        ensures
            final(self)@ == (Image {
                control: (old(self)@.control & !0x400_0000u32) | flag_bit(eof, 0x400_0000),
                ..old(self)@
            }),
            store == (Store { offset: CONTROL, value: final(self)@.control }),
            final(self)@.eof() == eof,
            final(self)@.sof() == old(self)@.sof(),
            final(self)@.buffer_length() == old(self)@.buffer_length(),
    {
        let bit: u32 = if eof {
            0x400_0000
        } else {
            0
        };
        proof {
            lemma_flag_fields(self.control, eof);
        }
        self.control = (self.control & !0x400_0000u32) | bit;
        Store { offset: CONTROL, value: self.control }
    }

    /// Whether the descriptor starts a frame.
    pub fn sof(&self) -> (sof: bool)
        ensures
            sof == self@.sof(),
    {
        self.control & 0x800_0000 != 0
    }

    pub fn set_sof(&mut self, sof: bool) -> (store: Store)
        ensures
            final(self)@ == (Image {
                control: (old(self)@.control & !0x800_0000u32) | flag_bit(sof, 0x800_0000),
                ..old(self)@
            }),
            store == (Store { offset: CONTROL, value: final(self)@.control }),
            final(self)@.sof() == sof,
            final(self)@.eof() == old(self)@.eof(),
            final(self)@.buffer_length() == old(self)@.buffer_length(),
    {
        let bit: u32 = if sof {
            0x800_0000
        } else {
            0
        };
        proof {
            lemma_flag_fields(self.control, sof);
        }
        self.control = (self.control & !0x800_0000u32) | bit;
        Store { offset: CONTROL, value: self.control }
    }

    /// How many bytes the engine moved, as of the last refresh of STATUS.
    pub fn transferred_bytes(&self) -> (bytes: u32)
        ensures
            bytes == self@.transferred_bytes(),
            bytes < MAX_BUFFER_LENGTH,
    {
        proof {
            lemma_field_bounds(self.status, 0);
        }
        self.status & 0x3ff_ffff
    }

    pub fn status_rxeof(&self) -> (flag: bool)
        ensures
            flag == self@.status_rxeof(),
    {
        self.status & 0x400_0000 != 0
    }

    pub fn status_rxsof(&self) -> (flag: bool)
        ensures
            flag == self@.status_rxsof(),
    {
        self.status & 0x800_0000 != 0
    }

    pub fn dma_internal_error(&self) -> (flag: bool)
        ensures
            flag == self@.dma_internal_error(),
    {
        self.status & 0x1000_0000 != 0
    }

    pub fn dma_slave_error(&self) -> (flag: bool)
        ensures
            flag == self@.dma_slave_error(),
    {
        self.status & 0x2000_0000 != 0
    }

    pub fn dma_decode_error(&self) -> (flag: bool)
        ensures
            flag == self@.dma_decode_error(),
    {
        self.status & 0x4000_0000 != 0
    }

    /// Whether the engine is done with the descriptor, as of the last
    /// refresh of STATUS.
    pub fn completed(&self) -> (flag: bool)
        ensures
            flag == self@.completed(),
    {
        self.status & 0x8000_0000 != 0
    }

    /// Marks the descriptor as done or not, leaving the rest of STATUS as
    /// the image has it.
    pub fn set_completed(&mut self, completed: bool) -> (store: Store)
        ensures
            final(self)@ == (Image {
                status: (old(self)@.status & !0x8000_0000u32) | flag_bit(completed, 0x8000_0000),
                ..old(self)@
            }),
            store == (Store { offset: STATUS, value: final(self)@.status }),
            final(self)@.completed() == completed,
            final(self)@.outcome() == old(self)@.outcome(),
    {
        let bit: u32 = if completed {
            0x8000_0000
        } else {
            0
        };
        proof {
            lemma_flag_fields(self.status, completed);
        }
        self.status = (self.status & !0x8000_0000u32) | bit;
        Store { offset: STATUS, value: self.status }
    }

    /// Wipes STATUS: not done, nothing moved, no fault.
    pub fn clear_status(&mut self) -> (store: Store)
        ensures
            final(self)@ == (Image { status: 0, ..old(self)@ }),
            store == (Store { offset: STATUS, value: 0 }),
            !final(self)@.completed(),
            final(self)@.transferred_bytes() == 0,
            final(self)@.outcome() == 0,
    {
        assert(0u32 & 0x8000_0000 == 0 && 0u32 & 0x3ff_ffff == 0 && 0u32 & 0x7fff_ffff == 0)
            by (bit_vector);
        self.status = 0;
        Store { offset: STATUS, value: 0 }
    }
}

} // verus!
