use vstd::prelude::*;
use vstd::string::*;
use vstd::layout::size_of;
use crate::error::Error;
use crate::sysfs::{as_word, decimal_attr, flag_attr, hex_attr, parse_decimal, parse_flag, parse_hex};

verus! {

/// What a `DmaBuffer` stands for.
pub struct Region {
    /// The name of the `u-dma-buf` device.
    pub name: Seq<char>,
    /// Its length in bytes.
    pub size: usize,
    /// The physical address of its first byte.
    pub phys_addr: usize,
    /// The user virtual address it is mapped at; zero while it is not.
    pub buffer: usize,
    pub sync_mode: bool,
    pub debug_vma: bool,
}

/// One physically contiguous region that the device can read and write.
#[derive(Debug)]
pub struct DmaBuffer {
    name: String,
    size: usize,
    phys_addr: usize,
    buffer: usize,
    sync_mode: bool,
    debug_vma: bool,
}

impl View for DmaBuffer {
    type V = Region;

    closed spec fn view(&self) -> Region {
        Region {
            name: self.name@,
            size: self.size,
            phys_addr: self.phys_addr,
            buffer: self.buffer,
            sync_mode: self.sync_mode,
            debug_vma: self.debug_vma,
        }
    }
}

impl DmaBuffer {
    /// Describes the region `name` from the text of its four sysfs
    /// attributes. `phys_addr` is read as hexadecimal and `size` as decimal;
    /// if either is not a number that fits a machine word, the region is
    /// refused. The region is not mapped yet.
    pub fn new(name: &str, phys_addr: &str, size: &str, debug_vma: &str, sync_mode: &str) -> (r:
        Result<DmaBuffer, Error>)
        ensures
            match (as_word(hex_attr(phys_addr@)), as_word(decimal_attr(size@))) {
                (Ok(address), Ok(length)) => r matches Ok(b) && b@ == (Region {
                    name: name@,
                    size: length,
                    phys_addr: address,
                    buffer: 0,
                    sync_mode: flag_attr(sync_mode@),
                    debug_vma: flag_attr(debug_vma@),
                }),
                _ => r matches Err(Error::Parse),
            },
    {
        let address: usize = match parse_hex(phys_addr) {
            Ok(v) => v,
            Err(_) => {
                return Err(Error::Parse);
            },
        };
        let length: usize = match parse_decimal(size) {
            Ok(v) => v,
            Err(_) => {
                return Err(Error::Parse);
            },
        };
        Ok(
            DmaBuffer {
                name: String::from_str(name),
                size: length,
                phys_addr: address,
                buffer: 0,
                sync_mode: parse_flag(sync_mode),
                debug_vma: parse_flag(debug_vma),
            },
        )
    }

    /// The same region, known to be mapped at `buffer`.
    pub fn mapped_at(self, buffer: usize) -> (b: DmaBuffer)
        ensures
            b@ == (Region { buffer, ..self@ }),
    {
        DmaBuffer { buffer, ..self }
    }

    /// How many items of type `T` the region holds.
    pub fn slice_len<T>(&self) -> (n: usize)
        requires
            size_of::<T>() > 0,
        ensures
            n == self@.size as nat / size_of::<T>(),
    {
        self.size / core::mem::size_of::<T>()
    }

    pub fn name(&self) -> (name: &str)
        ensures
            name@ == self@.name,
    {
        self.name.as_str()
    }

    pub fn size(&self) -> (size: usize)
        ensures
            size == self@.size,
    {
        self.size
    }

    pub fn phys_addr(&self) -> (phys_addr: usize)
        ensures
            phys_addr == self@.phys_addr,
    {
        self.phys_addr
    }

    pub fn buffer(&self) -> (buffer: usize)
        ensures
            buffer == self@.buffer,
    {
        self.buffer
    }

    pub fn sync_mode(&self) -> (sync_mode: bool)
        ensures
            sync_mode == self@.sync_mode,
    {
        self.sync_mode
    }

    pub fn debug_vma(&self) -> (debug_vma: bool)
        ensures
            debug_vma == self@.debug_vma,
    {
        self.debug_vma
    }
}

} // verus!
