use vstd::prelude::*;

verus! {

/// What can go wrong while a buffer or an engine is set up or driven.
///
/// The six hardware faults carry the DMASR word in which they were seen.
#[derive(Debug, Clone, Copy, PartialEq, Eq)]
pub enum Error {
    /// The kernel refused to map a device or a buffer.
    Mmap,
    /// A Scatter-Gather operation was asked of a core built without it.
    SgDisabled,
    /// DMASR bit 4: internal error on the data path.
    DmaInternal(u32),
    /// DMASR bit 5: slave error on the data path.
    DmaSlave(u32),
    /// DMASR bit 6: decode error on the data path.
    DmaDecode(u32),
    /// DMASR bit 8: internal error while fetching a descriptor.
    SgInternal(u32),
    /// DMASR bit 9: slave error while fetching a descriptor.
    SgSlave(u32),
    /// DMASR bit 10: decode error while fetching a descriptor.
    SgDecode(u32),
    /// Reading or writing a device file failed.
    Io,
    /// The text of a sysfs attribute is not the number it should be.
    Parse,
}

} // verus!
