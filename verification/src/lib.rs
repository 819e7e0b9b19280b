//! Verified core of a user-space driver for the Xilinx AXI-DMA engine.
//!
//! The crate holds every decision the driver takes: how registers and
//! descriptor fields are laid out, in which order they are accessed, how the
//! status words are decoded and how the text of the sysfs attributes is read.
//! It never touches a device itself. Each engine operation is a small state
//! machine that asks its caller for one access at a time (`Request`) and is
//! told what came of it (`Reply`).
pub mod address;
pub mod axi_dma;
pub mod dma_buffer;
pub mod dmb;
pub mod error;
pub mod machine;
pub mod regs;
pub mod request;
pub mod runs;
pub mod scatter_gather;
pub mod status;
pub mod sysfs;

pub use axi_dma::AxiDma;
pub use dma_buffer::DmaBuffer;
pub use dmb::dmb;
pub use error::Error;
pub use regs::Channel;
pub use request::{Reply, Request, Step};
pub use scatter_gather::{SgDescriptor, Store, SG_DESCRIPTOR_LEN};
