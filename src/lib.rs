//! Device-side driver logic for a USB high-speed controller: a bump
//! allocator for endpoint buffers, per-endpoint bookkeeping, and the bus
//! controller that decodes interrupt state into poll events and moves data.
use vstd::prelude::*;

pub mod constants;
pub mod endpoint;
pub mod endpoint_memory;
pub mod error;
pub mod usbbus;
pub mod usbhs;

pub use constants::{
    UsbAccessType, BYTES_PER_EP_REGISTER, EP_MEM_ADDR, EP_MEM_SIZE, EP_REGISTERS_SIZE,
    NUM_ENDPOINTS, USB1_SRAM_ADDR,
};
pub use endpoint::{EndpointAddress, EndpointType, UsbDirection};
pub use endpoint_memory::{EndpointBuffer, EndpointMemoryAllocator};
pub use error::UsbError;
pub use usbbus::{PollResult, UsbHSBus};
pub use usbhs::{EpDescriptor, UsbHS};

verus! {

} // verus!
