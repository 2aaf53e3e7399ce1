use vstd::prelude::*;

verus! {

/// Number of physical endpoints, including the control endpoint.
pub const NUM_ENDPOINTS: usize = 1 + 5;

/// Bytes of descriptor entries per physical endpoint: two logical endpoints,
/// two buffers each, one 32-bit word per buffer.
pub const BYTES_PER_EP_REGISTER: usize = 16;

pub const USB1_SRAM_ADDR: usize = 0x4010_0000;

/// Base address of the endpoint buffer region.
pub const EP_MEM_ADDR: usize = USB1_SRAM_ADDR;

/// Total size of the endpoint buffer region in bytes.
pub const EP_MEM_SIZE: usize = 0x4000;

/// Size of the descriptor table kept at the start of the region.
pub const EP_REGISTERS_SIZE: usize = NUM_ENDPOINTS * BYTES_PER_EP_REGISTER;

/// Alignment of every transfer buffer.
pub const BUFFER_ALIGN: usize = 64;

pub type UsbAccessType = u8;

} // verus!
