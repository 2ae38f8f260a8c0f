//! The context structures that the controller reads from memory.

use vstd::prelude::*;

verus! {

/// Number of endpoint contexts in a device context.
pub const ENDPOINT_CONTEXTS: usize = 31;

/// The state of one device slot: eight 32-bit words.
#[derive(Copy, Clone, Debug)]
pub struct SlotContext {
    data: [u32; 8],
}

/// The state of one endpoint: eight 32-bit words.
#[derive(Copy, Clone, Debug)]
pub struct EndpointContext {
    data: [u32; 8],
}

/// Everything the controller keeps about one device: its slot context and
/// one context for each endpoint.
#[derive(Copy, Clone, Debug)]
pub struct DeviceContext {
    slot_context: SlotContext,
    endpoint_contexts: [EndpointContext; ENDPOINT_CONTEXTS],
}

} // verus!
