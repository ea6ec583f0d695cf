//! Decisions behind a Vulkan presentation context: device rating and
//! selection, queue-family discovery, swapchain negotiation, the event-loop
//! driver and the ordered release of every resource that was created.

pub mod device;
pub mod driver;
pub mod lifecycle;
pub mod names;
pub mod shader;
pub mod swapchain;
