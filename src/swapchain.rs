use vstd::prelude::*;

use crate::device::QueueFamilyIndices;

verus! {

/// `VK_FORMAT_R8G8B8A8_SRGB`.
pub const FORMAT_R8G8B8A8_SRGB: i32 = 43;

/// `VK_COLOR_SPACE_SRGB_NONLINEAR_KHR`.
pub const COLOR_SPACE_SRGB_NONLINEAR: i32 = 0;

/// `VK_PRESENT_MODE_MAILBOX_KHR`: the low-latency, triple-buffering mode.
pub const PRESENT_MODE_MAILBOX: i32 = 1;

/// `VK_PRESENT_MODE_FIFO_KHR`: the mode every driver must support.
pub const PRESENT_MODE_FIFO: i32 = 2;

/// The width a surface reports as its current extent when the window size
/// decides the swapchain extent.
pub const UNDEFINED_EXTENT: u32 = 0xFFFF_FFFF;

/// A pixel format together with its color space, as a surface reports them.
#[derive(Clone, Copy, Debug, PartialEq, Eq, Structural)]
pub struct SurfaceFormat {
    pub format: i32,
    pub color_space: i32,
}

/// A width and a height in pixels.
#[derive(Clone, Copy, Debug, PartialEq, Eq, Structural)]
pub struct Extent2D {
    pub width: u32,
    pub height: u32,
}

/// The surface capabilities that swapchain negotiation reads.
#[derive(Clone, Copy, Debug, PartialEq, Eq, Structural)]
pub struct SurfaceCapabilities {
    pub min_image_count: u32,
    /// Zero when the surface sets no maximum.
    pub max_image_count: u32,
    pub current_extent: Extent2D,
    pub min_image_extent: Extent2D,
    pub max_image_extent: Extent2D,
}

/// Everything a surface reports about a physical device.
#[derive(Clone, Debug)]
pub struct SwapchainSupport {
    pub capabilities: SurfaceCapabilities,
    pub formats: Vec<SurfaceFormat>,
    pub present_modes: Vec<i32>,
}

pub open spec fn is_preferred_format(f: SurfaceFormat) -> bool {
    f.format == FORMAT_R8G8B8A8_SRGB && f.color_space == COLOR_SPACE_SRGB_NONLINEAR
}

/// The preferred 8-bit SRGB pair if the list holds it, else the first entry.
pub open spec fn chosen_format(formats: Seq<SurfaceFormat>) -> SurfaceFormat {
    if exists|i: int| 0 <= i < formats.len() && is_preferred_format(#[trigger] formats[i]) {
        SurfaceFormat { format: FORMAT_R8G8B8A8_SRGB, color_space: COLOR_SPACE_SRGB_NONLINEAR }
    } else {
        formats[0]
    }
}

/// Mailbox if the list offers it, else FIFO.
pub open spec fn chosen_present_mode(modes: Seq<i32>) -> i32 {
    if modes.contains(PRESENT_MODE_MAILBOX) {
        PRESENT_MODE_MAILBOX
    } else {
        PRESENT_MODE_FIFO
    }
}

/// `x` brought into `[lo, hi]`; `lo` wins should the bounds cross.
pub open spec fn clamped(x: u32, lo: u32, hi: u32) -> u32 {
    if x < lo {
        lo
    } else if x > hi {
        hi
    } else {
        x
    }
}

/// The surface's current extent, unless it is the undefined sentinel; then
/// the window size clamped into the surface's bounds.
pub open spec fn chosen_extent(caps: SurfaceCapabilities, window: Extent2D) -> Extent2D {
    if caps.current_extent.width != UNDEFINED_EXTENT {
        caps.current_extent
    } else {
        Extent2D {
            width: clamped(window.width, caps.min_image_extent.width, caps.max_image_extent.width),
            height: clamped(
                window.height,
                caps.min_image_extent.height,
                caps.max_image_extent.height,
            ),
        }
    }
}

/// One image more than the minimum, capped by a nonzero maximum.
pub open spec fn chosen_image_count(min_count: u32, max_count: u32) -> int {
    if max_count != 0 && min_count + 1 > max_count {
        max_count as int
    } else {
        min_count + 1
    }
}

pub fn choose_swap_surface_format(formats: &Vec<SurfaceFormat>) -> (r: SurfaceFormat)
    requires
        formats@.len() > 0,
    ensures
        r == chosen_format(formats@),
        formats@.contains(r),
{
    let mut i: usize = 0;
    while i < formats.len()
        invariant
            0 <= i <= formats@.len(),
            forall|j: int| 0 <= j < i ==> !is_preferred_format(#[trigger] formats@[j]),
        decreases formats@.len() - i,
    {
        let f = formats[i];
        if f.format == FORMAT_R8G8B8A8_SRGB && f.color_space == COLOR_SPACE_SRGB_NONLINEAR {
            assert(is_preferred_format(formats@[i as int]));
            return f;
        }
        i += 1;
    }
    assert(formats@.contains(formats@[0]));
    formats[0]
}

pub fn choose_swap_present_mode(present_modes: &Vec<i32>) -> (r: i32)
    ensures
        r == chosen_present_mode(present_modes@),
{
    let mut i: usize = 0;
    while i < present_modes.len()
        invariant
            0 <= i <= present_modes@.len(),
            forall|j: int| 0 <= j < i ==> present_modes@[j] != PRESENT_MODE_MAILBOX,
        decreases present_modes@.len() - i,
    {
        if present_modes[i] == PRESENT_MODE_MAILBOX {
            assert(present_modes@.contains(PRESENT_MODE_MAILBOX));
            return PRESENT_MODE_MAILBOX;
        }
        i += 1;
    }
    PRESENT_MODE_FIFO
}

pub fn clamp_dimension(x: u32, lo: u32, hi: u32) -> (r: u32)
    ensures
        r == clamped(x, lo, hi),
        lo <= hi ==> lo <= r <= hi,
        lo <= x <= hi ==> r == x,
{
    if x < lo {
        lo
    } else if x > hi {
        hi
    } else {
        x
    }
}

pub fn choose_swap_extent(capabilities: &SurfaceCapabilities, window: Extent2D) -> (r: Extent2D)
    ensures
        r == chosen_extent(*capabilities, window),
{
    if capabilities.current_extent.width != UNDEFINED_EXTENT {
        capabilities.current_extent
    } else {
        Extent2D {
            width: clamp_dimension(
                window.width,
                capabilities.min_image_extent.width,
                capabilities.max_image_extent.width,
            ),
            height: clamp_dimension(
                window.height,
                capabilities.min_image_extent.height,
                capabilities.max_image_extent.height,
            ),
        }
    }
}

pub fn choose_image_count(capabilities: &SurfaceCapabilities) -> (r: u32)
    requires
        can_count_images(*capabilities),
    ensures
        r == chosen_image_count(capabilities.min_image_count, capabilities.max_image_count),
{
    let min_count = capabilities.min_image_count;
    let max_count = capabilities.max_image_count;
    if max_count != 0 && min_count >= max_count {
        max_count
    } else {
        min_count + 1
    }
}

/// How swapchain images are shared between the queue families that use them.
#[derive(Clone, Copy, Debug, PartialEq, Eq, Structural)]
pub enum SharingMode {
    Exclusive,
    Concurrent { graphics: usize, present: usize },
}

/// The settings a swapchain is created with.
#[derive(Clone, Copy, Debug, PartialEq, Eq, Structural)]
pub struct SwapchainPlan {
    pub format: SurfaceFormat,
    pub present_mode: i32,
    pub extent: Extent2D,
    pub image_count: u32,
    pub sharing: SharingMode,
}

pub open spec fn chosen_sharing(ix: QueueFamilyIndices) -> SharingMode {
    if ix.graphics != ix.present {
        SharingMode::Concurrent { graphics: ix.graphics, present: ix.present }
    } else {
        SharingMode::Exclusive
    }
}

pub open spec fn can_count_images(caps: SurfaceCapabilities) -> bool {
    caps.max_image_count != 0 || caps.min_image_count < u32::MAX
}

pub fn choose_sharing_mode(indices: QueueFamilyIndices) -> (r: SharingMode)
    ensures
        r == chosen_sharing(indices),
{
    if indices.graphics != indices.present {
        SharingMode::Concurrent { graphics: indices.graphics, present: indices.present }
    } else {
        SharingMode::Exclusive
    }
}

/// Negotiates every swapchain setting from what the surface reports, the
/// window's pixel size and the chosen queue families.
pub fn plan_swapchain(
    support: &SwapchainSupport,
    window: Extent2D,
    indices: QueueFamilyIndices,
) -> (r: SwapchainPlan)
    requires
        support.formats@.len() > 0,
        can_count_images(support.capabilities),
    ensures
        r.format == chosen_format(support.formats@),
        r.present_mode == chosen_present_mode(support.present_modes@),
        r.extent == chosen_extent(support.capabilities, window),
        r.image_count == chosen_image_count(
            support.capabilities.min_image_count,
            support.capabilities.max_image_count,
        ),
        r.sharing == chosen_sharing(indices),
{
    SwapchainPlan {
        format: choose_swap_surface_format(&support.formats),
        present_mode: choose_swap_present_mode(&support.present_modes),
        extent: choose_swap_extent(&support.capabilities, window),
        image_count: choose_image_count(&support.capabilities),
        sharing: choose_sharing_mode(indices),
    }
}

} // verus!
