use vstd::prelude::*;

use crate::names::{all_names_present, all_present, names_view};
use crate::swapchain::SwapchainSupport;

verus! {

/// `VK_PHYSICAL_DEVICE_TYPE_INTEGRATED_GPU`.
pub const DEVICE_TYPE_INTEGRATED_GPU: i32 = 1;

/// `VK_PHYSICAL_DEVICE_TYPE_DISCRETE_GPU`.
pub const DEVICE_TYPE_DISCRETE_GPU: i32 = 2;

/// What rating a physical device reads from its properties and features.
#[derive(Clone, Copy, Debug, PartialEq, Eq, Structural)]
pub struct DeviceProfile {
    pub device_type: i32,
    pub max_image_dimension_2d: u32,
    pub geometry_shader: bool,
}

/// One queue family: whether it runs graphics work and whether it can
/// present to the target surface.
#[derive(Clone, Copy, Debug, PartialEq, Eq, Structural)]
pub struct QueueFamily {
    pub graphics: bool,
    pub present: bool,
}

/// The family chosen for graphics and the one chosen for presentation.
#[derive(Clone, Copy, Debug, PartialEq, Eq, Structural)]
pub struct QueueFamilyIndices {
    pub graphics: usize,
    pub present: usize,
}

/// What the driver reports of the device that rating picked.
#[derive(Clone, Debug)]
pub struct DeviceSurvey {
    pub profile: DeviceProfile,
    pub queue_families: Vec<QueueFamily>,
    pub extensions: Vec<Vec<u8>>,
    pub support: SwapchainSupport,
}

#[derive(Clone, Copy, Debug, PartialEq, Eq, Structural)]
pub enum DeviceError {
    /// The driver reports no physical device.
    NoDevices,
    /// The best-rated device misses something the context needs.
    NoSuitableDevice,
}

pub open spec fn device_score(p: DeviceProfile) -> int {
    if !p.geometry_shader {
        0
    } else if p.device_type == DEVICE_TYPE_DISCRETE_GPU {
        1000 + p.max_image_dimension_2d
    } else {
        p.max_image_dimension_2d as int
    }
}

/// `i` holds a highest score and no later device scores as high.
pub open spec fn is_last_best(profiles: Seq<DeviceProfile>, i: int) -> bool {
    &&& 0 <= i < profiles.len()
    &&& forall|j: int| 0 <= j < profiles.len() ==> device_score(#[trigger] profiles[j]) <= device_score(profiles[i])
    &&& forall|j: int| i < j < profiles.len() ==> device_score(#[trigger] profiles[j]) < device_score(profiles[i])
}

pub open spec fn is_first_graphics(families: Seq<QueueFamily>, i: int) -> bool {
    &&& 0 <= i < families.len()
    &&& families[i].graphics
    &&& forall|j: int| 0 <= j < i ==> !(#[trigger] families[j]).graphics
}

pub open spec fn is_first_present(families: Seq<QueueFamily>, i: int) -> bool {
    &&& 0 <= i < families.len()
    &&& families[i].present
    &&& forall|j: int| 0 <= j < i ==> !(#[trigger] families[j]).present
}

pub open spec fn has_graphics(families: Seq<QueueFamily>) -> bool {
    exists|i: int| 0 <= i < families.len() && (#[trigger] families[i]).graphics
}

pub open spec fn has_present(families: Seq<QueueFamily>) -> bool {
    exists|i: int| 0 <= i < families.len() && (#[trigger] families[i]).present
}

/// Geometry shaders, both queue families, every required extension and a
/// non-empty list of surface formats and of present modes.
pub open spec fn suitable(survey: DeviceSurvey, required: Seq<Seq<u8>>) -> bool {
    &&& survey.profile.geometry_shader
    &&& has_graphics(survey.queue_families@)
    &&& has_present(survey.queue_families@)
    &&& all_present(required, names_view(survey.extensions@))
    &&& survey.support.formats@.len() > 0
    &&& survey.support.present_modes@.len() > 0
}

/// The queue families a logical device asks for: each needed index once.
pub open spec fn unique_families(ix: QueueFamilyIndices) -> Seq<usize> {
    if ix.graphics == ix.present {
        seq![ix.graphics]
    } else {
        seq![ix.graphics, ix.present]
    }
}

pub fn rate_device_suitability(profile: &DeviceProfile) -> (score: u64)
    ensures
        score == device_score(*profile),
{
    if !profile.geometry_shader {
        return 0;
    }
    let mut score: u64 = 0;
    if profile.device_type == DEVICE_TYPE_DISCRETE_GPU {
        score += 1000;
    }
    score + profile.max_image_dimension_2d as u64
}

/// The index of the highest-rated device; of equal ratings the last one.
pub fn pick_device(profiles: &Vec<DeviceProfile>) -> (r: Result<usize, DeviceError>)
    ensures
        r is Err <==> profiles@.len() == 0,
        r is Err ==> r == Err::<usize, DeviceError>(DeviceError::NoDevices),
        r matches Ok(i) ==> is_last_best(profiles@, i as int),
{
    if profiles.len() == 0 {
        return Err(DeviceError::NoDevices);
    }
    let mut best: usize = 0;
    let mut best_score: u64 = rate_device_suitability(&profiles[0]);
    let mut i: usize = 1;
    while i < profiles.len()
        invariant
            1 <= i <= profiles@.len(),
            0 <= best < i,
            best_score == device_score(profiles@[best as int]),
            forall|j: int| 0 <= j < i ==> device_score(#[trigger] profiles@[j]) <= best_score,
            forall|j: int| best < j < i ==> device_score(#[trigger] profiles@[j]) < best_score,
        decreases profiles@.len() - i,
    {
        let s = rate_device_suitability(&profiles[i]);
        if s >= best_score {
            best = i;
            best_score = s;
        }
        i += 1;
    }
    Ok(best)
}

/// Scans the families once for the first graphics family and the first
/// presenting family.
pub fn find_queue_families(families: &Vec<QueueFamily>) -> (r: Option<QueueFamilyIndices>)
    ensures
        r is Some <==> has_graphics(families@) && has_present(families@),
        r matches Some(ix) ==> is_first_graphics(families@, ix.graphics as int)
            && is_first_present(families@, ix.present as int),
{
    let mut graphics: Option<usize> = None;
    let mut present: Option<usize> = None;
    let mut i: usize = 0;
    while i < families.len()
        invariant
            0 <= i <= families@.len(),
            graphics is None ==> forall|j: int| 0 <= j < i ==> !(#[trigger] families@[j]).graphics,
            graphics matches Some(g) ==> g < i && is_first_graphics(families@, g as int),
            present is None ==> forall|j: int| 0 <= j < i ==> !(#[trigger] families@[j]).present,
            present matches Some(p) ==> p < i && is_first_present(families@, p as int),
        decreases families@.len() - i,
    {
        let f = families[i];
        if graphics.is_none() && f.graphics {
            graphics = Some(i);
        }
        if present.is_none() && f.present {
            present = Some(i);
        }
        i += 1;
    }
    match (graphics, present) {
        (Some(g), Some(p)) => Some(QueueFamilyIndices { graphics: g, present: p }),
        _ => {
            assert(!(has_graphics(families@) && has_present(families@)));
            None
        },
    }
}

pub fn is_device_suitable(survey: &DeviceSurvey, required_extensions: &Vec<Vec<u8>>) -> (r: bool)
    ensures
        r == suitable(*survey, names_view(required_extensions@)),
{
    if !all_names_present(required_extensions, &survey.extensions) {
        return false;
    }
    survey.profile.geometry_shader && find_queue_families(&survey.queue_families).is_some()
        && survey.support.formats.len() > 0 && survey.support.present_modes.len() > 0
}

/// Confirms the picked device and returns its queue families.
pub fn confirm_device(survey: &DeviceSurvey, required_extensions: &Vec<Vec<u8>>) -> (r: Result<
    QueueFamilyIndices,
    DeviceError,
>)
    ensures
        r is Ok <==> suitable(*survey, names_view(required_extensions@)),
        r is Err ==> r == Err::<QueueFamilyIndices, DeviceError>(DeviceError::NoSuitableDevice),
        r matches Ok(ix) ==> is_first_graphics(survey.queue_families@, ix.graphics as int)
            && is_first_present(survey.queue_families@, ix.present as int),
{
    if !is_device_suitable(survey, required_extensions) {
        return Err(DeviceError::NoSuitableDevice);
    }
    match find_queue_families(&survey.queue_families) {
        Some(ix) => Ok(ix),
        None => Err(DeviceError::NoSuitableDevice),
    }
}

/// The families to create queues on, graphics first, with no index twice.
pub fn unique_queue_families(ix: QueueFamilyIndices) -> (r: Vec<usize>)
    ensures
        r@ == unique_families(ix),
{
    let mut r: Vec<usize> = Vec::new();
    r.push(ix.graphics);
    if ix.present != ix.graphics {
        r.push(ix.present);
    }
    assert(r@ =~= unique_families(ix));
    r
}

/// A device without geometry shaders scores nothing, whatever else it has.
pub proof fn lemma_score_without_geometry_shader(p: DeviceProfile)
    requires
        !p.geometry_shader,
    ensures
        device_score(p) == 0,
{
}

/// Of two devices with geometry shaders that differ only in being discrete
/// or integrated, the discrete one scores exactly 1000 more.
pub proof fn lemma_discrete_outscores_integrated(discrete: DeviceProfile, integrated: DeviceProfile)
    requires
        discrete.device_type == DEVICE_TYPE_DISCRETE_GPU,
        integrated.device_type == DEVICE_TYPE_INTEGRATED_GPU,
        discrete.max_image_dimension_2d == integrated.max_image_dimension_2d,
        discrete.geometry_shader,
        integrated.geometry_shader,
    ensures
        device_score(discrete) == device_score(integrated) + 1000,
{
}

} // verus!
