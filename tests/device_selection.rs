use hello_triangle::device::{
    confirm_device, find_queue_families, is_device_suitable, pick_device,
    rate_device_suitability, unique_queue_families, DeviceError, DeviceProfile, DeviceSurvey,
    QueueFamily, QueueFamilyIndices, DEVICE_TYPE_DISCRETE_GPU, DEVICE_TYPE_INTEGRATED_GPU,
};
use hello_triangle::swapchain::{Extent2D, SurfaceCapabilities, SurfaceFormat, SwapchainSupport};

fn profile(device_type: i32, dim: u32, geometry_shader: bool) -> DeviceProfile {
    DeviceProfile { device_type, max_image_dimension_2d: dim, geometry_shader }
}

fn family(graphics: bool, present: bool) -> QueueFamily {
    QueueFamily { graphics, present }
}

fn swapchain_ext() -> Vec<Vec<u8>> {
    vec![b"VK_KHR_swapchain".to_vec()]
}

fn survey(families: Vec<QueueFamily>, formats: usize, modes: usize) -> DeviceSurvey {
    let e = Extent2D { width: 1, height: 1 };
    DeviceSurvey {
        profile: profile(DEVICE_TYPE_DISCRETE_GPU, 16384, true),
        queue_families: families,
        extensions: vec![b"VK_KHR_maintenance1".to_vec(), b"VK_KHR_swapchain".to_vec()],
        support: SwapchainSupport {
            capabilities: SurfaceCapabilities {
                min_image_count: 2,
                max_image_count: 0,
                current_extent: e,
                min_image_extent: e,
                max_image_extent: e,
            },
            formats: vec![SurfaceFormat { format: 44, color_space: 0 }; formats],
            present_modes: vec![2; modes],
        },
    }
}

#[test]
fn device_type_constants_match_vulkan() {
    assert_eq!(DEVICE_TYPE_DISCRETE_GPU, erupt::vk::PhysicalDeviceType::DISCRETE_GPU.0);
    assert_eq!(DEVICE_TYPE_INTEGRATED_GPU, erupt::vk::PhysicalDeviceType::INTEGRATED_GPU.0);
}

#[test]
fn score_is_zero_without_geometry_shader() {
    assert_eq!(rate_device_suitability(&profile(DEVICE_TYPE_DISCRETE_GPU, 16384, false)), 0);
    assert_eq!(rate_device_suitability(&profile(DEVICE_TYPE_INTEGRATED_GPU, 8192, false)), 0);
}

#[test]
fn discrete_scores_one_thousand_above_integrated() {
    let d = rate_device_suitability(&profile(DEVICE_TYPE_DISCRETE_GPU, 16384, true));
    let i = rate_device_suitability(&profile(DEVICE_TYPE_INTEGRATED_GPU, 16384, true));
    assert_eq!(d, 17384);
    assert_eq!(i, 16384);
    assert_eq!(d - i, 1000);
}

#[test]
fn score_does_not_overflow_at_largest_dimension() {
    let d = rate_device_suitability(&profile(DEVICE_TYPE_DISCRETE_GPU, u32::MAX, true));
    assert_eq!(d, u32::MAX as u64 + 1000);
}

#[test]
fn pick_device_takes_highest_score() {
    let devices = vec![
        profile(DEVICE_TYPE_INTEGRATED_GPU, 8192, true),
        profile(DEVICE_TYPE_DISCRETE_GPU, 8192, true),
        profile(DEVICE_TYPE_DISCRETE_GPU, 32768, false),
    ];
    assert_eq!(pick_device(&devices), Ok(1));
}

#[test]
fn pick_device_takes_last_of_equal_scores() {
    let devices = vec![
        profile(DEVICE_TYPE_DISCRETE_GPU, 8192, true),
        profile(DEVICE_TYPE_DISCRETE_GPU, 8192, true),
        profile(DEVICE_TYPE_INTEGRATED_GPU, 100, true),
    ];
    assert_eq!(pick_device(&devices), Ok(1));
}

#[test]
fn pick_device_fails_without_devices() {
    assert_eq!(pick_device(&vec![]), Err(DeviceError::NoDevices));
}

#[test]
fn queue_families_first_of_each() {
    let families = vec![
        family(false, false),
        family(false, true),
        family(true, false),
        family(true, true),
    ];
    assert_eq!(
        find_queue_families(&families),
        Some(QueueFamilyIndices { graphics: 2, present: 1 })
    );
}

#[test]
fn queue_families_one_family_for_both() {
    let families = vec![family(true, true), family(true, true)];
    assert_eq!(
        find_queue_families(&families),
        Some(QueueFamilyIndices { graphics: 0, present: 0 })
    );
}

#[test]
fn queue_families_not_found() {
    assert_eq!(find_queue_families(&vec![]), None);
    assert_eq!(find_queue_families(&vec![family(true, false), family(true, false)]), None);
    assert_eq!(find_queue_families(&vec![family(false, true)]), None);
}

#[test]
fn unique_families_deduplicate() {
    assert_eq!(unique_queue_families(QueueFamilyIndices { graphics: 3, present: 3 }), vec![3]);
    assert_eq!(unique_queue_families(QueueFamilyIndices { graphics: 0, present: 2 }), vec![0, 2]);
}

#[test]
fn suitable_device_confirmed() {
    let s = survey(vec![family(false, true), family(true, false)], 1, 1);
    assert!(is_device_suitable(&s, &swapchain_ext()));
    assert_eq!(
        confirm_device(&s, &swapchain_ext()),
        Ok(QueueFamilyIndices { graphics: 1, present: 0 })
    );
}

#[test]
fn device_without_surface_formats_refused() {
    let s = survey(vec![family(true, true)], 0, 1);
    assert!(!is_device_suitable(&s, &swapchain_ext()));
    assert_eq!(confirm_device(&s, &swapchain_ext()), Err(DeviceError::NoSuitableDevice));
}

#[test]
fn device_without_present_modes_refused() {
    let s = survey(vec![family(true, true)], 1, 0);
    assert_eq!(confirm_device(&s, &swapchain_ext()), Err(DeviceError::NoSuitableDevice));
}

#[test]
fn device_without_extension_refused() {
    let s = survey(vec![family(true, true)], 1, 1);
    let required = vec![b"VK_KHR_swapchain".to_vec(), b"VK_KHR_ray_query".to_vec()];
    assert_eq!(confirm_device(&s, &required), Err(DeviceError::NoSuitableDevice));
}

#[test]
fn device_without_geometry_shader_refused() {
    let mut s = survey(vec![family(true, true)], 1, 1);
    s.profile.geometry_shader = false;
    assert_eq!(confirm_device(&s, &swapchain_ext()), Err(DeviceError::NoSuitableDevice));
}

#[test]
fn device_without_queue_families_refused() {
    let s = survey(vec![family(true, false)], 1, 1);
    assert_eq!(confirm_device(&s, &swapchain_ext()), Err(DeviceError::NoSuitableDevice));
}
