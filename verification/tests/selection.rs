use rhi::setup::QueueFamilyInfo;
use rhi::setup::SurfaceFormatInfo;
use rhi::setup::choose_surface_format;
use rhi::setup::pick_graphics_queue_family;
use rhi::setup::select_gpu;
use rhi::setup::swapchain_image_count;
use rhi::sync::get_aspect_mask;
use rhi::sync::infer_access_from_layout;
use rhi::types::GPUInfo;
use rhi::types::ImageAspect;
use rhi::types::ImageFormat;
use rhi::types::ImageLayoutType;
use rhi::types::MemAccessType;

fn gpu(id: u32, integrated: bool) -> GPUInfo {
    GPUInfo { id, name: format!("adapter {id}"), integrated }
}

#[test]
fn discrete_gpu_is_preferred() {
    assert_eq!(select_gpu(&vec![]), None);
    assert_eq!(select_gpu(&vec![gpu(0, true), gpu(1, false), gpu(2, false)]), Some(1));
    assert_eq!(select_gpu(&vec![gpu(0, true), gpu(1, true)]), Some(0));
    assert_eq!(select_gpu(&vec![gpu(0, false)]), Some(0));
}

#[test]
fn graphics_family_with_most_queues_wins_last() {
    let fam = |g: bool, n: u32| QueueFamilyInfo { supports_graphics: g, queue_count: n };
    assert_eq!(pick_graphics_queue_family(&vec![]), None);
    assert_eq!(pick_graphics_queue_family(&vec![fam(false, 8)]), None);
    assert_eq!(
        pick_graphics_queue_family(&vec![fam(true, 2), fam(false, 9), fam(true, 4)]),
        Some(2)
    );
    // Among equal maxima the last one is taken.
    assert_eq!(
        pick_graphics_queue_family(&vec![fam(true, 4), fam(true, 4), fam(false, 1)]),
        Some(1)
    );
}

#[test]
fn swapchain_image_count_prefers_min_plus_one() {
    assert_eq!(swapchain_image_count(2, 0), 3);
    assert_eq!(swapchain_image_count(2, 8), 3);
    assert_eq!(swapchain_image_count(2, 3), 3);
    assert_eq!(swapchain_image_count(2, 2), 2);
}

#[test]
fn surface_format_prefers_the_named_color_space() {
    let f = |format_code: i32, color_space_code: i32| SurfaceFormatInfo {
        format_code,
        color_space_code,
    };
    assert_eq!(choose_surface_format(&vec![], 0), None);
    assert_eq!(choose_surface_format(&vec![f(10, 5), f(11, 0), f(12, 0)], 0), Some(1));
    assert_eq!(choose_surface_format(&vec![f(10, 5), f(11, 7)], 0), Some(0));
}

#[test]
fn access_masks_follow_layouts() {
    assert_eq!(
        infer_access_from_layout(ImageLayoutType::ColorAttachment),
        Some(MemAccessType::ColorAttachmentWrite)
    );
    assert_eq!(
        infer_access_from_layout(ImageLayoutType::DepthAttachment),
        Some(MemAccessType::DepthAttachmentWrite)
    );
    assert_eq!(
        infer_access_from_layout(ImageLayoutType::ShaderRO),
        Some(MemAccessType::ShaderRead)
    );
    assert_eq!(
        infer_access_from_layout(ImageLayoutType::TransferSrc),
        Some(MemAccessType::TransferRead)
    );
    assert_eq!(
        infer_access_from_layout(ImageLayoutType::TransferDst),
        Some(MemAccessType::TransferWrite)
    );
    assert_eq!(infer_access_from_layout(ImageLayoutType::Undefined), None);
    assert_eq!(infer_access_from_layout(ImageLayoutType::General), None);
}

#[test]
fn aspect_follows_format() {
    assert_eq!(get_aspect_mask(ImageFormat::Depth), ImageAspect::Depth);
    assert_eq!(get_aspect_mask(ImageFormat::Texture), ImageAspect::Color);
    assert_eq!(get_aspect_mask(ImageFormat::Float), ImageAspect::Color);
    assert_eq!(get_aspect_mask(ImageFormat::Presentation), ImageAspect::Color);
    assert_eq!(get_aspect_mask(ImageFormat::RenderIntermediate), ImageAspect::Color);
}
