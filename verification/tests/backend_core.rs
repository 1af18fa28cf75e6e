use rhi::backend::BackendConfig;
use rhi::backend::BackendCore;
use rhi::types::BufferUsage;
use rhi::types::ImageFormat;
use rhi::types::ImageID;
use rhi::types::ImageUsage;
use rhi::types::MemoryLocation;
use rhi::types::RasterStyle;
use rhi::types::RenderError;
use rhi::types::Resolution2D;

fn test_backend() -> BackendCore {
    BackendCore::new(BackendConfig {
        swapchain_res: Resolution2D { width: 640, height: 480 },
        swapchain_image_count: 3,
        descriptor_pool_max_sets: 512,
    })
}

fn sampled_usage() -> ImageUsage {
    ImageUsage { shader_sampled: true, ..Default::default() }
}

fn make_pipeline(backend: &mut BackendCore) -> rhi::types::PipelineID {
    backend
        .create_graphics_pipeline(
            RasterStyle::Fill,
            vec![ImageFormat::RenderIntermediate],
            Some(ImageFormat::Depth),
            8,
            8,
            String::from("shaders/mesh.vert.spv"),
            String::from("shaders/mesh.frag.spv"),
        )
        .unwrap()
}

#[test]
fn swapchain_bookkeeping() {
    let backend = test_backend();
    let info = backend.get_swapchain_info();
    assert_eq!(info.res, Resolution2D { width: 640, height: 480 });
    assert_eq!(info.image_count, 3);
    let images = backend.get_swapchain_images();
    assert_eq!(images, vec![ImageID(0), ImageID(1), ImageID(2)]);
}

#[test]
fn texture_round_trip_after_destroy() {
    let mut backend = test_backend();
    let res = Resolution2D { width: 256, height: 256 };
    let first = backend
        .create_texture_2d(res, ImageFormat::Texture, sampled_usage(), MemoryLocation::GPU)
        .unwrap();
    backend.destroy_image(first).unwrap();
    let second = backend
        .create_texture_2d(res, ImageFormat::Texture, sampled_usage(), MemoryLocation::GPU)
        .unwrap();
    // The freed handle is reissued, and the new image is fully usable.
    assert_eq!(second, first);
    let fb_pipeline = make_pipeline(&mut backend);
    let fb = backend.create_frame_buffer(fb_pipeline, vec![second], None);
    assert!(fb.is_ok());
}

#[test]
fn destroying_unknown_handles_fails() {
    let mut backend = test_backend();
    assert_eq!(backend.destroy_image(ImageID(77)), Err(RenderError::ResourceNotFound));
    assert_eq!(
        backend.destroy_buffer(rhi::types::BufferID(0)),
        Err(RenderError::ResourceNotFound)
    );
}

#[test]
fn fence_timeout_on_unsignaled_fence() {
    let mut backend = test_backend();
    let fence = backend.create_fence(false).unwrap();
    assert_eq!(backend.wait_for_fence(fence), Err(RenderError::Timeout));
    // The failed wait mutated nothing: the same wait gives the same answer,
    // and the fence is still live.
    assert_eq!(backend.wait_for_fence(fence), Err(RenderError::Timeout));
    let signaled = backend.create_fence(true).unwrap();
    assert_eq!(backend.wait_for_fence(signaled), Ok(()));
    assert_eq!(
        backend.wait_for_fence(rhi::types::FenceID(99)),
        Err(RenderError::ResourceNotFound)
    );
}

#[test]
fn descriptor_pool_exhaustion_on_excess_input_sets() {
    let mut backend = BackendCore::new(BackendConfig {
        swapchain_res: Resolution2D { width: 64, height: 64 },
        swapchain_image_count: 2,
        descriptor_pool_max_sets: 6,
    });
    let pipeline = make_pipeline(&mut backend);
    // Each input set takes two descriptor sets from the budget of six.
    let s1 = backend.create_input_set(pipeline).unwrap();
    let s2 = backend.create_input_set(pipeline).unwrap();
    let s3 = backend.create_input_set(pipeline).unwrap();
    assert_eq!(backend.create_input_set(pipeline), Err(RenderError::Exhausted));
    // The three earlier sets stay valid and usable.
    for s in [s1, s2, s3] {
        assert_eq!(backend.update_input_set(s, vec![], vec![]), Ok(()));
    }
    // Destroying one returns its budget.
    backend.destroy_input_set(s2).unwrap();
    assert!(backend.create_input_set(pipeline).is_ok());
}

#[test]
fn update_input_set_replaces_bindings_whole() {
    let mut backend = test_backend();
    let pipeline = make_pipeline(&mut backend);
    let set = backend.create_input_set(pipeline).unwrap();
    let buf = backend
        .create_buffer(64, BufferUsage { storage: true, ..Default::default() }, MemoryLocation::GPU)
        .unwrap();
    let tex = backend
        .create_texture_2d(
            Resolution2D { width: 16, height: 16 },
            ImageFormat::Texture,
            sampled_usage(),
            MemoryLocation::GPU,
        )
        .unwrap();
    assert_eq!(backend.update_input_set(set, vec![buf], vec![tex]), Ok(()));
    assert_eq!(backend.update_input_set(set, vec![], vec![]), Ok(()));
    // Binding a dead texture is rejected.
    backend.destroy_image(tex).unwrap();
    assert_eq!(
        backend.update_input_set(set, vec![buf], vec![tex]),
        Err(RenderError::ResourceNotFound)
    );
}

#[test]
fn frame_buffer_requires_live_attachments() {
    let mut backend = test_backend();
    let pipeline = make_pipeline(&mut backend);
    let tex = backend
        .create_texture_2d(
            Resolution2D { width: 32, height: 32 },
            ImageFormat::RenderIntermediate,
            sampled_usage(),
            MemoryLocation::GPU,
        )
        .unwrap();
    assert!(backend.create_frame_buffer(pipeline, vec![tex], None).is_ok());
    assert_eq!(
        backend.create_frame_buffer(pipeline, vec![ImageID(500)], None),
        Err(RenderError::ResourceNotFound)
    );
    backend.destroy_image(tex).unwrap();
    assert_eq!(
        backend.create_frame_buffer(pipeline, vec![tex], None),
        Err(RenderError::ResourceNotFound)
    );
}

#[test]
fn run_commands_needs_a_compiled_buffer() {
    let mut backend = test_backend();
    let cb = backend.create_command_buffer().unwrap();
    let fence = backend.create_fence(false).unwrap();
    match backend.run_commands(cb, fence) {
        Err(RenderError::NativeCallFailed(_)) => {},
        other => panic!("expected a failed native call, got {other:?}"),
    }
    // Nothing was signaled by the failed submission.
    assert_eq!(backend.wait_for_fence(fence), Err(RenderError::Timeout));
    backend.compile_commands(cb, vec![]).unwrap();
    assert_eq!(backend.run_commands(cb, fence), Ok(()));
    // Submission completes at once in the bookkeeping backend: the fence is
    // signaled.
    assert_eq!(backend.wait_for_fence(fence), Ok(()));
}

#[test]
fn acquire_walks_swapchain_images_round_robin() {
    let mut backend = test_backend();
    let fence = backend.create_fence(false).unwrap();
    assert_eq!(backend.acquire_present_image(fence), Ok(0));
    assert_eq!(backend.acquire_present_image(fence), Ok(1));
    assert_eq!(backend.acquire_present_image(fence), Ok(2));
    assert_eq!(backend.acquire_present_image(fence), Ok(0));
    assert_eq!(backend.wait_for_fence(fence), Ok(()));
    assert_eq!(backend.present_swapchain_image(1), Ok(false));
    assert_eq!(backend.present_swapchain_image(3), Err(RenderError::ResourceNotFound));
}
