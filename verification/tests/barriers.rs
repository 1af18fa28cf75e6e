use rhi::backend::BackendConfig;
use rhi::backend::BackendCore;
use rhi::sync::BarrierInfo;
use rhi::sync::RecordStep;
use rhi::types::BufferID;
use rhi::types::BufferUsage;
use rhi::types::GPUCommands;
use rhi::types::ImageAspect;
use rhi::types::ImageFormat;
use rhi::types::ImageID;
use rhi::types::ImageLayoutType;
use rhi::types::ImageUsage;
use rhi::types::MemAccessType;
use rhi::types::MemoryLocation;
use rhi::types::PipelineStage;
use rhi::types::RasterStyle;
use rhi::types::RenderError;
use rhi::types::Resolution2D;

fn test_backend() -> BackendCore {
    BackendCore::new(BackendConfig {
        swapchain_res: Resolution2D { width: 64, height: 64 },
        swapchain_image_count: 2,
        descriptor_pool_max_sets: 64,
    })
}

fn make_buffer(backend: &mut BackendCore) -> BufferID {
    backend
        .create_buffer(
            256,
            BufferUsage { copy_src: true, copy_dst: true, ..Default::default() },
            MemoryLocation::GPU,
        )
        .unwrap()
}

fn make_image(backend: &mut BackendCore, format: ImageFormat) -> ImageID {
    backend
        .create_texture_2d(
            Resolution2D { width: 128, height: 128 },
            format,
            ImageUsage { copy_dst: true, shader_sampled: true, ..Default::default() },
            MemoryLocation::GPU,
        )
        .unwrap()
}

fn barriers_for<'a>(steps: &'a [RecordStep], image: ImageID) -> Vec<&'a BarrierInfo> {
    steps
        .iter()
        .filter_map(|s| match s {
            RecordStep::Barrier(b) if b.image == image => Some(b),
            _ => None,
        })
        .collect()
}

#[test]
fn barriers_once_per_mention_with_exact_transitions() {
    let mut backend = test_backend();
    let b1 = make_buffer(&mut backend);
    let b2 = make_buffer(&mut backend);
    let x = make_image(&mut backend, ImageFormat::RenderIntermediate);
    let pipeline = backend
        .create_graphics_pipeline(
            RasterStyle::Fill,
            vec![ImageFormat::RenderIntermediate],
            None,
            4,
            4,
            String::from("v.spv"),
            String::from("f.spv"),
        )
        .unwrap();
    let fb = backend.create_frame_buffer(pipeline, vec![x], None).unwrap();
    let input_set = backend.create_input_set(pipeline).unwrap();
    let filler = || GPUCommands::CopyBufferToBuffer { src: b1, dst: b2 };
    // X is touched at indices 2, 5 and 9: as a copy destination, as a color
    // attachment, and as a copy destination again.
    let commands = vec![
        filler(),
        filler(),
        GPUCommands::CopyBufferToImage { src: b1, dst: x },
        filler(),
        filler(),
        GPUCommands::RunGraphicsPipeline {
            pipeline,
            framebuffer: fb,
            input_set,
            draw_infos: vec![],
        },
        filler(),
        filler(),
        filler(),
        GPUCommands::CopyBufferToImage { src: b2, dst: x },
    ];
    let cb = backend.create_command_buffer().unwrap();
    backend.compile_commands(cb, commands).unwrap();
    let steps = backend.recorded_steps(cb).unwrap().clone();

    // Ten commands are recorded, in order.
    let executed: Vec<&GPUCommands> = steps
        .iter()
        .filter_map(|s| match s {
            RecordStep::Execute(c) => Some(c),
            _ => None,
        })
        .collect();
    assert_eq!(executed.len(), 10);

    // Exactly three barriers touch X: undefined to transfer-dst, transfer-dst
    // to color-attachment, color-attachment to transfer-dst.
    let bs = barriers_for(&steps, x);
    assert_eq!(bs.len(), 3);
    assert_eq!(bs[0].old_layout, ImageLayoutType::Undefined);
    assert_eq!(bs[0].new_layout, ImageLayoutType::TransferDst);
    assert_eq!(bs[0].src_stage, PipelineStage::BottomOfPipe);
    assert_eq!(bs[0].dst_stage, PipelineStage::Transfer);
    assert_eq!(bs[0].src_access, None);
    assert_eq!(bs[0].dst_access, Some(MemAccessType::TransferWrite));
    assert_eq!(bs[0].aspect, ImageAspect::Color);
    assert_eq!(bs[1].old_layout, ImageLayoutType::TransferDst);
    assert_eq!(bs[1].new_layout, ImageLayoutType::ColorAttachment);
    assert_eq!(bs[1].src_stage, PipelineStage::Transfer);
    assert_eq!(bs[1].dst_stage, PipelineStage::ColorAttachmentOutput);
    assert_eq!(bs[1].src_access, Some(MemAccessType::TransferWrite));
    assert_eq!(bs[1].dst_access, Some(MemAccessType::ColorAttachmentWrite));
    assert_eq!(bs[2].old_layout, ImageLayoutType::ColorAttachment);
    assert_eq!(bs[2].new_layout, ImageLayoutType::TransferDst);
    assert_eq!(bs[2].src_access, Some(MemAccessType::ColorAttachmentWrite));
    assert_eq!(bs[2].dst_access, Some(MemAccessType::TransferWrite));

    // Each barrier stands immediately before the command that demands it.
    let positions: Vec<usize> = steps
        .iter()
        .enumerate()
        .filter_map(|(i, s)| match s {
            RecordStep::Barrier(b) if b.image == x => Some(i),
            _ => None,
        })
        .collect();
    for &p in &positions {
        assert!(matches!(steps[p + 1], RecordStep::Execute(_)));
    }
    let exec_positions: Vec<usize> = steps
        .iter()
        .enumerate()
        .filter_map(|(i, s)| match s {
            RecordStep::Execute(_) => Some(i),
            _ => None,
        })
        .collect();
    assert_eq!(positions[0] + 1, exec_positions[2]);
    assert_eq!(positions[1] + 1, exec_positions[5]);
    assert_eq!(positions[2] + 1, exec_positions[9]);
}

#[test]
fn repeated_state_still_emits_a_barrier() {
    let mut backend = test_backend();
    let b1 = make_buffer(&mut backend);
    let x = make_image(&mut backend, ImageFormat::Texture);
    let commands = vec![
        GPUCommands::CopyBufferToImage { src: b1, dst: x },
        GPUCommands::CopyBufferToImage { src: b1, dst: x },
    ];
    let cb = backend.create_command_buffer().unwrap();
    backend.compile_commands(cb, commands).unwrap();
    let steps = backend.recorded_steps(cb).unwrap().clone();
    let bs = barriers_for(&steps, x);
    assert_eq!(bs.len(), 2);
    assert_eq!(bs[0].old_layout, ImageLayoutType::Undefined);
    assert_eq!(bs[0].new_layout, ImageLayoutType::TransferDst);
    assert_eq!(bs[1].old_layout, ImageLayoutType::TransferDst);
    assert_eq!(bs[1].new_layout, ImageLayoutType::TransferDst);
}

#[test]
fn blit_and_shader_read_states() {
    let mut backend = test_backend();
    let src = make_image(&mut backend, ImageFormat::Texture);
    let dst = make_image(&mut backend, ImageFormat::RenderIntermediate);
    let depth = make_image(&mut backend, ImageFormat::Depth);
    let target = make_image(&mut backend, ImageFormat::RenderIntermediate);
    let pipeline = backend
        .create_graphics_pipeline(
            RasterStyle::Fill,
            vec![ImageFormat::RenderIntermediate],
            Some(ImageFormat::Depth),
            4,
            4,
            String::from("v.spv"),
            String::from("f.spv"),
        )
        .unwrap();
    let fb = backend.create_frame_buffer(pipeline, vec![target], Some(depth)).unwrap();
    let input_set = backend.create_input_set(pipeline).unwrap();
    backend.update_input_set(input_set, vec![], vec![src]).unwrap();
    let commands = vec![
        GPUCommands::BlitImage { src, dst },
        GPUCommands::RunGraphicsPipeline {
            pipeline,
            framebuffer: fb,
            input_set,
            draw_infos: vec![],
        },
    ];
    let cb = backend.create_command_buffer().unwrap();
    backend.compile_commands(cb, commands).unwrap();
    let steps = backend.recorded_steps(cb).unwrap().clone();

    let src_bs = barriers_for(&steps, src);
    assert_eq!(src_bs.len(), 2);
    assert_eq!(src_bs[0].new_layout, ImageLayoutType::TransferSrc);
    assert_eq!(src_bs[0].dst_access, Some(MemAccessType::TransferRead));
    // Bound as a texture in the pipeline run: shader-read at the fragment
    // shader stage.
    assert_eq!(src_bs[1].old_layout, ImageLayoutType::TransferSrc);
    assert_eq!(src_bs[1].new_layout, ImageLayoutType::ShaderRO);
    assert_eq!(src_bs[1].dst_stage, PipelineStage::FragmentShader);
    assert_eq!(src_bs[1].dst_access, Some(MemAccessType::ShaderRead));

    let dst_bs = barriers_for(&steps, dst);
    assert_eq!(dst_bs.len(), 1);
    assert_eq!(dst_bs[0].new_layout, ImageLayoutType::TransferDst);

    let depth_bs = barriers_for(&steps, depth);
    assert_eq!(depth_bs.len(), 1);
    assert_eq!(depth_bs[0].new_layout, ImageLayoutType::DepthAttachment);
    assert_eq!(depth_bs[0].dst_stage, PipelineStage::EarlyFragmentTests);
    assert_eq!(depth_bs[0].dst_access, Some(MemAccessType::DepthAttachmentWrite));
    assert_eq!(depth_bs[0].aspect, ImageAspect::Depth);

    let target_bs = barriers_for(&steps, target);
    assert_eq!(target_bs.len(), 1);
    assert_eq!(target_bs[0].new_layout, ImageLayoutType::ColorAttachment);
    assert_eq!(target_bs[0].dst_stage, PipelineStage::ColorAttachmentOutput);
}

#[test]
fn unresolved_handle_aborts_compilation() {
    let mut backend = test_backend();
    let b1 = make_buffer(&mut backend);
    let x = make_image(&mut backend, ImageFormat::Texture);
    let cb = backend.create_command_buffer().unwrap();
    backend.compile_commands(cb, vec![GPUCommands::CopyBufferToImage { src: b1, dst: x }]).unwrap();
    assert!(backend.recorded_steps(cb).is_ok());
    // A command naming a dead image aborts compilation and leaves the buffer
    // not submittable.
    backend.destroy_image(x).unwrap();
    assert_eq!(
        backend.compile_commands(cb, vec![GPUCommands::CopyBufferToImage { src: b1, dst: x }]),
        Err(RenderError::ResourceNotFound)
    );
    assert_eq!(backend.recorded_steps(cb).err(), Some(RenderError::ResourceNotFound));
    let fence = backend.create_fence(false).unwrap();
    assert!(matches!(
        backend.run_commands(cb, fence),
        Err(RenderError::NativeCallFailed(_))
    ));
}
