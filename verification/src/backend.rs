//! The backend capability interface and its bookkeeping core.
//!
//! [`LocalRenderBackend`] is the fixed operation set every concrete backend
//! implements. [`BackendCore`] is the verified bookkeeping half of such a
//! backend: it owns the handle stores, the resource metadata the command
//! compiler reads, fence state, descriptor-pool accounting and the swapchain
//! bookkeeping, and it compiles command lists into replayable step programs.
//! A native backend wraps it, holds the driver objects under the same
//! handles, and performs one native call per compiled step.

use vstd::prelude::*;

use crate::id_store::SequentialIDStore;
use crate::sync::RecordStep;
use crate::sync::ResourceViews;
use crate::sync::all_resolve;
use crate::sync::compile_steps;
use crate::sync::compiled_steps;
use crate::types::BufferID;
use crate::types::BufferInfo;
use crate::types::BufferUsage;
use crate::types::CommandBufferID;
use crate::types::FenceID;
use crate::types::FenceInfo;
use crate::types::FramebufferID;
use crate::types::FramebufferInfo;
use crate::types::GPUCommands;
use crate::types::ImageFormat;
use crate::types::ImageID;
use crate::types::ImageInfo;
use crate::types::ImageUsage;
use crate::types::InputSetID;
use crate::types::InputSetInfo;
use crate::types::MemoryLocation;
use crate::types::PipelineID;
use crate::types::PipelineInfo;
use crate::types::RasterStyle;
use crate::types::RenderError;
use crate::types::Resolution2D;
use crate::types::SwapchainInfo;

verus! {

/// What the library keeps of a command buffer: the compiled step program, or
/// nothing while the buffer is not submittable.
#[derive(Debug, Clone, PartialEq)]
pub struct CommandBufferInfo {
    pub program: Option<Vec<RecordStep>>,
}

/// Construction-time sizing: negotiated swapchain shape and the fixed
/// descriptor-pool budget, in descriptor sets.
#[derive(Debug, Clone, Copy, PartialEq, Eq, Structural)]
pub struct BackendConfig {
    pub swapchain_res: Resolution2D,
    pub swapchain_image_count: u32,
    pub descriptor_pool_max_sets: u32,
}

/// The contract every concrete render backend implements. One bookkeeping
/// implementation lives in this crate; a native one wraps it and adds the
/// driver calls.
pub trait LocalRenderBackend: Sized {
    /// What a well-formed backend of this implementation is; every operation
    /// preserves it.
    spec fn backend_wf(&self) -> bool;

    fn get_swapchain_info(&self) -> SwapchainInfo
        requires
            self.backend_wf(),
    ;

    fn get_swapchain_images(&self) -> Vec<ImageID>
        requires
            self.backend_wf(),
    ;

    fn create_buffer(&mut self, size: u64, usage: BufferUsage, memory_location: MemoryLocation)
        -> (r: Result<BufferID, RenderError>)
        requires
            old(self).backend_wf(),
        ensures
            final(self).backend_wf(),
    ;

    fn create_texture_2d(
        &mut self,
        res: Resolution2D,
        format: ImageFormat,
        usage: ImageUsage,
        memory_location: MemoryLocation,
    ) -> (r: Result<ImageID, RenderError>)
        requires
            old(self).backend_wf(),
        ensures
            final(self).backend_wf(),
    ;

    fn create_graphics_pipeline(
        &mut self,
        raster_style: RasterStyle,
        color_attachment_formats: Vec<ImageFormat>,
        depth_attachment_formats: Option<ImageFormat>,
        max_buffer_count: u32,
        max_texture_count: u32,
        vertex_shader: String,
        fragment_shader: String,
    ) -> (r: Result<PipelineID, RenderError>)
        requires
            old(self).backend_wf(),
        ensures
            final(self).backend_wf(),
    ;

    fn create_frame_buffer(
        &mut self,
        pipeline_id: PipelineID,
        color_attachments: Vec<ImageID>,
        depth_attachment: Option<ImageID>,
    ) -> (r: Result<FramebufferID, RenderError>)
        requires
            old(self).backend_wf(),
            color_attachments@.len() > 0,
        ensures
            final(self).backend_wf(),
    ;

    fn create_input_set(&mut self, pipeline_id: PipelineID) -> (r: Result<
        InputSetID,
        RenderError,
    >)
        requires
            old(self).backend_wf(),
        ensures
            final(self).backend_wf(),
    ;

    fn update_input_set(
        &mut self,
        input_set: InputSetID,
        buffers: Vec<BufferID>,
        textures: Vec<ImageID>,
    ) -> (r: Result<(), RenderError>)
        requires
            old(self).backend_wf(),
        ensures
            final(self).backend_wf(),
    ;

    fn create_fence(&mut self, signaled: bool) -> (r: Result<FenceID, RenderError>)
        requires
            old(self).backend_wf(),
        ensures
            final(self).backend_wf(),
    ;

    fn wait_for_fence(&self, fence_id: FenceID) -> Result<(), RenderError>
        requires
            self.backend_wf(),
    ;

    fn create_command_buffer(&mut self) -> (r: Result<CommandBufferID, RenderError>)
        requires
            old(self).backend_wf(),
        ensures
            final(self).backend_wf(),
    ;

    fn compile_commands(
        &mut self,
        command_buffer: CommandBufferID,
        commands: Vec<GPUCommands>,
    ) -> (r: Result<(), RenderError>)
        requires
            old(self).backend_wf(),
        ensures
            final(self).backend_wf(),
    ;

    fn run_commands(
        &mut self,
        command_buffer: CommandBufferID,
        fence_id: FenceID,
    ) -> (r: Result<(), RenderError>)
        requires
            old(self).backend_wf(),
        ensures
            final(self).backend_wf(),
    ;

    fn acquire_present_image(&mut self, fence_id: FenceID) -> (r: Result<u32, RenderError>)
        requires
            old(self).backend_wf(),
        ensures
            final(self).backend_wf(),
    ;

    fn present_swapchain_image(&self, id: u32) -> Result<bool, RenderError>
        requires
            self.backend_wf(),
    ;
}

/// The verified bookkeeping backend: every resource table, the fence states,
/// the descriptor-pool budget and the compiled programs, with no native
/// object anywhere.
pub struct BackendCore {
    command_buffers: SequentialIDStore<CommandBufferInfo>,
    fences: SequentialIDStore<FenceInfo>,
    descriptor_sets: SequentialIDStore<InputSetInfo>,
    frame_buffers: SequentialIDStore<FramebufferInfo>,
    pipelines: SequentialIDStore<PipelineInfo>,
    images: SequentialIDStore<ImageInfo>,
    buffers: SequentialIDStore<BufferInfo>,
    pool_max_sets: u32,
    pool_used: u32,
    swapchain_res: Resolution2D,
    swapchain_images: Vec<ImageID>,
    acquire_counter: u64,
}

impl BackendCore {
    pub closed spec fn image_store(&self) -> SequentialIDStore<ImageInfo> {
        self.images
    }

    pub closed spec fn buffer_store(&self) -> SequentialIDStore<BufferInfo> {
        self.buffers
    }

    pub closed spec fn pipeline_store(&self) -> SequentialIDStore<PipelineInfo> {
        self.pipelines
    }

    pub closed spec fn framebuffer_store(&self) -> SequentialIDStore<FramebufferInfo> {
        self.frame_buffers
    }

    pub closed spec fn input_set_store(&self) -> SequentialIDStore<InputSetInfo> {
        self.descriptor_sets
    }

    pub closed spec fn fence_store(&self) -> SequentialIDStore<FenceInfo> {
        self.fences
    }

    pub closed spec fn command_buffer_store(&self) -> SequentialIDStore<CommandBufferInfo> {
        self.command_buffers
    }

    /// The descriptor-pool budget, in descriptor sets; fixed at construction.
    pub closed spec fn pool_capacity(&self) -> u32 {
        self.pool_max_sets
    }

    /// How many descriptor sets of the budget are allocated; each input set
    /// takes two, one for its buffer array and one for its texture array.
    pub closed spec fn pool_in_use(&self) -> u32 {
        self.pool_used
    }

    pub closed spec fn swapchain_resolution(&self) -> Resolution2D {
        self.swapchain_res
    }

    pub closed spec fn swapchain_image_ids(&self) -> Seq<ImageID> {
        self.swapchain_images@
    }

    pub closed spec fn acquire_count(&self) -> u64 {
        self.acquire_counter
    }

    /// The resource tables as the command compiler sees them.
    pub open spec fn resource_views(&self) -> ResourceViews {
        ResourceViews {
            images: self.image_store().live(),
            buffers: self.buffer_store().live(),
            pipelines: self.pipeline_store().live(),
            framebuffers: self.framebuffer_store().live(),
            input_sets: self.input_set_store().live(),
        }
    }

    pub open spec fn wf(&self) -> bool {
        &&& self.image_store().wf()
        &&& self.buffer_store().wf()
        &&& self.pipeline_store().wf()
        &&& self.framebuffer_store().wf()
        &&& self.input_set_store().wf()
        &&& self.fence_store().wf()
        &&& self.command_buffer_store().wf()
        &&& self.pool_in_use() <= self.pool_capacity()
        &&& 0 < self.swapchain_image_ids().len() <= u32::MAX
    }

    /// Everything except the image table is as it was.
    pub open spec fn frame_except_images(pre: Self, post: Self) -> bool {
        &&& post.buffer_store().same_state(pre.buffer_store())
        &&& post.pipeline_store().same_state(pre.pipeline_store())
        &&& post.framebuffer_store().same_state(pre.framebuffer_store())
        &&& post.input_set_store().same_state(pre.input_set_store())
        &&& post.fence_store().same_state(pre.fence_store())
        &&& post.command_buffer_store().same_state(pre.command_buffer_store())
        &&& Self::frame_fixed(pre, post)
    }

    /// Everything except the buffer table is as it was.
    pub open spec fn frame_except_buffers(pre: Self, post: Self) -> bool {
        &&& post.image_store().same_state(pre.image_store())
        &&& post.pipeline_store().same_state(pre.pipeline_store())
        &&& post.framebuffer_store().same_state(pre.framebuffer_store())
        &&& post.input_set_store().same_state(pre.input_set_store())
        &&& post.fence_store().same_state(pre.fence_store())
        &&& post.command_buffer_store().same_state(pre.command_buffer_store())
        &&& Self::frame_fixed(pre, post)
    }

    /// Everything except the pipeline table is as it was.
    pub open spec fn frame_except_pipelines(pre: Self, post: Self) -> bool {
        &&& post.image_store().same_state(pre.image_store())
        &&& post.buffer_store().same_state(pre.buffer_store())
        &&& post.framebuffer_store().same_state(pre.framebuffer_store())
        &&& post.input_set_store().same_state(pre.input_set_store())
        &&& post.fence_store().same_state(pre.fence_store())
        &&& post.command_buffer_store().same_state(pre.command_buffer_store())
        &&& Self::frame_fixed(pre, post)
    }

    /// Everything except the framebuffer table is as it was.
    pub open spec fn frame_except_framebuffers(pre: Self, post: Self) -> bool {
        &&& post.image_store().same_state(pre.image_store())
        &&& post.buffer_store().same_state(pre.buffer_store())
        &&& post.pipeline_store().same_state(pre.pipeline_store())
        &&& post.input_set_store().same_state(pre.input_set_store())
        &&& post.fence_store().same_state(pre.fence_store())
        &&& post.command_buffer_store().same_state(pre.command_buffer_store())
        &&& Self::frame_fixed(pre, post)
    }

    /// Everything except the input-set table and the pool accounting is as
    /// it was.
    pub open spec fn frame_except_input_sets(pre: Self, post: Self) -> bool {
        &&& post.image_store().same_state(pre.image_store())
        &&& post.buffer_store().same_state(pre.buffer_store())
        &&& post.pipeline_store().same_state(pre.pipeline_store())
        &&& post.framebuffer_store().same_state(pre.framebuffer_store())
        &&& post.fence_store().same_state(pre.fence_store())
        &&& post.command_buffer_store().same_state(pre.command_buffer_store())
        &&& post.pool_capacity() == pre.pool_capacity()
        &&& post.swapchain_resolution() == pre.swapchain_resolution()
        &&& post.swapchain_image_ids() == pre.swapchain_image_ids()
        &&& post.acquire_count() == pre.acquire_count()
    }

    /// Everything except the fence table is as it was.
    pub open spec fn frame_except_fences(pre: Self, post: Self) -> bool {
        &&& post.image_store().same_state(pre.image_store())
        &&& post.buffer_store().same_state(pre.buffer_store())
        &&& post.pipeline_store().same_state(pre.pipeline_store())
        &&& post.framebuffer_store().same_state(pre.framebuffer_store())
        &&& post.input_set_store().same_state(pre.input_set_store())
        &&& post.command_buffer_store().same_state(pre.command_buffer_store())
        &&& Self::frame_fixed(pre, post)
    }

    /// Everything except the command-buffer table is as it was.
    pub open spec fn frame_except_command_buffers(pre: Self, post: Self) -> bool {
        &&& post.image_store().same_state(pre.image_store())
        &&& post.buffer_store().same_state(pre.buffer_store())
        &&& post.pipeline_store().same_state(pre.pipeline_store())
        &&& post.framebuffer_store().same_state(pre.framebuffer_store())
        &&& post.input_set_store().same_state(pre.input_set_store())
        &&& post.fence_store().same_state(pre.fence_store())
        &&& Self::frame_fixed(pre, post)
    }

    /// The parts no resource operation touches: pool accounting, swapchain
    /// bookkeeping, acquire counter.
    pub open spec fn frame_fixed(pre: Self, post: Self) -> bool {
        &&& post.pool_capacity() == pre.pool_capacity()
        &&& post.pool_in_use() == pre.pool_in_use()
        &&& post.swapchain_resolution() == pre.swapchain_resolution()
        &&& post.swapchain_image_ids() == pre.swapchain_image_ids()
        &&& post.acquire_count() == pre.acquire_count()
    }

    /// Nothing at all changed.
    pub open spec fn unchanged(pre: Self, post: Self) -> bool {
        &&& post.image_store().same_state(pre.image_store())
        &&& Self::frame_except_images(pre, post)
    }

    /// Builds the bookkeeping backend and registers one image per swapchain
    /// image, with the negotiated resolution and the presentation format,
    /// under the handles `0..swapchain_image_count`.
    pub fn new(config: BackendConfig) -> (r: Self)
        requires
            0 < config.swapchain_image_count,
        ensures
            r.wf(),
            r.pool_capacity() == config.descriptor_pool_max_sets,
            r.pool_in_use() == 0,
            r.swapchain_resolution() == config.swapchain_res,
            r.swapchain_image_ids().len() == config.swapchain_image_count,
            forall|j: int|
                0 <= j < config.swapchain_image_count ==> (#[trigger] r.swapchain_image_ids()[j])
                    == (ImageID(j as u32)),
            forall|j: int|
                0 <= j < config.swapchain_image_count ==> r.image_store().live().contains_key(
                    #[trigger] (j as u32),
                ) && r.image_store().live()[j as u32] == (ImageInfo {
                    resolution: config.swapchain_res,
                    format: ImageFormat::Presentation,
                }),
            r.image_store().next_id() == config.swapchain_image_count,
            r.image_store().free_list().len() == 0,
            r.buffer_store().live() == Map::<u32, BufferInfo>::empty(),
            r.buffer_store().free_list() == Seq::<u32>::empty(),
            r.buffer_store().next_id() == 0,
            r.pipeline_store().live() == Map::<u32, PipelineInfo>::empty(),
            r.pipeline_store().free_list() == Seq::<u32>::empty(),
            r.pipeline_store().next_id() == 0,
            r.framebuffer_store().live() == Map::<u32, FramebufferInfo>::empty(),
            r.framebuffer_store().free_list() == Seq::<u32>::empty(),
            r.framebuffer_store().next_id() == 0,
            r.input_set_store().live() == Map::<u32, InputSetInfo>::empty(),
            r.input_set_store().free_list() == Seq::<u32>::empty(),
            r.input_set_store().next_id() == 0,
            r.fence_store().live() == Map::<u32, FenceInfo>::empty(),
            r.fence_store().free_list() == Seq::<u32>::empty(),
            r.fence_store().next_id() == 0,
            r.command_buffer_store().live() == Map::<u32, CommandBufferInfo>::empty(),
            r.command_buffer_store().free_list() == Seq::<u32>::empty(),
            r.command_buffer_store().next_id() == 0,
            r.acquire_count() == 0,
    {
        let mut images: SequentialIDStore<ImageInfo> = SequentialIDStore::new(1024);
        let mut swapchain_images: Vec<ImageID> = Vec::new();
        let count = config.swapchain_image_count;
        let mut j: u32 = 0;
        while j < count
            invariant
                j <= count,
                images.wf(),
                images.next_id() == j,
                images.free_list().len() == 0,
                swapchain_images@.len() == j,
                forall|q: int|
                    0 <= q < j ==> (#[trigger] swapchain_images@[q]) == (ImageID(q as u32)),
                forall|q: int|
                    0 <= q < j ==> images.live().contains_key(#[trigger] (q as u32))
                        && images.live()[q as u32] == (ImageInfo {
                        resolution: config.swapchain_res,
                        format: ImageFormat::Presentation,
                    }),
            decreases count - j,
        {
            let info = ImageInfo { resolution: config.swapchain_res, format: ImageFormat::Presentation };
            let id = match images.add_obj(info) {
                Ok(id) => id,
                Err(_) => {
                    proof {
                        assert(false);
                    }
                    0
                },
            };
            swapchain_images.push(ImageID(id));
            j += 1;
        }
        BackendCore {
            command_buffers: SequentialIDStore::new(256),
            fences: SequentialIDStore::new(256),
            descriptor_sets: SequentialIDStore::new(512),
            frame_buffers: SequentialIDStore::new(256),
            pipelines: SequentialIDStore::new(32),
            images,
            buffers: SequentialIDStore::new(1024),
            pool_max_sets: config.descriptor_pool_max_sets,
            pool_used: 0,
            swapchain_res: config.swapchain_res,
            swapchain_images,
            acquire_counter: 0,
        }
    }
}

impl BackendCore {
    pub fn get_swapchain_info(&self) -> (r: SwapchainInfo)
        requires
            self.wf(),
        ensures
            r.res == self.swapchain_resolution(),
            r.image_count == self.swapchain_image_ids().len(),
    {
        SwapchainInfo {
            res: self.swapchain_res,
            image_count: self.swapchain_images.len() as u32,
        }
    }

    pub fn get_swapchain_images(&self) -> (r: Vec<ImageID>)
        ensures
            r@ == self.swapchain_image_ids(),
    {
        let mut out: Vec<ImageID> = Vec::new();
        let mut j: usize = 0;
        while j < self.swapchain_images.len()
            invariant
                j <= self.swapchain_images@.len(),
                out@ == self.swapchain_images@.take(j as int),
            decreases self.swapchain_images@.len() - j,
        {
            out.push(self.swapchain_images[j]);
            proof {
                assert(out@ =~= self.swapchain_images@.take(j as int + 1));
            }
            j += 1;
        }
        proof {
            assert(out@ =~= self.swapchain_images@);
        }
        out
    }

    /// Allocates a buffer handle and records its byte size. The usage flags
    /// and memory location steer only the native allocation, which the
    /// wrapping backend performs under the same handle.
    #[allow(unused_variables)]
    pub fn create_buffer(
        &mut self,
        size: u64,
        usage: BufferUsage,
        memory_location: MemoryLocation,
    ) -> (r: Result<BufferID, RenderError>)
        requires
            old(self).wf(),
        ensures
            final(self).wf(),
            match r {
                Ok(id) => {
                    &&& !old(self).buffer_store().live().contains_key(id.0)
                    &&& final(self).buffer_store().live() == old(self).buffer_store().live().insert(
                        id.0,
                        BufferInfo { size },
                    )
                    &&& if old(self).buffer_store().free_list().len() > 0 {
                        id.0 == old(self).buffer_store().free_list().last()
                    } else {
                        id.0 == old(self).buffer_store().next_id()
                    }
                    &&& Self::frame_except_buffers(*old(self), *final(self))
                },
                Err(e) => {
                    &&& e == RenderError::Exhausted
                    &&& Self::unchanged(*old(self), *final(self))
                },
            },
            (r is Err) <==> old(self).buffer_store().exhausted(),
    {
        match self.buffers.add_obj(BufferInfo { size }) {
            Ok(id) => Ok(BufferID(id)),
            Err(_) => Err(RenderError::Exhausted),
        }
    }

    /// Allocates an image handle and records the resolution and logical
    /// format that later barrier and framebuffer decisions read.
    #[allow(unused_variables)]
    pub fn create_texture_2d(
        &mut self,
        res: Resolution2D,
        format: ImageFormat,
        usage: ImageUsage,
        memory_location: MemoryLocation,
    ) -> (r: Result<ImageID, RenderError>)
        requires
            old(self).wf(),
        ensures
            final(self).wf(),
            match r {
                Ok(id) => {
                    &&& !old(self).image_store().live().contains_key(id.0)
                    &&& final(self).image_store().live() == old(self).image_store().live().insert(
                        id.0,
                        ImageInfo { resolution: res, format },
                    )
                    &&& if old(self).image_store().free_list().len() > 0 {
                        id.0 == old(self).image_store().free_list().last()
                    } else {
                        id.0 == old(self).image_store().next_id()
                    }
                    &&& Self::frame_except_images(*old(self), *final(self))
                },
                Err(e) => {
                    &&& e == RenderError::Exhausted
                    &&& Self::unchanged(*old(self), *final(self))
                },
            },
            (r is Err) <==> old(self).image_store().exhausted(),
    {
        match self.images.add_obj(ImageInfo { resolution: res, format }) {
            Ok(id) => Ok(ImageID(id)),
            Err(_) => Err(RenderError::Exhausted),
        }
    }

    /// Records everything a graphics pipeline is built from. Reading the
    /// shader bytecode the two paths name and building the native objects is
    /// the wrapping backend's work; the bookkeeping itself never suspends.
    pub fn create_graphics_pipeline(
        &mut self,
        raster_style: RasterStyle,
        color_attachment_formats: Vec<ImageFormat>,
        depth_attachment_formats: Option<ImageFormat>,
        max_buffer_count: u32,
        max_texture_count: u32,
        vertex_shader: String,
        fragment_shader: String,
    ) -> (r: Result<PipelineID, RenderError>)
        requires
            old(self).wf(),
        ensures
            final(self).wf(),
            match r {
                Ok(id) => {
                    &&& !old(self).pipeline_store().live().contains_key(id.0)
                    &&& final(self).pipeline_store().live() == old(self).pipeline_store().live().insert(
                        id.0,
                        PipelineInfo {
                            raster_style,
                            color_attachment_formats,
                            depth_attachment_format: depth_attachment_formats,
                            max_buffer_count,
                            max_texture_count,
                            vertex_shader,
                            fragment_shader,
                        },
                    )
                    &&& if old(self).pipeline_store().free_list().len() > 0 {
                        id.0 == old(self).pipeline_store().free_list().last()
                    } else {
                        id.0 == old(self).pipeline_store().next_id()
                    }
                    &&& Self::frame_except_pipelines(*old(self), *final(self))
                },
                Err(e) => {
                    &&& e == RenderError::Exhausted
                    &&& Self::unchanged(*old(self), *final(self))
                },
            },
            (r is Err) <==> old(self).pipeline_store().exhausted(),
    {
        let info = PipelineInfo {
            raster_style,
            color_attachment_formats,
            depth_attachment_format: depth_attachment_formats,
            max_buffer_count,
            max_texture_count,
            vertex_shader,
            fragment_shader,
        };
        match self.pipelines.add_obj(info) {
            Ok(id) => Ok(PipelineID(id)),
            Err(_) => Err(RenderError::Exhausted),
        }
    }

    /// Records a framebuffer over live images and a live pipeline. The
    /// resolution the native framebuffer takes comes from the first color
    /// attachment; the attachments' own resolutions are not cross-checked
    /// against it.
    pub fn create_frame_buffer(
        &mut self,
        pipeline_id: PipelineID,
        color_attachments: Vec<ImageID>,
        depth_attachment: Option<ImageID>,
    ) -> (r: Result<FramebufferID, RenderError>)
        requires
            old(self).wf(),
            color_attachments@.len() > 0,
        ensures
            final(self).wf(),
            ({
                let ok_handles = old(self).pipeline_store().live().contains_key(pipeline_id.0)
                    && (forall|j: int|
                    0 <= j < color_attachments@.len() ==> old(self).image_store().live().contains_key(
                        (#[trigger] color_attachments@[j]).0,
                    )) && (match depth_attachment {
                    Some(d) => old(self).image_store().live().contains_key(d.0),
                    None => true,
                });
                &&& ((r is Ok) <==> (ok_handles && !old(self).framebuffer_store().exhausted()))
                &&& ((r matches Err(RenderError::ResourceNotFound)) <==> !ok_handles)
                &&& ((r matches Err(RenderError::Exhausted)) <==> (ok_handles && old(self).framebuffer_store().exhausted()))
                &&& match r {
                    Ok(id) => {
                        &&& !old(self).framebuffer_store().live().contains_key(id.0)
                        &&& final(self).framebuffer_store().live() == old(self).framebuffer_store().live().insert(
                            id.0,
                            FramebufferInfo { color_attachments, depth_attachment },
                        )
                        &&& if old(self).framebuffer_store().free_list().len() > 0 {
                            id.0 == old(self).framebuffer_store().free_list().last()
                        } else {
                            id.0 == old(self).framebuffer_store().next_id()
                        }
                        &&& Self::frame_except_framebuffers(*old(self), *final(self))
                    },
                    Err(_) => Self::unchanged(*old(self), *final(self)),
                }
            }),
    {
        if self.pipelines.get_obj(pipeline_id.0).is_err() {
            return Err(RenderError::ResourceNotFound);
        }
        let mut j: usize = 0;
        while j < color_attachments.len()
            invariant
                old(self).wf(),
                j <= color_attachments@.len(),
                *self == *old(self),
                forall|q: int|
                    0 <= q < j ==> self.image_store().live().contains_key(
                        (#[trigger] color_attachments@[q]).0,
                    ),
            decreases color_attachments@.len() - j,
        {
            if self.images.get_obj(color_attachments[j].0).is_err() {
                return Err(RenderError::ResourceNotFound);
            }
            j += 1;
        }
        match &depth_attachment {
            Some(d) => {
                if self.images.get_obj(d.0).is_err() {
                    return Err(RenderError::ResourceNotFound);
                }
            },
            None => {},
        }
        match self.frame_buffers.add_obj(FramebufferInfo { color_attachments, depth_attachment }) {
            Ok(id) => Ok(FramebufferID(id)),
            Err(_) => Err(RenderError::Exhausted),
        }
    }

    /// Allocates one descriptor-set pair for a live pipeline, charging two
    /// sets against the fixed pool budget; past the budget the allocation
    /// reports exhaustion and nothing changes.
    pub fn create_input_set(&mut self, pipeline_id: PipelineID) -> (r: Result<
        InputSetID,
        RenderError,
    >)
        requires
            old(self).wf(),
        ensures
            final(self).wf(),
            ({
                let pipeline_ok = old(self).pipeline_store().live().contains_key(pipeline_id.0);
                let pool_ok = old(self).pool_capacity() >= 2 && old(self).pool_in_use() <= old(self).pool_capacity() - 2;
                &&& ((r is Ok) <==> (pipeline_ok && pool_ok && !old(self).input_set_store().exhausted()))
                &&& ((r matches Err(RenderError::ResourceNotFound)) <==> !pipeline_ok)
                &&& ((r matches Err(RenderError::Exhausted)) <==> (pipeline_ok && (!pool_ok || old(self).input_set_store().exhausted())))
                &&& match r {
                    Ok(id) => {
                        &&& !old(self).input_set_store().live().contains_key(id.0)
                        &&& final(self).input_set_store().live().contains_key(id.0)
                        &&& final(self).input_set_store().live()[id.0].bound_buffers@ == Seq::<
                            BufferID,
                        >::empty()
                        &&& final(self).input_set_store().live()[id.0].bound_textures@ == Seq::<
                            ImageID,
                        >::empty()
                        &&& final(self).input_set_store().live() == old(
                            self,
                        ).input_set_store().live().insert(
                            id.0,
                            final(self).input_set_store().live()[id.0],
                        )
                        &&& if old(self).input_set_store().free_list().len() > 0 {
                            id.0 == old(self).input_set_store().free_list().last()
                        } else {
                            id.0 == old(self).input_set_store().next_id()
                        }
                        &&& final(self).pool_in_use() == old(self).pool_in_use() + 2
                        &&& Self::frame_except_input_sets(*old(self), *final(self))
                    },
                    Err(_) => Self::unchanged(*old(self), *final(self)),
                }
            }),
    {
        if self.pipelines.get_obj(pipeline_id.0).is_err() {
            return Err(RenderError::ResourceNotFound);
        }
        if self.pool_max_sets < 2 || self.pool_used > self.pool_max_sets - 2 {
            return Err(RenderError::Exhausted);
        }
        let info = InputSetInfo { bound_buffers: Vec::new(), bound_textures: Vec::new() };
        match self.descriptor_sets.add_obj(info) {
            Ok(id) => {
                self.pool_used = self.pool_used + 2;
                Ok(InputSetID(id))
            },
            Err(_) => Err(RenderError::Exhausted),
        }
    }

    /// Rewrites the whole buffer-array and texture-array binding of a live
    /// input set in one call: the new lists replace the old ones outright,
    /// and the bound handles are remembered for later layout inference.
    pub fn update_input_set(
        &mut self,
        input_set: InputSetID,
        buffers: Vec<BufferID>,
        textures: Vec<ImageID>,
    ) -> (r: Result<(), RenderError>)
        requires
            old(self).wf(),
        ensures
            final(self).wf(),
            ({
                let ok = old(self).input_set_store().live().contains_key(input_set.0) && (forall|
                    j: int,
                |
                    0 <= j < buffers@.len() ==> old(self).buffer_store().live().contains_key(
                        (#[trigger] buffers@[j]).0,
                    )) && (forall|j: int|
                    0 <= j < textures@.len() ==> old(self).image_store().live().contains_key(
                        (#[trigger] textures@[j]).0,
                    ));
                &&& ((r is Ok) <==> ok)
                &&& (r is Err ==> r == Err::<(), RenderError>(RenderError::ResourceNotFound)
                    && Self::unchanged(*old(self), *final(self)))
                &&& (r is Ok ==> final(self).input_set_store().live() == old(self).input_set_store().live().insert(
                    input_set.0,
                    InputSetInfo { bound_buffers: buffers, bound_textures: textures },
                ) && Self::frame_except_input_sets(*old(self), *final(self)) && final(self).pool_in_use() == old(self).pool_in_use())
            }),
    {
        if self.descriptor_sets.get_obj(input_set.0).is_err() {
            return Err(RenderError::ResourceNotFound);
        }
        let mut j: usize = 0;
        while j < buffers.len()
            invariant
                old(self).wf(),
                j <= buffers@.len(),
                *self == *old(self),
                forall|q: int|
                    0 <= q < j ==> self.buffer_store().live().contains_key(
                        (#[trigger] buffers@[q]).0,
                    ),
            decreases buffers@.len() - j,
        {
            if self.buffers.get_obj(buffers[j].0).is_err() {
                return Err(RenderError::ResourceNotFound);
            }
            j += 1;
        }
        let mut t: usize = 0;
        while t < textures.len()
            invariant
                old(self).wf(),
                t <= textures@.len(),
                *self == *old(self),
                forall|q: int|
                    0 <= q < t ==> self.image_store().live().contains_key(
                        (#[trigger] textures@[q]).0,
                    ),
            decreases textures@.len() - t,
        {
            if self.images.get_obj(textures[t].0).is_err() {
                return Err(RenderError::ResourceNotFound);
            }
            t += 1;
        }
        match self.descriptor_sets.get_obj_mut(input_set.0) {
            Ok(info) => {
                *info = InputSetInfo { bound_buffers: buffers, bound_textures: textures };
                Ok(())
            },
            Err(_) => Err(RenderError::ResourceNotFound),
        }
    }

    pub fn create_fence(&mut self, signaled: bool) -> (r: Result<FenceID, RenderError>)
        requires
            old(self).wf(),
        ensures
            final(self).wf(),
            match r {
                Ok(id) => {
                    &&& !old(self).fence_store().live().contains_key(id.0)
                    &&& final(self).fence_store().live() == old(self).fence_store().live().insert(
                        id.0,
                        FenceInfo { signaled },
                    )
                    &&& if old(self).fence_store().free_list().len() > 0 {
                        id.0 == old(self).fence_store().free_list().last()
                    } else {
                        id.0 == old(self).fence_store().next_id()
                    }
                    &&& Self::frame_except_fences(*old(self), *final(self))
                },
                Err(e) => {
                    &&& e == RenderError::Exhausted
                    &&& Self::unchanged(*old(self), *final(self))
                },
            },
            (r is Err) <==> old(self).fence_store().exhausted(),
    {
        match self.fences.add_obj(FenceInfo { signaled }) {
            Ok(id) => Ok(FenceID(id)),
            Err(_) => Err(RenderError::Exhausted),
        }
    }

    /// A bounded wait on a fence: succeeds exactly when the fence is already
    /// signaled, reports a timeout while it is not, and never mutates any
    /// state.
    pub fn wait_for_fence(&self, fence_id: FenceID) -> (r: Result<(), RenderError>)
        ensures
            ({
                let live = self.fence_store().live().contains_key(fence_id.0);
                &&& ((r is Ok) <==> (live && self.fence_store().live()[fence_id.0].signaled))
                &&& ((r matches Err(RenderError::Timeout)) <==> (live && !self.fence_store().live()[fence_id.0].signaled))
                &&& ((r matches Err(RenderError::ResourceNotFound)) <==> !live)
            }),
    {
        match self.fences.get_obj(fence_id.0) {
            Ok(info) => {
                if info.signaled {
                    Ok(())
                } else {
                    Err(RenderError::Timeout)
                }
            },
            Err(_) => Err(RenderError::ResourceNotFound),
        }
    }

    pub fn create_command_buffer(&mut self) -> (r: Result<CommandBufferID, RenderError>)
        requires
            old(self).wf(),
        ensures
            final(self).wf(),
            match r {
                Ok(id) => {
                    &&& !old(self).command_buffer_store().live().contains_key(id.0)
                    &&& final(self).command_buffer_store().live() == old(self).command_buffer_store().live().insert(id.0, CommandBufferInfo { program: None })
                    &&& if old(self).command_buffer_store().free_list().len() > 0 {
                        id.0 == old(self).command_buffer_store().free_list().last()
                    } else {
                        id.0 == old(self).command_buffer_store().next_id()
                    }
                    &&& Self::frame_except_command_buffers(*old(self), *final(self))
                },
                Err(e) => {
                    &&& e == RenderError::Exhausted
                    &&& Self::unchanged(*old(self), *final(self))
                },
            },
            (r is Err) <==> old(self).command_buffer_store().exhausted(),
    {
        match self.command_buffers.add_obj(CommandBufferInfo { program: None }) {
            Ok(id) => Ok(CommandBufferID(id)),
            Err(_) => Err(RenderError::Exhausted),
        }
    }

    /// The command-compiler entry point: derives the barriers the command
    /// list needs and stores the compiled step program on the command
    /// buffer. On any unresolved handle the buffer is left without a
    /// program, not in a half-recorded state.
    pub fn compile_commands(
        &mut self,
        command_buffer: CommandBufferID,
        commands: Vec<GPUCommands>,
    ) -> (r: Result<(), RenderError>)
        requires
            old(self).wf(),
        ensures
            final(self).wf(),
            ({
                let cb_ok = old(self).command_buffer_store().live().contains_key(command_buffer.0);
                let rv = old(self).resource_views();
                &&& (!cb_ok ==> r == Err::<(), RenderError>(RenderError::ResourceNotFound)
                    && Self::unchanged(*old(self), *final(self)))
                &&& ((r is Ok) <==> (cb_ok && all_resolve(commands@, rv)))
                &&& (r is Err ==> r == Err::<(), RenderError>(RenderError::ResourceNotFound))
                &&& (cb_ok ==> Self::frame_except_command_buffers(*old(self), *final(self)))
                &&& (cb_ok ==> ({
                    let newinfo = final(self).command_buffer_store().live()[command_buffer.0];
                    &&& final(self).command_buffer_store().live() == old(self).command_buffer_store().live().insert(command_buffer.0, newinfo)
                    &&& (r is Ok ==> newinfo.program is Some && newinfo.program->0@
                        == compiled_steps(commands@, rv))
                    &&& (r is Err ==> newinfo.program is None)
                }))
            }),
    {
        if self.command_buffers.get_obj(command_buffer.0).is_err() {
            return Err(RenderError::ResourceNotFound);
        }
        let compiled = compile_steps(
            commands,
            &self.images,
            &self.buffers,
            &self.pipelines,
            &self.frame_buffers,
            &self.descriptor_sets,
        );
        match compiled {
            Ok(steps) => {
                match self.command_buffers.get_obj_mut(command_buffer.0) {
                    Ok(info) => {
                        *info = CommandBufferInfo { program: Some(steps) };
                        Ok(())
                    },
                    Err(_) => Err(RenderError::ResourceNotFound),
                }
            },
            Err(e) => {
                match self.command_buffers.get_obj_mut(command_buffer.0) {
                    Ok(info) => {
                        *info = CommandBufferInfo { program: None };
                        Err(e)
                    },
                    Err(_) => Err(RenderError::ResourceNotFound),
                }
            },
        }
    }

    /// Submits a compiled command buffer. In this bookkeeping backend the
    /// submission completes at once, so the fence is signaled here; a native
    /// backend signals it when the device finishes. Submitting a buffer that
    /// holds no compiled program is rejected as a failed native call.
    pub fn run_commands(
        &mut self,
        command_buffer: CommandBufferID,
        fence_id: FenceID,
    ) -> (r: Result<(), RenderError>)
        requires
            old(self).wf(),
        ensures
            final(self).wf(),
            ({
                let cb_ok = old(self).command_buffer_store().live().contains_key(command_buffer.0);
                let fence_ok = old(self).fence_store().live().contains_key(fence_id.0);
                let recorded = cb_ok && old(self).command_buffer_store().live()[command_buffer.0].program is Some;
                &&& ((r is Ok) <==> (cb_ok && fence_ok && recorded))
                &&& ((!cb_ok || !fence_ok) ==> r == Err::<(), RenderError>(
                    RenderError::ResourceNotFound,
                ) && Self::unchanged(*old(self), *final(self)))
                &&& ((cb_ok && fence_ok && !recorded) ==> (r matches Err(
                    RenderError::NativeCallFailed(_),
                )) && Self::unchanged(*old(self), *final(self)))
                &&& (r is Ok ==> final(self).fence_store().live() == old(self).fence_store().live().insert(fence_id.0, FenceInfo { signaled: true })
                    && Self::frame_except_fences(*old(self), *final(self)))
            }),
    {
        let recorded = match self.command_buffers.get_obj(command_buffer.0) {
            Ok(info) => info.program.is_some(),
            Err(_) => {
                return Err(RenderError::ResourceNotFound);
            },
        };
        if self.fences.get_obj(fence_id.0).is_err() {
            return Err(RenderError::ResourceNotFound);
        }
        if !recorded {
            return Err(
                RenderError::NativeCallFailed("command buffer holds no compiled program".to_string()),
            );
        }
        match self.fences.get_obj_mut(fence_id.0) {
            Ok(info) => {
                *info = FenceInfo { signaled: true };
                Ok(())
            },
            Err(_) => Err(RenderError::ResourceNotFound),
        }
    }

    /// The compiled step program of a command buffer, for replay by a
    /// wrapping backend: one native call per step.
    pub fn recorded_steps(&self, command_buffer: CommandBufferID) -> (r: Result<
        &Vec<RecordStep>,
        RenderError,
    >)
        ensures
            ({
                let live = self.command_buffer_store().live().contains_key(command_buffer.0);
                let recorded = live && self.command_buffer_store().live()[command_buffer.0].program is Some;
                &&& ((r is Ok) <==> recorded)
                &&& (r is Ok ==> r->Ok_0@ == self.command_buffer_store().live()[command_buffer.0].program->0@)
                &&& (r is Err ==> r->Err_0 == RenderError::ResourceNotFound)
            }),
    {
        match self.command_buffers.get_obj(command_buffer.0) {
            Ok(info) => match &info.program {
                Some(steps) => Ok(steps),
                None => Err(RenderError::ResourceNotFound),
            },
            Err(_) => Err(RenderError::ResourceNotFound),
        }
    }

    /// Hands out the next swapchain image index, round-robin, and signals
    /// the fence: in this bookkeeping backend an image is available at once.
    pub fn acquire_present_image(&mut self, fence_id: FenceID) -> (r: Result<u32, RenderError>)
        requires
            old(self).wf(),
        ensures
            final(self).wf(),
            ({
                let fence_ok = old(self).fence_store().live().contains_key(fence_id.0);
                &&& ((r is Ok) <==> fence_ok)
                &&& (!fence_ok ==> r == Err::<u32, RenderError>(RenderError::ResourceNotFound)
                    && Self::unchanged(*old(self), *final(self)))
                &&& (fence_ok ==> {
                    &&& r->Ok_0 as int == old(self).acquire_count() as int % (old(self).swapchain_image_ids().len() as int)
                    &&& final(self).acquire_count() == (if old(self).acquire_count() == u64::MAX {
                        0u64
                    } else {
                        (old(self).acquire_count() + 1) as u64
                    })
                    &&& final(self).fence_store().live() == old(self).fence_store().live().insert(
                        fence_id.0,
                        FenceInfo { signaled: true },
                    )
                    &&& final(self).image_store().same_state(old(self).image_store())
                    &&& final(self).buffer_store().same_state(old(self).buffer_store())
                    &&& final(self).pipeline_store().same_state(old(self).pipeline_store())
                    &&& final(self).framebuffer_store().same_state(old(self).framebuffer_store())
                    &&& final(self).input_set_store().same_state(old(self).input_set_store())
                    &&& final(self).command_buffer_store().same_state(old(self).command_buffer_store())
                    &&& final(self).pool_in_use() == old(self).pool_in_use()
                    &&& final(self).pool_capacity() == old(self).pool_capacity()
                    &&& final(self).swapchain_resolution() == old(self).swapchain_resolution()
                    &&& final(self).swapchain_image_ids() == old(self).swapchain_image_ids()
                })
            }),
    {
        if self.fences.get_obj(fence_id.0).is_err() {
            return Err(RenderError::ResourceNotFound);
        }
        let count = self.swapchain_images.len() as u64;
        let idx = (self.acquire_counter % count) as u32;
        if self.acquire_counter == u64::MAX {
            self.acquire_counter = 0;
        } else {
            self.acquire_counter = self.acquire_counter + 1;
        }
        match self.fences.get_obj_mut(fence_id.0) {
            Ok(info) => {
                *info = FenceInfo { signaled: true };
                Ok(idx)
            },
            Err(_) => Err(RenderError::ResourceNotFound),
        }
    }

    /// Queues a swapchain image for presentation. The bookkeeping backend
    /// accepts any index the swapchain holds and never reports a resize.
    pub fn present_swapchain_image(&self, id: u32) -> (r: Result<bool, RenderError>)
        requires
            self.wf(),
        ensures
            ((r is Ok) <==> (id as int) < self.swapchain_image_ids().len()),
            r is Ok ==> r->Ok_0 == false,
            r is Err ==> r == Err::<bool, RenderError>(RenderError::ResourceNotFound),
    {
        if (id as usize) < self.swapchain_images.len() {
            Ok(false)
        } else {
            Err(RenderError::ResourceNotFound)
        }
    }

    /// The creation-time metadata of a live image: its resolution and
    /// logical format.
    pub fn image_info(&self, image_id: ImageID) -> (r: Result<&ImageInfo, RenderError>)
        ensures
            (r is Ok) <==> self.image_store().live().contains_key(image_id.0),
            r is Ok ==> *r->Ok_0 == self.image_store().live()[image_id.0],
            r is Err ==> r->Err_0 == RenderError::ResourceNotFound,
    {
        match self.images.get_obj(image_id.0) {
            Ok(info) => Ok(info),
            Err(_) => Err(RenderError::ResourceNotFound),
        }
    }

    /// Removes an image's bookkeeping and frees its handle for reuse. The
    /// wrapping backend destroys the native image and view first and frees
    /// the backing memory after.
    pub fn destroy_image(&mut self, image_id: ImageID) -> (r: Result<(), RenderError>)
        requires
            old(self).wf(),
        ensures
            final(self).wf(),
            (r is Ok) <==> old(self).image_store().live().contains_key(image_id.0),
            r is Ok ==> final(self).image_store().live() == old(self).image_store().live().remove(
                image_id.0,
            ) && final(self).image_store().free_list() == old(self).image_store().free_list().push(image_id.0) && Self::frame_except_images(
                *old(self),
                *final(self),
            ),
            r is Err ==> r == Err::<(), RenderError>(RenderError::ResourceNotFound)
                && Self::unchanged(*old(self), *final(self)),
    {
        match self.images.remove_obj(image_id.0) {
            Ok(_) => Ok(()),
            Err(_) => Err(RenderError::ResourceNotFound),
        }
    }

    /// Removes a buffer's bookkeeping and frees its handle for reuse.
    pub fn destroy_buffer(&mut self, buffer_id: BufferID) -> (r: Result<(), RenderError>)
        requires
            old(self).wf(),
        ensures
            final(self).wf(),
            (r is Ok) <==> old(self).buffer_store().live().contains_key(buffer_id.0),
            r is Ok ==> final(self).buffer_store().live() == old(self).buffer_store().live().remove(
                buffer_id.0,
            ) && final(self).buffer_store().free_list() == old(self).buffer_store().free_list().push(buffer_id.0) && Self::frame_except_buffers(
                *old(self),
                *final(self),
            ),
            r is Err ==> r == Err::<(), RenderError>(RenderError::ResourceNotFound)
                && Self::unchanged(*old(self), *final(self)),
    {
        match self.buffers.remove_obj(buffer_id.0) {
            Ok(_) => Ok(()),
            Err(_) => Err(RenderError::ResourceNotFound),
        }
    }

    /// Removes a pipeline's bookkeeping and frees its handle for reuse.
    pub fn destroy_pipeline(&mut self, pipeline_id: PipelineID) -> (r: Result<(), RenderError>)
        requires
            old(self).wf(),
        ensures
            final(self).wf(),
            (r is Ok) <==> old(self).pipeline_store().live().contains_key(pipeline_id.0),
            r is Ok ==> final(self).pipeline_store().live() == old(self).pipeline_store().live().remove(pipeline_id.0) && Self::frame_except_pipelines(
                *old(self),
                *final(self),
            ),
            r is Err ==> r == Err::<(), RenderError>(RenderError::ResourceNotFound)
                && Self::unchanged(*old(self), *final(self)),
    {
        match self.pipelines.remove_obj(pipeline_id.0) {
            Ok(_) => Ok(()),
            Err(_) => Err(RenderError::ResourceNotFound),
        }
    }

    /// Removes a framebuffer's bookkeeping and frees its handle for reuse.
    pub fn destroy_frame_buffer(&mut self, framebuffer_id: FramebufferID) -> (r: Result<
        (),
        RenderError,
    >)
        requires
            old(self).wf(),
        ensures
            final(self).wf(),
            (r is Ok) <==> old(self).framebuffer_store().live().contains_key(framebuffer_id.0),
            r is Ok ==> final(self).framebuffer_store().live() == old(self).framebuffer_store().live().remove(framebuffer_id.0)
                && Self::frame_except_framebuffers(*old(self), *final(self)),
            r is Err ==> r == Err::<(), RenderError>(RenderError::ResourceNotFound)
                && Self::unchanged(*old(self), *final(self)),
    {
        match self.frame_buffers.remove_obj(framebuffer_id.0) {
            Ok(_) => Ok(()),
            Err(_) => Err(RenderError::ResourceNotFound),
        }
    }

    /// Removes an input set's bookkeeping, frees its handle for reuse and
    /// returns its two descriptor sets to the pool budget.
    pub fn destroy_input_set(&mut self, input_set: InputSetID) -> (r: Result<(), RenderError>)
        requires
            old(self).wf(),
        ensures
            final(self).wf(),
            (r is Ok) <==> old(self).input_set_store().live().contains_key(input_set.0),
            r is Ok ==> final(self).input_set_store().live() == old(self).input_set_store().live().remove(input_set.0) && Self::frame_except_input_sets(
                *old(self),
                *final(self),
            ) && final(self).pool_in_use() == (if old(self).pool_in_use() >= 2 {
                (old(self).pool_in_use() - 2) as u32
            } else {
                0u32
            }),
            r is Err ==> r == Err::<(), RenderError>(RenderError::ResourceNotFound)
                && Self::unchanged(*old(self), *final(self)),
    {
        match self.descriptor_sets.remove_obj(input_set.0) {
            Ok(_) => {
                if self.pool_used >= 2 {
                    self.pool_used = self.pool_used - 2;
                } else {
                    self.pool_used = 0;
                }
                Ok(())
            },
            Err(_) => Err(RenderError::ResourceNotFound),
        }
    }

    /// Removes a fence's bookkeeping and frees its handle for reuse.
    pub fn destroy_fence(&mut self, fence_id: FenceID) -> (r: Result<(), RenderError>)
        requires
            old(self).wf(),
        ensures
            final(self).wf(),
            (r is Ok) <==> old(self).fence_store().live().contains_key(fence_id.0),
            r is Ok ==> final(self).fence_store().live() == old(self).fence_store().live().remove(
                fence_id.0,
            ) && Self::frame_except_fences(*old(self), *final(self)),
            r is Err ==> r == Err::<(), RenderError>(RenderError::ResourceNotFound)
                && Self::unchanged(*old(self), *final(self)),
    {
        match self.fences.remove_obj(fence_id.0) {
            Ok(_) => Ok(()),
            Err(_) => Err(RenderError::ResourceNotFound),
        }
    }

    /// Removes a command buffer's bookkeeping, its compiled program with it,
    /// and frees its handle for reuse.
    pub fn destroy_command_buffer(&mut self, command_buffer: CommandBufferID) -> (r: Result<
        (),
        RenderError,
    >)
        requires
            old(self).wf(),
        ensures
            final(self).wf(),
            (r is Ok) <==> old(self).command_buffer_store().live().contains_key(command_buffer.0),
            r is Ok ==> final(self).command_buffer_store().live() == old(self).command_buffer_store().live().remove(command_buffer.0)
                && Self::frame_except_command_buffers(*old(self), *final(self)),
            r is Err ==> r == Err::<(), RenderError>(RenderError::ResourceNotFound)
                && Self::unchanged(*old(self), *final(self)),
    {
        match self.command_buffers.remove_obj(command_buffer.0) {
            Ok(_) => Ok(()),
            Err(_) => Err(RenderError::ResourceNotFound),
        }
    }
}

impl LocalRenderBackend for BackendCore {
    open spec fn backend_wf(&self) -> bool {
        self.wf()
    }

    fn get_swapchain_info(&self) -> SwapchainInfo {
        BackendCore::get_swapchain_info(self)
    }

    fn get_swapchain_images(&self) -> Vec<ImageID> {
        BackendCore::get_swapchain_images(self)
    }

    fn create_buffer(
        &mut self,
        size: u64,
        usage: BufferUsage,
        memory_location: MemoryLocation,
    ) -> Result<BufferID, RenderError> {
        BackendCore::create_buffer(self, size, usage, memory_location)
    }

    fn create_texture_2d(
        &mut self,
        res: Resolution2D,
        format: ImageFormat,
        usage: ImageUsage,
        memory_location: MemoryLocation,
    ) -> Result<ImageID, RenderError> {
        BackendCore::create_texture_2d(self, res, format, usage, memory_location)
    }

    fn create_graphics_pipeline(
        &mut self,
        raster_style: RasterStyle,
        color_attachment_formats: Vec<ImageFormat>,
        depth_attachment_formats: Option<ImageFormat>,
        max_buffer_count: u32,
        max_texture_count: u32,
        vertex_shader: String,
        fragment_shader: String,
    ) -> Result<PipelineID, RenderError> {
        BackendCore::create_graphics_pipeline(
            self,
            raster_style,
            color_attachment_formats,
            depth_attachment_formats,
            max_buffer_count,
            max_texture_count,
            vertex_shader,
            fragment_shader,
        )
    }

    fn create_frame_buffer(
        &mut self,
        pipeline_id: PipelineID,
        color_attachments: Vec<ImageID>,
        depth_attachment: Option<ImageID>,
    ) -> Result<FramebufferID, RenderError> {
        BackendCore::create_frame_buffer(self, pipeline_id, color_attachments, depth_attachment)
    }

    fn create_input_set(&mut self, pipeline_id: PipelineID) -> Result<InputSetID, RenderError> {
        BackendCore::create_input_set(self, pipeline_id)
    }

    fn update_input_set(
        &mut self,
        input_set: InputSetID,
        buffers: Vec<BufferID>,
        textures: Vec<ImageID>,
    ) -> Result<(), RenderError> {
        BackendCore::update_input_set(self, input_set, buffers, textures)
    }

    fn create_fence(&mut self, signaled: bool) -> Result<FenceID, RenderError> {
        BackendCore::create_fence(self, signaled)
    }

    fn wait_for_fence(&self, fence_id: FenceID) -> Result<(), RenderError> {
        BackendCore::wait_for_fence(self, fence_id)
    }

    fn create_command_buffer(&mut self) -> Result<CommandBufferID, RenderError> {
        BackendCore::create_command_buffer(self)
    }

    fn compile_commands(
        &mut self,
        command_buffer: CommandBufferID,
        commands: Vec<GPUCommands>,
    ) -> Result<(), RenderError> {
        BackendCore::compile_commands(self, command_buffer, commands)
    }

    fn run_commands(
        &mut self,
        command_buffer: CommandBufferID,
        fence_id: FenceID,
    ) -> Result<(), RenderError> {
        BackendCore::run_commands(self, command_buffer, fence_id)
    }

    fn acquire_present_image(&mut self, fence_id: FenceID) -> Result<u32, RenderError> {
        BackendCore::acquire_present_image(self, fence_id)
    }

    fn present_swapchain_image(&self, id: u32) -> Result<bool, RenderError> {
        BackendCore::present_swapchain_image(self, id)
    }
}

} // verus!
