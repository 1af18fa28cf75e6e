//! The backend-agnostic resource vocabulary: typed handles, creation
//! parameters, the abstract GPU commands, and the error taxonomy shared by
//! every operation.

use vstd::prelude::*;

verus! {

/// What is known of one physical GPU when a device is picked.
#[derive(Debug, Clone)]
pub struct GPUInfo {
    pub id: u32,
    pub name: String,
    pub integrated: bool,
}

#[derive(Debug, Clone, Copy, PartialEq, Eq, Structural)]
pub struct Resolution2D {
    pub width: u32,
    pub height: u32,
}

#[derive(Debug, Clone, Copy, PartialEq, Eq, Structural)]
pub struct SwapchainInfo {
    pub res: Resolution2D,
    pub image_count: u32,
}

#[derive(Debug, Clone, Copy, PartialEq, Eq, Structural)]
pub enum MemoryLocation {
    Any,
    GPU,
    Shared,
}

/// The ways an image may be used, one flag per capability.
#[derive(Debug, Clone, Copy, PartialEq, Eq, Structural, Default)]
pub struct ImageUsage {
    pub copy_src: bool,
    pub copy_dst: bool,
    pub blit_src: bool,
    pub blit_dst: bool,
    pub shader_sampled: bool,
    pub shader_storage: bool,
}

/// The ways a buffer may be used, one flag per capability.
#[derive(Debug, Clone, Copy, PartialEq, Eq, Structural, Default)]
pub struct BufferUsage {
    pub copy_src: bool,
    pub copy_dst: bool,
    pub uniform: bool,
    pub storage: bool,
}

#[derive(Debug, Clone, Copy, PartialEq, Eq, Structural, Default)]
pub struct ShaderStageFlags {
    pub vertex: bool,
    pub fragment: bool,
}

/// The closed set of logical image formats; each maps to one fixed native
/// pixel format in a concrete backend.
#[derive(Debug, Clone, Copy, PartialEq, Eq, Structural)]
pub enum ImageFormat {
    Texture,
    Float,
    Depth,
    RenderIntermediate,
    Presentation,
}

#[derive(Debug, Clone, Copy, PartialEq, Eq, Structural)]
pub enum MemAccessType {
    TransferRead,
    TransferWrite,
    HostRead,
    HostWrite,
    ShaderRead,
    ShaderWrite,
    ColorAttachmentRead,
    ColorAttachmentWrite,
    DepthAttachmentRead,
    DepthAttachmentWrite,
    MemoryRead,
    MemoryWrite,
}

/// The GPU-visible access mode an image is in for a given operation.
#[derive(Debug, Clone, Copy, PartialEq, Eq, Structural)]
pub enum ImageLayoutType {
    Undefined,
    General,
    ColorAttachment,
    DepthAttachment,
    DepthRO,
    ShaderRO,
    TransferSrc,
    TransferDst,
}

#[derive(Debug, Clone, Copy, PartialEq, Eq, Structural)]
pub enum ImageSampleCount {
    E1,
    E2,
    E4,
    E8,
    E16,
}

/// The pipeline stage a barrier waits on or blocks, named abstractly.
#[derive(Debug, Clone, Copy, PartialEq, Eq, Structural)]
pub enum PipelineStage {
    BottomOfPipe,
    Transfer,
    ColorAttachmentOutput,
    EarlyFragmentTests,
    FragmentShader,
}

/// Which planes of an image a barrier touches.
#[derive(Debug, Clone, Copy, PartialEq, Eq, Structural)]
pub enum ImageAspect {
    Color,
    Depth,
}

#[derive(Debug, Clone, Copy, PartialEq, Eq, Structural, Hash)]
pub struct ImageID(pub u32);

#[derive(Debug, Clone, Copy, PartialEq, Eq, Structural)]
pub struct ImageViewID(pub u32);

#[derive(Debug, Clone, Copy, PartialEq, Eq, Structural)]
pub struct SamplerID(pub u32);

#[derive(Debug, Clone, Copy, PartialEq, Eq, Structural)]
pub struct BufferID(pub u32);

#[derive(Debug, Clone, Copy, PartialEq, Eq, Structural)]
pub enum DescriptorType {
    Uniform,
    Storage,
    Sampler2D,
}

#[derive(Debug, Clone, Copy, PartialEq, Eq, Structural)]
pub struct DescriptorSetID(pub u32);

#[derive(Debug, Clone, Copy, PartialEq, Eq, Structural)]
pub struct PipelineID(pub u32);

#[derive(Debug, Clone, Copy, PartialEq, Eq, Structural)]
pub struct FramebufferID(pub u32);

#[derive(Debug, Clone, Copy, PartialEq, Eq, Structural)]
pub enum RasterStyle {
    Fill,
    WireFrame { thickness: u32 },
}

#[derive(Debug, Clone, Copy, PartialEq, Eq, Structural)]
pub struct InputSetID(pub u32);

#[derive(Debug, Clone, Copy, PartialEq, Eq, Structural)]
pub struct FenceID(pub u32);

#[derive(Debug, Clone, Copy, PartialEq, Eq, Structural)]
pub struct CommandBufferID(pub u32);

/// One contiguous range of vertices drawn by a graphics-pipeline run.
#[derive(Debug, Clone, Copy, PartialEq, Eq, Structural)]
pub struct DrawInfo {
    pub offset: u32,
    pub count: u32,
}

/// The abstract commands one command buffer replays in order.
#[derive(Debug, Clone, PartialEq)]
pub enum GPUCommands {
    CopyBufferToBuffer { src: BufferID, dst: BufferID },
    CopyBufferToImage { src: BufferID, dst: ImageID },
    BlitImage { src: ImageID, dst: ImageID },
    RunGraphicsPipeline {
        pipeline: PipelineID,
        framebuffer: FramebufferID,
        input_set: InputSetID,
        draw_infos: Vec<DrawInfo>,
    },
}

/// What the library keeps of an image: the creation-time metadata later
/// barrier and framebuffer decisions read. The native image, view and backing
/// memory live with the concrete backend under the same handle.
#[derive(Debug, Clone, Copy, PartialEq, Eq, Structural)]
pub struct ImageInfo {
    pub resolution: Resolution2D,
    pub format: ImageFormat,
}

/// What the library keeps of a buffer: its byte size.
#[derive(Debug, Clone, Copy, PartialEq, Eq, Structural)]
pub struct BufferInfo {
    pub size: u64,
}

/// What the library keeps of a graphics pipeline: everything it was built
/// from except the native objects.
#[derive(Debug, Clone, PartialEq)]
pub struct PipelineInfo {
    pub raster_style: RasterStyle,
    pub color_attachment_formats: Vec<ImageFormat>,
    pub depth_attachment_format: Option<ImageFormat>,
    pub max_buffer_count: u32,
    pub max_texture_count: u32,
    pub vertex_shader: String,
    pub fragment_shader: String,
}

/// Which images a framebuffer renders into, retained so the command compiler
/// can know, from the framebuffer handle alone, which images need attachment
/// layouts.
#[derive(Debug, Clone, PartialEq)]
pub struct FramebufferInfo {
    pub color_attachments: Vec<ImageID>,
    pub depth_attachment: Option<ImageID>,
}

/// Which buffers and textures are currently bound into an input set, retained
/// so the command compiler can know which images need a shader-read layout.
#[derive(Debug, Clone, PartialEq)]
pub struct InputSetInfo {
    pub bound_buffers: Vec<BufferID>,
    pub bound_textures: Vec<ImageID>,
}

/// A fence's one bit of state: signaled or not.
#[derive(Debug, Clone, Copy, PartialEq, Eq, Structural)]
pub struct FenceInfo {
    pub signaled: bool,
}

/// Why an operation failed: a handle that does not resolve, a store or pool
/// with no capacity left, a rejected native call, an expired bounded wait, or
/// unreadable shader bytecode. Every failure is returned, never thrown.
#[derive(Debug, Clone, PartialEq, Eq)]
pub enum RenderError {
    ResourceNotFound,
    Exhausted,
    NativeCallFailed(String),
    Timeout,
    IOFailure(String),
}

} // verus!
