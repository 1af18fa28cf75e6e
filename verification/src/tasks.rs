//! The task dispatcher: a recursive task/output algebra over the backend
//! capability interface. A task is a leaf operation or an ordered or
//! unordered group of tasks; dispatching returns a tree of results with
//! exactly the nesting of the input tree, one leaf result per leaf task.
//! In this single-threaded dispatcher an unordered group still runs in list
//! order; the shape guarantee is what callers may rely on.

use vstd::prelude::*;

use crate::backend::LocalRenderBackend;
use crate::types::BufferID;
use crate::types::BufferUsage;
use crate::types::CommandBufferID;
use crate::types::FenceID;
use crate::types::FramebufferID;
use crate::types::GPUCommands;
use crate::types::ImageFormat;
use crate::types::ImageID;
use crate::types::ImageUsage;
use crate::types::InputSetID;
use crate::types::MemoryLocation;
use crate::types::PipelineID;
use crate::types::RasterStyle;
use crate::types::RenderError;
use crate::types::Resolution2D;

verus! {

/// One leaf operation: a single backend capability call, with its arguments.
#[derive(Debug, PartialEq)]
pub enum TaskOp {
    CreateBuffer { size: u64, usage: BufferUsage, memory_location: MemoryLocation },
    CreateTexture2D {
        res: Resolution2D,
        format: ImageFormat,
        usage: ImageUsage,
        memory_location: MemoryLocation,
    },
    CreateGraphicsPipeline {
        raster_style: RasterStyle,
        color_attachment_formats: Vec<ImageFormat>,
        depth_attachment_formats: Option<ImageFormat>,
        max_buffer_count: u32,
        max_texture_count: u32,
        vertex_shader: String,
        fragment_shader: String,
    },
    CreateFrameBuffer {
        pipeline: PipelineID,
        color_attachments: Vec<ImageID>,
        depth_attachment: Option<ImageID>,
    },
    CreateInputSet { pipeline: PipelineID },
    UpdateInputSet { input_set: InputSetID, buffers: Vec<BufferID>, textures: Vec<ImageID> },
    CreateFence { signaled: bool },
    CreateCommandBuffer,
    CompileCommands { command_buffer: CommandBufferID, commands: Vec<GPUCommands> },
    RunCommands { command_buffer: CommandBufferID, fence: FenceID },
}

/// One leaf result: what the corresponding capability call returned.
#[derive(Debug, PartialEq)]
pub enum TaskOpOutput {
    BufferCreated(Result<BufferID, RenderError>),
    TextureCreated(Result<ImageID, RenderError>),
    PipelineCreated(Result<PipelineID, RenderError>),
    FramebufferCreated(Result<FramebufferID, RenderError>),
    InputSetCreated(Result<InputSetID, RenderError>),
    InputSetUpdated(Result<(), RenderError>),
    FenceCreated(Result<FenceID, RenderError>),
    CommandBufferCreated(Result<CommandBufferID, RenderError>),
    CommandsCompiled(Result<(), RenderError>),
    CommandsRan(Result<(), RenderError>),
}

/// A task: one operation, or a group run strictly in order, or a group whose
/// siblings carry no ordering guarantee.
#[derive(Debug, PartialEq)]
pub enum Task {
    Op(TaskOp),
    Ordered(Vec<Task>),
    Unordered(Vec<Task>),
}

/// A result tree, nested exactly as the task tree that produced it.
#[derive(Debug, PartialEq)]
pub enum TaskOutput {
    Op(TaskOpOutput),
    Ordered(Vec<TaskOutput>),
    Unordered(Vec<TaskOutput>),
}

/// What a leaf must satisfy before its call: only the framebuffer call asks
/// anything, a nonempty color-attachment list.
pub open spec fn op_wf(op: TaskOp) -> bool {
    match op {
        TaskOp::CreateFrameBuffer { color_attachments, .. } => color_attachments@.len() > 0,
        _ => true,
    }
}

/// The leaf result variant answers the leaf operation's kind.
pub open spec fn op_output_matches(op: TaskOp, out: TaskOpOutput) -> bool {
    match op {
        TaskOp::CreateBuffer { .. } => out is BufferCreated,
        TaskOp::CreateTexture2D { .. } => out is TextureCreated,
        TaskOp::CreateGraphicsPipeline { .. } => out is PipelineCreated,
        TaskOp::CreateFrameBuffer { .. } => out is FramebufferCreated,
        TaskOp::CreateInputSet { .. } => out is InputSetCreated,
        TaskOp::UpdateInputSet { .. } => out is InputSetUpdated,
        TaskOp::CreateFence { .. } => out is FenceCreated,
        TaskOp::CreateCommandBuffer => out is CommandBufferCreated,
        TaskOp::CompileCommands { .. } => out is CommandsCompiled,
        TaskOp::RunCommands { .. } => out is CommandsRan,
    }
}

/// Every leaf of the tree satisfies its operation's precondition.
pub open spec fn task_wf(task: Task) -> bool
    decreases task,
{
    match task {
        Task::Op(op) => op_wf(op),
        Task::Ordered(ts) => forall|i: int| 0 <= i < ts@.len() ==> task_wf(#[trigger] ts@[i]),
        Task::Unordered(ts) => forall|i: int| 0 <= i < ts@.len() ==> task_wf(#[trigger] ts@[i]),
    }
}

/// The output tree nests exactly as the task tree: the same combinator at
/// every node, the same child count, one leaf result per leaf task.
pub open spec fn output_matches_shape(task: Task, out: TaskOutput) -> bool
    decreases task,
{
    match task {
        Task::Op(op) => match out {
            TaskOutput::Op(o) => op_output_matches(op, o),
            _ => false,
        },
        Task::Ordered(ts) => match out {
            TaskOutput::Ordered(os) => ts@.len() == os@.len() && forall|i: int|
                0 <= i < ts@.len() ==> output_matches_shape(#[trigger] ts@[i], os@[i]),
            _ => false,
        },
        Task::Unordered(ts) => match out {
            TaskOutput::Unordered(os) => ts@.len() == os@.len() && forall|i: int|
                0 <= i < ts@.len() ==> output_matches_shape(#[trigger] ts@[i], os@[i]),
            _ => false,
        },
    }
}

/// Performs one leaf operation on the backend and wraps its result.
fn run_op<B: LocalRenderBackend>(backend: &mut B, op: TaskOp) -> (r: TaskOpOutput)
    requires
        old(backend).backend_wf(),
        op_wf(op),
    ensures
        final(backend).backend_wf(),
        op_output_matches(op, r),
{
    match op {
        TaskOp::CreateBuffer { size, usage, memory_location } => TaskOpOutput::BufferCreated(
            backend.create_buffer(size, usage, memory_location),
        ),
        TaskOp::CreateTexture2D { res, format, usage, memory_location } => {
            TaskOpOutput::TextureCreated(backend.create_texture_2d(res, format, usage, memory_location))
        },
        TaskOp::CreateGraphicsPipeline {
            raster_style,
            color_attachment_formats,
            depth_attachment_formats,
            max_buffer_count,
            max_texture_count,
            vertex_shader,
            fragment_shader,
        } => TaskOpOutput::PipelineCreated(
            backend.create_graphics_pipeline(
                raster_style,
                color_attachment_formats,
                depth_attachment_formats,
                max_buffer_count,
                max_texture_count,
                vertex_shader,
                fragment_shader,
            ),
        ),
        TaskOp::CreateFrameBuffer { pipeline, color_attachments, depth_attachment } => {
            TaskOpOutput::FramebufferCreated(
                backend.create_frame_buffer(pipeline, color_attachments, depth_attachment),
            )
        },
        TaskOp::CreateInputSet { pipeline } => TaskOpOutput::InputSetCreated(
            backend.create_input_set(pipeline),
        ),
        TaskOp::UpdateInputSet { input_set, buffers, textures } => TaskOpOutput::InputSetUpdated(
            backend.update_input_set(input_set, buffers, textures),
        ),
        TaskOp::CreateFence { signaled } => TaskOpOutput::FenceCreated(
            backend.create_fence(signaled),
        ),
        TaskOp::CreateCommandBuffer => TaskOpOutput::CommandBufferCreated(
            backend.create_command_buffer(),
        ),
        TaskOp::CompileCommands { command_buffer, commands } => TaskOpOutput::CommandsCompiled(
            backend.compile_commands(command_buffer, commands),
        ),
        TaskOp::RunCommands { command_buffer, fence } => TaskOpOutput::CommandsRan(
            backend.run_commands(command_buffer, fence),
        ),
    }
}

/// Runs a task tree on the backend: leaves become capability calls, an
/// ordered group runs strictly in sequence, an unordered group runs in list
/// order here since this dispatcher is single-threaded. The result tree has
/// exactly the shape of the task tree.
pub fn dispatch_task<B: LocalRenderBackend>(backend: &mut B, task: Task) -> (out: TaskOutput)
    requires
        old(backend).backend_wf(),
        task_wf(task),
    ensures
        final(backend).backend_wf(),
        output_matches_shape(task, out),
    decreases task,
{
    let ghost task0 = task;
    match task {
        Task::Op(op) => TaskOutput::Op(run_op(backend, op)),
        Task::Ordered(ts) => {
            let ghost orig = ts@;
            let mut rest = ts;
            let n0 = rest.len();
            proof {
                assert(orig.len() == n0);
            }
            let mut outs: Vec<TaskOutput> = Vec::new();
            let mut done: usize = 0;
            #[verifier::loop_isolation(false)]
            while rest.len() > 0
                invariant
                    backend.backend_wf(),
                    task_wf(task0),
                    task0 is Ordered,
                    task0->Ordered_0@ == orig,
                    done + rest@.len() == orig.len(),
                    orig.len() <= usize::MAX,
                    rest@ == orig.skip(done as int),
                    outs@.len() == done,
                    forall|i: int|
                        0 <= i < done ==> output_matches_shape(
                            #[trigger] orig[i],
                            outs@[i],
                        ),
                decreases rest@.len(),
            {
                let t = rest.remove(0);
                proof {
                    assert(orig[done as int] == t);
                    assert(task_wf(t)) by {
                        assert(task0->Ordered_0@[done as int] == t);
                    }
                    assert(rest@ =~= orig.skip(done as int + 1));
                    assert(decreases_to!(task0 => task0->Ordered_0));
                    assert(decreases_to!(task0->Ordered_0 => task0->Ordered_0@));
                    assert(decreases_to!(task0->Ordered_0@ => task0->Ordered_0@[done as int]));
                    assert(decreases_to!(task0 => t));
                }
                let o = dispatch_task(backend, t);
                outs.push(o);
                done += 1;
            }
            proof {
                assert(orig.skip(done as int).len() == 0);
                assert(done == orig.len());
            }
            TaskOutput::Ordered(outs)
        },
        Task::Unordered(ts) => {
            let ghost orig = ts@;
            let mut rest = ts;
            let n0 = rest.len();
            proof {
                assert(orig.len() == n0);
            }
            let mut outs: Vec<TaskOutput> = Vec::new();
            let mut done: usize = 0;
            #[verifier::loop_isolation(false)]
            while rest.len() > 0
                invariant
                    backend.backend_wf(),
                    task_wf(task0),
                    task0 is Unordered,
                    task0->Unordered_0@ == orig,
                    done + rest@.len() == orig.len(),
                    orig.len() <= usize::MAX,
                    rest@ == orig.skip(done as int),
                    outs@.len() == done,
                    forall|i: int|
                        0 <= i < done ==> output_matches_shape(
                            #[trigger] orig[i],
                            outs@[i],
                        ),
                decreases rest@.len(),
            {
                let t = rest.remove(0);
                proof {
                    assert(orig[done as int] == t);
                    assert(task_wf(t)) by {
                        assert(task0->Unordered_0@[done as int] == t);
                    }
                    assert(rest@ =~= orig.skip(done as int + 1));
                    assert(decreases_to!(task0 => task0->Unordered_0));
                    assert(decreases_to!(task0->Unordered_0 => task0->Unordered_0@));
                    assert(decreases_to!(task0->Unordered_0@ => task0->Unordered_0@[done as int]));
                    assert(decreases_to!(task0 => t));
                }
                let o = dispatch_task(backend, t);
                outs.push(o);
                done += 1;
            }
            proof {
                assert(orig.skip(done as int).len() == 0);
                assert(done == orig.len());
            }
            TaskOutput::Unordered(outs)
        },
    }
}

} // verus!
