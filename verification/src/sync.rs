//! The command compiler / synchronization engine.
//!
//! Given an ordered sequence of abstract GPU commands, it derives, per image
//! and per command index, the layout and pipeline stage the command demands,
//! and emits a barrier immediately before each command for every image whose
//! demanded state holds at that index, transitioning from the state demanded
//! at the previous index that mentioned the image (or from undefined layout
//! at the bottom-of-pipe stage on the first mention). Access masks follow
//! deterministically from the layouts. The output is a replayable list of
//! recording steps; a concrete backend turns each step into one native call.

use vstd::prelude::*;

use crate::id_store::SequentialIDStore;
use crate::types::BufferInfo;
use crate::types::FramebufferInfo;
use crate::types::GPUCommands;
use crate::types::ImageAspect;
use crate::types::ImageFormat;
use crate::types::ImageID;
use crate::types::ImageInfo;
use crate::types::ImageLayoutType;
use crate::types::InputSetInfo;
use crate::types::MemAccessType;
use crate::types::PipelineInfo;
use crate::types::PipelineStage;
use crate::types::RenderError;

verus! {

/// A layout / pipeline-stage pair: the state one command demands of one image.
#[derive(Debug, Clone, Copy, PartialEq, Eq, Structural)]
pub struct ImageState {
    pub layout: ImageLayoutType,
    pub stage: PipelineStage,
}

/// One image-layout transition, fully determined: where it sits in the output
/// is immediately before the command that demands the new state.
#[derive(Debug, Clone, Copy, PartialEq, Eq, Structural)]
pub struct BarrierInfo {
    pub image: ImageID,
    pub old_layout: ImageLayoutType,
    pub new_layout: ImageLayoutType,
    pub src_stage: PipelineStage,
    pub dst_stage: PipelineStage,
    pub src_access: Option<MemAccessType>,
    pub dst_access: Option<MemAccessType>,
    pub aspect: ImageAspect,
}

/// One step of a compiled command buffer: a barrier, or the recording of one
/// abstract command.
#[derive(Debug, Clone, PartialEq)]
pub enum RecordStep {
    Barrier(BarrierInfo),
    Execute(GPUCommands),
}

/// The resource tables the compiler reads, as one spec value.
pub struct ResourceViews {
    pub images: Map<u32, ImageInfo>,
    pub buffers: Map<u32, BufferInfo>,
    pub pipelines: Map<u32, PipelineInfo>,
    pub framebuffers: Map<u32, FramebufferInfo>,
    pub input_sets: Map<u32, InputSetInfo>,
}

/// The access mask implied by a layout: what the barrier must make visible.
pub open spec fn access_for_layout(layout: ImageLayoutType) -> Option<MemAccessType> {
    match layout {
        ImageLayoutType::ColorAttachment => Some(MemAccessType::ColorAttachmentWrite),
        ImageLayoutType::DepthAttachment => Some(MemAccessType::DepthAttachmentWrite),
        ImageLayoutType::ShaderRO => Some(MemAccessType::ShaderRead),
        ImageLayoutType::TransferSrc => Some(MemAccessType::TransferRead),
        ImageLayoutType::TransferDst => Some(MemAccessType::TransferWrite),
        _ => None,
    }
}

/// Which image planes a format carries: the depth format has a depth plane,
/// every other format a color plane.
pub open spec fn aspect_for_format(format: ImageFormat) -> ImageAspect {
    match format {
        ImageFormat::Depth => ImageAspect::Depth,
        _ => ImageAspect::Color,
    }
}

/// The state `cmd` demands of image `img`, if it mentions it. Where one
/// command touches the same image in several roles, the shader-read demand
/// outranks the depth-attachment demand, which outranks the color-attachment
/// demand, and a blit destination outranks a blit source.
pub open spec fn cmd_image_req(cmd: GPUCommands, rv: ResourceViews, img: ImageID) -> Option<
    ImageState,
> {
    match cmd {
        GPUCommands::CopyBufferToBuffer { .. } => None,
        GPUCommands::CopyBufferToImage { src: _, dst } => if img == dst {
            Some(
                ImageState {
                    layout: ImageLayoutType::TransferDst,
                    stage: PipelineStage::Transfer,
                },
            )
        } else {
            None
        },
        GPUCommands::BlitImage { src, dst } => if img == dst {
            Some(
                ImageState {
                    layout: ImageLayoutType::TransferDst,
                    stage: PipelineStage::Transfer,
                },
            )
        } else if img == src {
            Some(
                ImageState {
                    layout: ImageLayoutType::TransferSrc,
                    stage: PipelineStage::Transfer,
                },
            )
        } else {
            None
        },
        GPUCommands::RunGraphicsPipeline { framebuffer, input_set, .. } => run_image_req(
            rv.framebuffers[framebuffer.0],
            rv.input_sets[input_set.0],
            img,
        ),
    }
}

/// The state a pipeline run demands of `img`: shader-read if it is bound as
/// a texture, else depth-attachment if it is the depth attachment, else
/// color-attachment if it is a color attachment.
pub open spec fn run_image_req(fb: FramebufferInfo, is: InputSetInfo, img: ImageID) -> Option<
    ImageState,
> {
    if is.bound_textures@.contains(img) {
        Some(ImageState { layout: ImageLayoutType::ShaderRO, stage: PipelineStage::FragmentShader })
    } else if fb.depth_attachment == Some(img) {
        Some(
            ImageState {
                layout: ImageLayoutType::DepthAttachment,
                stage: PipelineStage::EarlyFragmentTests,
            },
        )
    } else if fb.color_attachments@.contains(img) {
        Some(
            ImageState {
                layout: ImageLayoutType::ColorAttachment,
                stage: PipelineStage::ColorAttachmentOutput,
            },
        )
    } else {
        None
    }
}

/// The images `cmd` mentions, in the order the compiler discovers them:
/// copy destination; blit source then destination; a pipeline run's color
/// attachments, then its depth attachment, then its bound textures.
pub open spec fn cmd_images(cmd: GPUCommands, rv: ResourceViews) -> Seq<ImageID> {
    match cmd {
        GPUCommands::CopyBufferToBuffer { .. } => Seq::empty(),
        GPUCommands::CopyBufferToImage { src: _, dst } => seq![dst],
        GPUCommands::BlitImage { src, dst } => seq![src, dst],
        GPUCommands::RunGraphicsPipeline { framebuffer, input_set, .. } => {
            let fb = rv.framebuffers[framebuffer.0];
            let is = rv.input_sets[input_set.0];
            fb.color_attachments@ + (match fb.depth_attachment {
                Some(d) => seq![d],
                None => Seq::empty(),
            }) + is.bound_textures@
        },
    }
}

/// Whether every handle `cmd` names resolves in its table, including every
/// image a pipeline run reaches through its framebuffer and input set. The
/// buffers bound into an input set play no part in layout derivation and are
/// not consulted.
pub open spec fn cmd_resolves(cmd: GPUCommands, rv: ResourceViews) -> bool {
    match cmd {
        GPUCommands::CopyBufferToBuffer { src, dst } => rv.buffers.contains_key(src.0)
            && rv.buffers.contains_key(dst.0),
        GPUCommands::CopyBufferToImage { src, dst } => rv.buffers.contains_key(src.0)
            && rv.images.contains_key(dst.0),
        GPUCommands::BlitImage { src, dst } => rv.images.contains_key(src.0)
            && rv.images.contains_key(dst.0),
        GPUCommands::RunGraphicsPipeline { pipeline, framebuffer, input_set, .. } => {
            &&& rv.pipelines.contains_key(pipeline.0)
            &&& rv.framebuffers.contains_key(framebuffer.0)
            &&& rv.input_sets.contains_key(input_set.0)
            &&& forall|j: int|
                0 <= j < cmd_images(cmd, rv).len() ==> rv.images.contains_key(
                    (#[trigger] cmd_images(cmd, rv)[j]).0,
                )
        },
    }
}

pub open spec fn all_resolve(cmds: Seq<GPUCommands>, rv: ResourceViews) -> bool {
    forall|i: int| 0 <= i < cmds.len() ==> cmd_resolves(#[trigger] cmds[i], rv)
}

/// The (index, demanded state) entry command `i` contributes for `img`:
/// one entry if it mentions the image, none otherwise.
pub open spec fn opt_entry(cmds: Seq<GPUCommands>, rv: ResourceViews, img: ImageID, i: int) -> Seq<
    (int, ImageState),
> {
    match cmd_image_req(cmds[i], rv, img) {
        Some(st) => seq![(i, st)],
        None => Seq::empty(),
    }
}

/// All (index, demanded state) entries for `img` among the first `n`
/// commands, in index order.
pub open spec fn mentions_up_to(
    cmds: Seq<GPUCommands>,
    rv: ResourceViews,
    img: ImageID,
    n: int,
) -> Seq<(int, ImageState)>
    decreases n,
{
    if n <= 0 {
        Seq::empty()
    } else {
        mentions_up_to(cmds, rv, img, n - 1) + opt_entry(cmds, rv, img, n - 1)
    }
}

/// The state `img` is in when command `i` runs, before any barrier for `i`:
/// what the latest earlier mention demanded, or undefined layout at the
/// bottom-of-pipe stage if no earlier command mentioned it.
pub open spec fn state_before(
    cmds: Seq<GPUCommands>,
    rv: ResourceViews,
    img: ImageID,
    i: int,
) -> ImageState {
    let ms = mentions_up_to(cmds, rv, img, i);
    if ms.len() == 0 {
        ImageState { layout: ImageLayoutType::Undefined, stage: PipelineStage::BottomOfPipe }
    } else {
        ms.last().1
    }
}

/// The barrier emitted for `img` immediately before command `i`, given that
/// command `i` mentions it.
pub open spec fn barrier_at(
    cmds: Seq<GPUCommands>,
    rv: ResourceViews,
    img: ImageID,
    i: int,
) -> BarrierInfo {
    let prev = state_before(cmds, rv, img, i);
    let cur = cmd_image_req(cmds[i], rv, img)->Some_0;
    BarrierInfo {
        image: img,
        old_layout: prev.layout,
        new_layout: cur.layout,
        src_stage: prev.stage,
        dst_stage: cur.stage,
        src_access: access_for_layout(prev.layout),
        dst_access: access_for_layout(cur.layout),
        aspect: aspect_for_format(rv.images[img.0].format),
    }
}

/// `order` extended with the images of `imgs` it does not yet hold, first
/// occurrences first.
pub open spec fn append_new(order: Seq<ImageID>, imgs: Seq<ImageID>) -> Seq<ImageID>
    decreases imgs.len(),
{
    if imgs.len() == 0 {
        order
    } else {
        append_new(
            if order.contains(imgs[0]) {
                order
            } else {
                order.push(imgs[0])
            },
            imgs.drop_first(),
        )
    }
}

/// Every image the first `n` commands mention, each once, in discovery order.
pub open spec fn order_up_to(cmds: Seq<GPUCommands>, rv: ResourceViews, n: int) -> Seq<ImageID>
    decreases n,
{
    if n <= 0 {
        Seq::empty()
    } else {
        append_new(order_up_to(cmds, rv, n - 1), cmd_images(cmds[n - 1], rv))
    }
}

/// The barriers emitted immediately before command `i`: one per image of
/// `order` that command `i` mentions, in `order`'s order.
pub open spec fn barriers_for_index(
    order: Seq<ImageID>,
    cmds: Seq<GPUCommands>,
    rv: ResourceViews,
    i: int,
) -> Seq<RecordStep>
    decreases order.len(),
{
    if order.len() == 0 {
        Seq::empty()
    } else {
        barriers_for_index(order.drop_last(), cmds, rv, i) + (if cmd_image_req(
            cmds[i],
            rv,
            order.last(),
        ) is Some {
            seq![RecordStep::Barrier(barrier_at(cmds, rv, order.last(), i))]
        } else {
            Seq::empty()
        })
    }
}

/// The compiled output for the first `n` commands: before each command its
/// barriers, then the command itself, in input order.
pub open spec fn steps_up_to(cmds: Seq<GPUCommands>, rv: ResourceViews, n: int) -> Seq<RecordStep>
    decreases n,
{
    if n <= 0 {
        Seq::empty()
    } else {
        steps_up_to(cmds, rv, n - 1) + barriers_for_index(
            order_up_to(cmds, rv, cmds.len() as int),
            cmds,
            rv,
            n - 1,
        ) + seq![RecordStep::Execute(cmds[n - 1])]
    }
}

/// The whole compiled command buffer.
pub open spec fn compiled_steps(cmds: Seq<GPUCommands>, rv: ResourceViews) -> Seq<RecordStep> {
    steps_up_to(cmds, rv, cmds.len() as int)
}

proof fn lemma_contains_concat<A>(a: Seq<A>, b: Seq<A>, x: A)
    ensures
        (a + b).contains(x) <==> a.contains(x) || b.contains(x),
{
    if a.contains(x) {
        let i = choose|i: int| 0 <= i < a.len() && a[i] == x;
        assert((a + b)[i] == x);
    }
    if b.contains(x) {
        let i = choose|i: int| 0 <= i < b.len() && b[i] == x;
        assert((a + b)[a.len() + i] == x);
    }
    if (a + b).contains(x) {
        let i = choose|i: int| 0 <= i < (a + b).len() && (a + b)[i] == x;
        if i < a.len() {
            assert(a[i] == x);
        } else {
            assert(b[i - a.len()] == x);
        }
    }
}

/// A command mentions an image exactly when it demands a state of it.
proof fn lemma_req_iff_mentioned(cmd: GPUCommands, rv: ResourceViews, img: ImageID)
    ensures
        cmd_images(cmd, rv).contains(img) <==> cmd_image_req(cmd, rv, img) is Some,
{
    match cmd {
        GPUCommands::CopyBufferToBuffer { .. } => {},
        GPUCommands::CopyBufferToImage { src: _, dst } => {
            assert(cmd_images(cmd, rv)[0] == dst);
        },
        GPUCommands::BlitImage { src, dst } => {
            assert(cmd_images(cmd, rv)[0] == src);
            assert(cmd_images(cmd, rv)[1] == dst);
            if cmd_images(cmd, rv).contains(img) {
                let i = choose|i: int|
                    0 <= i < cmd_images(cmd, rv).len() && cmd_images(cmd, rv)[i] == img;
                assert(img == src || img == dst);
            }
        },
        GPUCommands::RunGraphicsPipeline { framebuffer, input_set, .. } => {
            let fb = rv.framebuffers[framebuffer.0];
            let is = rv.input_sets[input_set.0];
            let depth_seq = match fb.depth_attachment {
                Some(d) => seq![d],
                None => Seq::<ImageID>::empty(),
            };
            lemma_contains_concat(fb.color_attachments@ + depth_seq, is.bound_textures@, img);
            lemma_contains_concat(fb.color_attachments@, depth_seq, img);
            if fb.depth_attachment == Some(img) {
                assert(depth_seq[0] == img);
            }
            if depth_seq.contains(img) {
                assert(depth_seq[0] == img);
                assert(fb.depth_attachment == Some(img));
            }
        },
    }
}

/// Every mention among the first `n` commands carries an index below `n`.
proof fn lemma_mention_indices_bounded(
    cmds: Seq<GPUCommands>,
    rv: ResourceViews,
    img: ImageID,
    n: int,
)
    ensures
        forall|j: int|
            0 <= j < mentions_up_to(cmds, rv, img, n).len() ==> 0 <= (
            #[trigger] mentions_up_to(cmds, rv, img, n)[j]).0 < n,
    decreases n,
{
    if n > 0 {
        lemma_mention_indices_bounded(cmds, rv, img, n - 1);
        assert forall|j: int| 0 <= j < mentions_up_to(cmds, rv, img, n).len() implies 0 <= (
        #[trigger] mentions_up_to(cmds, rv, img, n)[j]).0 < n by {
            let prev = mentions_up_to(cmds, rv, img, n - 1);
            if j < prev.len() {
                assert(mentions_up_to(cmds, rv, img, n)[j] == prev[j]);
            } else {
                assert(mentions_up_to(cmds, rv, img, n)[j] == opt_entry(cmds, rv, img, n - 1)[j
                    - prev.len()]);
            }
        };
    }
}

/// The mention list for fewer commands is a prefix of the list for more, and
/// everything past that prefix carries an index at or past the cut.
proof fn lemma_mentions_prefix(
    cmds: Seq<GPUCommands>,
    rv: ResourceViews,
    img: ImageID,
    m: int,
    n: int,
)
    requires
        0 <= m <= n,
    ensures
        mentions_up_to(cmds, rv, img, m).len() <= mentions_up_to(cmds, rv, img, n).len(),
        forall|j: int|
            0 <= j < mentions_up_to(cmds, rv, img, m).len() ==> #[trigger] mentions_up_to(
                cmds,
                rv,
                img,
                n,
            )[j] == mentions_up_to(cmds, rv, img, m)[j],
        forall|j: int|
            mentions_up_to(cmds, rv, img, m).len() <= j < mentions_up_to(
                cmds,
                rv,
                img,
                n,
            ).len() ==> (#[trigger] mentions_up_to(cmds, rv, img, n)[j]).0 >= m,
    decreases n - m,
{
    if m < n {
        lemma_mentions_prefix(cmds, rv, img, m, n - 1);
    }
}

/// Where command `i`'s mention of `img` sits in the full mention list: at the
/// count of strictly earlier mentions, with nothing else at index `i`; and if
/// the command does not mention the image, no entry carries index `i`.
proof fn lemma_mention_position(cmds: Seq<GPUCommands>, rv: ResourceViews, img: ImageID, i: int)
    requires
        0 <= i < cmds.len(),
    ensures
        ({
            let ms = mentions_up_to(cmds, rv, img, cmds.len() as int);
            let before = mentions_up_to(cmds, rv, img, i);
            let p = before.len() as int;
            match cmd_image_req(cmds[i], rv, img) {
                Some(st) => {
                    &&& 0 <= p < ms.len()
                    &&& ms[p].0 == i
                    &&& ms[p].1 == st
                    &&& forall|j: int| 0 <= j < ms.len() && j != p ==> (#[trigger] ms[j]).0 != i
                    &&& forall|j: int| 0 <= j < p ==> #[trigger] ms[j] == before[j]
                },
                None => forall|j: int| 0 <= j < ms.len() ==> (#[trigger] ms[j]).0 != i,
            }
        }),
{
    let n = cmds.len() as int;
    let ms = mentions_up_to(cmds, rv, img, n);
    let before = mentions_up_to(cmds, rv, img, i);
    let p = before.len() as int;
    lemma_mention_indices_bounded(cmds, rv, img, i);
    lemma_mentions_prefix(cmds, rv, img, i, n);
    lemma_mentions_prefix(cmds, rv, img, i + 1, n);
    assert(mentions_up_to(cmds, rv, img, i + 1) == before + opt_entry(cmds, rv, img, i));
    match cmd_image_req(cmds[i], rv, img) {
        Some(st) => {
            assert(mentions_up_to(cmds, rv, img, i + 1)[p] == (i, st));
            assert(ms[p] == (i, st));
            assert forall|j: int| 0 <= j < ms.len() && j != p implies (#[trigger] ms[j]).0
                != i by {
                if j < p {
                    assert(ms[j] == before[j]);
                } else {
                    assert(j >= mentions_up_to(cmds, rv, img, i + 1).len());
                }
            };
        },
        None => {
            assert(mentions_up_to(cmds, rv, img, i + 1).len() == p);
            assert forall|j: int| 0 <= j < ms.len() implies (#[trigger] ms[j]).0 != i by {
                if j < p {
                    assert(ms[j] == before[j]);
                }
            };
        },
    }
}

/// No image occurs twice.
pub open spec fn distinct_seq(s: Seq<ImageID>) -> bool {
    forall|j: int, k: int| 0 <= j < k < s.len() ==> s[j] != s[k]
}

proof fn lemma_push_contains<A>(s: Seq<A>, y: A, x: A)
    ensures
        s.push(y).contains(x) <==> s.contains(x) || x == y,
{
    assert(s.push(y)[s.len() as int] == y);
    if s.contains(x) {
        let i = choose|i: int| 0 <= i < s.len() && s[i] == x;
        assert(s.push(y)[i] == x);
    }
    if s.push(y).contains(x) {
        let i = choose|i: int| 0 <= i < s.push(y).len() && s.push(y)[i] == x;
        if i < s.len() {
            assert(s[i] == x);
        }
    }
}

proof fn lemma_drop_first_contains<A>(s: Seq<A>, x: A)
    requires
        s.len() > 0,
    ensures
        s.contains(x) <==> x == s[0] || s.drop_first().contains(x),
{
    if s.contains(x) {
        let i = choose|i: int| 0 <= i < s.len() && s[i] == x;
        if i > 0 {
            assert(s.drop_first()[i - 1] == x);
        }
    }
    if s.drop_first().contains(x) {
        let i = choose|i: int| 0 <= i < s.drop_first().len() && s.drop_first()[i] == x;
        assert(s[i + 1] == x);
    }
}

proof fn lemma_append_new_contains(order: Seq<ImageID>, imgs: Seq<ImageID>, x: ImageID)
    ensures
        append_new(order, imgs).contains(x) <==> order.contains(x) || imgs.contains(x),
    decreases imgs.len(),
{
    if imgs.len() > 0 {
        let o2 = if order.contains(imgs[0]) {
            order
        } else {
            order.push(imgs[0])
        };
        lemma_append_new_contains(o2, imgs.drop_first(), x);
        lemma_push_contains(order, imgs[0], x);
        lemma_drop_first_contains(imgs, x);
    }
}

proof fn lemma_append_new_prefix(order: Seq<ImageID>, imgs: Seq<ImageID>)
    ensures
        append_new(order, imgs).len() >= order.len(),
        forall|p: int| 0 <= p < order.len() ==> #[trigger] append_new(order, imgs)[p] == order[p],
    decreases imgs.len(),
{
    if imgs.len() > 0 {
        let o2 = if order.contains(imgs[0]) {
            order
        } else {
            order.push(imgs[0])
        };
        lemma_append_new_prefix(o2, imgs.drop_first());
    }
}

proof fn lemma_append_new_distinct(order: Seq<ImageID>, imgs: Seq<ImageID>)
    requires
        distinct_seq(order),
    ensures
        distinct_seq(append_new(order, imgs)),
    decreases imgs.len(),
{
    if imgs.len() > 0 {
        let o2 = if order.contains(imgs[0]) {
            order
        } else {
            order.push(imgs[0])
        };
        if !order.contains(imgs[0]) {
            assert forall|j: int, k: int| 0 <= j < k < o2.len() implies o2[j] != o2[k] by {
                if k == order.len() {
                    if order[j] == imgs[0] {
                        assert(order.contains(imgs[0]));
                    }
                }
            };
        }
        lemma_append_new_distinct(o2, imgs.drop_first());
    }
}

proof fn lemma_append_new_push(order: Seq<ImageID>, imgs: Seq<ImageID>, x: ImageID)
    ensures
        append_new(order, imgs.push(x)) == (if append_new(order, imgs).contains(x) {
            append_new(order, imgs)
        } else {
            append_new(order, imgs).push(x)
        }),
    decreases imgs.len(),
{
    if imgs.len() == 0 {
        assert(imgs.push(x)[0] == x);
        let d = imgs.push(x).drop_first();
        assert(d =~= Seq::<ImageID>::empty());
        let o2x = if order.contains(x) {
            order
        } else {
            order.push(x)
        };
        assert(append_new(order, imgs.push(x)) == append_new(o2x, d));
        assert(append_new(o2x, d) == o2x);
    } else {
        let o2 = if order.contains(imgs[0]) {
            order
        } else {
            order.push(imgs[0])
        };
        assert(imgs.push(x)[0] == imgs[0]);
        assert(imgs.push(x).drop_first() =~= imgs.drop_first().push(x));
        assert(append_new(order, imgs) == append_new(o2, imgs.drop_first()));
        assert(append_new(order, imgs.push(x)) == append_new(o2, imgs.drop_first().push(x)));
        lemma_append_new_push(o2, imgs.drop_first(), x);
    }
}

proof fn lemma_order_distinct(cmds: Seq<GPUCommands>, rv: ResourceViews, n: int)
    ensures
        distinct_seq(order_up_to(cmds, rv, n)),
    decreases n,
{
    if n > 0 {
        lemma_order_distinct(cmds, rv, n - 1);
        lemma_append_new_distinct(order_up_to(cmds, rv, n - 1), cmd_images(cmds[n - 1], rv));
    }
}

/// An image stands in the discovery order exactly when some earlier command
/// mentions it.
proof fn lemma_order_contains(cmds: Seq<GPUCommands>, rv: ResourceViews, img: ImageID, n: int)
    ensures
        order_up_to(cmds, rv, n).contains(img) <==> mentions_up_to(cmds, rv, img, n).len() > 0,
    decreases n,
{
    if n > 0 {
        lemma_order_contains(cmds, rv, img, n - 1);
        lemma_append_new_contains(order_up_to(cmds, rv, n - 1), cmd_images(cmds[n - 1], rv), img);
        lemma_req_iff_mentioned(cmds[n - 1], rv, img);
    }
}

/// The access mask a barrier derives from a layout; matches
/// [`access_for_layout`] exactly.
pub fn infer_access_from_layout(layout: ImageLayoutType) -> (r: Option<MemAccessType>)
    ensures
        r == access_for_layout(layout),
{
    match layout {
        ImageLayoutType::ColorAttachment => Some(MemAccessType::ColorAttachmentWrite),
        ImageLayoutType::DepthAttachment => Some(MemAccessType::DepthAttachmentWrite),
        ImageLayoutType::ShaderRO => Some(MemAccessType::ShaderRead),
        ImageLayoutType::TransferSrc => Some(MemAccessType::TransferRead),
        ImageLayoutType::TransferDst => Some(MemAccessType::TransferWrite),
        _ => None,
    }
}

/// The plane set a barrier must name for an image of the given format;
/// matches [`aspect_for_format`] exactly.
pub fn get_aspect_mask(format: ImageFormat) -> (r: ImageAspect)
    ensures
        r == aspect_for_format(format),
{
    match format {
        ImageFormat::Depth => ImageAspect::Depth,
        _ => ImageAspect::Color,
    }
}

/// One image's mention list while compiling: the indices that demand a state
/// of it, with those states, in index order.
struct ImageTrack {
    img: ImageID,
    mentions: Vec<(usize, ImageState)>,
}

/// The executable mention list agrees with the spec-level one entry by entry.
spec fn track_matches(mv: Seq<(usize, ImageState)>, ms: Seq<(int, ImageState)>) -> bool {
    &&& mv.len() == ms.len()
    &&& forall|j: int|
        0 <= j < mv.len() ==> ((#[trigger] mv[j]).0 as int == ms[j].0 && mv[j].1 == ms[j].1)
}

/// The images of a track table, in table order.
spec fn table_imgs(t: Seq<ImageTrack>) -> Seq<ImageID> {
    t.map_values(|tr: ImageTrack| tr.img)
}

fn contains_image(v: &Vec<ImageID>, img: ImageID) -> (r: bool)
    ensures
        r == v@.contains(img),
{
    let mut j: usize = 0;
    while j < v.len()
        invariant
            j <= v@.len(),
            forall|k: int| 0 <= k < j ==> v@[k] != img,
        decreases v@.len() - j,
    {
        if v[j].0 == img.0 {
            return true;
        }
        j += 1;
    }
    proof {
        if v@.contains(img) {
            let k = choose|k: int| 0 <= k < v@.len() && v@[k] == img;
        }
    }
    false
}

fn find_track(table: &Vec<ImageTrack>, img: ImageID) -> (r: Option<usize>)
    ensures
        match r {
            Some(k) => k < table@.len() && table@[k as int].img == img,
            None => !table_imgs(table@).contains(img),
        },
{
    let mut k: usize = 0;
    while k < table.len()
        invariant
            k <= table@.len(),
            forall|q: int| 0 <= q < k ==> table@[q].img != img,
        decreases table@.len() - k,
    {
        if table[k].img.0 == img.0 {
            return Some(k);
        }
        k += 1;
    }
    proof {
        if table_imgs(table@).contains(img) {
            let q = choose|q: int|
                0 <= q < table_imgs(table@).len() && table_imgs(table@)[q] == img;
            assert(table@[q].img == img);
        }
    }
    None
}

fn vec_index_mut<T>(v: &mut Vec<T>, i: usize) -> (element: &mut T)
    requires
        i < old(v).len(),
    ensures
        *element == old(v)@[i as int],
        final(v)@ == old(v)@.update(i as int, *final(element)),
{
    &mut v[i]
}

/// The state a pipeline run demands of an image it mentions; matches
/// [`run_image_req`], which is then known to be `Some`.
fn run_req_state(fb: &FramebufferInfo, is: &InputSetInfo, img: ImageID) -> (st: ImageState)
    requires
        fb.color_attachments@.contains(img) || fb.depth_attachment == Some(img)
            || is.bound_textures@.contains(img),
    ensures
        run_image_req(*fb, *is, img) == Some(st),
{
    if contains_image(&is.bound_textures, img) {
        ImageState { layout: ImageLayoutType::ShaderRO, stage: PipelineStage::FragmentShader }
    } else {
        let is_depth = match &fb.depth_attachment {
            Some(d) => d.0 == img.0,
            None => false,
        };
        if is_depth {
            proof {
                assert(fb.depth_attachment == Some(img));
            }
            ImageState {
                layout: ImageLayoutType::DepthAttachment,
                stage: PipelineStage::EarlyFragmentTests,
            }
        } else {
            proof {
                assert(fb.depth_attachment != Some(img));
            }
            ImageState {
                layout: ImageLayoutType::ColorAttachment,
                stage: PipelineStage::ColorAttachmentOutput,
            }
        }
    }
}

/// The images `cmd` mentions, each with the state it demands, in discovery
/// order; fails exactly when the framebuffer or input set a pipeline run
/// names is not live.
fn command_image_states(
    cmd: &GPUCommands,
    framebuffers: &SequentialIDStore<FramebufferInfo>,
    input_sets: &SequentialIDStore<InputSetInfo>,
    Ghost(rv): Ghost<ResourceViews>,
) -> (r: Result<Vec<(ImageID, ImageState)>, RenderError>)
    requires
        rv.framebuffers == framebuffers.live(),
        rv.input_sets == input_sets.live(),
    ensures
        match r {
            Ok(pairs) => {
                &&& match *cmd {
                    GPUCommands::RunGraphicsPipeline { framebuffer, input_set, .. } => {
                        rv.framebuffers.contains_key(framebuffer.0)
                            && rv.input_sets.contains_key(input_set.0)
                    },
                    _ => true,
                }
                &&& pairs@.map_values(|p: (ImageID, ImageState)| p.0) == cmd_images(*cmd, rv)
                &&& forall|q: int|
                    0 <= q < pairs@.len() ==> cmd_image_req(*cmd, rv, (#[trigger] pairs@[q]).0)
                        == Some(pairs@[q].1)
            },
            Err(e) => {
                &&& e == RenderError::ResourceNotFound
                &&& !cmd_resolves(*cmd, rv)
            },
        },
{
    match cmd {
        GPUCommands::CopyBufferToBuffer { .. } => {
            let pairs: Vec<(ImageID, ImageState)> = Vec::new();
            proof {
                assert(pairs@.map_values(|p: (ImageID, ImageState)| p.0) =~= cmd_images(
                    *cmd,
                    rv,
                ));
            }
            Ok(pairs)
        },
        GPUCommands::CopyBufferToImage { src: _, dst } => {
            let mut pairs: Vec<(ImageID, ImageState)> = Vec::new();
            pairs.push(
                (
                    *dst,
                    ImageState {
                        layout: ImageLayoutType::TransferDst,
                        stage: PipelineStage::Transfer,
                    },
                ),
            );
            proof {
                assert(pairs@.map_values(|p: (ImageID, ImageState)| p.0) =~= cmd_images(
                    *cmd,
                    rv,
                ));
            }
            Ok(pairs)
        },
        GPUCommands::BlitImage { src, dst } => {
            let mut pairs: Vec<(ImageID, ImageState)> = Vec::new();
            let src_state = if src.0 == dst.0 {
                ImageState { layout: ImageLayoutType::TransferDst, stage: PipelineStage::Transfer }
            } else {
                ImageState { layout: ImageLayoutType::TransferSrc, stage: PipelineStage::Transfer }
            };
            pairs.push((*src, src_state));
            pairs.push(
                (
                    *dst,
                    ImageState {
                        layout: ImageLayoutType::TransferDst,
                        stage: PipelineStage::Transfer,
                    },
                ),
            );
            proof {
                assert(pairs@.map_values(|p: (ImageID, ImageState)| p.0) =~= cmd_images(
                    *cmd,
                    rv,
                ));
            }
            Ok(pairs)
        },
        GPUCommands::RunGraphicsPipeline { framebuffer, input_set, .. } => {
            let fb = match framebuffers.get_obj(framebuffer.0) {
                Ok(fb) => fb,
                Err(_) => {
                    return Err(RenderError::ResourceNotFound);
                },
            };
            let is = match input_sets.get_obj(input_set.0) {
                Ok(is) => is,
                Err(_) => {
                    return Err(RenderError::ResourceNotFound);
                },
            };
            let ghost fbv = rv.framebuffers[framebuffer.0];
            let ghost isv = rv.input_sets[input_set.0];
            let ghost imgs = cmd_images(*cmd, rv);
            let ghost depth_seq = (match fb.depth_attachment {
                Some(d) => seq![d],
                None => Seq::<ImageID>::empty(),
            });
            proof {
                assert(imgs == fb.color_attachments@ + depth_seq + is.bound_textures@);
            }
            let mut pairs: Vec<(ImageID, ImageState)> = Vec::new();
            let mut c: usize = 0;
            while c < fb.color_attachments.len()
                invariant
                    c <= fb.color_attachments@.len(),
                    imgs == fb.color_attachments@ + depth_seq + is.bound_textures@,
                    *fb == fbv,
                    *is == isv,
                    pairs@.len() == c,
                    forall|q: int| 0 <= q < c ==> (#[trigger] pairs@[q]).0 == imgs[q],
                    forall|q: int|
                        0 <= q < c ==> run_image_req(fbv, isv, (#[trigger] pairs@[q]).0) == Some(
                            pairs@[q].1,
                        ),
                decreases fb.color_attachments@.len() - c,
            {
                let a = fb.color_attachments[c];
                proof {
                    assert(fb.color_attachments@.contains(a)) by {
                        assert(fb.color_attachments@[c as int] == a);
                    }
                }
                let st = run_req_state(fb, is, a);
                pairs.push((a, st));
                proof {
                    assert(imgs[c as int] == fb.color_attachments@[c as int]);
                }
                c += 1;
            }
            let n_color = fb.color_attachments.len();
            match &fb.depth_attachment {
                Some(d) => {
                    let st = run_req_state(fb, is, *d);
                    pairs.push((*d, st));
                    proof {
                        assert(depth_seq[0] == *d);
                        assert(imgs[n_color as int] == *d);
                    }
                },
                None => {},
            }
            let n_after_depth = pairs.len();
            proof {
                assert(n_after_depth == fb.color_attachments@.len() + depth_seq.len());
            }
            let mut t: usize = 0;
            while t < is.bound_textures.len()
                invariant
                    t <= is.bound_textures@.len(),
                    imgs == fb.color_attachments@ + depth_seq + is.bound_textures@,
                    *fb == fbv,
                    *is == isv,
                    n_after_depth == fb.color_attachments@.len() + depth_seq.len(),
                    pairs@.len() == n_after_depth + t,
                    forall|q: int| 0 <= q < pairs@.len() ==> (#[trigger] pairs@[q]).0 == imgs[q],
                    forall|q: int|
                        0 <= q < pairs@.len() ==> run_image_req(fbv, isv, (#[trigger] pairs@[q]).0)
                            == Some(pairs@[q].1),
                decreases is.bound_textures@.len() - t,
            {
                let tex = is.bound_textures[t];
                proof {
                    assert(is.bound_textures@.contains(tex)) by {
                        assert(is.bound_textures@[t as int] == tex);
                    }
                    assert(imgs[(n_after_depth + t) as int] == tex);
                }
                let st = run_req_state(fb, is, tex);
                pairs.push((tex, st));
                t += 1;
            }
            proof {
                assert(pairs@.len() == imgs.len());
                assert(pairs@.map_values(|p: (ImageID, ImageState)| p.0) =~= imgs);
                assert forall|q: int| 0 <= q < pairs@.len() implies cmd_image_req(
                    *cmd,
                    rv,
                    (#[trigger] pairs@[q]).0,
                ) == Some(pairs@[q].1) by {
                    assert(run_image_req(fbv, isv, pairs@[q].0) == Some(pairs@[q].1));
                };
            }
            Ok(pairs)
        },
    }
}

/// The non-image handles `cmd` names (buffers, pipeline, framebuffer, input
/// set) all resolve.
spec fn cmd_nonimage_ok(cmd: GPUCommands, rv: ResourceViews) -> bool {
    match cmd {
        GPUCommands::CopyBufferToBuffer { src, dst } => rv.buffers.contains_key(src.0)
            && rv.buffers.contains_key(dst.0),
        GPUCommands::CopyBufferToImage { src, dst: _ } => rv.buffers.contains_key(src.0),
        GPUCommands::BlitImage { .. } => true,
        GPUCommands::RunGraphicsPipeline { pipeline, framebuffer, input_set, .. } => {
            &&& rv.pipelines.contains_key(pipeline.0)
            &&& rv.framebuffers.contains_key(framebuffer.0)
            &&& rv.input_sets.contains_key(input_set.0)
        },
    }
}

/// A command resolves exactly when its non-image handles resolve and every
/// image it mentions is live.
proof fn lemma_resolves_parts(cmd: GPUCommands, rv: ResourceViews)
    ensures
        cmd_resolves(cmd, rv) <==> (cmd_nonimage_ok(cmd, rv) && forall|j: int|
            0 <= j < cmd_images(cmd, rv).len() ==> rv.images.contains_key(
                (#[trigger] cmd_images(cmd, rv)[j]).0,
            )),
{
    match cmd {
        GPUCommands::CopyBufferToBuffer { .. } => {},
        GPUCommands::CopyBufferToImage { src: _, dst } => {
            assert(cmd_images(cmd, rv)[0] == dst);
        },
        GPUCommands::BlitImage { src, dst } => {
            assert(cmd_images(cmd, rv)[0] == src);
            assert(cmd_images(cmd, rv)[1] == dst);
        },
        GPUCommands::RunGraphicsPipeline { .. } => {},
    }
}

/// While command `i`'s images up to position `j` have been folded in, a
/// track's mention list equals the spec-level mentions of earlier commands,
/// extended with command `i`'s entry once one of the folded images is its.
spec fn track_ok_inner(
    tr: ImageTrack,
    cmds: Seq<GPUCommands>,
    rv: ResourceViews,
    i: int,
    imgs_i: Seq<ImageID>,
    j: int,
) -> bool {
    track_matches(
        tr.mentions@,
        if imgs_i.take(j).contains(tr.img) {
            mentions_up_to(cmds, rv, tr.img, i).push(
                (i, cmd_image_req(cmds[i], rv, tr.img)->Some_0),
            )
        } else {
            mentions_up_to(cmds, rv, tr.img, i)
        },
    )
}

/// The required-state derivation pass: walks the command list once and
/// returns, per image, the ordered list of command indices that demand a
/// state of it, with those states; fails exactly when some handle a command
/// references does not resolve.
fn build_table(
    commands: &Vec<GPUCommands>,
    images: &SequentialIDStore<ImageInfo>,
    buffers: &SequentialIDStore<BufferInfo>,
    pipelines: &SequentialIDStore<PipelineInfo>,
    framebuffers: &SequentialIDStore<FramebufferInfo>,
    input_sets: &SequentialIDStore<InputSetInfo>,
    Ghost(rv): Ghost<ResourceViews>,
) -> (r: Result<Vec<ImageTrack>, RenderError>)
    requires
        rv.images == images.live(),
        rv.buffers == buffers.live(),
        rv.pipelines == pipelines.live(),
        rv.framebuffers == framebuffers.live(),
        rv.input_sets == input_sets.live(),
    ensures
        match r {
            Ok(table) => {
                &&& all_resolve(commands@, rv)
                &&& table_imgs(table@) == order_up_to(commands@, rv, commands@.len() as int)
                &&& forall|k: int|
                    0 <= k < table@.len() ==> track_matches(
                        (#[trigger] table@[k]).mentions@,
                        mentions_up_to(commands@, rv, table@[k].img, commands@.len() as int),
                    )
                &&& forall|k: int|
                    0 <= k < table@.len() ==> rv.images.contains_key(
                        (#[trigger] table@[k].img).0,
                    )
            },
            Err(e) => {
                &&& e == RenderError::ResourceNotFound
                &&& !all_resolve(commands@, rv)
            },
        },
{
    let ghost cmds = commands@;
    let n = commands.len();
    let mut table: Vec<ImageTrack> = Vec::new();
    let mut i: usize = 0;
    while i < n
        invariant
            i <= n,
            n == cmds.len(),
            commands@ == cmds,
            rv.images == images.live(),
            rv.buffers == buffers.live(),
            rv.pipelines == pipelines.live(),
            rv.framebuffers == framebuffers.live(),
            rv.input_sets == input_sets.live(),
            table_imgs(table@) == order_up_to(cmds, rv, i as int),
            forall|k: int|
                0 <= k < table@.len() ==> track_matches(
                    (#[trigger] table@[k]).mentions@,
                    mentions_up_to(cmds, rv, table@[k].img, i as int),
                ),
            forall|img2: ImageID|
                !table_imgs(table@).contains(img2) ==> mentions_up_to(
                    cmds,
                    rv,
                    img2,
                    i as int,
                ).len() == 0,
            forall|i2: int| 0 <= i2 < i ==> cmd_resolves(#[trigger] cmds[i2], rv),
            forall|k: int|
                0 <= k < table@.len() ==> rv.images.contains_key((#[trigger] table@[k].img).0),
        decreases n - i,
    {
        match &commands[i] {
            GPUCommands::CopyBufferToBuffer { src, dst } => {
                if buffers.get_obj(src.0).is_err() || buffers.get_obj(dst.0).is_err() {
                    proof {
                        assert(!cmd_resolves(cmds[i as int], rv));
                    }
                    return Err(RenderError::ResourceNotFound);
                }
            },
            GPUCommands::CopyBufferToImage { src, dst: _ } => {
                if buffers.get_obj(src.0).is_err() {
                    proof {
                        assert(!cmd_resolves(cmds[i as int], rv));
                    }
                    return Err(RenderError::ResourceNotFound);
                }
            },
            GPUCommands::BlitImage { .. } => {},
            GPUCommands::RunGraphicsPipeline { pipeline, .. } => {
                if pipelines.get_obj(pipeline.0).is_err() {
                    proof {
                        assert(!cmd_resolves(cmds[i as int], rv));
                    }
                    return Err(RenderError::ResourceNotFound);
                }
            },
        }
        let pairs = match command_image_states(&commands[i], framebuffers, input_sets, Ghost(rv)) {
            Ok(pairs) => pairs,
            Err(_) => {
                proof {
                    assert(!cmd_resolves(cmds[i as int], rv));
                }
                return Err(RenderError::ResourceNotFound);
            },
        };
        let ghost imgs_i = cmd_images(cmds[i as int], rv);
        let ghost order_i = order_up_to(cmds, rv, i as int);
        let mut j: usize = 0;
        while j < pairs.len()
            invariant
                j <= pairs@.len(),
                i < n,
                n == cmds.len(),
                commands@ == cmds,
                rv.images == images.live(),
                rv.buffers == buffers.live(),
                rv.pipelines == pipelines.live(),
                rv.framebuffers == framebuffers.live(),
                rv.input_sets == input_sets.live(),
                imgs_i == cmd_images(cmds[i as int], rv),
                order_i == order_up_to(cmds, rv, i as int),
                pairs@.map_values(|p: (ImageID, ImageState)| p.0) == imgs_i,
                forall|q: int|
                    0 <= q < pairs@.len() ==> cmd_image_req(
                        cmds[i as int],
                        rv,
                        (#[trigger] pairs@[q]).0,
                    ) == Some(pairs@[q].1),
                cmd_nonimage_ok(cmds[i as int], rv),
                table_imgs(table@) == append_new(order_i, imgs_i.take(j as int)),
                forall|k: int|
                    0 <= k < table@.len() ==> track_ok_inner(
                        #[trigger] table@[k],
                        cmds,
                        rv,
                        i as int,
                        imgs_i,
                        j as int,
                    ),
                forall|img2: ImageID|
                    !table_imgs(table@).contains(img2) ==> mentions_up_to(
                        cmds,
                        rv,
                        img2,
                        i as int,
                    ).len() == 0 && !imgs_i.take(j as int).contains(img2),
                forall|i2: int| 0 <= i2 < i ==> cmd_resolves(#[trigger] cmds[i2], rv),
                forall|k: int|
                    0 <= k < table@.len() ==> rv.images.contains_key(
                        (#[trigger] table@[k].img).0,
                    ),
                forall|q: int|
                    0 <= q < j ==> rv.images.contains_key(((#[trigger] pairs@[q]).0).0),
            decreases pairs@.len() - j,
        {
            let (img, st) = pairs[j];
            proof {
                assert(pairs@.map_values(|p: (ImageID, ImageState)| p.0)[j as int] == pairs@[j as int].0);
                assert(img == imgs_i[j as int]);
                assert(imgs_i.take(j as int + 1) =~= imgs_i.take(j as int).push(img));
                lemma_append_new_push(order_i, imgs_i.take(j as int), img);
            }
            if images.get_obj(img.0).is_err() {
                proof {
                    lemma_resolves_parts(cmds[i as int], rv);
                    assert(!cmd_resolves(cmds[i as int], rv));
                }
                return Err(RenderError::ResourceNotFound);
            }
            match find_track(&table, img) {
                Some(k) => {
                    proof {
                        assert(table_imgs(table@)[k as int] == img);
                        assert(table_imgs(table@).contains(img));
                    }
                    let tr_len = table[k].mentions.len();
                    let already = tr_len > 0 && table[k].mentions[tr_len - 1].0 == i;
                    if already {
                        proof {
                            lemma_mention_indices_bounded(cmds, rv, img, i as int);
                            assert(imgs_i.take(j as int).contains(img));
                            assert forall|k2: int| 0 <= k2 < table@.len() implies track_ok_inner(
                                #[trigger] table@[k2],
                                cmds,
                                rv,
                                i as int,
                                imgs_i,
                                j as int + 1,
                            ) by {
                                lemma_push_contains(imgs_i.take(j as int), img, table@[k2].img);
                            };
                            assert forall|img2: ImageID|
                                !table_imgs(table@).contains(img2) implies mentions_up_to(
                                cmds,
                                rv,
                                img2,
                                i as int,
                            ).len() == 0 && !imgs_i.take(j as int + 1).contains(img2) by {
                                lemma_push_contains(imgs_i.take(j as int), img, img2);
                            };
                        }
                    } else {
                        let ghost old_table = table@;
                        let tr = vec_index_mut(&mut table, k);
                        tr.mentions.push((i, st));
                        proof {
                            assert(tr.img == old_table[k as int].img);
                            assert(tr.mentions@ == old_table[k as int].mentions@.push((i, st)));
                        }
                        proof {
                            lemma_mention_indices_bounded(cmds, rv, img, i as int);
                            assert(!imgs_i.take(j as int).contains(img)) by {
                                if imgs_i.take(j as int).contains(img) {
                                    let ms = mentions_up_to(cmds, rv, img, i as int).push(
                                        (
                                            i as int,
                                            cmd_image_req(cmds[i as int], rv, img)->Some_0,
                                        ),
                                    );
                                    assert(track_matches(old_table[k as int].mentions@, ms));
                                    assert(ms[ms.len() - 1].0 == i as int);
                                    assert(old_table[k as int].mentions@[ms.len() - 1].0 as int
                                        == i as int);
                                }
                            }
                            assert(table@.len() == old_table.len());
                            assert(table@[k as int].img == old_table[k as int].img);
                            assert(table@[k as int].mentions@ == old_table[k as int].mentions@.push(
                                (i, st),
                            ));
                            assert(forall|k2: int|
                                0 <= k2 < table@.len() && k2 != k ==> table@[k2] == old_table[k2]);
                            assert(table_imgs(table@) =~= table_imgs(old_table));
                            assert forall|k2: int| 0 <= k2 < table@.len() implies track_ok_inner(
                                #[trigger] table@[k2],
                                cmds,
                                rv,
                                i as int,
                                imgs_i,
                                j as int + 1,
                            ) by {
                                lemma_push_contains(imgs_i.take(j as int), img, table@[k2].img);
                                if k2 == k {
                                    assert(cmd_image_req(cmds[i as int], rv, img) == Some(st));
                                    assert(imgs_i.take(j as int + 1).contains(img)) by {
                                        assert(imgs_i.take(j as int + 1).last() == img);
                                    }
                                    let base = mentions_up_to(cmds, rv, img, i as int);
                                    assert(track_ok_inner(
                                        old_table[k as int],
                                        cmds,
                                        rv,
                                        i as int,
                                        imgs_i,
                                        j as int,
                                    ));
                                    assert(track_matches(old_table[k as int].mentions@, base));
                                    let mv2 = table@[k2].mentions@;
                                    let ms2 = base.push((i as int, st));
                                    assert(mv2.len() == ms2.len());
                                    assert forall|q2: int| 0 <= q2 < mv2.len() implies ((
                                    #[trigger] mv2[q2]).0 as int == ms2[q2].0 && mv2[q2].1
                                        == ms2[q2].1) by {
                                        if q2 < base.len() {
                                            assert(mv2[q2] == old_table[k as int].mentions@[q2]);
                                        } else {
                                            assert(mv2[q2] == (i, st));
                                            assert(ms2[q2] == (i as int, st));
                                        }
                                    };
                                    assert(track_matches(mv2, ms2));
                                } else {
                                    assert(table@[k2] == old_table[k2]);
                                    lemma_order_distinct(cmds, rv, i as int);
                                    lemma_append_new_distinct(order_i, imgs_i.take(j as int));
                                    assert(distinct_seq(table_imgs(table@)));
                                    assert(table_imgs(table@)[k2] == table@[k2].img);
                                    assert(table_imgs(table@)[k as int] == img);
                                    assert(table@[k2].img != img);
                                }
                            };
                            assert forall|img2: ImageID|
                                !table_imgs(table@).contains(img2) implies mentions_up_to(
                                cmds,
                                rv,
                                img2,
                                i as int,
                            ).len() == 0 && !imgs_i.take(j as int + 1).contains(img2) by {
                                lemma_push_contains(imgs_i.take(j as int), img, img2);
                            };
                        }
                    }
                },
                None => {
                    let mut mv: Vec<(usize, ImageState)> = Vec::new();
                    mv.push((i, st));
                    let ghost old_table = table@;
                    table.push(ImageTrack { img, mentions: mv });
                    proof {
                        assert(table@.len() == old_table.len() + 1);
                        assert(forall|k2: int|
                            0 <= k2 < old_table.len() ==> table@[k2] == old_table[k2]);
                        assert(table@[old_table.len() as int].img == img);
                        assert(table@[old_table.len() as int].mentions@ =~= Seq::<
                            (usize, ImageState),
                        >::empty().push((i, st)));
                        assert(table_imgs(table@) =~= table_imgs(old_table).push(img));
                        assert(mentions_up_to(cmds, rv, img, i as int).len() == 0);
                        assert forall|k2: int| 0 <= k2 < table@.len() implies track_ok_inner(
                            #[trigger] table@[k2],
                            cmds,
                            rv,
                            i as int,
                            imgs_i,
                            j as int + 1,
                        ) by {
                            lemma_push_contains(imgs_i.take(j as int), img, table@[k2].img);
                            lemma_push_contains(table_imgs(old_table), img, table@[k2].img);
                            if k2 == old_table.len() {
                                assert(table@[k2].img == img);
                                assert(table@[k2].mentions@ == Seq::<(usize, ImageState)>::empty().push((i, st)));
                                assert(imgs_i.take(j as int + 1).contains(img)) by {
                                    assert(imgs_i.take(j as int + 1).last() == img);
                                }
                                assert(cmd_image_req(cmds[i as int], rv, img) == Some(st));
                                assert(mentions_up_to(cmds, rv, img, i as int).push(
                                    (i as int, st),
                                ) =~= Seq::<(int, ImageState)>::empty().push((i as int, st)));
                            } else {
                                assert(table@[k2] == old_table[k2]);
                                assert(table_imgs(old_table)[k2] == table@[k2].img);
                                assert(table_imgs(old_table).contains(table@[k2].img));
                                assert(table@[k2].img != img);
                            }
                        };
                        assert forall|img2: ImageID|
                            !table_imgs(table@).contains(img2) implies mentions_up_to(
                            cmds,
                            rv,
                            img2,
                            i as int,
                        ).len() == 0 && !imgs_i.take(j as int + 1).contains(img2) by {
                            lemma_push_contains(imgs_i.take(j as int), img, img2);
                            lemma_push_contains(table_imgs(old_table), img, img2);
                        };
                    }
                },
            }
            j += 1;
        }
        proof {
            assert(pairs@.map_values(|p: (ImageID, ImageState)| p.0).len() == pairs@.len());
            assert(imgs_i.take(pairs@.len() as int) =~= imgs_i);
            assert(table_imgs(table@) == order_up_to(cmds, rv, i as int + 1));
            assert forall|k: int| 0 <= k < table@.len() implies track_matches(
                (#[trigger] table@[k]).mentions@,
                mentions_up_to(cmds, rv, table@[k].img, i as int + 1),
            ) by {
                let im = table@[k].img;
                lemma_req_iff_mentioned(cmds[i as int], rv, im);
                let base = mentions_up_to(cmds, rv, im, i as int);
                if imgs_i.contains(im) {
                    let entry = (i as int, cmd_image_req(cmds[i as int], rv, im)->Some_0);
                    assert(mentions_up_to(cmds, rv, im, i as int + 1) =~= base.push(entry));
                } else {
                    assert(mentions_up_to(cmds, rv, im, i as int + 1) =~= base);
                }
            };
            assert forall|img2: ImageID|
                !table_imgs(table@).contains(img2) implies mentions_up_to(
                cmds,
                rv,
                img2,
                i as int + 1,
            ).len() == 0 by {
                lemma_req_iff_mentioned(cmds[i as int], rv, img2);
            };
            lemma_resolves_parts(cmds[i as int], rv);
            assert forall|q: int| 0 <= q < cmd_images(cmds[i as int], rv).len() implies
                rv.images.contains_key((#[trigger] cmd_images(cmds[i as int], rv)[q]).0) by {
                assert(pairs@.map_values(|p: (ImageID, ImageState)| p.0)[q] == pairs@[q].0);
                assert(pairs@[q].0 == imgs_i[q]);
            };
            assert(cmd_resolves(cmds[i as int], rv));
        }
        i += 1;
    }
    Ok(table)
}

/// The recording pass: replays the command list, emitting immediately before
/// each command one barrier per image the command mentions, then the command
/// itself.
fn emit_steps(
    commands: Vec<GPUCommands>,
    table: &Vec<ImageTrack>,
    images: &SequentialIDStore<ImageInfo>,
    Ghost(rv): Ghost<ResourceViews>,
) -> (steps: Vec<RecordStep>)
    requires
        rv.images == images.live(),
        table_imgs(table@) == order_up_to(commands@, rv, commands@.len() as int),
        forall|k: int|
            0 <= k < table@.len() ==> track_matches(
                (#[trigger] table@[k]).mentions@,
                mentions_up_to(commands@, rv, table@[k].img, commands@.len() as int),
            ),
        forall|k: int|
            0 <= k < table@.len() ==> rv.images.contains_key((#[trigger] table@[k].img).0),
    ensures
        steps@ == compiled_steps(commands@, rv),
{
    let ghost cmds = commands@;
    let ghost order_full = order_up_to(cmds, rv, cmds.len() as int);
    let n = commands.len();
    let mut rest = commands;
    let mut steps: Vec<RecordStep> = Vec::new();
    let mut i: usize = 0;
    while i < n
        invariant
            i <= n,
            n == cmds.len(),
            rest@ == cmds.skip(i as int),
            rv.images == images.live(),
            order_full == order_up_to(cmds, rv, cmds.len() as int),
            table_imgs(table@) == order_full,
            forall|k: int|
                0 <= k < table@.len() ==> track_matches(
                    (#[trigger] table@[k]).mentions@,
                    mentions_up_to(cmds, rv, table@[k].img, cmds.len() as int),
                ),
            forall|k: int|
                0 <= k < table@.len() ==> rv.images.contains_key((#[trigger] table@[k].img).0),
            steps@ == steps_up_to(cmds, rv, i as int),
        decreases n - i,
    {
        let mut k: usize = 0;
        while k < table.len()
            invariant
                k <= table@.len(),
                i < n,
                n == cmds.len(),
                rv.images == images.live(),
                order_full == order_up_to(cmds, rv, cmds.len() as int),
                table_imgs(table@) == order_full,
                forall|k2: int|
                    0 <= k2 < table@.len() ==> track_matches(
                        (#[trigger] table@[k2]).mentions@,
                        mentions_up_to(cmds, rv, table@[k2].img, cmds.len() as int),
                    ),
                forall|k2: int|
                    0 <= k2 < table@.len() ==> rv.images.contains_key(
                        (#[trigger] table@[k2].img).0,
                    ),
                steps@ == steps_up_to(cmds, rv, i as int) + barriers_for_index(
                    order_full.take(k as int),
                    cmds,
                    rv,
                    i as int,
                ),
            decreases table@.len() - k,
        {
            let tr = &table[k];
            let ghost ms_spec = mentions_up_to(cmds, rv, tr.img, cmds.len() as int);
            proof {
                assert(track_matches(tr.mentions@, ms_spec));
                assert(table_imgs(table@)[k as int] == tr.img);
                assert(order_full.take(k as int + 1).drop_last() =~= order_full.take(k as int));
                assert(order_full.take(k as int + 1).last() == order_full[k as int]);
            }
            let m_len = tr.mentions.len();
            let mut jj: usize = 0;
            let mut found: Option<usize> = None;
            while jj < m_len
                invariant
                    jj <= m_len,
                    m_len == tr.mentions@.len(),
                    match found {
                        None => forall|q: int|
                            0 <= q < jj ==> ((#[trigger] tr.mentions@[q]).0) != i,
                        Some(p) => p < jj && tr.mentions@[p as int].0 == i,
                    },
                decreases m_len - jj,
            {
                if found.is_none() && tr.mentions[jj].0 == i {
                    found = Some(jj);
                }
                jj += 1;
            }
            match found {
                Some(p) => {
                    proof {
                        lemma_mention_position(cmds, rv, tr.img, i as int);
                        assert(ms_spec[p as int].0 == i as int);
                        if cmd_image_req(cmds[i as int], rv, tr.img) is None {
                            assert(ms_spec[p as int].0 != i);
                        }
                        assert(cmd_image_req(cmds[i as int], rv, tr.img) is Some);
                        assert(p as int == mentions_up_to(cmds, rv, tr.img, i as int).len());
                    }
                    let cur = tr.mentions[p].1;
                    let prev = if p == 0 {
                        ImageState {
                            layout: ImageLayoutType::Undefined,
                            stage: PipelineStage::BottomOfPipe,
                        }
                    } else {
                        tr.mentions[p - 1].1
                    };
                    proof {
                        let before = mentions_up_to(cmds, rv, tr.img, i as int);
                        if p > 0 {
                            assert(ms_spec[p as int - 1] == before[p as int - 1]);
                            assert(before.last() == before[p as int - 1]);
                        }
                        assert(prev == state_before(cmds, rv, tr.img, i as int));
                        assert(ms_spec[p as int].1 == cmd_image_req(
                            cmds[i as int],
                            rv,
                            tr.img,
                        )->Some_0);
                        assert(cur == cmd_image_req(cmds[i as int], rv, tr.img)->Some_0);
                    }
                    let info = images.get_obj(tr.img.0).unwrap();
                    let aspect = get_aspect_mask(info.format);
                    let b = BarrierInfo {
                        image: tr.img,
                        old_layout: prev.layout,
                        new_layout: cur.layout,
                        src_stage: prev.stage,
                        dst_stage: cur.stage,
                        src_access: infer_access_from_layout(prev.layout),
                        dst_access: infer_access_from_layout(cur.layout),
                        aspect,
                    };
                    proof {
                        assert(*info == rv.images[tr.img.0]);
                        assert(b == barrier_at(cmds, rv, tr.img, i as int));
                    }
                    steps.push(RecordStep::Barrier(b));
                    proof {
                        assert(barriers_for_index(order_full.take(k as int + 1), cmds, rv, i as int)
                            =~= barriers_for_index(order_full.take(k as int), cmds, rv, i as int)
                            + seq![RecordStep::Barrier(barrier_at(cmds, rv, tr.img, i as int))]);
                        assert(steps@ =~= steps_up_to(cmds, rv, i as int) + barriers_for_index(
                            order_full.take(k as int + 1),
                            cmds,
                            rv,
                            i as int,
                        ));
                    }
                },
                None => {
                    proof {
                        lemma_mention_position(cmds, rv, tr.img, i as int);
                        if cmd_image_req(cmds[i as int], rv, tr.img) is Some {
                            let p0 = mentions_up_to(cmds, rv, tr.img, i as int).len() as int;
                            assert(ms_spec[p0].0 == i as int);
                            assert(tr.mentions@[p0].0 as int == i as int);
                            assert(false);
                        }
                        assert(barriers_for_index(order_full.take(k as int + 1), cmds, rv, i as int)
                            =~= barriers_for_index(order_full.take(k as int), cmds, rv, i as int));
                    }
                },
            }
            k += 1;
        }
        proof {
            assert(order_full.take(table@.len() as int) =~= order_full);
        }
        let cmd_i = rest.remove(0);
        proof {
            assert(cmds.skip(i as int)[0] == cmds[i as int]);
            assert(rest@ =~= cmds.skip(i as int + 1));
        }
        steps.push(RecordStep::Execute(cmd_i));
        proof {
            assert(steps@ =~= steps_up_to(cmds, rv, i as int + 1));
        }
        i += 1;
    }
    proof {
        assert(steps@ == compiled_steps(cmds, rv));
    }
    steps
}

/// All mentions of `img` over the whole command list: each command index
/// that demands a state of it, with that state, in order.
pub open spec fn image_mentions(cmds: Seq<GPUCommands>, rv: ResourceViews, img: ImageID) -> Seq<
    (int, ImageState),
> {
    mentions_up_to(cmds, rv, img, cmds.len() as int)
}

/// The barriers among `steps` that affect `img`, in emission order.
pub open spec fn barriers_of(steps: Seq<RecordStep>, img: ImageID) -> Seq<BarrierInfo>
    decreases steps.len(),
{
    if steps.len() == 0 {
        Seq::empty()
    } else {
        barriers_of(steps.drop_last(), img) + (match steps.last() {
            RecordStep::Barrier(b) => if b.image == img {
                seq![b]
            } else {
                Seq::empty()
            },
            _ => Seq::empty(),
        })
    }
}

proof fn lemma_barriers_of_concat(a: Seq<RecordStep>, b: Seq<RecordStep>, img: ImageID)
    ensures
        barriers_of(a + b, img) == barriers_of(a, img) + barriers_of(b, img),
    decreases b.len(),
{
    if b.len() == 0 {
        assert(a + b =~= a);
        assert(barriers_of(b, img) =~= Seq::<BarrierInfo>::empty());
        assert(barriers_of(a, img) + barriers_of(b, img) =~= barriers_of(a, img));
    } else {
        assert((a + b).drop_last() =~= a + b.drop_last());
        assert((a + b).last() == b.last());
        lemma_barriers_of_concat(a, b.drop_last(), img);
        assert(barriers_of(a + b, img) =~= barriers_of(a, img) + barriers_of(b, img));
    }
}

proof fn lemma_barriers_of_index(
    order: Seq<ImageID>,
    cmds: Seq<GPUCommands>,
    rv: ResourceViews,
    i: int,
    img: ImageID,
)
    requires
        distinct_seq(order),
    ensures
        barriers_of(barriers_for_index(order, cmds, rv, i), img) == (if order.contains(img)
            && cmd_image_req(cmds[i], rv, img) is Some {
            seq![barrier_at(cmds, rv, img, i)]
        } else {
            Seq::<BarrierInfo>::empty()
        }),
    decreases order.len(),
{
    if order.len() == 0 {
    } else {
        let o2 = order.drop_last();
        let el = order.last();
        assert(distinct_seq(o2));
        assert(!o2.contains(el)) by {
            if o2.contains(el) {
                let q = choose|q: int| 0 <= q < o2.len() && o2[q] == el;
                assert(order[q] == el);
            }
        }
        lemma_barriers_of_index(o2, cmds, rv, i, img);
        let tail = (if cmd_image_req(cmds[i], rv, el) is Some {
            seq![RecordStep::Barrier(barrier_at(cmds, rv, el, i))]
        } else {
            Seq::<RecordStep>::empty()
        });
        lemma_barriers_of_concat(barriers_for_index(o2, cmds, rv, i), tail, img);
        assert(order.contains(el)) by {
            assert(order[order.len() - 1] == el);
        }
        if order.contains(img) {
            let q = choose|q: int| 0 <= q < order.len() && order[q] == img;
            if q < order.len() - 1 {
                assert(o2[q] == img);
            }
        }
        if tail.len() == 1 {
            assert(barriers_of(tail, img) =~= (if el == img {
                seq![barrier_at(cmds, rv, img, i)]
            } else {
                Seq::<BarrierInfo>::empty()
            })) by {
                assert(tail.drop_last() =~= Seq::<RecordStep>::empty());
                assert(barriers_of(tail.drop_last(), img) =~= Seq::<BarrierInfo>::empty());
                assert(tail.last() == RecordStep::Barrier(barrier_at(cmds, rv, el, i)));
                assert(barrier_at(cmds, rv, el, i).image == el);
            }
        }
        assert(barriers_of(barriers_for_index(order, cmds, rv, i), img) =~= (if order.contains(img)
            && cmd_image_req(cmds[i], rv, img) is Some {
            seq![barrier_at(cmds, rv, img, i)]
        } else {
            Seq::<BarrierInfo>::empty()
        }));
    }
}

proof fn lemma_barriers_per_image_up_to(
    cmds: Seq<GPUCommands>,
    rv: ResourceViews,
    img: ImageID,
    m: int,
)
    requires
        0 <= m <= cmds.len(),
    ensures
        barriers_of(steps_up_to(cmds, rv, m), img) == Seq::new(
            mentions_up_to(cmds, rv, img, m).len(),
            |j: int| barrier_at(cmds, rv, img, mentions_up_to(cmds, rv, img, m)[j].0),
        ),
    decreases m,
{
    let n = cmds.len() as int;
    if m == 0 {
        assert(barriers_of(steps_up_to(cmds, rv, m), img) =~= Seq::new(
            mentions_up_to(cmds, rv, img, m).len(),
            |j: int| barrier_at(cmds, rv, img, mentions_up_to(cmds, rv, img, m)[j].0),
        ));
    } else {
        lemma_barriers_per_image_up_to(cmds, rv, img, m - 1);
        let order_full = order_up_to(cmds, rv, n);
        lemma_order_distinct(cmds, rv, n);
        let mid = barriers_for_index(order_full, cmds, rv, m - 1);
        let tail = seq![RecordStep::Execute(cmds[m - 1])];
        lemma_barriers_of_concat(steps_up_to(cmds, rv, m - 1) + mid, tail, img);
        lemma_barriers_of_concat(steps_up_to(cmds, rv, m - 1), mid, img);
        assert(barriers_of(tail, img) =~= Seq::<BarrierInfo>::empty()) by {
            assert(tail.drop_last() =~= Seq::<RecordStep>::empty());
            assert(barriers_of(tail.drop_last(), img) =~= Seq::<BarrierInfo>::empty());
            assert(tail.last() == RecordStep::Execute(cmds[m - 1]));
        }
        lemma_barriers_of_index(order_full, cmds, rv, m - 1, img);
        lemma_mentions_prefix(cmds, rv, img, m - 1, m);
        lemma_mentions_prefix(cmds, rv, img, m, n);
        if cmd_image_req(cmds[m - 1], rv, img) is Some {
            assert(mentions_up_to(cmds, rv, img, m).len() == mentions_up_to(
                cmds,
                rv,
                img,
                m - 1,
            ).len() + 1);
            assert(order_full.contains(img)) by {
                lemma_order_contains(cmds, rv, img, n);
            }
            assert(mentions_up_to(cmds, rv, img, m).last() == (
                m - 1,
                cmd_image_req(cmds[m - 1], rv, img)->Some_0,
            ));
        } else {
            assert(mentions_up_to(cmds, rv, img, m) =~= mentions_up_to(cmds, rv, img, m - 1));
        }
        assert(barriers_of(steps_up_to(cmds, rv, m), img) =~= Seq::new(
            mentions_up_to(cmds, rv, img, m).len(),
            |j: int| barrier_at(cmds, rv, img, mentions_up_to(cmds, rv, img, m)[j].0),
        ));
    }
}

/// For the `j`-th command that mentions `img`, the state the image is in
/// beforehand is what the previous mention demanded, or undefined at the
/// bottom of the pipe for the first mention.
proof fn lemma_state_before_mention(
    cmds: Seq<GPUCommands>,
    rv: ResourceViews,
    img: ImageID,
    j: int,
)
    requires
        0 <= j < image_mentions(cmds, rv, img).len(),
    ensures
        state_before(cmds, rv, img, image_mentions(cmds, rv, img)[j].0) == (if j == 0 {
            ImageState { layout: ImageLayoutType::Undefined, stage: PipelineStage::BottomOfPipe }
        } else {
            image_mentions(cmds, rv, img)[j - 1].1
        }),
{
    let n = cmds.len() as int;
    let ms = image_mentions(cmds, rv, img);
    let i = ms[j].0;
    lemma_mention_indices_bounded(cmds, rv, img, n);
    assert(0 <= i < n);
    lemma_mention_position(cmds, rv, img, i);
    if cmd_image_req(cmds[i], rv, img) is None {
        assert(ms[j].0 != i);
    }
    let before = mentions_up_to(cmds, rv, img, i);
    assert(j == before.len());
    if j > 0 {
        assert(ms[j - 1] == before[j - 1]);
        assert(before.last() == before[j - 1]);
    }
}

/// Barrier correctness and minimality, per image: in the compiled output,
/// the barriers affecting `img` are exactly one per command that mentions
/// it, in command order; the first transitions from undefined layout at the
/// bottom-of-pipe stage, each later one from the state the previous mention
/// demanded, and each into the state its own command demands, with the
/// access masks those layouts imply. Commands that do not mention the image
/// get no barrier for it.
pub proof fn lemma_barriers_per_image(cmds: Seq<GPUCommands>, rv: ResourceViews, img: ImageID)
    ensures
        ({
            let bs = barriers_of(compiled_steps(cmds, rv), img);
            let ms = image_mentions(cmds, rv, img);
            &&& bs.len() == ms.len()
            &&& forall|j: int|
                0 <= j < bs.len() ==> (#[trigger] bs[j]) == barrier_at(cmds, rv, img, ms[j].0)
            &&& forall|j: int|
                0 <= j < bs.len() ==> ((#[trigger] bs[j]).new_layout == ms[j].1.layout
                    && bs[j].dst_stage == ms[j].1.stage
                    && bs[j].dst_access == access_for_layout(ms[j].1.layout)
                    && bs[j].image == img)
            &&& (bs.len() > 0 ==> bs[0].old_layout == ImageLayoutType::Undefined && bs[0].src_stage
                == PipelineStage::BottomOfPipe)
            &&& forall|j: int|
                0 < j < bs.len() ==> ((#[trigger] bs[j]).old_layout == ms[j - 1].1.layout
                    && bs[j].src_stage == ms[j - 1].1.stage
                    && bs[j].src_access == access_for_layout(ms[j - 1].1.layout))
        }),
{
    let n = cmds.len() as int;
    lemma_barriers_per_image_up_to(cmds, rv, img, n);
    let bs = barriers_of(compiled_steps(cmds, rv), img);
    let ms = image_mentions(cmds, rv, img);
    lemma_mention_indices_bounded(cmds, rv, img, n);
    assert forall|j: int| 0 <= j < bs.len() implies (#[trigger] bs[j]) == barrier_at(
        cmds,
        rv,
        img,
        ms[j].0,
    ) by {
        assert(bs[j] == barrier_at(cmds, rv, img, mentions_up_to(cmds, rv, img, n)[j].0));
    };
    assert forall|j: int| 0 <= j < bs.len() implies ((#[trigger] bs[j]).new_layout
        == ms[j].1.layout && bs[j].dst_stage == ms[j].1.stage && bs[j].dst_access
        == access_for_layout(ms[j].1.layout) && bs[j].image == img) by {
        lemma_state_before_mention(cmds, rv, img, j);
        let i = ms[j].0;
        lemma_mention_position(cmds, rv, img, i);
        if cmd_image_req(cmds[i], rv, img) is None {
            assert(ms[j].0 != i);
        }
        assert(ms[j].1 == cmd_image_req(cmds[i], rv, img)->Some_0);
    };
    if bs.len() > 0 {
        lemma_state_before_mention(cmds, rv, img, 0);
    }
    assert forall|j: int| 0 < j < bs.len() implies ((#[trigger] bs[j]).old_layout == ms[j
        - 1].1.layout && bs[j].src_stage == ms[j - 1].1.stage && bs[j].src_access
        == access_for_layout(ms[j - 1].1.layout)) by {
        lemma_state_before_mention(cmds, rv, img, j);
    };
}

/// The command compiler: turns an ordered abstract command list into a
/// replayable step list, with exactly the layout barriers the sequence
/// needs, each placed immediately before the command that demands the new
/// state. Fails, recording nothing, exactly when a handle some command
/// references does not resolve.
pub fn compile_steps(
    commands: Vec<GPUCommands>,
    images: &SequentialIDStore<ImageInfo>,
    buffers: &SequentialIDStore<BufferInfo>,
    pipelines: &SequentialIDStore<PipelineInfo>,
    framebuffers: &SequentialIDStore<FramebufferInfo>,
    input_sets: &SequentialIDStore<InputSetInfo>,
) -> (r: Result<Vec<RecordStep>, RenderError>)
    ensures
        ({
            let rv = ResourceViews {
                images: images.live(),
                buffers: buffers.live(),
                pipelines: pipelines.live(),
                framebuffers: framebuffers.live(),
                input_sets: input_sets.live(),
            };
            &&& ((r is Ok) <==> all_resolve(commands@, rv))
            &&& (r is Ok ==> r->Ok_0@ == compiled_steps(commands@, rv))
            &&& (r is Err ==> r->Err_0 == RenderError::ResourceNotFound)
        }),
{
    let ghost rv = ResourceViews {
        images: images.live(),
        buffers: buffers.live(),
        pipelines: pipelines.live(),
        framebuffers: framebuffers.live(),
        input_sets: input_sets.live(),
    };
    let table = match build_table(
        &commands,
        images,
        buffers,
        pipelines,
        framebuffers,
        input_sets,
        Ghost(rv),
    ) {
        Ok(table) => table,
        Err(e) => {
            return Err(e);
        },
    };
    Ok(emit_steps(commands, &table, images, Ghost(rv)))
}

} // verus!
