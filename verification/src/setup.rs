//! Construction-time decisions: which GPU to build the device on, which
//! queue family drives graphics, how many swapchain images to ask for, and
//! which surface format to present in. Each works on plain values reported
//! by the native layer, which performs the calls themselves.

use vstd::prelude::*;

use crate::types::GPUInfo;

verus! {

/// What a queue family reports: whether it can run graphics work, and how
/// many queues it offers.
#[derive(Debug, Clone, Copy, PartialEq, Eq, Structural)]
pub struct QueueFamilyInfo {
    pub supports_graphics: bool,
    pub queue_count: u32,
}

/// One surface format a surface reports, by its native format and color
/// space codes.
#[derive(Debug, Clone, Copy, PartialEq, Eq, Structural)]
pub struct SurfaceFormatInfo {
    pub format_code: i32,
    pub color_space_code: i32,
}

/// Picks the GPU the backend is built on: the first one that is not
/// integrated, else the first listed; none only when none was reported.
pub fn select_gpu(gpus: &Vec<GPUInfo>) -> (r: Option<usize>)
    ensures
        (r is Some) <==> gpus@.len() > 0,
        match r {
            Some(i) => i < gpus@.len() && (if exists|j: int|
                0 <= j < gpus@.len() && !(#[trigger] gpus@[j]).integrated {
                !gpus@[i as int].integrated && (forall|j: int|
                    0 <= j < i ==> (#[trigger] gpus@[j]).integrated)
            } else {
                i == 0
            }),
            None => true,
        },
{
    if gpus.len() == 0 {
        return None;
    }
    let mut i: usize = 0;
    while i < gpus.len()
        invariant
            i <= gpus@.len(),
            forall|j: int| 0 <= j < i ==> (#[trigger] gpus@[j]).integrated,
        decreases gpus@.len() - i,
    {
        if !gpus[i].integrated {
            return Some(i);
        }
        i += 1;
    }
    proof {
        if exists|j: int| 0 <= j < gpus@.len() && !(#[trigger] gpus@[j]).integrated {
            let j = choose|j: int| 0 <= j < gpus@.len() && !(#[trigger] gpus@[j]).integrated;
        }
    }
    Some(0)
}

/// Picks the queue family that drives graphics: among the families that
/// support graphics, the last one with the largest queue count; none only
/// when no family supports graphics.
pub fn pick_graphics_queue_family(families: &Vec<QueueFamilyInfo>) -> (r: Option<usize>)
    ensures
        (r is Some) <==> exists|j: int|
            0 <= j < families@.len() && (#[trigger] families@[j]).supports_graphics,
        match r {
            Some(i) => {
                &&& i < families@.len()
                &&& families@[i as int].supports_graphics
                &&& forall|j: int|
                    0 <= j < families@.len() && (#[trigger] families@[j]).supports_graphics
                        ==> families@[j].queue_count <= families@[i as int].queue_count
                &&& forall|j: int|
                    i < j < families@.len() && (#[trigger] families@[j]).supports_graphics
                        ==> families@[j].queue_count < families@[i as int].queue_count
            },
            None => true,
        },
{
    let mut best: Option<usize> = None;
    let mut i: usize = 0;
    while i < families.len()
        invariant
            i <= families@.len(),
            match best {
                None => forall|j: int|
                    0 <= j < i ==> !(#[trigger] families@[j]).supports_graphics,
                Some(b) => {
                    &&& b < i
                    &&& families@[b as int].supports_graphics
                    &&& forall|j: int|
                        0 <= j < i && (#[trigger] families@[j]).supports_graphics
                            ==> families@[j].queue_count <= families@[b as int].queue_count
                    &&& forall|j: int|
                        b < j < i && (#[trigger] families@[j]).supports_graphics
                            ==> families@[j].queue_count < families@[b as int].queue_count
                },
            },
        decreases families@.len() - i,
    {
        if families[i].supports_graphics {
            let take = match best {
                None => true,
                Some(b) => families[b].queue_count <= families[i].queue_count,
            };
            if take {
                best = Some(i);
            }
        }
        i += 1;
    }
    proof {
        if best is None {
            if exists|j: int|
                0 <= j < families@.len() && (#[trigger] families@[j]).supports_graphics {
                let j = choose|j: int|
                    0 <= j < families@.len() && (#[trigger] families@[j]).supports_graphics;
            }
        }
    }
    best
}

/// How many swapchain images to ask for: one more than the reported
/// minimum, capped at the reported maximum where the surface has one (a
/// reported maximum of zero means unbounded).
pub fn swapchain_image_count(min_image_count: u32, max_image_count: u32) -> (r: u32)
    requires
        min_image_count < u32::MAX,
    ensures
        r == (if max_image_count == 0 || min_image_count + 1 <= max_image_count {
            min_image_count + 1
        } else {
            max_image_count as int
        }),
{
    let preferred = min_image_count + 1;
    if max_image_count == 0 || preferred <= max_image_count {
        preferred
    } else {
        max_image_count
    }
}

/// Picks the surface format to present in: the first whose color space is
/// the preferred one, else the first reported; none only when none was
/// reported.
pub fn choose_surface_format(formats: &Vec<SurfaceFormatInfo>, preferred_color_space: i32) -> (r:
    Option<usize>)
    ensures
        (r is Some) <==> formats@.len() > 0,
        match r {
            Some(i) => i < formats@.len() && (if exists|j: int|
                0 <= j < formats@.len() && (#[trigger] formats@[j]).color_space_code
                    == preferred_color_space {
                formats@[i as int].color_space_code == preferred_color_space && (forall|j: int|
                    0 <= j < i ==> (#[trigger] formats@[j]).color_space_code
                        != preferred_color_space)
            } else {
                i == 0
            }),
            None => true,
        },
{
    if formats.len() == 0 {
        return None;
    }
    let mut i: usize = 0;
    while i < formats.len()
        invariant
            i <= formats@.len(),
            forall|j: int|
                0 <= j < i ==> (#[trigger] formats@[j]).color_space_code != preferred_color_space,
        decreases formats@.len() - i,
    {
        if formats[i].color_space_code == preferred_color_space {
            return Some(i);
        }
        i += 1;
    }
    Some(0)
}

} // verus!
