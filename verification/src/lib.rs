//! A backend-agnostic render-hardware-interface core: opaque integer handles
//! for GPU resources with free-slot recycling, a command compiler that derives
//! the image-layout barriers a command sequence needs, a bookkeeping backend
//! that tracks resource metadata and fence state, and a task-tree dispatcher.

pub mod backend;
pub mod id_store;
pub mod setup;
pub mod sync;
pub mod tasks;
pub mod types;
