//! Placement construction over an arena of slots.
//!
//! A [`Region`] is the caller's memory: a run of slots, each either vacant
//! or holding a value. Places inside it are named by [`Span`]s. An
//! [`Uninit`] handle grants the right to fill a vacant span, an [`Init`]
//! handle is the proof that a span holds values and carries the duty to
//! destroy them, and an [`Own`] is the long-lived owner built from such a
//! proof. Every destruction a handle performs is appended to the region's
//! destruction log, so that "destroyed exactly once" is a statement about
//! that log.

pub mod project;

mod ctors;
mod init;
mod own;
mod pinned;
mod region;
mod storage;
mod uninit;

pub use ctors::{array_each, move_from, proj_fn, slice_each};
pub use init::Init;
pub use own::Own;
pub use pinned::Pinned;
pub use region::{Region, Span};
pub use storage::{Run, Slot, Storage};
pub use uninit::Uninit;
