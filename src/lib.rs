//! A drawing surface over a firmware pixel-blit device.
//!
//! Two adapters implement the same surface operations: [`ShadowAdapter`]
//! keeps a frame in memory and hands it to the device in one transfer, and
//! [`DirectAdapter`] turns every operation into one device command.
//! The device itself is driven by the caller, from the commands that the
//! adapters describe.
pub mod color;
pub mod direct;
pub mod error;
pub mod frame_loop;
pub mod geometry;
pub mod shadow;

pub use color::{Color, NativePixel};
pub use direct::{BufferTransfer, DirectAdapter, VideoFill};
pub use error::AdapterError;
pub use frame_loop::{Action, Event, FrameLoop};
pub use geometry::{Pixel, Region};
pub use shadow::{FrameTransfer, ShadowAdapter};
