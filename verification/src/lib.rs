//! The device-side core of a graphics and compute API.
//!
//! A [`Device`](device::Device) checks every request to create a resource against the
//! capabilities it was opened with, and says what to ask of the hardware. It also keeps
//! track of which submissions still use a resource, so that nothing is destroyed before
//! the hardware is done with it.

pub mod bind_group;
pub mod binding_model;
pub mod buffer;
pub mod conv;
pub mod device;
pub mod flags;
pub mod format;
pub mod init_tracker;
pub mod life;
pub mod limits;
pub mod pipeline;
pub mod pipeline_layout;
pub mod query_set;
pub mod render_pipeline;
pub mod sampler;
pub mod shader;
pub mod storage;
pub mod texture;
pub mod texture_view;
pub mod track;

pub use device::{CreateDeviceError, Device};
