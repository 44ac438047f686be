//! Screen and sound capture: what the back ends negotiate, keep and decide.

pub mod audio;
pub mod encoder;
pub mod format;
pub mod native;
pub mod sessions;
pub mod sources;
pub mod stream;
pub mod thumb;
pub mod vulkan;
pub mod wayland_direct;
pub mod x11;
