//! Device-trait parsing and the hardware-independent logic of the Minime
//! handheld platform layer.

pub mod audio;
pub mod battery;
pub mod device;
pub mod display;
pub mod drm;
pub mod input;
pub mod mock;
pub mod platform;
pub mod power;
pub mod screen;
pub mod sysfs;
pub mod text;
pub mod traits;
pub mod values;
