//! Command composition and process supervision for a virtual machine launch.

pub mod drain;
pub mod emulator;
pub mod listing;
pub mod net_device;
pub mod net_shape;
pub mod occurrence;
pub mod qemu;
pub mod supervisor;
pub mod text;
