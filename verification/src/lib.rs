//! The register space of a camera as a tree: raw, cooked and computed
//! registers behind the channel of their device, the devices and scripts
//! of a camera, and the reading and writing of all of them by path.

pub mod address;
pub mod bytes;
pub mod camera;
pub mod common;
pub mod communication_channel;
pub mod device;
pub mod error;
pub mod names;
pub mod registers;
pub mod scripting;
pub mod valuemap;
pub mod written;
