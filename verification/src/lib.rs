pub mod ids;
pub mod index;
pub mod volume;
pub mod section;
pub mod bounds;
pub mod chunk;
pub mod voxel;
pub mod voxel_volume;
pub mod generation;
pub mod packets;
pub mod framing;
pub mod service;
pub mod jvm;
pub mod demo;
