//! Geometric augmentations for lidar scenes: a point cloud together with the
//! cuboids that annotate it.
//!
//! Every coordinate, quaternion component and extent is carried as the bit
//! pattern of an IEEE 754 single-precision number, every probability and
//! scale factor as that of a double-precision number, so a scene and its
//! parameters are made of integers only. Arithmetic that rounds (multiplying
//! by a scale factor, mirroring a rotation) is handed in by the caller as a
//! function on patterns; this crate fixes which value meets which operation,
//! and in which order, and proves that nothing else is touched.

pub mod error;
pub mod mask;
pub mod reflection;
pub mod sampling;
pub mod scalar;
pub mod scaling;
pub mod scene;
