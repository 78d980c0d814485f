//! The two halves of a scene: points and cuboids.

use vstd::prelude::*;

verus! {

/// One lidar return, in meters, in the frame of the sensor.
#[derive(Clone, Copy, Debug, PartialEq, Eq, Structural)]
pub struct Point {
    pub x: u32,
    pub y: u32,
    pub z: u32,
}

/// A rotation as a quaternion, scalar part first.
#[derive(Clone, Copy, Debug, PartialEq, Eq, Structural)]
pub struct Quaternion {
    pub qw: u32,
    pub qx: u32,
    pub qy: u32,
    pub qz: u32,
}

/// An oriented box that annotates one object: where its center lies, how it
/// is turned, and how large it is.
#[derive(Clone, Copy, Debug, PartialEq, Eq, Structural)]
pub struct Cuboid {
    pub tx_m: u32,
    pub ty_m: u32,
    pub tz_m: u32,
    pub orientation: Quaternion,
    pub length_m: u32,
    pub width_m: u32,
    pub height_m: u32,
}

impl Cuboid {
    /// This cuboid with another orientation and everything else as it is.
    pub open spec fn with_orientation(self, orientation: Quaternion) -> Cuboid {
        Cuboid { orientation, ..self }
    }

    /// Whether `other` has the size of this cuboid.
    pub open spec fn same_extent(self, other: Cuboid) -> bool {
        &&& other.length_m == self.length_m
        &&& other.width_m == self.width_m
        &&& other.height_m == self.height_m
    }

    /// Whether `other` has the center and the orientation of this cuboid.
    pub open spec fn same_pose(self, other: Cuboid) -> bool {
        &&& other.tx_m == self.tx_m
        &&& other.ty_m == self.ty_m
        &&& other.tz_m == self.tz_m
        &&& other.orientation == self.orientation
    }
}

} // verus!
