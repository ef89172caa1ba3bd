use vstd::prelude::*;

verus! {

/// A point or a direction in world space, in whole units.
#[derive(Clone, Copy, Debug, PartialEq, Eq, Structural)]
pub struct Vec3 {
    pub x: i32,
    pub y: i32,
    pub z: i32,
}

/// A half-line: the points `origin + t * direction` for `t >= 0`.
#[derive(Clone, Copy, Debug, PartialEq, Eq, Structural)]
pub struct Ray {
    pub origin: Vec3,
    pub direction: Vec3,
}

/// An axis-aligned box: the points between `min` and `max` on every axis.
#[derive(Clone, Copy, Debug, PartialEq, Eq, Structural)]
pub struct BoundingBox {
    pub min: Vec3,
    pub max: Vec3,
}

/// An object that is drawn, picked and dropped: its center and its size.
#[derive(Clone, Copy, Debug, PartialEq, Eq, Structural)]
pub struct TrackedObject {
    pub position: Vec3,
    pub extent: Vec3,
}

/// A coordinate moved by half an extent stays a coordinate.
pub open spec fn half_fits(center: int, extent: int) -> bool {
    i32::MIN <= center - extent / 2 && center + extent / 2 <= i32::MAX
}

impl TrackedObject {
    /// No extent is negative.
    pub open spec fn wf(&self) -> bool {
        self.extent.x >= 0 && self.extent.y >= 0 && self.extent.z >= 0
    }

    /// The corners of the object's box are representable.
    pub open spec fn box_fits(&self) -> bool {
        &&& half_fits(self.position.x as int, self.extent.x as int)
        &&& half_fits(self.position.y as int, self.extent.y as int)
        &&& half_fits(self.position.z as int, self.extent.z as int)
    }

    /// The box around the object: its position, less and plus half its
    /// extent on each axis. Half of an odd extent is rounded down.
    pub fn bounding_box(&self) -> (bx: BoundingBox)
        requires
            self.wf(),
            self.box_fits(),
        ensures
            bx.min.x == self.position.x - self.extent.x / 2,
            bx.min.y == self.position.y - self.extent.y / 2,
            bx.min.z == self.position.z - self.extent.z / 2,
            bx.max.x == self.position.x + self.extent.x / 2,
            bx.max.y == self.position.y + self.extent.y / 2,
            bx.max.z == self.position.z + self.extent.z / 2,
    {
        let hx: i32 = self.extent.x / 2;
        let hy: i32 = self.extent.y / 2;
        let hz: i32 = self.extent.z / 2;
        BoundingBox {
            min: Vec3 { x: self.position.x - hx, y: self.position.y - hy, z: self.position.z - hz },
            max: Vec3 { x: self.position.x + hx, y: self.position.y + hy, z: self.position.z + hz },
        }
    }

    /// The height at which the object's center rests when it stands on
    /// ground of height `ground`: half its vertical extent above it.
    pub fn rest_height(&self, ground: i32) -> (height: i32)
        requires
            self.wf(),
            ground + self.extent.y / 2 <= i32::MAX,
        ensures
            height == ground + self.extent.y / 2,
    {
        ground + self.extent.y / 2
    }
}

} // verus!
