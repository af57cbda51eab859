use vstd::prelude::*;

verus! {

/// A signed three-component integer vector: a position or a displacement in grid space.
#[derive(Clone, Copy, Debug, PartialEq, Eq, Structural)]
pub struct IVec3 {
    pub x: i32,
    pub y: i32,
    pub z: i32,
}

/// An unsigned two-component vector: a cell index of the tilemap.
#[derive(Clone, Copy, Debug, PartialEq, Eq, Structural)]
pub struct UVec2 {
    pub x: u32,
    pub y: u32,
}

/// An unsigned three-component vector: the extent of a map.
#[derive(Clone, Copy, Debug, PartialEq, Eq, Structural)]
pub struct UVec3 {
    pub x: u32,
    pub y: u32,
    pub z: u32,
}

impl IVec3 {
    pub open spec fn view(&self) -> (int, int, int) {
        (self.x as int, self.y as int, self.z as int)
    }

    pub fn new(x: i32, y: i32, z: i32) -> (r: IVec3)
        ensures
            r@ == (x as int, y as int, z as int),
    {
        IVec3 { x, y, z }
    }

    /// The squared Euclidean length `x*x + y*y + z*z`.
    pub fn length_squared(&self) -> (r: i32)
        requires
            squared_length(self@) <= i32::MAX,
        ensures
            r == squared_length(self@),
    {
        proof {
            assert(0 <= self.x * self.x) by (nonlinear_arith);
            assert(0 <= self.y * self.y) by (nonlinear_arith);
            assert(0 <= self.z * self.z) by (nonlinear_arith);
        }
        self.x * self.x + self.y * self.y + self.z * self.z
    }
}

impl IVec3 {
    /// The opposite step, every component flipped.
    pub fn negate(&self) -> (r: IVec3)
        requires
            self.x > i32::MIN,
            self.y > i32::MIN,
            self.z > i32::MIN,
        ensures
            r@ == negated(self@),
    {
        IVec3 { x: -self.x, y: -self.y, z: -self.z }
    }
}

impl UVec2 {
    pub open spec fn view(&self) -> (int, int) {
        (self.x as int, self.y as int)
    }

    pub fn new(x: u32, y: u32) -> (r: UVec2)
        ensures
            r@ == (x as int, y as int),
    {
        UVec2 { x, y }
    }
}

impl UVec3 {
    pub open spec fn view(&self) -> (int, int, int) {
        (self.x as int, self.y as int, self.z as int)
    }

    pub fn new(x: u32, y: u32, z: u32) -> (r: UVec3)
        ensures
            r@ == (x as int, y as int, z as int),
    {
        UVec3 { x, y, z }
    }
}

/// The zero displacement.
pub open spec fn zero3() -> (int, int, int) {
    (0, 0, 0)
}

pub open spec fn squared_length(d: (int, int, int)) -> int {
    d.0 * d.0 + d.1 * d.1 + d.2 * d.2
}

/// The displacement that undoes `d`, every component flipped.
pub open spec fn negated(d: (int, int, int)) -> (int, int, int) {
    (-d.0, -d.1, -d.2)
}

/// Where `origin` lands after the step `d`. Grid rows grow downwards while a
/// displacement's `y` points up the screen, so `y` is subtracted.
pub open spec fn displaced(origin: (int, int, int), d: (int, int, int)) -> (int, int, int) {
    (origin.0 + d.0, origin.1 - d.1, origin.2 + d.2)
}

pub open spec fn fits_i32(v: int) -> bool {
    i32::MIN <= v <= i32::MAX
}

/// The step `d` can be taken from `origin` in 32-bit arithmetic.
pub open spec fn can_displace(origin: (int, int, int), d: (int, int, int)) -> bool {
    let r = displaced(origin, d);
    d.1 > i32::MIN && fits_i32(r.0) && fits_i32(r.1) && fits_i32(r.2)
}

/// The tilemap cell of a grid origin: each axis shifted by half the map extent.
pub open spec fn index_of(origin: (int, int, int), size: (int, int, int)) -> (int, int) {
    (origin.0 + size.0 / 2, origin.1 + size.1 / 2)
}

/// The tilemap cell of `origin` exists: the extent fits a signed 32-bit
/// integer and the shifted origin lies in `[0, extent)` on both axes.
pub open spec fn has_index(origin: (int, int, int), size: (int, int, int)) -> bool {
    let i = index_of(origin, size);
    size.0 <= i32::MAX && size.1 <= i32::MAX && 0 <= i.0 < size.0 && 0 <= i.1 < size.1
}

/// The grid origin of the tilemap cell `index`, on the ground layer.
pub open spec fn origin_of_index(index: (int, int), size: (int, int, int)) -> (int, int, int) {
    (index.0 - size.0 / 2, index.1 - size.1 / 2, 0)
}

/// The logical position of an entity on a map of extent `map_size`, centred on
/// the middle of the map.
#[derive(Clone, Copy, Debug, PartialEq, Eq, Structural)]
pub struct MapCoordinates {
    pub origin: IVec3,
    pub map_size: UVec3,
}

impl MapCoordinates {
    pub open spec fn index_spec(&self) -> (int, int) {
        index_of(self.origin@, self.map_size@)
    }

    pub open spec fn has_index_spec(&self) -> bool {
        has_index(self.origin@, self.map_size@)
    }

    /// Moves these coordinates along `vec`, the vertical component inverted,
    /// and hands them back for chaining.
    pub fn add_direction(&mut self, vec: IVec3) -> (r: &mut Self)
        requires
            can_displace(old(self).origin@, vec@),
        ensures
            r.origin@ == displaced(old(self).origin@, vec@),
            r.map_size == old(self).map_size,
            *final(self) == *final(r),
    {
        self.origin = IVec3 { x: self.origin.x + vec.x, y: self.origin.y - vec.y, z: self.origin.z + vec.z };
        self
    }

    pub fn new(origin: IVec3, map_size: UVec3) -> (r: Self)
        ensures
            r.origin == origin,
            r.map_size == map_size,
    {
        MapCoordinates { origin, map_size }
    }

    /// The coordinates of the tilemap cell `index` on a map of extent `map_size`.
    pub fn from_index(index: UVec2, map_size: UVec3) -> (r: Self)
        requires
            index.x < map_size.x <= i32::MAX,
            index.y < map_size.y <= i32::MAX,
        ensures
            r.origin@ == origin_of_index(index@, map_size@),
            r.map_size == map_size,
    {
        let half_x = (map_size.x / 2) as i32;
        let half_y = (map_size.y / 2) as i32;
        let origin = IVec3 { x: index.x as i32 - half_x, y: index.y as i32 - half_y, z: 0 };
        MapCoordinates { origin, map_size }
    }

    /// Whether these coordinates stand on a tilemap cell that `as_uvec2` can give.
    pub fn has_cell(&self) -> (r: bool)
        ensures
            r == self.has_index_spec(),
    {
        if self.map_size.x > i32::MAX as u32 || self.map_size.y > i32::MAX as u32 {
            return false;
        }
        let ix = self.origin.x as i64 + (self.map_size.x / 2) as i64;
        let iy = self.origin.y as i64 + (self.map_size.y / 2) as i64;
        0 <= ix && ix < self.map_size.x as i64 && 0 <= iy && iy < self.map_size.y as i64
    }

    /// Whether `add_direction(vec)` stays within 32-bit coordinates.
    pub fn can_add_direction(&self, vec: IVec3) -> (r: bool)
        ensures
            r == can_displace(self.origin@, vec@),
    {
        let x = self.origin.x as i64 + vec.x as i64;
        let y = self.origin.y as i64 - vec.y as i64;
        let z = self.origin.z as i64 + vec.z as i64;
        vec.y > i32::MIN && i32::MIN as i64 <= x && x <= i32::MAX as i64 && i32::MIN as i64 <= y
            && y <= i32::MAX as i64 && i32::MIN as i64 <= z && z <= i32::MAX as i64
    }

    /// Converts these coordinates to the tilemap cell they stand on.
    pub fn as_uvec2(&self) -> (r: UVec2)
        requires
            self.has_index_spec(),
        ensures
            r@ == self.index_spec(),
    {
        let half_x = self.map_size.x as i32 / 2;
        let half_y = self.map_size.y as i32 / 2;
        UVec2 { x: (self.origin.x + half_x) as u32, y: (self.origin.y + half_y) as u32 }
    }
}

/// Going from a cell of the map to its grid coordinates and back gives the
/// same cell.
pub proof fn lemma_index_round_trip(index: UVec2, map_size: UVec3)
    requires
        index.x < map_size.x <= i32::MAX,
        index.y < map_size.y <= i32::MAX,
    ensures
        has_index(origin_of_index(index@, map_size@), map_size@),
        index_of(origin_of_index(index@, map_size@), map_size@) == index@,
{
}

/// A step followed by the opposite step leaves a position where it was; and
/// where the step can be taken and its opposite exists as a vector, the
/// opposite step can be taken from where the first one led.
pub proof fn lemma_displacement_inverse(p: MapCoordinates, d: IVec3)
    ensures
        displaced(displaced(p.origin@, d@), negated(d@)) == p.origin@,
        can_displace(p.origin@, d@) && d.x > i32::MIN && d.z > i32::MIN ==> can_displace(
            displaced(p.origin@, d@),
            negated(d@),
        ),
{
}

/// A step right moves the cell one column right; a step up the screen moves it
/// one row up, to a smaller row index.
pub proof fn lemma_axis_steps(p: MapCoordinates)
    ensures
        index_of(displaced(p.origin@, (1, 0, 0)), p.map_size@) == (
            p.index_spec().0 + 1,
            p.index_spec().1,
        ),
        index_of(displaced(p.origin@, (0, 1, 0)), p.map_size@) == (
            p.index_spec().0,
            p.index_spec().1 - 1,
        ),
{
}

} // verus!
