//! Points, their bounding box, and the transforms that a bounding box gives.
//!
//! A coordinate is held as a key: an unsigned integer made from the
//! IEEE-754 binary64 encoding of the coordinate so that keys compare as the
//! encoded numbers do in the standard's total order. A negative number has
//! all its bits flipped, any other number has its sign bit set; so keys of
//! negative numbers lie below keys of positive numbers, and a larger
//! magnitude gives a larger key above zero and a smaller key below it.

use vstd::prelude::*;

verus! {

/// The sign bit of a binary64 encoding.
pub const SIGN_BIT: u64 = 0x8000_0000_0000_0000;

/// The binary64 encoding of the quantization step, one thousandth of a unit.
pub const SCALE_BITS: u64 = 0x3F50_624D_D2F1_A9FC;

/// The key of a binary64 encoding.
pub open spec fn key_of(bits: u64) -> u64 {
    if bits & SIGN_BIT != 0 {
        !bits
    } else {
        bits | SIGN_BIT
    }
}

/// The binary64 encoding of a key.
pub open spec fn bits_of(key: u64) -> u64 {
    if key & SIGN_BIT != 0 {
        key & !SIGN_BIT
    } else {
        !key
    }
}

/// The key of a binary64 encoding.
pub fn key_from_bits(bits: u64) -> (r: u64)
    ensures
        r == key_of(bits),
{
    if bits & SIGN_BIT != 0 {
        !bits
    } else {
        bits | SIGN_BIT
    }
}

/// The binary64 encoding of a key.
pub fn key_to_bits(key: u64) -> (r: u64)
    ensures
        r == bits_of(key),
{
    if key & SIGN_BIT != 0 {
        key & !SIGN_BIT
    } else {
        !key
    }
}

/// Keys and encodings stand for each other, one for one.
pub proof fn lemma_key_round_trip(value: u64)
    ensures
        bits_of(key_of(value)) == value,
        key_of(bits_of(value)) == value,
{
    assert(bits_of(key_of(value)) == value && key_of(bits_of(value)) == value) by (bit_vector)
        requires
            SIGN_BIT == 0x8000_0000_0000_0000u64,
    ;
}

/// Keys order encodings as the total order of binary64 does: an encoding
/// with the sign bit lies below one without; two without the sign bit
/// compare as they are; two with the sign bit compare the other way round.
pub proof fn lemma_key_order(a: u64, b: u64)
    ensures
        a & SIGN_BIT != 0 && b & SIGN_BIT == 0 ==> key_of(a) < key_of(b),
        a & SIGN_BIT == 0 && b & SIGN_BIT == 0 ==> (key_of(a) < key_of(b) <==> a < b),
        a & SIGN_BIT != 0 && b & SIGN_BIT != 0 ==> (key_of(a) < key_of(b) <==> b < a),
{
    assert((a & SIGN_BIT != 0 && b & SIGN_BIT == 0 ==> key_of(a) < key_of(b)) && (a & SIGN_BIT
        == 0 && b & SIGN_BIT == 0 ==> (key_of(a) < key_of(b) <==> a < b)) && (a & SIGN_BIT != 0
        && b & SIGN_BIT != 0 ==> (key_of(a) < key_of(b) <==> b < a))) by (bit_vector)
        requires
            SIGN_BIT == 0x8000_0000_0000_0000u64,
    ;
}

/// One point of a point cloud, by the keys of its coordinates.
#[derive(Clone, Copy, Debug, PartialEq, Eq, Structural)]
pub struct PointRecord {
    pub x: u64,
    pub y: u64,
    pub z: u64,
}

/// The range of the coordinates of a point cloud on each axis.
#[derive(Clone, Copy, Debug, PartialEq, Eq, Structural)]
pub struct BoundingBox {
    pub min_x: u64,
    pub max_x: u64,
    pub min_y: u64,
    pub max_y: u64,
    pub min_z: u64,
    pub max_z: u64,
}

/// How the coordinates of one axis are stored as integers: a stored integer
/// `n` stands for the coordinate `n * scale + offset`.
#[derive(Clone, Copy, Debug, PartialEq, Eq, Structural)]
pub struct AxisTransform {
    /// The key of the quantization step.
    pub scale: u64,
    /// The key of the coordinate that is stored as zero.
    pub offset: u64,
}

/// The transforms of the three axes.
#[derive(Clone, Copy, Debug, PartialEq, Eq, Structural)]
pub struct Transforms {
    pub x: AxisTransform,
    pub y: AxisTransform,
    pub z: AxisTransform,
}

/// The coordinates of the points on the x axis.
pub open spec fn xs(points: Seq<PointRecord>) -> Seq<u64> {
    Seq::new(points.len(), |i: int| points[i].x)
}

/// The coordinates of the points on the y axis.
pub open spec fn ys(points: Seq<PointRecord>) -> Seq<u64> {
    Seq::new(points.len(), |i: int| points[i].y)
}

/// The coordinates of the points on the z axis.
pub open spec fn zs(points: Seq<PointRecord>) -> Seq<u64> {
    Seq::new(points.len(), |i: int| points[i].z)
}

/// Whether `low` is the least of `values`.
pub open spec fn is_least(low: u64, values: Seq<u64>) -> bool {
    &&& exists|i: int| 0 <= i < values.len() && values[i] == low
    &&& forall|i: int| 0 <= i < values.len() ==> low <= values[i]
}

/// Whether `high` is the greatest of `values`.
pub open spec fn is_greatest(high: u64, values: Seq<u64>) -> bool {
    &&& exists|i: int| 0 <= i < values.len() && values[i] == high
    &&& forall|i: int| 0 <= i < values.len() ==> values[i] <= high
}

impl BoundingBox {
    /// On each axis the minimum does not exceed the maximum.
    pub open spec fn wf(self) -> bool {
        self.min_x <= self.max_x && self.min_y <= self.max_y && self.min_z <= self.max_z
    }

    /// Whether this is the bounding box of `points`: on each axis, the least
    /// and the greatest coordinate among them.
    pub open spec fn bounds(self, points: Seq<PointRecord>) -> bool {
        &&& is_least(self.min_x, xs(points))
        &&& is_greatest(self.max_x, xs(points))
        &&& is_least(self.min_y, ys(points))
        &&& is_greatest(self.max_y, ys(points))
        &&& is_least(self.min_z, zs(points))
        &&& is_greatest(self.max_z, zs(points))
    }

    /// Whether the point lies inside the box.
    pub open spec fn holds(self, point: PointRecord) -> bool {
        &&& self.min_x <= point.x <= self.max_x
        &&& self.min_y <= point.y <= self.max_y
        &&& self.min_z <= point.z <= self.max_z
    }

    /// The box that holds one point only.
    pub fn of_point(point: PointRecord) -> (r: BoundingBox)
        ensures
            r == (BoundingBox {
                min_x: point.x,
                max_x: point.x,
                min_y: point.y,
                max_y: point.y,
                min_z: point.z,
                max_z: point.z,
            }),
            r.bounds(seq![point]),
            r.wf(),
    {
        let r = BoundingBox {
            min_x: point.x,
            max_x: point.x,
            min_y: point.y,
            max_y: point.y,
            min_z: point.z,
            max_z: point.z,
        };
        proof {
            let points = seq![point];
            assert(xs(points)[0] == point.x);
            assert(ys(points)[0] == point.y);
            assert(zs(points)[0] == point.z);
        }
        r
    }

    /// The box grown just enough to hold `point` too.
    pub open spec fn extended(self, point: PointRecord) -> BoundingBox {
        BoundingBox {
            min_x: if point.x < self.min_x {
                point.x
            } else {
                self.min_x
            },
            max_x: if point.x > self.max_x {
                point.x
            } else {
                self.max_x
            },
            min_y: if point.y < self.min_y {
                point.y
            } else {
                self.min_y
            },
            max_y: if point.y > self.max_y {
                point.y
            } else {
                self.max_y
            },
            min_z: if point.z < self.min_z {
                point.z
            } else {
                self.min_z
            },
            max_z: if point.z > self.max_z {
                point.z
            } else {
                self.max_z
            },
        }
    }

    /// The box grown just enough to hold `point` too: where the box bounds
    /// some points, the grown box bounds them and `point`.
    pub fn extend(self, point: PointRecord) -> (r: BoundingBox)
        ensures
            r == self.extended(point),
            forall|points: Seq<PointRecord>| #[trigger]
                self.bounds(points) ==> r.bounds(points.push(point)),
            self.wf() ==> r.wf(),
    {
        let r = BoundingBox {
            min_x: if point.x < self.min_x {
                point.x
            } else {
                self.min_x
            },
            max_x: if point.x > self.max_x {
                point.x
            } else {
                self.max_x
            },
            min_y: if point.y < self.min_y {
                point.y
            } else {
                self.min_y
            },
            max_y: if point.y > self.max_y {
                point.y
            } else {
                self.max_y
            },
            min_z: if point.z < self.min_z {
                point.z
            } else {
                self.min_z
            },
            max_z: if point.z > self.max_z {
                point.z
            } else {
                self.max_z
            },
        };
        proof {
            assert forall|points: Seq<PointRecord>| #[trigger] self.bounds(points) implies r.bounds(
                points.push(point),
            ) by {
                let grown = points.push(point);
                lemma_least_push(self.min_x, xs(points), point.x);
                lemma_greatest_push(self.max_x, xs(points), point.x);
                lemma_least_push(self.min_y, ys(points), point.y);
                lemma_greatest_push(self.max_y, ys(points), point.y);
                lemma_least_push(self.min_z, zs(points), point.z);
                lemma_greatest_push(self.max_z, zs(points), point.z);
                assert(xs(grown) == xs(points).push(point.x));
                assert(ys(grown) == ys(points).push(point.y));
                assert(zs(grown) == zs(points).push(point.z));
            }
        }
        r
    }

    /// The transforms that store the coordinates of the box: on each axis
    /// the offset is the minimum of the box, and the scale is the fixed
    /// quantization step.
    pub fn transforms(&self) -> (r: Transforms)
        ensures
            r == transforms_of(*self),
    {
        let scale = key_from_bits(SCALE_BITS);
        Transforms {
            x: AxisTransform { scale, offset: self.min_x },
            y: AxisTransform { scale, offset: self.min_y },
            z: AxisTransform { scale, offset: self.min_z },
        }
    }
}

/// The transforms that a bounding box gives.
pub open spec fn transforms_of(bounds: BoundingBox) -> Transforms {
    Transforms {
        x: AxisTransform { scale: key_of(SCALE_BITS), offset: bounds.min_x },
        y: AxisTransform { scale: key_of(SCALE_BITS), offset: bounds.min_y },
        z: AxisTransform { scale: key_of(SCALE_BITS), offset: bounds.min_z },
    }
}

/// The least of some values and one more value.
proof fn lemma_least_push(low: u64, values: Seq<u64>, value: u64)
    requires
        is_least(low, values),
    ensures
        is_least(
            if value < low {
                value
            } else {
                low
            },
            values.push(value),
        ),
{
    let grown = values.push(value);
    let i = choose|i: int| 0 <= i < values.len() && values[i] == low;
    assert(grown[i] == low);
    assert(grown[values.len() as int] == value);
    assert forall|k: int| 0 <= k < grown.len() implies (if value < low {
        value
    } else {
        low
    }) <= grown[k] by {
        if k < values.len() {
            assert(grown[k] == values[k]);
        }
    }
}

/// The greatest of some values and one more value.
proof fn lemma_greatest_push(high: u64, values: Seq<u64>, value: u64)
    requires
        is_greatest(high, values),
    ensures
        is_greatest(
            if value > high {
                value
            } else {
                high
            },
            values.push(value),
        ),
{
    let grown = values.push(value);
    let i = choose|i: int| 0 <= i < values.len() && values[i] == high;
    assert(grown[i] == high);
    assert(grown[values.len() as int] == value);
    assert forall|k: int| 0 <= k < grown.len() implies grown[k] <= (if value > high {
        value
    } else {
        high
    }) by {
        if k < values.len() {
            assert(grown[k] == values[k]);
        }
    }
}

/// The bounding box of a point cloud, in one pass over its points; `None`
/// where there is no point.
pub fn compute_bounds(points: &Vec<PointRecord>) -> (r: Option<BoundingBox>)
    ensures
        match r {
            Some(bounds) => points.len() > 0 && bounds.bounds(points@) && bounds.wf(),
            None => points.len() == 0,
        },
{
    if points.len() == 0 {
        return None;
    }
    let mut bounds = BoundingBox::of_point(points[0]);
    let mut i: usize = 1;
    assert(points@.take(1) == seq![points@[0]]);
    while i < points.len()
        invariant
            1 <= i <= points.len(),
            bounds.bounds(points@.take(i as int)),
            bounds.wf(),
        decreases points.len() - i,
    {
        assert(points@.take(i as int).push(points@[i as int]) == points@.take(i + 1));
        bounds = bounds.extend(points[i]);
        i += 1;
    }
    assert(points@.take(i as int) == points@);
    Some(bounds)
}

/// The bounding box of a point cloud is the only one, and holds every point.
pub proof fn lemma_bounds_unique(a: BoundingBox, b: BoundingBox, points: Seq<PointRecord>)
    requires
        a.bounds(points),
        b.bounds(points),
    ensures
        a == b,
        a.wf(),
        forall|i: int| 0 <= i < points.len() ==> a.holds(#[trigger] points[i]),
{
    assert forall|i: int| 0 <= i < points.len() implies a.holds(#[trigger] points[i]) by {
        assert(xs(points)[i] == points[i].x);
        assert(ys(points)[i] == points[i].y);
        assert(zs(points)[i] == points[i].z);
    }
    lemma_least_unique(a.min_x, b.min_x, xs(points));
    lemma_least_unique(a.min_y, b.min_y, ys(points));
    lemma_least_unique(a.min_z, b.min_z, zs(points));
    lemma_greatest_unique(a.max_x, b.max_x, xs(points));
    lemma_greatest_unique(a.max_y, b.max_y, ys(points));
    lemma_greatest_unique(a.max_z, b.max_z, zs(points));
    let i = choose|i: int| 0 <= i < xs(points).len() && xs(points)[i] == a.min_x;
    let j = choose|j: int| 0 <= j < ys(points).len() && ys(points)[j] == a.min_y;
    let k = choose|k: int| 0 <= k < zs(points).len() && zs(points)[k] == a.min_z;
    assert(a.min_x <= xs(points)[i] <= a.max_x);
    assert(a.min_y <= ys(points)[j] <= a.max_y);
    assert(a.min_z <= zs(points)[k] <= a.max_z);
}

/// Some values have one least value.
proof fn lemma_least_unique(a: u64, b: u64, values: Seq<u64>)
    requires
        is_least(a, values),
        is_least(b, values),
    ensures
        a == b,
{
    let i = choose|i: int| 0 <= i < values.len() && values[i] == a;
    let j = choose|j: int| 0 <= j < values.len() && values[j] == b;
    assert(b <= values[i]);
    assert(a <= values[j]);
}

/// Some values have one greatest value.
proof fn lemma_greatest_unique(a: u64, b: u64, values: Seq<u64>)
    requires
        is_greatest(a, values),
        is_greatest(b, values),
    ensures
        a == b,
{
    let i = choose|i: int| 0 <= i < values.len() && values[i] == a;
    let j = choose|j: int| 0 <= j < values.len() && values[j] == b;
    assert(values[i] <= b);
    assert(values[j] <= a);
}

} // verus!
