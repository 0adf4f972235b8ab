use datatool::bounds::compute_bounds;
use datatool::bounds::key_from_bits;
use datatool::bounds::key_to_bits;
use datatool::bounds::AxisTransform;
use datatool::bounds::BoundingBox;
use datatool::bounds::PointRecord;
use datatool::bounds::SCALE_BITS;

fn key(value: f64) -> u64 {
    key_from_bits(value.to_bits())
}

fn value(key: u64) -> f64 {
    f64::from_bits(key_to_bits(key))
}

fn point(x: f64, y: f64, z: f64) -> PointRecord {
    PointRecord { x: key(x), y: key(y), z: key(z) }
}

#[test]
fn keys_and_encodings_stand_for_each_other() {
    for v in [0.0, -0.0, 1.0, -1.0, 0.001, 1e300, -1e300, f64::MIN_POSITIVE, f64::INFINITY] {
        assert_eq!(value(key(v)).to_bits(), v.to_bits());
    }
    for k in [0u64, 1, u64::MAX, 0x8000_0000_0000_0000, 0x7FFF_FFFF_FFFF_FFFF] {
        assert_eq!(key_from_bits(key_to_bits(k)), k);
    }
    assert_eq!(key_from_bits(0), 0x8000_0000_0000_0000);
    assert_eq!(key_from_bits(0x8000_0000_0000_0000), 0x7FFF_FFFF_FFFF_FFFF);
    assert_eq!(key_to_bits(0), u64::MAX);
}

#[test]
fn keys_compare_as_the_numbers_do() {
    let ascending = [
        f64::NEG_INFINITY,
        -1e300,
        -10.5,
        -1.0,
        -0.001,
        -f64::MIN_POSITIVE,
        0.0,
        f64::MIN_POSITIVE,
        0.001,
        1.0,
        10.0,
        10.000000000000002,
        1e300,
        f64::INFINITY,
    ];
    for pair in ascending.windows(2) {
        assert!(pair[0] < pair[1]);
        assert!(key(pair[0]) < key(pair[1]));
    }
    assert!(key(-0.0) < key(0.0));
}

#[test]
fn scale_is_one_thousandth() {
    assert_eq!(f64::from_bits(SCALE_BITS), 0.001);
    assert_eq!(SCALE_BITS, 0.001f64.to_bits());
}

#[test]
fn bounding_box_of_two_points() {
    let bounds = compute_bounds(&vec![point(0.0, 0.0, 0.0), point(10.0, 10.0, 10.0)]).unwrap();
    assert_eq!(value(bounds.min_x), 0.0);
    assert_eq!(value(bounds.min_y), 0.0);
    assert_eq!(value(bounds.min_z), 0.0);
    assert_eq!(value(bounds.max_x), 10.0);
    assert_eq!(value(bounds.max_y), 10.0);
    assert_eq!(value(bounds.max_z), 10.0);
    let transforms = bounds.transforms();
    for axis in [transforms.x, transforms.y, transforms.z] {
        assert_eq!(value(axis.offset), 0.0);
        assert_eq!(value(axis.scale), 0.001);
    }
}

#[test]
fn bounding_box_takes_each_axis_by_itself() {
    let points = vec![
        point(3.0, -2.0, 100.0),
        point(-7.5, 4.0, 50.0),
        point(1.0, 9.0, 75.0),
        point(0.0, -3.0, 60.0),
    ];
    let bounds = compute_bounds(&points).unwrap();
    assert_eq!(
        (value(bounds.min_x), value(bounds.max_x)),
        (-7.5, 3.0)
    );
    assert_eq!(
        (value(bounds.min_y), value(bounds.max_y)),
        (-3.0, 9.0)
    );
    assert_eq!(
        (value(bounds.min_z), value(bounds.max_z)),
        (50.0, 100.0)
    );
    assert!(bounds.min_x <= bounds.max_x);
    assert!(bounds.min_y <= bounds.max_y);
    assert!(bounds.min_z <= bounds.max_z);
    for p in points.iter() {
        assert!(bounds.min_x <= p.x && p.x <= bounds.max_x);
        assert!(bounds.min_y <= p.y && p.y <= bounds.max_y);
        assert!(bounds.min_z <= p.z && p.z <= bounds.max_z);
    }
}

#[test]
fn bounding_box_of_one_point() {
    let p = point(1.5, -2.5, 3.5);
    let bounds = compute_bounds(&vec![p]).unwrap();
    assert_eq!(bounds, BoundingBox::of_point(p));
    assert_eq!(
        bounds,
        BoundingBox { min_x: p.x, max_x: p.x, min_y: p.y, max_y: p.y, min_z: p.z, max_z: p.z }
    );
}

#[test]
fn bounding_box_of_no_point() {
    assert_eq!(compute_bounds(&Vec::new()), None);
}

#[test]
fn extend_grows_the_box_to_hold_the_point() {
    let bounds = BoundingBox::of_point(point(1.0, 1.0, 1.0));
    let grown = bounds.extend(point(0.0, 5.0, 1.0));
    assert_eq!((value(grown.min_x), value(grown.max_x)), (0.0, 1.0));
    assert_eq!((value(grown.min_y), value(grown.max_y)), (1.0, 5.0));
    assert_eq!((value(grown.min_z), value(grown.max_z)), (1.0, 1.0));
    assert_eq!(grown.extend(point(0.5, 2.0, 1.0)), grown);
}

#[test]
fn transforms_start_at_the_minimum() {
    let bounds = compute_bounds(&vec![point(-4.0, 2.0, 8.0), point(6.0, -1.0, 9.0)]).unwrap();
    let transforms = bounds.transforms();
    assert_eq!(transforms.x, AxisTransform { scale: key(0.001), offset: key(-4.0) });
    assert_eq!(transforms.y, AxisTransform { scale: key(0.001), offset: key(-1.0) });
    assert_eq!(transforms.z, AxisTransform { scale: key(0.001), offset: key(8.0) });
}
