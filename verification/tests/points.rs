use perf_grouping::points::make_points;
use perf_grouping::points::make_points_seeded;
use perf_grouping::points::label_bytes;
use perf_grouping::points::LAT_MIN_MICRO;
use perf_grouping::points::LAT_SPAN_MICRO;
use perf_grouping::points::LON_MIN_MICRO;
use perf_grouping::points::LON_SPAN_MICRO;
use perf_grouping::points::SYMBOL_SIZE_DECI;

#[test]
fn generation_is_deterministic() {
    let a = make_points(50);
    let b = make_points(50);
    assert_eq!(a.len(), b.len());
    for (p, q) in a.iter().zip(b.iter()) {
        assert_eq!(p.lon_micro, q.lon_micro);
        assert_eq!(p.lat_micro, q.lat_micro);
        assert_eq!(p.label, q.label);
        assert_eq!(p.symbol_size_deci, q.symbol_size_deci);
    }
}

#[test]
fn points_fall_inside_bounding_box() {
    let pts = make_points(200);
    assert_eq!(pts.len(), 200);
    for p in &pts {
        assert!(LON_MIN_MICRO <= p.lon_micro && p.lon_micro < LON_MIN_MICRO + LON_SPAN_MICRO);
        assert!(LAT_MIN_MICRO <= p.lat_micro && p.lat_micro < LAT_MIN_MICRO + LAT_SPAN_MICRO);
        assert_eq!(p.symbol_size_deci, SYMBOL_SIZE_DECI);
    }
}

#[test]
fn labels_follow_the_index_pattern() {
    let pts = make_points(150);
    for (i, p) in pts.iter().enumerate() {
        assert_eq!(p.label, format!("P{}", i).into_bytes());
    }
}

#[test]
fn labels_are_unique() {
    let pts = make_points(200);
    for i in 0..pts.len() {
        for j in 0..pts.len() {
            if i != j {
                assert_ne!(pts[i].label, pts[j].label);
            }
        }
    }
}

#[test]
fn label_bytes_exact_values() {
    assert_eq!(label_bytes(0), b"P0".to_vec());
    assert_eq!(label_bytes(7), b"P7".to_vec());
    assert_eq!(label_bytes(10), b"P10".to_vec());
    assert_eq!(label_bytes(119), b"P119".to_vec());
    assert_eq!(label_bytes(2000), b"P2000".to_vec());
}

#[test]
fn coordinates_vary_across_points() {
    // A generator that handed back a constant would fail this: among the
    // first ten points some pair must differ in its coordinates.
    let pts = make_points(10);
    let varies = pts
        .iter()
        .any(|p| p.lon_micro != pts[0].lon_micro || p.lat_micro != pts[0].lat_micro);
    assert!(varies);
}

#[test]
fn different_seeds_give_different_streams() {
    let a = make_points_seeded(1, 10);
    let b = make_points_seeded(2, 10);
    let differs = a
        .iter()
        .zip(b.iter())
        .any(|(p, q)| p.lon_micro != q.lon_micro || p.lat_micro != q.lat_micro);
    assert!(differs);
}
