use dodge_shoot::geometry::aabb_overlap;

#[test]
fn overlapping_boxes_overlap() {
    assert!(aabb_overlap(0, 0, 10, 10, 5, 5, 10, 10));
    assert!(aabb_overlap(100, 50, 3, 6, 98, 48, 12, 8));
}

#[test]
fn distant_boxes_do_not_overlap() {
    assert!(!aabb_overlap(0, 0, 10, 10, 20, 0, 10, 10));
    assert!(!aabb_overlap(0, 0, 10, 10, 0, 20, 10, 10));
    assert!(!aabb_overlap(0, 0, 10, 10, 5, 20, 10, 10));
}

#[test]
fn shared_edge_is_no_overlap() {
    assert!(!aabb_overlap(0, 0, 10, 10, 10, 0, 10, 10));
    assert!(!aabb_overlap(10, 0, 10, 10, 0, 0, 10, 10));
    assert!(!aabb_overlap(0, 0, 10, 10, 0, 10, 10, 10));
    assert!(!aabb_overlap(0, 10, 10, 10, 0, 0, 10, 10));
}

#[test]
fn shared_corner_is_no_overlap() {
    assert!(!aabb_overlap(0, 0, 10, 10, 10, 10, 10, 10));
    assert!(!aabb_overlap(10, 10, 10, 10, 0, 0, 10, 10));
    assert!(!aabb_overlap(0, 10, 10, 10, 10, 0, 10, 10));
}

#[test]
fn one_pixel_inside_overlaps() {
    assert!(aabb_overlap(0, 0, 10, 10, 9, 9, 10, 10));
    assert!(aabb_overlap(0, 0, 10, 10, 9, 0, 10, 10));
}

#[test]
fn nested_boxes_overlap() {
    assert!(aabb_overlap(0, 0, 100, 100, 40, 40, 5, 5));
    assert!(aabb_overlap(40, 40, 5, 5, 0, 0, 100, 100));
    assert!(aabb_overlap(0, 0, 100, 100, 0, 0, 100, 100));
    assert!(aabb_overlap(0, 0, 100, 100, 0, 0, 1, 1));
    assert!(aabb_overlap(0, 0, 100, 100, 99, 99, 1, 1));
}

#[test]
fn overlap_is_symmetric() {
    let mut seed: u32 = 1;
    let mut next = || {
        seed = seed.wrapping_mul(1664525).wrapping_add(1013904223);
        ((seed >> 16) % 41) as i32 - 10
    };
    for _ in 0..5000 {
        let (ax, ay, aw, ah) = (next(), next(), next(), next());
        let (bx, by, bw, bh) = (next(), next(), next(), next());
        assert_eq!(
            aabb_overlap(ax, ay, aw, ah, bx, by, bw, bh),
            aabb_overlap(bx, by, bw, bh, ax, ay, aw, ah)
        );
    }
}

#[test]
fn extreme_coordinates_do_not_overflow() {
    assert!(aabb_overlap(i32::MAX - 5, 0, 10, 10, i32::MAX - 2, 0, i32::MAX, 10));
    assert!(!aabb_overlap(i32::MIN, i32::MIN, 10, 10, i32::MAX, i32::MAX, i32::MAX, i32::MAX));
    assert!(aabb_overlap(i32::MIN, i32::MIN, i32::MAX, i32::MAX, i32::MIN, i32::MIN, 1, 1));
}

#[test]
fn empty_box_never_overlaps_its_container_edge() {
    assert!(!aabb_overlap(0, 0, 10, 10, 0, 0, 0, 0));
    assert!(aabb_overlap(0, 0, 10, 10, 5, 5, 0, 0));
}
