use rect_overlap::{compute_overlap, detect_overlapping_pairs, RectObj};

fn rect(name: &str, x: i64, y: i64, width: i64, height: i64) -> RectObj {
    RectObj { name: name.to_string(), properties: None, width, height, x, y }
}

#[test]
fn overlapping_rectangles_same_origin() {
    let r0 = rect("Rect0", 0, 0, 2, 2);
    let r1 = rect("Rect1", 0, 0, 2, 2);

    assert_eq!(compute_overlap(&r0, &r1), 4);
}

#[test]
fn overlapping_rectangles_offset_00() {
    let r0 = rect("Rect0", 0, 0, 2, 2);
    let r1 = rect("Rect1", -1, 1, 2, 2);

    assert_eq!(compute_overlap(&r0, &r1), 1);
}

#[test]
fn overlapping_rectangles_offset_01() {
    let r0 = rect("Rect0", 0, 0, 2, 2);
    let r1 = rect("Rect1", -1, -1, 2, 2);

    assert_eq!(compute_overlap(&r0, &r1), 1);
}

#[test]
fn overlapping_rectangles_offset_02() {
    let r0 = rect("Rect0", 0, 0, 2, 2);
    let r1 = rect("Rect1", -1, 0, 2, 2);

    assert_eq!(compute_overlap(&r0, &r1), 2);
}

#[test]
fn overlapping_rectangles_offset_03() {
    let r0 = rect("Rect0", -1, 0, 2, 2);
    let r1 = rect("Rect1", 0, 0, 2, 2);

    assert_eq!(compute_overlap(&r0, &r1), 2);
}

#[test]
fn non_overlapping_rectangles_touching() {
    let r0 = rect("Rect0", 0, 0, 2, 2);
    let r1 = rect("Rect1", -2, -2, 2, 2);

    assert_eq!(compute_overlap(&r0, &r1), 0);
}

#[test]
fn non_overlapping_rectangles_not_touching() {
    let r0 = rect("Rect0", 0, 0, 2, 2);
    let r1 = rect("Rect1", -3, -2, 2, 2);

    assert_eq!(compute_overlap(&r0, &r1), 0);
}

#[test]
fn find_overlapping_rectangles() {
    let r0 = rect("Rect0", -1, 0, 2, 2);
    let r1 = rect("Rect1", 0, 0, 2, 2);

    let rects = vec![r0, r1];
    let overlap = detect_overlapping_pairs(&rects);

    assert_eq!(overlap[0].0.name, rects[0].name);
    assert_eq!(overlap[0].0.width, rects[0].width);
    assert_eq!(overlap[0].0.height, rects[0].height);
    assert_eq!(overlap[0].0.x, rects[0].x);
    assert_eq!(overlap[0].0.y, rects[0].y);
    assert_eq!(overlap[0].1.name, rects[1].name);
    assert_eq!(overlap[0].1.width, rects[1].width);
    assert_eq!(overlap[0].1.height, rects[1].height);
    assert_eq!(overlap[0].1.x, rects[1].x);
    assert_eq!(overlap[0].1.y, rects[1].y);
    assert_eq!(overlap[0].2, 2);
}
