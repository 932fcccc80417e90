use rect_overlap::{
    calculate_rect_area, compute_overlap, detect_overlapping_pairs, RectFlags, RectObj, RectProps,
};

fn rect(name: &str, x: i64, y: i64, width: i64, height: i64) -> RectObj {
    RectObj { name: name.to_string(), properties: None, width, height, x, y }
}

#[test]
fn overlap_is_symmetric() {
    let a = rect("A", 0, 0, 2, 2);
    let b = rect("B", -1, 1, 2, 2);
    assert_eq!(compute_overlap(&a, &b), compute_overlap(&b, &a));

    let c = rect("C", 5, -3, 7, 4);
    let d = rect("D", 2, -1, 10, 10);
    assert_eq!(compute_overlap(&c, &d), compute_overlap(&d, &c));
    assert_eq!(compute_overlap(&c, &d), 28);
}

#[test]
fn self_overlap_is_full_area() {
    let a = rect("A", -4, 7, 3, 5);
    assert_eq!(compute_overlap(&a, &a), 15);
    assert_eq!(compute_overlap(&a, &a), calculate_rect_area(a.width, a.height));
}

#[test]
fn zero_size_rectangle_overlaps_nothing() {
    let flat = rect("Flat", 0, 0, 5, 0);
    let thin = rect("Thin", 0, 0, 0, 5);
    let solid = rect("Solid", 0, 0, 5, 5);
    assert_eq!(compute_overlap(&flat, &solid), 0);
    assert_eq!(compute_overlap(&thin, &solid), 0);
    assert_eq!(compute_overlap(&solid, &flat), 0);
    assert_eq!(compute_overlap(&solid, &thin), 0);
    assert_eq!(compute_overlap(&flat, &flat), 0);
}

#[test]
fn touching_edge_does_not_overlap() {
    let a = rect("A", 0, 0, 2, 2);
    let right_edge = rect("R", 2, 0, 2, 2);
    let top_edge = rect("T", 0, 2, 2, 2);
    let corner = rect("C", 2, 2, 2, 2);
    assert_eq!(compute_overlap(&a, &right_edge), 0);
    assert_eq!(compute_overlap(&a, &top_edge), 0);
    assert_eq!(compute_overlap(&a, &corner), 0);
}

#[test]
fn disjoint_rectangles_do_not_overlap() {
    let a = rect("A", 0, 0, 2, 2);
    let far = rect("F", 100, -50, 3, 3);
    assert_eq!(compute_overlap(&a, &far), 0);
    assert_eq!(compute_overlap(&far, &a), 0);
}

#[test]
fn negative_dimensions_give_zero_overlap() {
    let inverted = rect("I", 0, 0, -2, 2);
    let solid = rect("S", -1, 0, 2, 2);
    assert_eq!(compute_overlap(&inverted, &solid), 0);
    assert_eq!(compute_overlap(&solid, &inverted), 0);
}

#[test]
fn area_of_rectangle() {
    assert_eq!(calculate_rect_area(3, 4), 12);
    assert_eq!(calculate_rect_area(0, 9), 0);
    assert_eq!(calculate_rect_area(-2, 3), -6);
    assert_eq!(
        calculate_rect_area(i64::MAX, i64::MAX),
        (i64::MAX as i128) * (i64::MAX as i128)
    );
}

#[test]
fn detect_on_empty_scene() {
    let rects: Vec<RectObj> = vec![];
    assert_eq!(detect_overlapping_pairs(&rects).len(), 0);
}

#[test]
fn detect_on_single_rectangle() {
    let rects = vec![rect("Only", 0, 0, 10, 10)];
    assert_eq!(detect_overlapping_pairs(&rects).len(), 0);
}

#[test]
fn detect_reports_each_unordered_pair_once() {
    // Three mutually overlapping rectangles: exactly 3 * 2 / 2 = 3 pairs,
    // in enumeration order, none repeated or reversed.
    let rects = vec![
        rect("Rect0", 0, 0, 4, 4),
        rect("Rect1", 1, -1, 4, 4),
        rect("Rect2", 2, -2, 4, 4),
    ];
    let overlap = detect_overlapping_pairs(&rects);
    assert_eq!(overlap.len(), 3);
    assert_eq!(overlap[0].0.name, "Rect0");
    assert_eq!(overlap[0].1.name, "Rect1");
    assert_eq!(overlap[1].0.name, "Rect0");
    assert_eq!(overlap[1].1.name, "Rect2");
    assert_eq!(overlap[2].0.name, "Rect1");
    assert_eq!(overlap[2].1.name, "Rect2");
    // Rect0 spans x 0..4, y -4..0; Rect1 spans x 1..5, y -5..-1:
    // the shared region is x 1..4, y -4..-1.
    assert_eq!(overlap[0].2, 9);
    assert_eq!(overlap[1].2, 4);
    assert_eq!(overlap[2].2, 9);
}

#[test]
fn detect_drops_pairs_without_overlap() {
    let rects = vec![
        rect("Rect0", 0, 0, 2, 2),
        rect("Rect1", 10, 0, 2, 2),
        rect("Rect2", 1, 0, 2, 2),
    ];
    let overlap = detect_overlapping_pairs(&rects);
    assert_eq!(overlap.len(), 1);
    assert_eq!(overlap[0].0.name, "Rect0");
    assert_eq!(overlap[0].1.name, "Rect2");
    assert_eq!(overlap[0].2, 2);
}

#[test]
fn detect_copies_properties_payload() {
    let mut a = rect("Rect0", 0, 0, 2, 2);
    a.properties = Some(RectProps {
        flags: RectFlags {
            name: "collides".to_string(),
            kind: "bool".to_string(),
            value: "true".to_string(),
        },
    });
    let b = rect("Rect1", 1, 0, 2, 2);
    let overlap = detect_overlapping_pairs(&vec![a, b]);
    assert_eq!(overlap.len(), 1);
    let props = overlap[0].0.properties.as_ref().expect("payload kept");
    assert_eq!(props.flags.name, "collides");
    assert_eq!(props.flags.kind, "bool");
    assert_eq!(props.flags.value, "true");
    assert!(overlap[0].1.properties.is_none());
}
