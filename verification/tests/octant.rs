use trezor_canvas::octant::{alpha, octant_points, split_of};

fn collect(radius: i16) -> Vec<(i16, i16, u8, bool, bool)> {
    let mut it = octant_points(radius);
    let mut v = Vec::new();
    while let Some(p) = it.next() {
        v.push(p);
    }
    v
}

#[test]
fn radius_zero_is_one_point_of_full_coverage() {
    assert_eq!(collect(0), vec![(0, 0, 255, true, true)]);
}

#[test]
fn radius_five_walks_to_the_diagonal() {
    assert_eq!(
        collect(5),
        vec![
            (5, 0, 255, true, false),
            (5, 1, 204, false, false),
            (5, 2, 102, false, true),
            (4, 3, 204, true, true),
        ]
    );
}

#[test]
fn radius_ten_matches_the_midpoint_walk() {
    assert_eq!(
        collect(10),
        vec![
            (10, 0, 255, true, false),
            (10, 1, 230, false, false),
            (10, 2, 179, false, false),
            (10, 3, 102, false, true),
            (9, 4, 255, true, false),
            (9, 5, 128, false, true),
            (8, 6, 204, true, true),
            (7, 7, 230, true, true),
        ]
    );
}

#[test]
fn every_point_has_x_at_least_y_and_y_counts_up() {
    for r in 0..200i16 {
        let pts = collect(r);
        assert!(!pts.is_empty());
        assert!(pts.len() <= r as usize + 1);
        assert_eq!(pts[0].0, r);
        let mut prev_x = r;
        for (i, p) in pts.iter().enumerate() {
            assert!(p.0 >= p.1);
            assert_eq!(p.1 as usize, i);
            assert!(p.0 <= prev_x);
            prev_x = p.0;
            if r > 0 {
                assert!(p.2 >= 1);
            }
        }
        assert_eq!(split_of(r), pts[pts.len() - 1].0);
    }
}

#[test]
fn negative_radius_gives_no_point() {
    assert!(collect(-3).is_empty());
    assert_eq!(split_of(-3), 0);
}

#[test]
fn the_walk_can_be_started_again() {
    assert_eq!(collect(16), collect(16));
    assert_eq!(collect(16).len(), 12);
    assert_eq!(collect(16)[0], (16, 0, 240, true, false));
}

#[test]
fn alpha_scales_the_error_term() {
    assert_eq!(alpha(0, 0), 255);
    assert_eq!(alpha(0, 7), 255);
    assert_eq!(alpha(1, 5), 204);
    assert_eq!(alpha(5, 5), 0);
    assert_eq!(alpha(4, 16), 192);
}
