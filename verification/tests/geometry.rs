use level_graph::geometry::{all_corners, bounds, Corner, Element, EndFlag, Platform, StartFlag};

#[test]
fn corner_positions_odd_extents() {
    // Odd width and height pin the truncation direction of the midpoint.
    let p = Platform { x: 10, y: 20, w: 7, h: 9 };
    let xs = [
        (Corner { x: -1, y: -1 }, 10, 20),
        (Corner { x: -1, y: 0 }, 10, 24),
        (Corner { x: -1, y: 1 }, 10, 29),
        (Corner { x: 0, y: -1 }, 13, 20),
        (Corner { x: 0, y: 1 }, 13, 29),
        (Corner { x: 1, y: -1 }, 17, 20),
        (Corner { x: 1, y: 0 }, 17, 24),
        (Corner { x: 1, y: 1 }, 17, 29),
    ];
    for (c, ex, ey) in xs {
        assert_eq!(p.corner_x(&c), ex);
        assert_eq!(p.corner_y(&c), ey);
    }
}

#[test]
fn corner_midpoint_truncates_toward_zero() {
    // A negative extent makes the midpoint negative: 0 + (-7)/2 is -3
    // under Rust's truncating division, not -4.
    let p = Platform { x: 0, y: 0, w: -7, h: 9 };
    assert_eq!(p.corner_x(&Corner { x: 0, y: 1 }), -3);
}

#[test]
fn bounds_of_platform_is_its_rectangle() {
    let p = Platform { x: 3, y: 4, w: 50, h: 60 };
    assert_eq!(bounds(&Element::Plat(p)), (3, 4, 50, 60));
}

#[test]
fn bounds_of_flags_are_32_square() {
    assert_eq!(bounds(&Element::Start(StartFlag { x: 7, y: 8 })), (7, 8, 32, 32));
    assert_eq!(bounds(&Element::End(EndFlag { x: -1, y: -2 })), (-1, -2, 32, 32));
}

#[test]
fn all_corners_enumerates_the_eight_offsets() {
    let cs = all_corners();
    assert_eq!(cs.len(), 8);
    for cx in [-1i8, 0, 1] {
        for cy in [-1i8, 0, 1] {
            let present = cs.iter().any(|c| c.x == cx && c.y == cy);
            assert_eq!(present, !(cx == 0 && cy == 0));
        }
    }
}
