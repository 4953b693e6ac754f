use puddle_core::grid::{Location, Rectangle};

fn check_dist(r1: Rectangle, r2: Rectangle, expected: i32) {
    let actual1 = r1.collision_distance(&r2);
    let actual2 = r2.collision_distance(&r1);

    assert_eq!(actual1, actual2);
    assert_eq!(actual1, expected);
}

#[test]
fn test_rectangle_distance() {
    // simple test
    // a.b
    check_dist(
        Rectangle::new((0, 0), (1, 1)),
        Rectangle::new((2, 0), (1, 1)),
        1,
    );

    // diagonals should still collide
    // a.
    // .b
    check_dist(
        Rectangle::new((0, 0), (1, 1)),
        Rectangle::new((1, 1), (1, 1)),
        0,
    );

    // larger things
    // ....aa....
    // ....aa....
    // ..........
    // ..........
    // ...bbbb...
    check_dist(
        Rectangle::new((0, 4), (2, 2)),
        Rectangle::new((4, 3), (1, 4)),
        2,
    );

    // overlap
    // ....aa....
    // ....aXbb..
    check_dist(
        Rectangle::new((0, 4), (2, 2)),
        Rectangle::new((1, 5), (1, 3)),
        -1,
    );
}

#[test]
fn location_from_pair_puts_row_first() {
    let l = Location::from((3, -2));
    assert_eq!(l, Location { y: 3, x: -2 });
}

#[test]
fn location_neighbours() {
    let l = Location { y: 4, x: 7 };
    assert_eq!(l.north(), Location { y: 3, x: 7 });
    assert_eq!(l.south(), Location { y: 5, x: 7 });
    assert_eq!(l.west(), Location { y: 4, x: 6 });
    assert_eq!(l.east(), Location { y: 4, x: 8 });
}

#[test]
fn location_sum_and_difference() {
    let a = Location { y: 4, x: -7 };
    let b = Location { y: -1, x: 2 };
    assert_eq!(a + b, Location { y: 3, x: -5 });
    assert_eq!(a - b, Location { y: 5, x: -9 });
}

#[test]
fn location_norm_is_manhattan_length() {
    assert_eq!(Location { y: -3, x: 4 }.norm(), 7);
    assert_eq!(Location { y: 0, x: 0 }.norm(), 0);
    assert_eq!(Location { y: i32::MIN, x: i32::MAX }.norm(), u32::MAX);
}

#[test]
fn location_distance_is_manhattan() {
    let a = Location { y: 1, x: 1 };
    let b = Location { y: 4, x: -3 };
    assert_eq!(a.distance_to(b), 7);
    assert_eq!(b.distance_to(a), 7);
    assert_eq!(a.distance_to(a), 0);
    let far = Location { y: i32::MIN, x: 0 };
    let other = Location { y: i32::MAX, x: 0 };
    assert_eq!(far.distance_to(other), u32::MAX);
}

#[test]
fn location_order_is_by_row_then_column() {
    assert!(Location { y: 0, x: 9 } < Location { y: 1, x: 0 });
    assert!(Location { y: 1, x: 0 } < Location { y: 1, x: 1 });
}

#[test]
fn rectangle_edges() {
    let r = Rectangle::new((2, 5), (3, 4));
    assert_eq!(r.top_edge(), 2);
    assert_eq!(r.bottom_edge(), 5);
    assert_eq!(r.left_edge(), 5);
    assert_eq!(r.right_edge(), 9);
}

#[test]
fn rectangle_locations_are_row_major() {
    let r = Rectangle::new((1, 2), (2, 3));
    let cells = r.locations();
    assert_eq!(
        cells,
        vec![
            Location { y: 1, x: 2 },
            Location { y: 1, x: 3 },
            Location { y: 1, x: 4 },
            Location { y: 2, x: 2 },
            Location { y: 2, x: 3 },
            Location { y: 2, x: 4 },
        ]
    );
}

#[test]
fn rectangle_without_area_covers_nothing() {
    assert_eq!(Rectangle::new((1, 2), (0, 3)).locations().len(), 0);
    assert_eq!(Rectangle::new((1, 2), (3, -1)).locations().len(), 0);
}

#[test]
fn rectangle_at_the_last_cell_lists_it() {
    let r = Rectangle::new((i32::MAX, i32::MAX), (1, 1));
    assert_eq!(r.locations(), vec![Location { y: i32::MAX, x: i32::MAX }]);
}

#[test]
fn collision_distance_far_apart() {
    let a = Rectangle::new((i32::MIN, 0), (1, 1));
    let b = Rectangle::new((i32::MAX - 1, 0), (1, 1));
    // the rows are i32::MAX - 1 - (i32::MIN + 1) apart, which does not fit;
    // the columns overlap by one, so the row gap decides and we stay below it
    let c = Rectangle::new((0, 0), (1, 1));
    assert_eq!(a.collision_distance(&c), i32::MAX);
    assert_eq!(c.collision_distance(&b), i32::MAX - 2);
}

#[test]
fn collision_distance_is_symmetric_on_samples() {
    let samples = [
        Rectangle::new((0, 0), (1, 1)),
        Rectangle::new((0, 0), (3, 2)),
        Rectangle::new((-4, 2), (2, 5)),
        Rectangle::new((1, 1), (0, 0)),
        Rectangle::new((2, -3), (-1, 4)),
        Rectangle::new((5, 5), (1, 1)),
    ];
    for a in samples.iter() {
        for b in samples.iter() {
            assert_eq!(a.collision_distance(b), b.collision_distance(a));
        }
    }
}

#[test]
fn location_is_written_row_first() {
    assert_eq!(Location { y: 3, x: -2 }.to_string(), "(3, -2)");
    assert_eq!(Location { y: 0, x: 0 }.to_string(), "(0, 0)");
    assert_eq!(
        Location { y: i32::MIN, x: i32::MAX }.to_string(),
        "(-2147483648, 2147483647)"
    );
}

#[test]
fn location_text_is_read_back() {
    for l in [
        Location { y: 3, x: -2 },
        Location { y: 0, x: 0 },
        Location { y: i32::MIN, x: i32::MAX },
    ] {
        assert_eq!(Location::from_text(&l.to_string()), Ok(l));
    }
}

#[test]
fn rectangle_contains_its_cells_only() {
    let r = Rectangle::new((1, 2), (2, 3));
    assert!(r.contains(Location { y: 1, x: 2 }));
    assert!(r.contains(Location { y: 2, x: 4 }));
    assert!(!r.contains(Location { y: 3, x: 2 }));
    assert!(!r.contains(Location { y: 1, x: 5 }));
    assert!(!r.contains(Location { y: 0, x: 2 }));
    assert!(!r.contains(Location { y: 1, x: 1 }));
    assert!(!Rectangle::new((1, 2), (0, 3)).contains(Location { y: 1, x: 2 }));
}

#[test]
fn wide_collision_distance_covers_all_rectangles() {
    let a = Rectangle::new((i32::MIN, i32::MIN), (1, 1));
    let b = Rectangle::new((i32::MAX, i32::MAX), (1, 1));
    assert_eq!(a.wide_collision_distance(&b), 2 * i64::from(i32::MAX));
    assert_eq!(b.wide_collision_distance(&a), 2 * i64::from(i32::MAX));
}

#[test]
fn rectangle_contains_rows_and_columns_beyond_the_coordinates() {
    let r = Rectangle::new((i32::MAX, i32::MAX), (2, 2));
    assert!(r.contains_at(i64::from(i32::MAX), i64::from(i32::MAX)));
    assert!(r.contains_at(i64::from(i32::MAX) + 1, i64::from(i32::MAX) + 1));
    assert!(!r.contains_at(i64::from(i32::MAX) + 2, i64::from(i32::MAX)));
    assert!(!r.contains_at(i64::from(i32::MAX) - 1, i64::from(i32::MAX)));
}
