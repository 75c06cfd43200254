use snake_game::{Direction, Point};
use std::cmp::Ordering;

#[test]
fn points_add_component_wise() {
    let sum = Point { x: 3, y: -4 } + Point { x: 10, y: 20 };
    assert_eq!(sum, Point { x: 13, y: 16 });
}

#[test]
fn adding_the_zero_point_changes_nothing() {
    let p = Point { x: -7, y: 9 };
    assert_eq!(p + Point { x: 0, y: 0 }, p);
}

#[test]
fn points_add_up_to_the_limits_of_their_type() {
    let sum = Point { x: i16::MAX - 1, y: i16::MIN + 1 } + Point { x: 1, y: -1 };
    assert_eq!(sum, Point { x: i16::MAX, y: i16::MIN });
}

#[test]
fn up_is_one_row_less() {
    assert_eq!(Direction::Up.direction_to_Point(), Point { x: 0, y: -1 });
}

#[test]
fn down_is_one_row_more() {
    assert_eq!(Direction::Down.direction_to_Point(), Point { x: 0, y: 1 });
}

#[test]
fn left_is_one_column_less() {
    assert_eq!(Direction::Left.direction_to_Point(), Point { x: -1, y: 0 });
}

#[test]
fn right_is_one_column_more() {
    assert_eq!(Direction::Right.direction_to_Point(), Point { x: 1, y: 0 });
}

#[test]
fn opposite_headings_cancel() {
    let p = Point { x: 5, y: 5 };
    let there = p + Direction::Left.direction_to_Point();
    assert_eq!(there + Direction::Right.direction_to_Point(), p);
    let there = p + Direction::Up.direction_to_Point();
    assert_eq!(there + Direction::Down.direction_to_Point(), p);
}

#[test]
fn points_are_ordered_by_x_first() {
    assert!(Point { x: 1, y: 9 } < Point { x: 2, y: 0 });
    assert!(Point { x: 2, y: 0 } > Point { x: 1, y: 9 });
    assert!(!(Point { x: 2, y: 0 } < Point { x: 1, y: 9 }));
}

#[test]
fn points_with_one_x_are_ordered_by_y() {
    assert!(Point { x: 4, y: 1 } < Point { x: 4, y: 2 });
    assert!(Point { x: 4, y: 2 } >= Point { x: 4, y: 1 });
    assert!(Point { x: 4, y: 2 } <= Point { x: 4, y: 2 });
}

#[test]
fn partial_and_total_order_of_points_agree() {
    let points = [
        Point { x: -1, y: 3 },
        Point { x: 0, y: 0 },
        Point { x: 0, y: 1 },
        Point { x: 2, y: -5 },
        Point { x: 2, y: 7 },
    ];
    for a in points.iter() {
        for b in points.iter() {
            assert_eq!(a.partial_cmp(b), Some(a.cmp(b)));
        }
    }
    assert_eq!(points[0].partial_cmp(&points[1]), Some(Ordering::Less));
    assert_eq!(points[4].partial_cmp(&points[3]), Some(Ordering::Greater));
    assert_eq!(points[2].partial_cmp(&points[2]), Some(Ordering::Equal));
}

#[test]
fn sorting_points_puts_columns_before_rows() {
    let mut points = vec![
        Point { x: 2, y: 1 },
        Point { x: 1, y: 2 },
        Point { x: 1, y: 1 },
        Point { x: 2, y: 0 },
    ];
    points.sort();
    assert_eq!(
        points,
        vec![
            Point { x: 1, y: 1 },
            Point { x: 1, y: 2 },
            Point { x: 2, y: 0 },
            Point { x: 2, y: 1 },
        ]
    );
}
