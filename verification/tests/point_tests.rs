use reveal_engine::point::{Point, Rectangle};
use reveal_engine::pointset::{PointMap, PointSet};

#[test]
fn corners() {
    let rect = Rectangle::from((10, 20, 8, 4));
    assert_eq!(rect.top_left(), Point::from((10, 20)));
    assert_eq!(rect.bottom_left(), Point::from((10, 24)));
    assert_eq!(rect.top_right(), Point::from((18, 20)));
    assert_eq!(rect.bottom_right(), Point::from((18, 24)));
}

#[test]
fn iter_line_1() {
    let from = Point::from((2, 1));
    let to = Point::from((8, 5));
    let mut result = Vec::<Point>::new();
    result.push((2, 1).into());
    result.push((3, 2).into());
    result.push((4, 2).into());
    result.push((5, 3).into());
    result.push((6, 4).into());
    result.push((7, 4).into());
    result.push((8, 5).into());

    let n_result = result.len();
    let mut n_algorithm = 0;
    for (point_result, point_algorithm) in result.into_iter().zip(from.line_to(&to)) {
        assert_eq!(point_result, point_algorithm);
        n_algorithm += 1;
    }
    assert_eq!(n_algorithm, n_result);
}

#[test]
fn iter_line_2() {
    let from = Point::from((3, 5));
    let to = Point::from((3, 5));
    let mut result = Vec::<Point>::new();
    result.push((3, 5).into());

    let n_result = result.len();
    let mut n_algorithm = 0;
    for (point_result, point_algorithm) in result.into_iter().zip(from.line_to(&to)) {
        assert_eq!(point_result, point_algorithm);
        n_algorithm += 1;
    }
    assert_eq!(n_algorithm, n_result);
}

#[test]
fn line_has_one_point_for_each_step_along_the_longer_side() {
    let line = Point::new(2, 1).line_to(&Point::new(8, 5));
    assert_eq!(line.len(), 7);
    let steep = Point::new(0, 0).line_to(&Point::new(-2, -9));
    assert_eq!(steep.len(), 10);
    assert_eq!(steep[0], Point::new(0, 0));
    assert_eq!(steep[9], Point::new(-2, -9));
    for pair in steep.windows(2) {
        assert_eq!(pair[1].y, pair[0].y - 1);
        assert!(pair[1].x == pair[0].x || pair[1].x == pair[0].x - 1);
    }
}

#[test]
fn line_rounds_down_from_the_middle() {
    // Halfway between two rows the line takes the nearer one to its start.
    let line = Point::new(0, 0).line_to(&Point::new(2, 1));
    assert_eq!(line, vec![Point::new(0, 0), Point::new(1, 0), Point::new(2, 1)]);
    let back = Point::new(2, 1).line_to(&Point::new(0, 0));
    assert_eq!(back, vec![Point::new(2, 1), Point::new(1, 1), Point::new(0, 0)]);
}

#[test]
fn line_along_an_axis_and_a_diagonal() {
    assert_eq!(
        Point::new(1, 1).line_to(&Point::new(1, 4)),
        vec![Point::new(1, 1), Point::new(1, 2), Point::new(1, 3), Point::new(1, 4)]
    );
    assert_eq!(
        Point::new(0, 0).line_to(&Point::new(-3, 3)),
        vec![Point::new(0, 0), Point::new(-1, 1), Point::new(-2, 2), Point::new(-3, 3)]
    );
}

#[test]
fn line_between_far_corners_does_not_overflow() {
    let from = Point::new(i32::MAX - 2, i32::MIN);
    let to = Point::new(i32::MAX, i32::MIN + 1);
    assert_eq!(from.line_to(&to), vec![from, Point::new(i32::MAX - 1, i32::MIN), to]);
}

#[test]
fn point_arithmetic() {
    assert_eq!(Point::new(1, 2) + Point::new(10, 20), Point::new(11, 22));
    assert_eq!(Point::new(1, 2) - Point::new(10, 20), Point::new(-9, -18));
    assert_eq!(Point::new(1, 2).offset(-1, 5), Point::new(0, 7));
    assert_eq!(Point::default(), Point::new(0, 0));
    assert_eq!(Point::new(i32::MAX, 0).checked_offset(1, 0), None);
    assert_eq!(Point::new(0, i32::MIN).checked_offset(0, -1), None);
    assert_eq!(Point::new(5, 5).checked_offset(-1, 1), Some(Point::new(4, 6)));
}

#[test]
fn rectangle_measures() {
    let rect = Rectangle::from((10, 20, 8, 4));
    assert_eq!(rect.width(), 9);
    assert_eq!(rect.height(), 5);
    assert_eq!(rect.size(), Point::new(9, 5));
    assert_eq!(rect.center(), Point::new(14, 22));
    assert!(rect.contains(&Point::new(10, 20)));
    assert!(rect.contains(&Point::new(18, 24)));
    assert!(!rect.contains(&Point::new(19, 24)));
    assert!(!rect.contains(&Point::new(10, 19)));
    let odd = Rectangle { x1: 0, y1: 0, x2: 3, y2: -3 };
    assert_eq!(odd.center(), Point::new(1, -1));
}

#[test]
fn rectangle_iter_walks_rows_from_left_to_right() {
    let rect = Rectangle::from((1, 2, 2, 1));
    assert_eq!(
        rect.iter(),
        vec![
            Point::new(1, 2),
            Point::new(2, 2),
            Point::new(3, 2),
            Point::new(1, 3),
            Point::new(2, 3),
            Point::new(3, 3),
        ]
    );
    let turned = Rectangle { x1: 3, y1: 3, x2: 1, y2: 2 };
    assert_eq!(turned.iter(), rect.iter());
    let single = Rectangle { x1: 7, y1: 7, x2: 7, y2: 7 };
    assert_eq!(single.iter(), vec![Point::new(7, 7)]);
}

#[test]
fn point_set_holds_each_point_once() {
    let mut set = PointSet::new();
    assert!(set.is_empty());
    assert!(set.insert(Point::new(1, -1)));
    assert!(!set.insert(Point::new(1, -1)));
    assert!(set.insert(Point::new(-1, 1)));
    assert!(set.insert(Point::new(i32::MIN, i32::MAX)));
    assert_eq!(set.len(), 3);
    assert!(set.contains(&Point::new(-1, 1)));
    assert!(set.contains(&Point::new(i32::MIN, i32::MAX)));
    assert!(!set.contains(&Point::new(i32::MAX, i32::MIN)));
    let mut all = set.to_vec();
    all.sort_by_key(|p| (p.x, p.y));
    assert_eq!(all, vec![Point::new(i32::MIN, i32::MAX), Point::new(-1, 1), Point::new(1, -1)]);
    let copy = set.clone();
    assert_eq!(copy.len(), 3);
    assert!(copy.contains(&Point::new(1, -1)));
}

#[test]
fn point_set_square_is_clipped_at_the_edge_of_the_grid() {
    let mut set = PointSet::new();
    set.insert_square(Point::new(0, 0), 1);
    assert_eq!(set.len(), 9);
    let mut edge = PointSet::new();
    edge.insert_square(Point::new(i32::MAX, i32::MIN), 2);
    assert_eq!(edge.len(), 9);
    assert!(edge.contains(&Point::new(i32::MAX - 2, i32::MIN + 2)));
    let mut none = PointSet::new();
    none.insert_square(Point::new(0, 0), -1);
    assert!(none.is_empty());
}

#[test]
fn point_map_keeps_values_by_position() {
    let mut map = PointMap::<u8>::new();
    assert_eq!(map.insert(Point::new(2, 3), 7), None);
    assert_eq!(map.insert(Point::new(2, 3), 8), Some(7));
    assert_eq!(map.insert(Point::new(3, 2), 9), None);
    assert_eq!(map.get(&Point::new(2, 3)), Some(&8));
    assert_eq!(map.get(&Point::new(0, 0)), None);
    assert!(map.contains_key(&Point::new(3, 2)));
    if let Some(v) = map.get_mut(&Point::new(3, 2)) {
        *v = 1;
    }
    assert_eq!(map.get(&Point::new(3, 2)), Some(&1));
    let mut points = map.points();
    points.sort_by_key(|p| (p.x, p.y));
    assert_eq!(points, vec![Point::new(2, 3), Point::new(3, 2)]);
}

#[test]
fn point_set_takes_all_points_of_a_list() {
    let mut set = PointSet::new();
    set.insert(Point::new(0, 0));
    set.insert_all(&vec![Point::new(1, 1), Point::new(0, 0), Point::new(1, 1), Point::new(2, 2)]);
    assert_eq!(set.len(), 3);
    assert!(set.contains(&Point::new(2, 2)));
    set.insert_all(&vec![]);
    assert_eq!(set.len(), 3);
}
