use endgame_grid::direction::Direction;
use endgame_grid::utils::rotated;
use endgame_grid::Color::{Four, One, Three, Two};
use endgame_grid::shape::{HashShape, HashShapeContainer};
use endgame_grid::{dynamic, hex, square, triangle};
use endgame_grid::{Color, Coord, DirectionType, ModuleCoord, ModuleShape, Shape, ShapeContainer};
use triangle::TrianglePoint;

#[test]
fn triangle_point() {
    assert_ne!(TrianglePoint::Up, TrianglePoint::Up.not());
}

#[test]
fn test_color_try_from_usize_success() {
    let cases = [(1, One), (2, Two), (3, Three), (4, Four)];
    for (value, expected) in cases {
        let got = Color::try_from(value).expect("Expected Ok for value {value}");
        assert_eq!(got, expected, "Color::try_from({value}) mismatch");
    }
}

#[test]
fn test_color_try_from_usize_failure() {
    // A sampling of invalid inputs, including 0 and values greater than 4.
    let cases = [0, 5, 6, 100];
    for value in cases {
        let err = Color::try_from(value).expect_err("Expected Err for value {value}");
        assert!(
            err.contains("1..=4") && err.contains(&value.to_string()),
            "Error message should mention range and value. Got: {err}"
        );
    }
}

#[test]
fn test_color_display() {
    let cases = [(One, "One"), (Two, "Two"), (Three, "Three"), (Four, "Four")];
    for (color, expected) in cases {
        let s = color.name();
        assert_eq!(s, expected, "Display mismatch for {:?}", color);
    }
}

#[test]
fn square_move_east() {
    let c = square::Coord::new(0, 0);
    let east = c
        .move_in_direction(DirectionType::Face, Direction::East)
        .expect("East should be allowed on a square grid");
    assert_eq!(east, square::Coord::new(1, 0));
    let back = east
        .move_in_direction(DirectionType::Face, Direction::West)
        .expect("West should be allowed on a square grid");
    assert_eq!(back, c);
}

#[test]
fn moves_and_opposites_return() {
    // Moving in an allowed direction and then in the opposite direction
    // returns to the start, on every topology; disallowed directions
    // yield nothing.
    let sq = square::Coord::new(3, -2);
    let hx = hex::Coord::new(-1, 4);
    let t1 = triangle::Coord::new(2, 1, TrianglePoint::Up);
    let t2 = triangle::Coord::new(-1, 0, TrianglePoint::Down);
    for dir_type in [DirectionType::Face, DirectionType::Vertex] {
        for dir in Direction::values().to_vec() {
            let allowed = sq.allowed_direction(dir_type, dir);
            match sq.move_in_direction(dir_type, dir) {
                Some(m) => {
                    assert!(allowed);
                    assert_ne!(m, sq);
                    assert_eq!(m.move_in_direction(dir_type, dir.opposite()), Some(sq));
                }
                None => assert!(!allowed),
            }
            match hx.move_in_direction(dir_type, dir) {
                Some(m) => {
                    assert_eq!(m.move_in_direction(dir_type, dir.opposite()), Some(hx));
                }
                None => assert!(!hx.allowed_direction(dir_type, dir)),
            }
            for t in [t1, t2] {
                match t.move_in_direction(dir_type, dir) {
                    Some(m) => {
                        assert_eq!(m.move_in_direction(dir_type, dir.opposite()), Some(t));
                    }
                    None => assert!(!t.allowed_direction(dir_type, dir)),
                }
            }
        }
    }
}

#[test]
fn rotations_and_reflections_cycle() {
    let sq = square::Coord::new(5, -3);
    assert_eq!(sq.rotate_clockwise().rotate_counterclockwise(), sq);
    let mut r = sq;
    for _ in 0..4 {
        r = r.rotate_clockwise();
    }
    assert_eq!(r, sq, "square rotation has period four");
    for axis in square::Coord::axes() {
        assert_eq!(sq.reflect(axis).reflect(axis), sq);
    }

    let hx = hex::Coord::new(2, -5);
    assert_eq!(hx.rotate_clockwise().rotate_counterclockwise(), hx);
    let mut r = hx;
    for _ in 0..6 {
        r = r.rotate_clockwise();
    }
    assert_eq!(r, hx, "hexagonal rotation has period six");
    for axis in hex::Coord::axes() {
        assert_eq!(hx.reflect(axis).reflect(axis), hx);
    }

    let tr = triangle::Coord::new(1, -2, TrianglePoint::Down);
    assert_eq!(tr.rotate_clockwise().rotate_counterclockwise(), tr);
    let mut r = tr;
    for _ in 0..3 {
        r = r.rotate_clockwise();
    }
    assert_eq!(r, tr, "triangular rotation has period three");
    for axis in triangle::Coord::axes() {
        assert_eq!(tr.reflect(axis).reflect(axis), tr);
    }
}

#[test]
fn module_arithmetic_laws_hold_on_samples() {
    let a = square::Coord::new(3, -7);
    let b = square::Coord::new(-2, 5);
    let c = square::Coord::new(10, 1);
    assert_eq!(a + b, b + a);
    assert_eq!((a + b) + c, a + (b + c));
    assert_eq!(a + (-a), square::Coord::origin());
    assert_eq!(a * 0isize, square::Coord::origin());
    assert_eq!(a * 1isize, a);
    assert_eq!((a + b) * 3isize, a * 3isize + b * 3isize);
    assert_eq!(a * 5isize, a * 2isize + a * 3isize);
    assert_eq!(a - b, -(b - a));

    let a = hex::Coord::new(4, -1);
    let b = hex::Coord::new(-3, 2);
    let c = hex::Coord::new(0, 6);
    assert_eq!(a + b, b + a);
    assert_eq!((a + b) + c, a + (b + c));
    assert_eq!(a + (-a), hex::Coord::origin());
    assert_eq!(a * 0isize, hex::Coord::origin());
    assert_eq!(a * 1isize, a);
    assert_eq!((a + b) * 4isize, a * 4isize + b * 4isize);
    assert_eq!(a * 6isize, (a * 2isize) * 3isize);
}

#[test]
fn colors_differ_on_adjacent_cells() {
    let coords_sq = [
        square::Coord::new(0, 0),
        square::Coord::new(3, 4),
        square::Coord::new(-2, 7),
    ];
    for c in coords_sq {
        for dir in c.allowed_directions(DirectionType::Face).to_vec() {
            let m = c.move_in_direction(DirectionType::Face, dir).unwrap();
            assert_ne!(c.to_color(), m.to_color());
        }
    }
    let coords_hx = [
        hex::Coord::new(0, 0),
        hex::Coord::new(2, -1),
        hex::Coord::new(-3, 5),
    ];
    for c in coords_hx {
        for dir in c.allowed_directions(DirectionType::Face).to_vec() {
            let m = c.move_in_direction(DirectionType::Face, dir).unwrap();
            assert_ne!(c.to_color(), m.to_color());
        }
    }
    let coords_tr = [
        triangle::Coord::new(0, 0, TrianglePoint::Up),
        triangle::Coord::new(1, -1, TrianglePoint::Down),
    ];
    for c in coords_tr {
        for dir in c.allowed_directions(DirectionType::Face).to_vec() {
            let m = c.move_in_direction(DirectionType::Face, dir).unwrap();
            assert_ne!(c.to_color(), m.to_color());
        }
    }
}

#[test]
fn array_offsets_round_trip() {
    for x in -5..=5 {
        for y in -5..=5 {
            let sq = square::Coord::new(x, y);
            assert_eq!(square::Coord::array_offset_to_grid(sq.grid_to_array_offset()), sq);
            let hx = hex::Coord::new(x, y);
            assert_eq!(hex::Coord::array_offset_to_grid(hx.grid_to_array_offset()), hx);
            for point in [TrianglePoint::Up, TrianglePoint::Down] {
                let tr = triangle::Coord::new(x, y, point);
                assert_eq!(
                    triangle::Coord::array_offset_to_grid(tr.grid_to_array_offset()),
                    tr
                );
            }
        }
    }
}

#[test]
fn triangle_array_offsets() {
    let up = triangle::Coord::new(0, 0, TrianglePoint::Up);
    assert_eq!(up.grid_to_array_offset(), (0, 0));
    let down = triangle::Coord::new(0, 0, TrianglePoint::Down);
    assert_eq!(down.grid_to_array_offset(), (1, 0));
}

#[test]
fn hex_ring_has_six_cells() {
    let ring = hex::Coord::ring(1);
    assert_eq!(ring.to_vec().len(), 6);
    for c in ring.to_vec() {
        assert_eq!(hex::Coord::origin().distance(&c), 1);
    }
}

#[test]
fn rings_and_ranges_are_disjoint() {
    for size in 0..10usize {
        for kind in [
            dynamic::Kind::Square,
            dynamic::Kind::Hex,
            dynamic::Kind::Triangle,
        ] {
            let ring = dynamic::Coord::ring(kind, size);
            assert!(!ring.is_empty(), "A ring should not be empty.");
            if size > 0 {
                let range = dynamic::Coord::range(kind, size - 1);
                assert!(!range.is_empty(), "A range should not be empty.");
                assert!(
                    range.is_disjoint(&ring),
                    "The ring of size {} should be disjoint from the range of size {}",
                    size,
                    size - 1
                );
            }
        }
    }
}

#[test]
fn ring_zero_is_the_origin() {
    for kind in [
        dynamic::Kind::Square,
        dynamic::Kind::Hex,
        dynamic::Kind::Triangle,
    ] {
        let ring = dynamic::Coord::ring(kind, 0);
        let cells = ring.to_vec();
        assert_eq!(cells.len(), 1);
        assert_eq!(cells[0], dynamic::Coord::origin(kind));
        assert!(cells[0].is_origin());
    }
}

#[test]
fn triangle_unit_ring() {
    let ring = triangle::Coord::ring(1);
    let mut cells = ring.to_vec();
    cells.sort_by_key(|c| {
        let (x, y, p) = c.parts();
        (x, y, p == TrianglePoint::Up)
    });
    assert_eq!(
        cells,
        vec![
            triangle::Coord::new(-1, 0, TrianglePoint::Down),
            triangle::Coord::new(0, -1, TrianglePoint::Down),
            triangle::Coord::new(0, 0, TrianglePoint::Down),
        ]
    );
}

#[test]
fn path_to_self_is_one_coordinate() {
    let sq = square::Coord::new(2, 3);
    let mut it = square::SquarePathIter::new(&sq, &sq);
    assert_eq!(it.next(), Some(sq));
    assert_eq!(it.next(), None);

    let hx = hex::Coord::new(-1, 2);
    let mut it = hex::HexLineIter::new(&hx, &hx);
    assert_eq!(it.next(), Some(hx));
    assert_eq!(it.next(), None);

    let tr = triangle::Coord::new(0, 1, TrianglePoint::Down);
    let mut it = triangle::TrianglePathIter::new(&tr, &tr);
    assert_eq!(it.next(), Some(tr));
    assert_eq!(it.next(), None);
}

#[test]
fn paths_have_distance_plus_one_cells() {
    let a = square::Coord::new(0, 0);
    let b = square::Coord::new(3, -2);
    let mut it = square::SquarePathIter::new(&a, &b);
    let mut cells = Vec::new();
    while let Some(c) = it.next() {
        cells.push(c);
    }
    assert_eq!(cells.len(), a.distance(&b) + 1);
    assert_eq!(cells[0], a);
    assert_eq!(*cells.last().unwrap(), b);
    for pair in cells.windows(2) {
        assert_eq!(pair[0].distance(&pair[1]), 1);
    }

    let a = hex::Coord::new(-2, 0);
    let b = hex::Coord::new(1, 2);
    let mut it = hex::HexLineIter::new(&a, &b);
    let mut cells = Vec::new();
    while let Some(c) = it.next() {
        cells.push(c);
    }
    assert_eq!(cells.len(), a.distance(&b) + 1);
    assert_eq!(cells[0], a);
    assert_eq!(*cells.last().unwrap(), b);
    for pair in cells.windows(2) {
        assert_eq!(pair[0].distance(&pair[1]), 1);
    }

    let a = triangle::Coord::new(0, 1, TrianglePoint::Up);
    let b = triangle::Coord::new(1, 4, TrianglePoint::Up);
    let mut it = triangle::TrianglePathIter::new(&a, &b);
    let mut cells = Vec::new();
    while let Some(c) = it.next() {
        cells.push(c);
    }
    assert_eq!(cells.len(), a.distance(&b) + 1);
    assert_eq!(cells[0], a);
    assert_eq!(*cells.last().unwrap(), b);
    for pair in cells.windows(2) {
        assert_eq!(pair[0].distance(&pair[1]), 1);
    }
}

#[test]
fn direction_iterators_step_away() {
    let sq = square::Coord::new(0, 0);
    let mut it = sq.direction_iterator(DirectionType::Face, Direction::North, ..=10usize);
    let mut cells = Vec::new();
    while let Some(c) = it.next() {
        cells.push(c);
    }
    assert_eq!(cells.len(), 11);
    assert_eq!(cells[0], sq);
    for (i, c) in cells.iter().enumerate() {
        assert_eq!(*c, square::Coord::new(0, i as i32));
    }

    // A disallowed direction gives an empty iterator.
    let mut it = sq.direction_iterator(DirectionType::Face, Direction::NorthEast, ..);
    assert_eq!(it.next(), None);

    let hx = hex::Coord::new(1, 1);
    let mut it = hx.axis_iterator(hex::Axes::Q, true, ..3usize);
    let mut cells = Vec::new();
    while let Some(c) = it.next() {
        cells.push(c);
    }
    assert_eq!(
        cells,
        vec![hex::Coord::new(1, 1), hex::Coord::new(1, 2), hex::Coord::new(1, 3)]
    );

    let tr = triangle::Coord::new(0, 0, TrianglePoint::Up);
    let mut it = tr.direction_iterator(DirectionType::Face, Direction::NorthEast, ..4usize);
    let mut cells = Vec::new();
    while let Some(c) = it.next() {
        cells.push(c);
    }
    assert_eq!(cells.len(), 4);
    assert_eq!(cells[0], tr);
    // The triangular iterator alternates face and vertex steps; each
    // coordinate is strictly farther from the start than the one before.
    for pair in cells.windows(2) {
        assert!(tr.distance(&pair[0]) < tr.distance(&pair[1]));
    }

    let mut it = tr.axis_iterator(triangle::Axes::A, true, ..=3usize);
    let mut cells = Vec::new();
    while let Some(c) = it.next() {
        cells.push(c);
    }
    assert_eq!(cells.len(), 4);
    assert_eq!(cells[0], tr);
}

#[test]
fn shape_algebra() {
    let a = square::Coord::new(0, 0);
    let b = square::Coord::new(1, 0);
    let c = square::Coord::new(2, 5);
    let s1 = HashShape::from_coords(vec![a, b]);
    let s2 = HashShape::from_coords(vec![b, c]);
    assert!(s1.contains(&a) && s1.contains(&b) && !s1.contains(&c));
    assert!(!s1.is_empty());
    assert!(HashShape::<square::Coord>::new().is_empty());

    let u = s1.union(&s2);
    assert!(u.contains(&a) && u.contains(&b) && u.contains(&c));
    assert_eq!(u.to_vec().len(), 3);

    let d = s1.difference(&s2);
    assert!(d.contains(&a) && !d.contains(&b));
    assert_eq!(d.to_vec().len(), 1);

    assert!(d.is_subshape(&s1));
    assert!(s1.is_supershape(&d));
    assert!(d.is_disjoint(&s2));
    assert!(!s1.is_disjoint(&s2));

    let t = s1.translate(&square::Coord::new(10, 0));
    assert!(t.contains(&square::Coord::new(10, 0)));
    assert!(t.contains(&square::Coord::new(11, 0)));
    assert!(!t.contains(&a));

    let mut it = s1.iter();
    let mut n = 0;
    while let Some(_) = it.next() {
        n += 1;
    }
    assert_eq!(n, 2);
}

#[test]
fn shape_container_binds_values() {
    let a = hex::Coord::new(0, 0);
    let b = hex::Coord::new(1, -1);
    let mut m: HashShapeContainer<hex::Coord, u32> = HashShapeContainer::new();
    assert!(m.is_empty());
    assert_eq!(m.insert(a, 7), None);
    assert_eq!(m.insert(b, 9), None);
    assert_eq!(m.insert(a, 8), Some(7));
    assert!(m.contains(&a));
    assert_eq!(m.get(&a), Some(&8));
    assert_eq!(m.get(&b), Some(&9));
    assert_eq!(m.get(&hex::Coord::new(5, 5)), None);

    let shape = m.as_shape();
    assert!(shape.contains(&a) && shape.contains(&b));
    assert_eq!(shape.to_vec().len(), 2);

    let mut it = m.iter();
    let mut seen = Vec::new();
    while let Some((c, v)) = it.next() {
        seen.push((c, *v));
    }
    seen.sort_by_key(|e| e.0.parts());
    assert_eq!(seen, vec![(a, 8), (b, 9)]);

    let shifted =
        endgame_grid::ModuleShapeContainer::translate(&m, &hex::Coord::new(0, 1));
    assert_eq!(shifted.get(&hex::Coord::new(0, 1)), Some(&8));
    assert_eq!(shifted.get(&hex::Coord::new(1, 0)), Some(&9));

    let filled = HashShapeContainer::from_shape_value(&shape, 1u32);
    assert_eq!(filled.get(&a), Some(&1));
    assert_eq!(filled.get(&b), Some(&1));
}

#[test]
fn dynamic_kinds() {
    assert_eq!(dynamic::Kind::Square.num_vertices(), 4);
    assert_eq!(dynamic::Kind::Hex.num_vertices(), 6);
    assert_eq!(dynamic::Kind::Triangle.num_vertices(), 3);
    assert!(dynamic::Kind::Square.is_modular());
    assert!(dynamic::Kind::Hex.is_modular());
    assert!(!dynamic::Kind::Triangle.is_modular());
    assert_eq!(dynamic::Kind::Square.axes().len(), 2);
    assert_eq!(dynamic::Kind::Hex.axes().len(), 3);
    assert_eq!(dynamic::Kind::Triangle.axes().len(), 3);
    for axis in dynamic::Kind::Hex.axes() {
        assert_eq!(axis.kind(), dynamic::Kind::Hex);
    }
}

#[test]
fn dynamic_coords_forward() {
    let c = dynamic::Coord::Square(square::Coord::new(2, 2));
    assert_eq!(c.kind(), dynamic::Kind::Square);
    assert!(!c.is_origin());
    let moved = c
        .move_in_direction(DirectionType::Face, Direction::East)
        .unwrap();
    assert_eq!(moved, dynamic::Coord::Square(square::Coord::new(3, 2)));
    assert_eq!(c.distance(&moved), 1);
    assert_eq!(c.rotate_clockwise().rotate_counterclockwise(), c);
    let axis = dynamic::Axes::Square(square::Axes::X);
    assert_eq!(
        c.move_on_axis(axis, true),
        dynamic::Coord::Square(square::Coord::new(3, 2))
    );
    assert_eq!(c.reflect(axis).reflect(axis), c);
    assert_eq!(
        c.to_color(),
        square::Coord::new(2, 2).to_color()
    );
}

#[test]
fn distances_match_the_topologies() {
    assert_eq!(
        square::Coord::new(0, 0).distance(&square::Coord::new(3, -4)),
        7
    );
    assert_eq!(hex::Coord::new(0, 0).distance(&hex::Coord::new(2, -1)), 2);
    assert_eq!(hex::Coord::new(0, 0).distance(&hex::Coord::new(1, 1)), 2);
    assert_eq!(
        triangle::Coord::new(0, 0, TrianglePoint::Up)
            .distance(&triangle::Coord::new(0, 0, TrianglePoint::Down)),
        1
    );
    assert_eq!(
        triangle::Coord::new(0, 0, TrianglePoint::Up)
            .distance(&triangle::Coord::new(1, 0, TrianglePoint::Up)),
        2
    );
}

#[test]
fn allowed_direction_tables() {
    let sq = square::Coord::new(0, 0);
    assert_eq!(sq.allowed_directions(DirectionType::Face).len(), 4);
    assert_eq!(sq.allowed_directions(DirectionType::Vertex).len(), 4);
    let hx = hex::Coord::new(0, 0);
    assert_eq!(hx.allowed_directions(DirectionType::Face).len(), 6);
    assert!(!hx.allowed_direction(DirectionType::Face, Direction::East));
    assert!(!hx.allowed_direction(DirectionType::Vertex, Direction::North));
    let up = triangle::Coord::new(0, 0, TrianglePoint::Up);
    let down = triangle::Coord::new(0, 0, TrianglePoint::Down);
    assert_eq!(up.allowed_directions(DirectionType::Face).len(), 3);
    assert!(up.allowed_direction(DirectionType::Face, Direction::NorthEast));
    assert!(!up.allowed_direction(DirectionType::Face, Direction::North));
    assert!(down.allowed_direction(DirectionType::Face, Direction::North));
    assert_eq!(
        up.allowed_directions(DirectionType::Vertex),
        down.allowed_directions(DirectionType::Face)
    );
}

#[test]
fn hex_cubical_round_trip() {
    let c = hex::Coord::new(3, -5);
    let cube = c.to_cubical();
    assert_eq!(cube.0 + cube.1 + cube.2, 0);
    assert_eq!(hex::Coord::from_cubical(cube), c);

    let t = triangle::Coord::new(2, -1, TrianglePoint::Up);
    let cube = t.to_cubical();
    assert_eq!(cube.0 + cube.1 + cube.2, 2);
    assert_eq!(triangle::Coord::from_cubical(cube), t);
    let t = triangle::Coord::new(2, -1, TrianglePoint::Down);
    let cube = t.to_cubical();
    assert_eq!(cube.0 + cube.1 + cube.2, 1);
    assert_eq!(triangle::Coord::from_cubical(cube), t);
}

#[test]
fn square_path_follows_the_line() {
    // From the origin to (2, 1) the walk hugs the straight line,
    // preferring the first axis on equal errors.
    let a = square::Coord::new(0, 0);
    let b = square::Coord::new(2, 1);
    let mut it = square::SquarePathIter::new(&a, &b);
    let mut cells = Vec::new();
    while let Some(c) = it.next() {
        cells.push(c);
    }
    assert_eq!(
        cells,
        vec![
            square::Coord::new(0, 0),
            square::Coord::new(1, 0),
            square::Coord::new(1, 1),
            square::Coord::new(2, 1),
        ]
    );
}

#[test]
fn reflections_cycle_through_the_axes() {
    // Reflecting across the topology's axes in turn eventually returns
    // to the original coordinate.
    let sq = square::Coord::new(4, -1);
    let mut r = sq;
    let mut count = 0;
    'outer_sq: loop {
        for axis in square::Coord::axes() {
            r = r.reflect(axis);
            count += 1;
            if r == sq {
                break 'outer_sq;
            }
            assert!(count < 100, "square reflections should cycle");
        }
    }

    let hx = hex::Coord::new(3, -2);
    let mut r = hx;
    let mut count = 0;
    'outer_hx: loop {
        for axis in hex::Coord::axes() {
            r = r.reflect(axis);
            count += 1;
            if r == hx {
                break 'outer_hx;
            }
            assert!(count < 100, "hexagonal reflections should cycle");
        }
    }

    let tr = triangle::Coord::new(2, 0, TrianglePoint::Up);
    let mut r = tr;
    let mut count = 0;
    'outer_tr: loop {
        for axis in triangle::Coord::axes() {
            r = r.reflect(axis);
            count += 1;
            if r == tr {
                break 'outer_tr;
            }
            assert!(count < 100, "triangular reflections should cycle");
        }
    }
}

#[test]
fn ring_sizes_match_the_boundary_lengths() {
    // A square ring of radius r holds eight times r cells, a hexagonal
    // ring six times r.
    for r in 1..6usize {
        assert_eq!(square::Coord::ring(r).to_vec().len(), 8 * r);
        assert_eq!(hex::Coord::ring(r).to_vec().len(), 6 * r);
    }
}

#[test]
fn dynamic_iterators_wrap_their_kind() {
    let c = dynamic::Coord::Hex(hex::Coord::new(0, 0));
    let mut it = c.direction_iterator(DirectionType::Face, Direction::North, ..3usize);
    let mut cells = Vec::new();
    while let Some(x) = it.next() {
        cells.push(x);
    }
    assert_eq!(
        cells,
        vec![
            dynamic::Coord::Hex(hex::Coord::new(0, 0)),
            dynamic::Coord::Hex(hex::Coord::new(0, 1)),
            dynamic::Coord::Hex(hex::Coord::new(0, 2)),
        ]
    );

    let a = dynamic::Coord::Square(square::Coord::new(0, 0));
    let b = dynamic::Coord::Square(square::Coord::new(2, 0));
    let mut it = a.path_iterator::<std::ops::RangeFull>(&b);
    let mut cells = Vec::new();
    while let Some(x) = it.next() {
        cells.push(x);
    }
    assert_eq!(cells.len(), 3);
    assert_eq!(cells[0], a);
    assert_eq!(cells[2], b);

    let axis = dynamic::Axes::Triangle(triangle::Axes::A);
    let t = dynamic::Coord::Triangle(triangle::Coord::new(0, 0, TrianglePoint::Up));
    let mut it = t.axis_iterator(axis, true, ..2usize);
    let mut n = 0;
    while let Some(x) = it.next() {
        assert_eq!(x.kind(), dynamic::Kind::Triangle);
        n += 1;
    }
    assert_eq!(n, 2);
}

#[test]
fn shape_equality_ignores_order() {
    let a = square::Coord::new(0, 0);
    let b = square::Coord::new(1, 0);
    let s1 = HashShape::from_coords(vec![a, b]);
    let s2 = HashShape::from_coords(vec![b, a, b]);
    assert!(s1 == s2, "shapes with the same coordinates should be equal");
    assert!(s1.union(&s2) == s2.union(&s1));
    assert!(square::Coord::ring(0) == HashShape::singleton(square::Coord::origin()));
    let s3 = HashShape::from_coords(vec![a]);
    assert!(!(s1 == s3));
}

#[test]
fn triangle_range_one() {
    // The filled triangular region of radius one holds the origin cell
    // and the three downward cells around it.
    let range = triangle::Coord::range(1);
    let mut cells = range.to_vec();
    cells.sort_by_key(|c| {
        let (x, y, p) = c.parts();
        (x, y, p == TrianglePoint::Up)
    });
    assert_eq!(
        cells,
        vec![
            triangle::Coord::new(-1, 0, TrianglePoint::Down),
            triangle::Coord::new(0, -1, TrianglePoint::Down),
            triangle::Coord::new(0, 0, TrianglePoint::Down),
            triangle::Coord::new(0, 0, TrianglePoint::Up),
        ]
    );
    // Wider regions hold every ring up to their radius.
    for r in 0..6usize {
        let range = triangle::Coord::range(r);
        for i in 0..=r {
            for c in triangle::Coord::ring(i).to_vec() {
                assert!(range.contains(&c));
            }
        }
    }
}

#[test]
fn rotation_by_steps_matches_the_periods() {
    let sq = square::Coord::new(3, -1);
    assert_eq!(rotated(&sq, 1), sq.rotate_clockwise());
    assert_eq!(rotated(&sq, -1), sq.rotate_counterclockwise());
    assert_eq!(rotated(&sq, 0), sq);
    assert_eq!(rotated(&sq, 4), sq);
    assert_eq!(rotated(&sq, -4), sq);
    assert_eq!(rotated(&sq, 2), sq.rotate_clockwise().rotate_clockwise());

    let hx = hex::Coord::new(-2, 5);
    assert_eq!(rotated(&hx, 6), hx);
    assert_eq!(rotated(&hx, -6), hx);
    assert_eq!(rotated(&hx, 3), hx.rotate_clockwise().rotate_clockwise().rotate_clockwise());

    let tr = triangle::Coord::new(2, 2, TrianglePoint::Down);
    assert_eq!(rotated(&tr, 3), tr);
    assert_eq!(rotated(&tr, -3), tr);

    let dy = dynamic::Coord::Hex(hx);
    assert_eq!(rotated(&dy, 6), dy);
}
