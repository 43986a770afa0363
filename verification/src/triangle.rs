//! The triangular grid topology.
//!
//! A coordinate is a 2-D integer vector of trapezoidal "lane"
//! coordinates, together with a flag that says which way the triangular
//! cell points.  A coordinate converts to a cubical triple whose
//! components sum to two for an upward cell and one for a downward cell;
//! rotation and reflection permute the components of that triple.
//! Unlike the square and hexagonal grids, triangular coordinates do not
//! form an algebraic module: the orientation flag has no
//! identity-preserving additive combination, so the arithmetic
//! combinators are deliberately absent.

use vstd::prelude::*;

use crate::direction::{Direction, DirectionSet};
use crate::{Color, DirectionType};
use crate::{Coord as _, Shape as _};

verus! {

/// The three axes of movement of a triangular grid.
#[derive(Debug, Clone, Copy, PartialEq, Eq, Structural, Hash)]
pub enum Axes {
    A,
    B,
    C,
}

impl Axes {
    /// The name of this axis.
    pub fn name(self) -> (r: &'static str)
        ensures
            self == Axes::A ==> r@ == "A"@,
            self == Axes::B ==> r@ == "B"@,
            self == Axes::C ==> r@ == "C"@,
    {
        match self {
            Axes::A => "A",
            Axes::B => "B",
            Axes::C => "C",
        }
    }
}

/// Specify which direction a triangular cell is pointing.
#[derive(Copy, Clone, Debug, PartialEq, Eq, Structural, Hash)]
pub enum TrianglePoint {
    /// The triangle points "upwards" along the y-axis.
    Up,
    /// The triangle points "downwards" along the y-axis.
    Down,
}

impl TrianglePoint {
    /// The `TrianglePoint` facing the opposite direction.
    pub open spec fn spec_opposite(self) -> TrianglePoint {
        match self {
            TrianglePoint::Up => TrianglePoint::Down,
            TrianglePoint::Down => TrianglePoint::Up,
        }
    }

    /// Obtain the `TrianglePoint` facing the opposite direction.
    pub fn opposite(&self) -> (r: TrianglePoint)
        ensures
            r == self.spec_opposite(),
    {
        match self {
            TrianglePoint::Up => TrianglePoint::Down,
            TrianglePoint::Down => TrianglePoint::Up,
        }
    }

    /// Obtain the `TrianglePoint` facing the opposite direction.
    pub fn not(self) -> (r: TrianglePoint)
        ensures
            r == self.spec_opposite(),
    {
        self.opposite()
    }

    /// The cubical-sum offset of a cell with this orientation.
    pub open spec fn spec_z_offset(self) -> int {
        match self {
            TrianglePoint::Up => 2,
            TrianglePoint::Down => 1,
        }
    }
}

impl std::ops::Not for TrianglePoint {
    type Output = TrianglePoint;

    /// The orientation facing the opposite direction.
    fn not(self) -> (r: TrianglePoint) {
        self.opposite()
    }
}

impl vstd::std_specs::ops::NotSpecImpl for TrianglePoint {
    open spec fn obeys_not_spec() -> bool {
        true
    }

    open spec fn not_req(self) -> bool {
        true
    }

    open spec fn not_spec(self) -> TrianglePoint {
        self.spec_opposite()
    }
}

/// The largest component magnitude for which single steps, rotations and
/// distances are defined; it keeps all arithmetic of this module far away
/// from the machine integer bounds.
pub const COORD_LIMIT: i32 = 600000000;

/// A coordinate of the triangular grid.
#[derive(Eq, PartialEq, Structural, Hash, Clone, Copy, Debug)]
pub struct Coord {
    pub x: i32,
    pub y: i32,
    pub point: TrianglePoint,
}

impl Coord {
    /// The first lane component of the coordinate.
    pub open spec fn sx(self) -> int {
        self.x as int
    }

    /// The second lane component of the coordinate.
    pub open spec fn sy(self) -> int {
        self.y as int
    }

    /// The coordinate with the given components and orientation.
    pub open spec fn spec_new(x: int, y: int, point: TrianglePoint) -> Coord {
        Coord { x: x as i32, y: y as i32, point }
    }

    /// Construct a new `Coord` from x and y coordinates and a
    /// `TrianglePoint` indicating which direction the triangle points.
    pub fn new(x: i32, y: i32, point: TrianglePoint) -> (r: Coord)
        ensures
            r.sx() == x as int,
            r.sy() == y as int,
            r.point == point,
            r == Coord::spec_new(x as int, y as int, point),
    {
        Coord { x, y, point }
    }

    /// The lane components and the orientation of the coordinate.
    pub fn parts(&self) -> (r: (i32, i32, TrianglePoint))
        ensures
            r.0 as int == self.sx(),
            r.1 as int == self.sy(),
            r.2 == self.point,
    {
        (self.x, self.y, self.point)
    }

    /// Does this `Coord` represent an upward facing triangle?
    pub fn is_up(&self) -> (r: bool)
        ensures
            r == (self.point == TrianglePoint::Up),
    {
        match self.point {
            TrianglePoint::Up => true,
            TrianglePoint::Down => false,
        }
    }

    /// The three axes of movement of a triangular grid.
    pub fn axes() -> (r: [Axes; 3])
        ensures
            r@ == seq![Axes::A, Axes::B, Axes::C],
    {
        let r = [Axes::A, Axes::B, Axes::C];
        proof {
            assert(r@ =~= seq![Axes::A, Axes::B, Axes::C]);
        }
        r
    }

    /// The origin: the upward cell at the zero lanes.
    pub fn origin() -> (r: Coord)
        ensures
            r == Coord::spec_new(0, 0, TrianglePoint::Up),
            r.is_origin_spec(),
    {
        Coord { x: 0, y: 0, point: TrianglePoint::Up }
    }

    /// The cubical form of the coordinate: a triple whose components sum
    /// to two for an upward cell and one for a downward cell.
    pub open spec fn spec_cubical(self) -> (int, int, int) {
        (self.sx(), self.sy(), self.point.spec_z_offset() - self.sx() - self.sy())
    }

    /// Convert the coordinate to its cubical form.
    pub fn to_cubical(&self) -> (r: (i32, i32, i32))
        requires
            self.fits(),
        ensures
            r.0 as int == self.spec_cubical().0,
            r.1 as int == self.spec_cubical().1,
            r.2 as int == self.spec_cubical().2,
    {
        let z_offset: i32 = match self.point {
            TrianglePoint::Up => 2,
            TrianglePoint::Down => 1,
        };
        (self.x, self.y, z_offset - self.x - self.y)
    }

    /// Construct the coordinate with the given cubical form.  The
    /// components must sum to one or to two.
    pub fn from_cubical(coord: (i32, i32, i32)) -> (r: Coord)
        requires
            1 <= coord.0 as int + coord.1 as int + coord.2 as int <= 2,
            crate::square::abs(coord.1 as int + coord.2 as int) < i32::MAX,
            crate::square::abs(coord.0 as int + coord.2 as int) < i32::MAX,
        ensures
            r.point.spec_z_offset() == coord.0 as int + coord.1 as int + coord.2 as int,
            r.sx() == r.point.spec_z_offset() - coord.1 as int - coord.2 as int,
            r.sy() == r.point.spec_z_offset() - coord.0 as int - coord.2 as int,
            r.spec_cubical() == (coord.0 as int, coord.1 as int, coord.2 as int),
    {
        let sum = (coord.0 as i64) + (coord.1 as i64) + (coord.2 as i64);
        let up = sum == 2;
        let z_offset: i64 = if up {
            2
        } else {
            1
        };
        let z = coord.2 as i64;
        let x = z_offset - (coord.1 as i64) - z;
        let y = z_offset - (coord.0 as i64) - z;
        Coord {
            x: x as i32,
            y: y as i32,
            point: if up {
                TrianglePoint::Up
            } else {
                TrianglePoint::Down
            },
        }
    }

    /// Construct the coordinate addressed by the given pair of 2-D array
    /// offsets: even first offsets address upward cells, odd ones the
    /// downward cell to their right.
    pub fn array_offset_to_grid(array_offset: (isize, isize)) -> (r: Coord)
        requires
            i32::MIN <= (array_offset.0 - array_offset.0 % 2) / 2 <= i32::MAX,
            i32::MIN <= array_offset.1 <= i32::MAX,
        ensures
            r.sx() == (array_offset.0 - array_offset.0 % 2) / 2,
            r.sy() == array_offset.1 as int,
            r.point == (if array_offset.0 % 2 == 0 {
                TrianglePoint::Up
            } else {
                TrianglePoint::Down
            }),
    {
        let ox = array_offset.0 as i128;
        let m: i128 = ox % 2;
        let remainder: i128 = if m < 0 {
            m + 2
        } else {
            m
        };
        let point = if remainder == 0 {
            TrianglePoint::Up
        } else {
            TrianglePoint::Down
        };
        proof {
            assert(remainder == (ox as int) % 2);
            assert((ox - remainder) as int % 2 == 0);
        }
        Coord { x: ((ox - remainder) / 2) as i32, y: array_offset.1 as i32, point }
    }
}

/// The largest origin-centred cubical component of a cell: its cube
/// coordinates shifted so that the origin cell's are all zero.  The
/// rings and filled regions of the grid are the shells and balls of
/// this quantity.
pub open spec fn tri_max(c: Coord) -> int {
    let a = c.sx();
    let b = c.sy();
    let w = c.point.spec_z_offset() - c.sx() - c.sy() - 2;
    if a >= b && a >= w {
        a
    } else if b >= w {
        b
    } else {
        w
    }
}

/// No cell has a negative largest origin-centred cubical component: the
/// three components sum to zero for an upward cell and to minus one for
/// a downward one.
pub proof fn lemma_tri_max_nonneg(c: Coord)
    ensures
        tri_max(c) >= 0,
{
}

/// Is the coordinate on the triangular ring of the given radius?  The
/// ring of radius zero is the origin cell alone; a wider ring holds the
/// cells whose largest origin-centred cubical component is one less than
/// the radius, except the origin itself, so that rings of different
/// radii stay disjoint.  This is the loop that walking the corners
/// produced by rotation and the axes between them traces out.
pub open spec fn on_triangle_ring(c: Coord, radius: int) -> bool {
    if radius == 0 {
        c == Coord::spec_new(0, 0, TrianglePoint::Up)
    } else {
        tri_max(c) == radius - 1 && c != Coord::spec_new(0, 0, TrianglePoint::Up)
    }
}

/// Is the coordinate within the filled triangular region of the given
/// radius: on some ring of radius at most it?
pub open spec fn in_triangle_range(c: Coord, radius: int) -> bool {
    c == Coord::spec_new(0, 0, TrianglePoint::Up) || tri_max(c) + 1 <= radius
}

/// Compute the largest origin-centred cubical component of the cell with
/// the given lanes and orientation.
fn tri_max_exec(x: i32, y: i32, up: bool) -> (r: i64)
    ensures
        r as int == tri_max(
            Coord::spec_new(
                x as int,
                y as int,
                if up {
                    TrianglePoint::Up
                } else {
                    TrianglePoint::Down
                },
            ),
        ),
{
    let zoff: i64 = if up {
        2
    } else {
        1
    };
    let a = x as i64;
    let b = y as i64;
    let w = zoff - a - b - 2;
    if a >= b && a >= w {
        a
    } else if b >= w {
        b
    } else {
        w
    }
}

impl Coord {
    /// The ring of the given radius: the origin cell for radius zero,
    /// and otherwise every cell except the origin whose largest
    /// origin-centred cubical component is one less than the radius —
    /// the triangular loop around the origin at that size.
    pub fn ring(radius: usize) -> (r: crate::shape::HashShape<Coord>)
        requires
            radius <= 300000000,
        ensures
            forall|c: Coord| r.sset().contains(c) <==> on_triangle_ring(c, radius as int),
    {
        if radius == 0 {
            let s = crate::shape::HashShape::singleton(Coord::origin());
            proof {
                assert forall|c: Coord|
                    s.sset().contains(c) <==> on_triangle_ring(c, 0) by {}
            }
            return s;
        }
        let m = (radius - 1) as i32;
        let lo: i32 = -(2 * m) - 1;
        let mut s = <crate::shape::HashShape<Coord> as crate::Shape<Coord>>::new();
        let mut x: i32 = lo;
        while x <= m
            invariant
                0 <= m <= 300000000,
                lo == -(2 * m) - 1,
                lo <= x <= m + 1,
                forall|c: Coord| #[trigger]
                    s.sset().contains(c) <==> (on_triangle_ring(c, m + 1) && lo <= c.sx() < x),
            decreases m + 1 - x,
        {
            let mut y: i32 = lo;
            while y <= m
                invariant
                    0 <= m <= 300000000,
                    lo == -(2 * m) - 1,
                    lo <= x <= m,
                    lo <= y <= m + 1,
                    forall|c: Coord| #[trigger]
                        s.sset().contains(c) <==> (on_triangle_ring(c, m + 1) && (lo <= c.sx() < x
                            || (c.sx() == x && lo <= c.sy() < y))),
                decreases m + 1 - y,
            {
                if tri_max_exec(x, y, true) == m as i64 && !(x == 0 && y == 0) {
                    s.insert(Coord { x, y, point: TrianglePoint::Up });
                }
                if tri_max_exec(x, y, false) == m as i64 {
                    s.insert(Coord { x, y, point: TrianglePoint::Down });
                }
                y = y + 1;
            }
            x = x + 1;
        }
        proof {
            assert forall|c: Coord| #[trigger]
                s.sset().contains(c) <==> on_triangle_ring(c, m + 1) by {
                if on_triangle_ring(c, m + 1) {
                    assert(c.sy() <= m && c.sx() <= m);
                    assert(c.point.spec_z_offset() - c.sx() - c.sy() - 2 <= m);
                    assert(c.sx() >= lo && c.sy() >= lo);
                }
            }
        }
        s
    }

    /// The filled region of the given radius: every cell of every ring
    /// of radius at most it.
    pub fn range(radius: usize) -> (r: crate::shape::HashShape<Coord>)
        requires
            radius <= 300000000,
        ensures
            forall|c: Coord| r.sset().contains(c) <==> in_triangle_range(c, radius as int),
    {
        if radius == 0 {
            let s = crate::shape::HashShape::singleton(Coord::origin());
            proof {
                assert forall|c: Coord|
                    s.sset().contains(c) <==> in_triangle_range(c, 0) by {
                    lemma_tri_max_nonneg(c);
                }
            }
            return s;
        }
        let m = (radius - 1) as i32;
        let lo: i32 = -(2 * m) - 1;
        let mut s = <crate::shape::HashShape<Coord> as crate::Shape<Coord>>::new();
        let mut x: i32 = lo;
        while x <= m
            invariant
                0 <= m <= 300000000,
                lo == -(2 * m) - 1,
                lo <= x <= m + 1,
                forall|c: Coord| #[trigger]
                    s.sset().contains(c) <==> (in_triangle_range(c, m + 1) && lo <= c.sx() < x),
            decreases m + 1 - x,
        {
            let mut y: i32 = lo;
            while y <= m
                invariant
                    0 <= m <= 300000000,
                    lo == -(2 * m) - 1,
                    lo <= x <= m,
                    lo <= y <= m + 1,
                    forall|c: Coord| #[trigger]
                        s.sset().contains(c) <==> (in_triangle_range(c, m + 1) && (lo <= c.sx()
                            < x || (c.sx() == x && lo <= c.sy() < y))),
                decreases m + 1 - y,
            {
                if tri_max_exec(x, y, true) <= m as i64 {
                    s.insert(Coord { x, y, point: TrianglePoint::Up });
                }
                if tri_max_exec(x, y, false) <= m as i64 {
                    s.insert(Coord { x, y, point: TrianglePoint::Down });
                }
                y = y + 1;
            }
            x = x + 1;
        }
        proof {
            assert forall|c: Coord| #[trigger]
                s.sset().contains(c) <==> in_triangle_range(c, m + 1) by {
                lemma_tri_max_nonneg(c);
                if in_triangle_range(c, m + 1) && c != Coord::spec_new(
                    0,
                    0,
                    TrianglePoint::Up,
                ) {
                    assert(tri_max(c) <= m);
                    assert(c.sy() <= m && c.sx() <= m);
                    assert(c.point.spec_z_offset() - c.sx() - c.sy() - 2 <= m);
                    assert(c.sx() >= lo && c.sy() >= lo);
                }
            }
        }
        s
    }
}

/// The filled region of one radius and the ring of the next are
/// disjoint: every cell of the ring has a largest origin-centred
/// cubical component beyond any the region holds.
pub proof fn lemma_triangle_range_ring_disjoint(
    range_set: Set<Coord>,
    ring_set: Set<Coord>,
    radius: int,
)
    requires
        radius >= 0,
        forall|c: Coord| range_set.contains(c) <==> in_triangle_range(c, radius),
        forall|c: Coord| ring_set.contains(c) <==> on_triangle_ring(c, radius + 1),
    ensures
        range_set.disjoint(ring_set),
{
    assert forall|c: Coord| range_set.contains(c) implies !ring_set.contains(c) by {
        lemma_tri_max_nonneg(c);
    }
}

impl Default for Coord {
    /// The origin: the upward cell at the zero lanes.
    fn default() -> (r: Coord)
        ensures
            r == Coord::spec_new(0, 0, TrianglePoint::Up),
    {
        Coord { x: 0, y: 0, point: TrianglePoint::Up }
    }
}

impl crate::Coord for Coord {
    type Axes = Axes;

    /// The two lane components and the third cubical component all stay
    /// within `COORD_LIMIT`.
    open spec fn fits(self) -> bool {
        &&& -(COORD_LIMIT as int) <= self.sx() <= COORD_LIMIT as int
        &&& -(COORD_LIMIT as int) <= self.sy() <= COORD_LIMIT as int
        &&& -(COORD_LIMIT as int) <= self.point.spec_z_offset() - self.sx() - self.sy() - 2
            <= COORD_LIMIT as int
    }

    open spec fn is_origin_spec(self) -> bool {
        self == (Coord { x: 0, y: 0, point: TrianglePoint::Up })
    }

    open spec fn comparable(self, other: Coord) -> bool {
        true
    }

    open spec fn axis_ok(self, axis: Axes) -> bool {
        true
    }

    /// Clockwise rotation cycles the origin-centred cubical components.
    open spec fn spec_rotate_cw(self) -> Coord {
        Coord::spec_new(
            self.point.spec_z_offset() - self.sx() - self.sy() - 2,
            self.sx(),
            self.point,
        )
    }

    /// Counter-clockwise rotation cycles the origin-centred cubical
    /// components the other way.
    open spec fn spec_rotate_ccw(self) -> Coord {
        Coord::spec_new(
            self.sy(),
            self.point.spec_z_offset() - self.sx() - self.sy() - 2,
            self.point,
        )
    }

    /// Reflection swaps two origin-centred cubical components.
    open spec fn spec_reflect(self, axis: Axes) -> Coord {
        let w = self.point.spec_z_offset() - self.sx() - self.sy() - 2;
        match axis {
            Axes::A => Coord::spec_new(self.sx(), w, self.point),
            Axes::B => Coord::spec_new(w, self.sy(), self.point),
            Axes::C => Coord::spec_new(self.sy(), self.sx(), self.point),
        }
    }

    open spec fn spec_move_axis(self, axis: Axes, positive: bool) -> Coord {
        let o = spec_triangle_axis_offset(self.point, axis, positive);
        Coord::spec_new(self.sx() + o.0, self.sy() + o.1, self.point.spec_opposite())
    }

    open spec fn spec_move(self, dir_type: DirectionType, dir: Direction) -> Option<Coord> {
        match spec_triangle_offset(dir_type, self.point, dir) {
            Some((dx, dy)) => Some(
                Coord::spec_new(self.sx() + dx, self.sy() + dy, self.point.spec_opposite()),
            ),
            None => None,
        }
    }

    open spec fn spec_allowed(self, dir_type: DirectionType, dir: Direction) -> bool {
        spec_triangle_offset(dir_type, self.point, dir) is Some
    }

    /// The distance is the sum of the absolute cubical component
    /// differences.
    open spec fn spec_distance(self, other: Coord) -> int {
        let a = self.spec_cubical();
        let b = other.spec_cubical();
        crate::square::abs(b.0 - a.0) + crate::square::abs(b.1 - a.1) + crate::square::abs(
            b.2 - a.2,
        )
    }

    /// Each lane column holds two cells side by side: the upward cell at
    /// the even offset and the downward cell at the odd one.
    open spec fn spec_offset(self) -> (int, int) {
        (
            2 * self.sx() + (if self.point == TrianglePoint::Up {
                0int
            } else {
                1int
            }),
            self.sy(),
        )
    }

    /// Upward cells take the first color and downward cells the second:
    /// every face move flips the orientation.
    open spec fn spec_color(self) -> Color {
        if self.point == TrianglePoint::Up {
            Color::One
        } else {
            Color::Two
        }
    }

    fn eq_coord(&self, other: &Coord) -> bool {
        self.x == other.x && self.y == other.y && self.is_up() == other.is_up()
    }

    fn eq_axes(a: &Axes, b: &Axes) -> bool {
        match (a, b) {
            (Axes::A, Axes::A) => true,
            (Axes::B, Axes::B) => true,
            (Axes::C, Axes::C) => true,
            _ => false,
        }
    }

    fn fits_now(&self) -> bool {
        let z_offset: i64 = match self.point {
            TrianglePoint::Up => 2,
            TrianglePoint::Down => 1,
        };
        let w = z_offset - (self.x as i64) - (self.y as i64) - 2;
        -COORD_LIMIT <= self.x && self.x <= COORD_LIMIT && -COORD_LIMIT <= self.y && self.y
            <= COORD_LIMIT && -(COORD_LIMIT as i64) <= w && w <= COORD_LIMIT as i64
    }

    fn comparable_now(&self, other: &Coord) -> bool {
        true
    }

    fn axis_ok_now(&self, axis: &Axes) -> bool {
        true
    }

    fn is_origin(&self) -> bool {
        self.x == 0 && self.y == 0 && self.is_up()
    }

    fn distance(&self, other: &Coord) -> (r: usize) {
        let a = ((match self.point {
            TrianglePoint::Up => 2i64,
            TrianglePoint::Down => 1i64,
        }), (match other.point {
            TrianglePoint::Up => 2i64,
            TrianglePoint::Down => 1i64,
        }));
        let dx = (other.x as i64) - (self.x as i64);
        let dy = (other.y as i64) - (self.y as i64);
        let dz = (a.1 - (other.x as i64) - (other.y as i64)) - (a.0 - (self.x as i64)
            - (self.y as i64));
        let ax = if dx < 0 {
            -dx
        } else {
            dx
        };
        let ay = if dy < 0 {
            -dy
        } else {
            dy
        };
        let az = if dz < 0 {
            -dz
        } else {
            dz
        };
        (ax + ay + az) as usize
    }

    fn move_in_direction(&self, dir_type: DirectionType, dir: Direction) -> Option<Coord> {
        match triangle_offset(dir_type, self.is_up(), dir) {
            Some((dx, dy)) => Some(
                Coord { x: self.x + dx, y: self.y + dy, point: self.point.opposite() },
            ),
            None => None,
        }
    }

    fn move_on_axis(&self, axis: Axes, positive: bool) -> Coord {
        let o = triangle_axis_offset(self.is_up(), axis, positive);
        Coord { x: self.x + o.0, y: self.y + o.1, point: self.point.opposite() }
    }

    fn allowed_direction(&self, dir_type: DirectionType, dir: Direction) -> bool {
        triangle_offset(dir_type, self.is_up(), dir).is_some()
    }

    fn allowed_directions(&self, dir_type: DirectionType) -> (r: DirectionSet) {
        let up_wise = match (dir_type, self.is_up()) {
            (DirectionType::Face, up) => up,
            (DirectionType::Vertex, up) => !up,
        };
        let r = if up_wise {
            DirectionSet::from_slice(
                &[Direction::NorthEast, Direction::South, Direction::NorthWest],
            )
        } else {
            DirectionSet::from_slice(
                &[Direction::SouthWest, Direction::North, Direction::SouthEast],
            )
        };
        proof {
            assert forall|d: Direction| r.spec_contains(d) <==> self.spec_allowed(dir_type, d) by {
                lemma_triangle_dir_cases(dir_type, self.point, d);
            }
        }
        r
    }

    fn grid_to_array_offset(&self) -> (r: (isize, isize)) {
        let x_offset: i64 = match self.point {
            TrianglePoint::Up => 0,
            TrianglePoint::Down => 1,
        };
        ((2 * (self.x as i64) + x_offset) as isize, self.y as isize)
    }

    fn to_color(&self) -> (r: Color) {
        match self.point {
            TrianglePoint::Up => Color::One,
            TrianglePoint::Down => Color::Two,
        }
    }

    fn rotate_clockwise(&self) -> Coord {
        let z_offset: i32 = match self.point {
            TrianglePoint::Up => 2,
            TrianglePoint::Down => 1,
        };
        Coord { x: z_offset - self.x - self.y - 2, y: self.x, point: self.point }
    }

    fn rotate_counterclockwise(&self) -> Coord {
        let z_offset: i32 = match self.point {
            TrianglePoint::Up => 2,
            TrianglePoint::Down => 1,
        };
        Coord { x: self.y, y: z_offset - self.x - self.y - 2, point: self.point }
    }

    fn reflect(&self, axis: Axes) -> Coord {
        let z_offset: i32 = match self.point {
            TrianglePoint::Up => 2,
            TrianglePoint::Down => 1,
        };
        match axis {
            Axes::A => Coord { x: self.x, y: z_offset - self.x - self.y - 2, point: self.point },
            Axes::B => Coord { x: z_offset - self.x - self.y - 2, y: self.y, point: self.point },
            Axes::C => Coord { x: self.y, y: self.x, point: self.point },
        }
    }

    proof fn lemma_rotate_inverse(self) {
    }

    proof fn lemma_reflect_involution(self, axis: Axes) {
    }

    proof fn lemma_move_opposite(self, dir_type: DirectionType, dir: Direction) {
        lemma_triangle_dir_cases(dir_type, self.point, dir);
        lemma_triangle_dir_cases(dir_type, self.point.spec_opposite(), dir.spec_opposite());
    }

    proof fn lemma_color_adjacent(self, dir: Direction) {
        lemma_triangle_dir_cases(DirectionType::Face, self.point, dir);
    }

    proof fn lemma_offset_injective(self, other: Coord) {
        let a = self.spec_offset();
        let b = other.spec_offset();
        if self.point == other.point {
            if self.sx() != other.sx() {
                assert(a.0 != b.0);
            }
        } else {
            assert(a.0 % 2 != b.0 % 2) by {
                assert((2 * self.sx()) % 2 == 0) by {
                    vstd::arithmetic::div_mod::lemma_mod_multiples_basic(self.sx(), 2);
                };
                assert((2 * other.sx()) % 2 == 0) by {
                    vstd::arithmetic::div_mod::lemma_mod_multiples_basic(other.sx(), 2);
                };
                assert((2 * self.sx() + 1) % 2 == 1) by {
                    vstd::arithmetic::div_mod::lemma_mod_add_multiples_vanish(1, 2);
                    vstd::arithmetic::div_mod::lemma_add_mod_noop(2 * self.sx(), 1, 2);
                };
                assert((2 * other.sx() + 1) % 2 == 1) by {
                    vstd::arithmetic::div_mod::lemma_mod_add_multiples_vanish(1, 2);
                    vstd::arithmetic::div_mod::lemma_add_mod_noop(2 * other.sx(), 1, 2);
                };
            };
        }
    }
}

/// The raw lane displacement of one step in the given direction from a
/// cell of the given orientation, or `None` where the triangular grid
/// does not allow the direction.  Every step flips the orientation.
pub open spec fn spec_triangle_offset(
    dir_type: DirectionType,
    point: TrianglePoint,
    dir: Direction,
) -> Option<(int, int)> {
    match (dir_type, point, dir) {
        (DirectionType::Face, TrianglePoint::Up, Direction::NorthEast) => Some((0int, 0int)),
        (DirectionType::Face, TrianglePoint::Up, Direction::South) => Some((0int, -1int)),
        (DirectionType::Face, TrianglePoint::Up, Direction::NorthWest) => Some((-1int, 0int)),
        (DirectionType::Face, TrianglePoint::Down, Direction::North) => Some((0int, 1int)),
        (DirectionType::Face, TrianglePoint::Down, Direction::SouthEast) => Some((1int, 0int)),
        (DirectionType::Face, TrianglePoint::Down, Direction::SouthWest) => Some((0int, 0int)),
        (DirectionType::Vertex, TrianglePoint::Up, Direction::North) => Some((-1int, 1int)),
        (DirectionType::Vertex, TrianglePoint::Up, Direction::SouthEast) => Some((1int, -1int)),
        (DirectionType::Vertex, TrianglePoint::Up, Direction::SouthWest) => Some((-1int, -1int)),
        (DirectionType::Vertex, TrianglePoint::Down, Direction::South) => Some((1int, -1int)),
        (DirectionType::Vertex, TrianglePoint::Down, Direction::NorthWest) => Some((-1int, 1int)),
        (DirectionType::Vertex, TrianglePoint::Down, Direction::NorthEast) => Some((1int, 1int)),
        _ => None,
    }
}

/// The raw lane displacement of one step in the given direction, or
/// `None` where the triangular grid does not allow the direction.
fn triangle_offset(dir_type: DirectionType, up: bool, dir: Direction) -> (r: Option<(i32, i32)>)
    ensures
        ({
            let point = if up {
                TrianglePoint::Up
            } else {
                TrianglePoint::Down
            };
            match r {
                Some(o) => spec_triangle_offset(dir_type, point, dir) == Some(
                    (o.0 as int, o.1 as int),
                ),
                None => spec_triangle_offset(dir_type, point, dir) is None,
            }
        }),
{
    match (dir_type, up, dir) {
        (DirectionType::Face, true, Direction::NorthEast) => Some((0, 0)),
        (DirectionType::Face, true, Direction::South) => Some((0, -1)),
        (DirectionType::Face, true, Direction::NorthWest) => Some((-1, 0)),
        (DirectionType::Face, false, Direction::North) => Some((0, 1)),
        (DirectionType::Face, false, Direction::SouthEast) => Some((1, 0)),
        (DirectionType::Face, false, Direction::SouthWest) => Some((0, 0)),
        (DirectionType::Vertex, true, Direction::North) => Some((-1, 1)),
        (DirectionType::Vertex, true, Direction::SouthEast) => Some((1, -1)),
        (DirectionType::Vertex, true, Direction::SouthWest) => Some((-1, -1)),
        (DirectionType::Vertex, false, Direction::South) => Some((1, -1)),
        (DirectionType::Vertex, false, Direction::NorthWest) => Some((-1, 1)),
        (DirectionType::Vertex, false, Direction::NorthEast) => Some((1, 1)),
        _ => None,
    }
}

/// The raw lane displacement of one step along the given axis from a cell
/// of the given orientation.  Every step flips the orientation.
pub open spec fn spec_triangle_axis_offset(
    point: TrianglePoint,
    axis: Axes,
    positive: bool,
) -> (int, int) {
    match (point, axis, positive) {
        (TrianglePoint::Up, Axes::A, true) => (0int, 0int),
        (TrianglePoint::Up, Axes::A, false) => (0int, -1int),
        (TrianglePoint::Up, Axes::B, true) => (0int, 0int),
        (TrianglePoint::Up, Axes::B, false) => (-1int, 0int),
        (TrianglePoint::Up, Axes::C, true) => (-1int, 0int),
        (TrianglePoint::Up, Axes::C, false) => (0int, -1int),
        (TrianglePoint::Down, Axes::A, true) => (0int, 1int),
        (TrianglePoint::Down, Axes::A, false) => (0int, 0int),
        (TrianglePoint::Down, Axes::B, true) => (1int, 0int),
        (TrianglePoint::Down, Axes::B, false) => (0int, 0int),
        (TrianglePoint::Down, Axes::C, true) => (0int, 1int),
        (TrianglePoint::Down, Axes::C, false) => (1int, 0int),
    }
}

/// The raw lane displacement of one step along the given axis.
fn triangle_axis_offset(up: bool, axis: Axes, positive: bool) -> (r: (i32, i32))
    ensures
        ({
            let point = if up {
                TrianglePoint::Up
            } else {
                TrianglePoint::Down
            };
            spec_triangle_axis_offset(point, axis, positive) == (r.0 as int, r.1 as int)
        }),
{
    match (up, axis, positive) {
        (true, Axes::A, true) => (0, 0),
        (true, Axes::A, false) => (0, -1),
        (true, Axes::B, true) => (0, 0),
        (true, Axes::B, false) => (-1, 0),
        (true, Axes::C, true) => (-1, 0),
        (true, Axes::C, false) => (0, -1),
        (false, Axes::A, true) => (0, 1),
        (false, Axes::A, false) => (0, 0),
        (false, Axes::B, true) => (1, 0),
        (false, Axes::B, false) => (0, 0),
        (false, Axes::C, true) => (0, 1),
        (false, Axes::C, false) => (1, 0),
    }
}

/// The array-offset conversion round-trips: a coordinate, taken to its
/// array offsets and reconstructed from them, is itself.  The first
/// offset's parity carries the orientation and its half carries the
/// first lane component.
pub proof fn lemma_offset_round_trip(c: Coord)
    ensures
        ({
            let off = c.spec_offset();
            let point = if off.0 % 2 == 0 {
                TrianglePoint::Up
            } else {
                TrianglePoint::Down
            };
            Coord::spec_new((off.0 - off.0 % 2) / 2, off.1, point) == c
        }),
{
    let off = c.spec_offset();
    if c.point == TrianglePoint::Up {
        vstd::arithmetic::div_mod::lemma_mod_multiples_basic(c.sx(), 2);
        vstd::arithmetic::div_mod::lemma_div_multiples_vanish(c.sx(), 2);
        assert((2 * c.sx()) % 2 == 0);
        assert((2 * c.sx()) / 2 == c.sx());
    } else {
        vstd::arithmetic::div_mod::lemma_mod_add_multiples_vanish(1, 2);
        vstd::arithmetic::div_mod::lemma_add_mod_noop(2 * c.sx(), 1, 2);
        vstd::arithmetic::div_mod::lemma_mod_multiples_basic(c.sx(), 2);
        assert((2 * c.sx() + 1) % 2 == 1);
        vstd::arithmetic::div_mod::lemma_div_multiples_vanish_fancy(c.sx(), 1, 2);
        assert((2 * c.sx() + 1) / 2 == c.sx());
    }
}

/// Repeated rotation returns to the start: the triangular grid's
/// rotation has period three, clockwise and counter-clockwise alike.
pub proof fn lemma_rotation_period(c: Coord)
    requires
        c.fits(),
    ensures
        crate::utils::rotate_cw_times(c, 3) == c,
        crate::utils::rotate_ccw_times(c, 3) == c,
{
    assert(crate::utils::rotate_cw_times(c, 1) == crate::utils::rotate_cw_times(
        c,
        0,
    ).spec_rotate_cw());
    assert(crate::utils::rotate_cw_times(c, 2) == crate::utils::rotate_cw_times(
        c,
        1,
    ).spec_rotate_cw());
    assert(crate::utils::rotate_cw_times(c, 3) == crate::utils::rotate_cw_times(
        c,
        2,
    ).spec_rotate_cw());
    assert(crate::utils::rotate_ccw_times(c, 1) == crate::utils::rotate_ccw_times(
        c,
        0,
    ).spec_rotate_ccw());
    assert(crate::utils::rotate_ccw_times(c, 2) == crate::utils::rotate_ccw_times(
        c,
        1,
    ).spec_rotate_ccw());
    assert(crate::utils::rotate_ccw_times(c, 3) == crate::utils::rotate_ccw_times(
        c,
        2,
    ).spec_rotate_ccw());
}

/// The largest endpoint component magnitude for which a path walk is
/// defined; it keeps the exact error arithmetic of the walk within the
/// machine range.
pub const PATH_LIMIT: i32 = 50000000;

/// The first screen-space lane coordinate of a cell: the cell centres of
/// a unit grid lie at integer multiples of fixed basis vectors, and this
/// is the component along the first basis direction.
pub open spec fn tri_u(c: Coord) -> int {
    2 * c.sx() + c.sy() - c.point.spec_z_offset() + 2
}

/// The second screen-space lane coordinate of a cell.
pub open spec fn tri_v(c: Coord) -> int {
    3 * c.sy() - c.point.spec_z_offset() + 2
}

/// The squared screen distance, scaled by the step count `n`, between a
/// cell and the point `i1` of `n` steps along the straight line between
/// the screen positions of `start` and `end`.
pub open spec fn tri_err(m: Coord, start: Coord, end: Coord, i1: int, n: int) -> int {
    let tu = tri_u(start) * (n - i1) + tri_u(end) * i1;
    let tv = tri_v(start) * (n - i1) + tri_v(end) * i1;
    3 * ((tri_u(m) * n - tu) * (tri_u(m) * n - tu)) + (tri_v(m) * n - tv) * (tri_v(m) * n - tv)
}

/// The cell the path walk moves to from `c`: of the three allowed face
/// moves, the one whose screen position carries the smallest error
/// against the interpolated target after `i1` of `n` steps, preferring
/// the earliest direction in the allowed set on equal errors.
pub open spec fn tri_path_step(c: Coord, start: Coord, end: Coord, i1: int, n: int) -> Coord {
    let d0 = if c.point == TrianglePoint::Up {
        Direction::NorthEast
    } else {
        Direction::North
    };
    let d1 = if c.point == TrianglePoint::Up {
        Direction::NorthWest
    } else {
        Direction::SouthWest
    };
    let d2 = if c.point == TrianglePoint::Up {
        Direction::South
    } else {
        Direction::SouthEast
    };
    let m0 = c.spec_move(DirectionType::Face, d0)->0;
    let m1 = c.spec_move(DirectionType::Face, d1)->0;
    let m2 = c.spec_move(DirectionType::Face, d2)->0;
    let e0 = tri_err(m0, start, end, i1, n);
    let e1 = tri_err(m1, start, end, i1, n);
    let e2 = tri_err(m2, start, end, i1, n);
    if e1 < e0 {
        if e2 < e1 {
            m2
        } else {
            m1
        }
    } else {
        if e2 < e0 {
            m2
        } else {
            m0
        }
    }
}

/// Are two cells face-adjacent: does a single allowed face move lead
/// from the first to the second?
pub open spec fn tri_face_adjacent(a: Coord, b: Coord) -> bool {
    exists|d: Direction|
        a.spec_allowed(DirectionType::Face, d) && #[trigger] a.spec_move(DirectionType::Face, d)
            == Some(b)
}

/// An iterator that traverses a path between two coordinates of a
/// triangular grid.  The lane coordinates cannot be interpolated
/// directly, so the walk interpolates the cells' screen positions on a
/// unit grid and at each step takes the allowed face move that minimizes
/// the error against that line, preferring the earliest direction in the
/// allowed set when several carry the same error.  It yields one more
/// coordinate than the distance between the endpoints, starting at the
/// start coordinate, and every consecutive pair is face-adjacent.
#[derive(Debug, Clone, Copy)]
pub struct TrianglePathIter {
    start: Coord,
    end: Coord,
    current: Coord,
    index: usize,
    steps: usize,
}

impl TrianglePathIter {
    /// The walk's bookkeeping stays within the machine range: the
    /// endpoints are bounded, the step count is their distance, and the
    /// cursor drifts at most one unit per step.
    #[verifier::type_invariant]
    pub closed spec fn wf(self) -> bool {
        &&& crate::square::abs(self.start.sx()) <= PATH_LIMIT as int
        &&& crate::square::abs(self.start.sy()) <= PATH_LIMIT as int
        &&& crate::square::abs(self.end.sx()) <= PATH_LIMIT as int
        &&& crate::square::abs(self.end.sy()) <= PATH_LIMIT as int
        &&& self.steps == self.start.spec_distance(self.end)
        &&& self.index <= self.steps + 1
        &&& self.steps <= 500000000
        &&& crate::square::abs(self.current.sx()) <= PATH_LIMIT as int + self.index
        &&& crate::square::abs(self.current.sy()) <= PATH_LIMIT as int + self.index
    }

    /// The coordinate the walk begins at.
    pub closed spec fn spec_start(self) -> Coord {
        self.start
    }

    /// The coordinate the walk aims for.
    pub closed spec fn spec_end(self) -> Coord {
        self.end
    }

    /// The coordinate the iterator will yield next.
    pub closed spec fn spec_current(self) -> Coord {
        self.current
    }

    /// How many coordinates have been yielded.
    pub closed spec fn spec_index(self) -> int {
        self.index as int
    }

    /// The number of steps of the walk: the distance between the
    /// endpoints.
    pub closed spec fn spec_steps(self) -> int {
        self.steps as int
    }

    /// Create a new `TrianglePathIter` that will traverse the path
    /// between `start` and `end`.
    pub fn new(start: &Coord, end: &Coord) -> (r: TrianglePathIter)
        requires
            crate::square::abs(start.sx()) <= PATH_LIMIT as int,
            crate::square::abs(start.sy()) <= PATH_LIMIT as int,
            crate::square::abs(end.sx()) <= PATH_LIMIT as int,
            crate::square::abs(end.sy()) <= PATH_LIMIT as int,
        ensures
            r.spec_current() == *start,
            r.spec_start() == *start,
            r.spec_end() == *end,
            r.spec_index() == 0,
            r.spec_steps() == start.spec_distance(*end),
    {
        proof {
            assert(start.fits() && end.fits());
        }
        let steps = start.distance(end);
        TrianglePathIter { start: *start, end: *end, current: *start, index: 0, steps }
    }

    /// The next coordinate of the path.  The walk yields one coordinate
    /// more than its number of steps; consecutive coordinates are
    /// face-adjacent, and the first is the start.
    pub fn next(&mut self) -> (r: Option<Coord>)
        ensures
            final(self).spec_steps() == old(self).spec_steps(),
            final(self).spec_start() == old(self).spec_start(),
            final(self).spec_end() == old(self).spec_end(),
            match r {
                Some(c) => {
                    &&& old(self).spec_index() <= old(self).spec_steps()
                    &&& c == old(self).spec_current()
                    &&& final(self).spec_index() == old(self).spec_index() + 1
                    &&& (old(self).spec_index() < old(self).spec_steps() ==> tri_face_adjacent(
                        old(self).spec_current(),
                        final(self).spec_current(),
                    ))
                    &&& (old(self).spec_index() < old(self).spec_steps()
                        ==> final(self).spec_current() == tri_path_step(
                        old(self).spec_current(),
                        old(self).spec_start(),
                        old(self).spec_end(),
                        old(self).spec_index() + 1,
                        old(self).spec_steps(),
                    ))
                    &&& (old(self).spec_index() == old(self).spec_steps()
                        ==> final(self).spec_current() == old(self).spec_current())
                },
                None => {
                    &&& old(self).spec_index() > old(self).spec_steps()
                    &&& *final(self) == *old(self)
                },
            },
    {
        proof {
            use_type_invariant(&*self);
        }
        if self.index > self.steps {
            return None;
        }
        let c = self.current;
        if self.index == self.steps {
            self.index = self.index + 1;
            return Some(c);
        }
        // The interpolation target after the next step, in screen lane
        // coordinates scaled by the number of steps.
        let n = self.steps as i128;
        let i1 = (self.index + 1) as i128;
        let (su, sv) = tri_uv(&self.start);
        let (eu, ev) = tri_uv(&self.end);
        proof {
            crate::square::lemma_abs_mul_bound(su as int, (n - i1) as int, 400000002, 500000000);
            crate::square::lemma_abs_mul_bound(sv as int, (n - i1) as int, 400000002, 500000000);
            crate::square::lemma_abs_mul_bound(eu as int, i1 as int, 400000002, 500000000);
            crate::square::lemma_abs_mul_bound(ev as int, i1 as int, 400000002, 500000000);
        }
        let tu = su * (n - i1) + eu * i1;
        let tv = sv * (n - i1) + ev * i1;
        // The three allowed face moves from the current cell, in the
        // order their directions appear in the direction set.
        let (d0, d1, d2) = if self.current.is_up() {
            (Direction::NorthEast, Direction::NorthWest, Direction::South)
        } else {
            (Direction::North, Direction::SouthWest, Direction::SouthEast)
        };
        let m0 = self.must_move(d0);
        let m1 = self.must_move(d1);
        let m2 = self.must_move(d2);
        let e0 = path_err(&m0, tu, tv, n);
        let e1 = path_err(&m1, tu, tv, n);
        let e2 = path_err(&m2, tu, tv, n);
        let mut best = m0;
        let mut best_err = e0;
        let mut best_d = d0;
        if e1 < best_err {
            best = m1;
            best_err = e1;
            best_d = d1;
        }
        if e2 < best_err {
            best = m2;
            best_d = d2;
        }
        self.index = self.index + 1;
        proof {
            assert(self.current.spec_move(DirectionType::Face, best_d) == Some(best));
            assert(tu as int == tri_u(self.start) * ((n - i1) as int) + tri_u(self.end) * (
            i1 as int));
            assert(tv as int == tri_v(self.start) * ((n - i1) as int) + tri_v(self.end) * (
            i1 as int));
            assert(e0 as int == tri_err(m0, self.start, self.end, i1 as int, n as int));
            assert(e1 as int == tri_err(m1, self.start, self.end, i1 as int, n as int));
            assert(e2 as int == tri_err(m2, self.start, self.end, i1 as int, n as int));
            assert(best == tri_path_step(
                self.current,
                self.start,
                self.end,
                i1 as int,
                n as int,
            ));
        }
        self.current = best;
        Some(c)
    }

    /// Move in a direction that the current cell is known to allow.
    fn must_move(&self, d: Direction) -> (r: Coord)
        requires
            self.wf(),
            self.spec_current().spec_allowed(DirectionType::Face, d),
        ensures
            self.spec_current().spec_move(DirectionType::Face, d) == Some(r),
            crate::square::abs(r.sx()) <= crate::square::abs(self.spec_current().sx()) + 1,
            crate::square::abs(r.sy()) <= crate::square::abs(self.spec_current().sy()) + 1,
    {
        proof {
            lemma_triangle_dir_cases(DirectionType::Face, self.current.point, d);
        }
        match triangle_offset(DirectionType::Face, self.current.is_up(), d) {
            Some((dx, dy)) => Coord {
                x: self.current.x + dx,
                y: self.current.y + dy,
                point: self.current.point.opposite(),
            },
            None => {
                proof {
                    assert(false);
                }
                self.current
            },
        }
    }
}

/// The screen lane coordinates of a cell on a unit grid.
fn tri_uv(c: &Coord) -> (r: (i128, i128))
    ensures
        r.0 as int == tri_u(*c),
        r.1 as int == tri_v(*c),
        crate::square::abs(r.0 as int) <= 3 * (crate::square::abs(c.sx()) + crate::square::abs(
            c.sy(),
        )) + 2,
        crate::square::abs(r.1 as int) <= 3 * (crate::square::abs(c.sx()) + crate::square::abs(
            c.sy(),
        )) + 2,
{
    let zoff: i128 = match c.point {
        TrianglePoint::Up => 2,
        TrianglePoint::Down => 1,
    };
    (2 * (c.x as i128) + (c.y as i128) - zoff + 2, 3 * (c.y as i128) - zoff + 2)
}

/// The squared screen distance, scaled by the step count, between a
/// candidate cell and an interpolation target.
fn path_err(m: &Coord, tu: i128, tv: i128, n: i128) -> (r: i128)
    requires
        crate::square::abs(m.sx()) <= 1200000000,
        crate::square::abs(m.sy()) <= 1200000000,
        1 <= n <= 500000000,
        crate::square::abs(tu as int) <= 900000000000000000,
        crate::square::abs(tv as int) <= 900000000000000000,
    ensures
        r as int == 3 * ((tri_u(*m) * n - tu) * (tri_u(*m) * n - tu)) + (tri_v(*m) * n - tv) * (
        tri_v(*m) * n - tv),
{
    let (mu, mv) = tri_uv(m);
    proof {
        crate::square::lemma_abs_mul_bound(mu as int, n as int, 7200000002, 500000000);
        crate::square::lemma_abs_mul_bound(mv as int, n as int, 7200000002, 500000000);
        let du = mu as int * (n as int) - (tu as int);
        let dv = mv as int * (n as int) - (tv as int);
        crate::square::lemma_abs_mul_bound(du, du, 4600000001000000000, 4600000001000000000);
        crate::square::lemma_abs_mul_bound(dv, dv, 4600000001000000000, 4600000001000000000);
        assert(0 <= du * du) by (nonlinear_arith);
        assert(0 <= dv * dv) by (nonlinear_arith);
    }
    let du = mu * n - tu;
    let dv = mv * n - tv;
    3 * (du * du) + dv * dv
}

/// Case facts about the triangular grid's direction table: which
/// directions are allowed from each orientation, and how a step and the
/// opposite step from the flipped cell cancel.
proof fn lemma_triangle_dir_cases(dir_type: DirectionType, point: TrianglePoint, dir: Direction)
    ensures
        spec_triangle_offset(dir_type, point, dir) is Some ==> {
            let o = spec_triangle_offset(dir_type, point, dir)->0;
            let p = spec_triangle_offset(dir_type, point.spec_opposite(), dir.spec_opposite())->0;
            &&& spec_triangle_offset(dir_type, point.spec_opposite(), dir.spec_opposite()) is Some
            &&& p.0 == -o.0
            &&& p.1 == -o.1
            &&& crate::square::abs(o.0) <= 1
            &&& crate::square::abs(o.1) <= 1
        },
        spec_triangle_offset(dir_type, point, dir) is Some <==> ({
            let up_wise = (point == TrianglePoint::Up) == (dir_type == DirectionType::Face);
            if up_wise {
                dir == Direction::NorthEast || dir == Direction::South || dir
                    == Direction::NorthWest
            } else {
                dir == Direction::SouthWest || dir == Direction::North || dir
                    == Direction::SouthEast
            }
        }),
{
}

/// An iterator that steps repeatedly in one direction on the triangular
/// grid.  Because every step flips the cell's orientation, the direction
/// type alternates between face and vertex from step to step.
pub struct DirectionIter<RB: crate::utils::AllowedCoordIterRange> {
    /// The coordinate the iterator will produce next.
    pub current: Coord,
    /// The direction type of the next step.
    pub dir_type: DirectionType,
    /// The direction stepped in.
    pub dir: Direction,
    /// How many coordinates have been produced.
    pub index: usize,
    /// The bound on the number of coordinates produced.
    pub range: RB,
}

impl<RB: crate::utils::AllowedCoordIterRange> DirectionIter<RB> {
    /// The next coordinate: the current one, unless the direction is not
    /// allowed from it, the range is complete, or another step could
    /// leave the machine range.
    pub fn next(&mut self) -> (r: Option<Coord>)
        ensures
            final(self).dir == old(self).dir,
            final(self).range == old(self).range,
            match r {
                Some(c) => {
                    &&& c == old(self).current
                    &&& old(self).current.spec_allowed(old(self).dir_type, old(self).dir)
                    &&& !old(self).range.spec_complete(old(self).index as int)
                    &&& final(self).current == old(self).current.spec_move(
                        old(self).dir_type,
                        old(self).dir,
                    )->0
                    &&& final(self).dir_type == old(self).dir_type.spec_not()
                    &&& final(self).index == old(self).index + 1
                },
                None => {
                    &&& *final(self) == *old(self)
                    &&& (!old(self).current.spec_allowed(old(self).dir_type, old(self).dir)
                        || old(self).range.spec_complete(old(self).index as int) || old(
                        self,
                    ).index == usize::MAX || !old(self).current.fits())
                },
            },
    {
        if !crate::Coord::allowed_direction(&self.current, self.dir_type, self.dir)
            || self.range.complete(self.index) || self.index == usize::MAX
            || !crate::Coord::fits_now(&self.current) {
            return None;
        }
        let result = self.current;
        match crate::Coord::move_in_direction(&self.current, self.dir_type, self.dir) {
            Some(m) => {
                self.current = m;
            },
            None => {
                proof {
                    assert(false);
                }
            },
        }
        self.dir_type = self.dir_type.not();
        self.index = self.index + 1;
        Some(result)
    }
}

/// An iterator that steps repeatedly along one axis of the triangular
/// grid, in one sign.
pub struct TriangleAxisIter<RB: crate::utils::AllowedCoordIterRange> {
    /// The coordinate the iterator will produce next.
    pub current: Coord,
    /// The axis stepped along.
    pub axis: Axes,
    /// The sign of each step.
    pub positive: bool,
    /// How many coordinates have been produced.
    pub index: usize,
    /// The bound on the number of coordinates produced.
    pub range: RB,
}

impl<RB: crate::utils::AllowedCoordIterRange> TriangleAxisIter<RB> {
    /// The next coordinate: the current one, unless the range is
    /// complete or another step could leave the machine range.
    pub fn next(&mut self) -> (r: Option<Coord>)
        ensures
            final(self).axis == old(self).axis,
            final(self).positive == old(self).positive,
            final(self).range == old(self).range,
            match r {
                Some(c) => {
                    &&& c == old(self).current
                    &&& !old(self).range.spec_complete(old(self).index as int)
                    &&& final(self).current == old(self).current.spec_move_axis(
                        old(self).axis,
                        old(self).positive,
                    )
                    &&& final(self).index == old(self).index + 1
                },
                None => {
                    &&& *final(self) == *old(self)
                    &&& (old(self).range.spec_complete(old(self).index as int) || old(
                        self,
                    ).index == usize::MAX || !old(self).current.fits())
                },
            },
    {
        if self.range.complete(self.index) || self.index == usize::MAX
            || !crate::Coord::fits_now(&self.current) {
            return None;
        }
        let result = self.current;
        self.current = crate::Coord::move_on_axis(&self.current, self.axis, self.positive);
        self.index = self.index + 1;
        Some(result)
    }
}

impl Coord {
    /// Produce an iterator that steps repeatedly in the given direction,
    /// starting at this coordinate, bounded by the given range.  The
    /// iterator is empty if the direction is not allowed.
    pub fn direction_iterator<RB: crate::utils::AllowedCoordIterRange>(
        &self,
        dir_type: DirectionType,
        dir: Direction,
        range: RB,
    ) -> (r: DirectionIter<RB>)
        ensures
            r.current == *self,
            r.dir_type == dir_type,
            r.dir == dir,
            r.index == 0,
            r.range == range,
    {
        DirectionIter { current: *self, dir_type, dir, index: 0, range }
    }

    /// Produce an iterator that steps repeatedly along the given axis in
    /// the given sign, starting at this coordinate, bounded by the given
    /// range.
    pub fn axis_iterator<RB: crate::utils::AllowedCoordIterRange>(
        &self,
        axis: Axes,
        positive: bool,
        range: RB,
    ) -> (r: TriangleAxisIter<RB>)
        ensures
            r.current == *self,
            r.axis == axis,
            r.positive == positive,
            r.index == 0,
            r.range == range,
    {
        TriangleAxisIter { current: *self, axis, positive, index: 0, range }
    }
}

} // verus!
