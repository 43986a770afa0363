//! The square (Manhattan) grid topology.

use vstd::prelude::*;

use crate::direction::{Direction, DirectionSet};
use crate::{Color, DirectionType};
use crate::{Coord as _, ModuleCoord as _, Shape as _};

verus! {

/// The two axes of translation of a square grid.
#[derive(Debug, Clone, Copy, PartialEq, Eq, Structural, Hash)]
pub enum Axes {
    X,
    Y,
}

impl Axes {
    /// The name of this axis.
    pub fn name(self) -> (r: &'static str)
        ensures
            self == Axes::X ==> r@ == "X"@,
            self == Axes::Y ==> r@ == "Y"@,
    {
        match self {
            Axes::X => "X",
            Axes::Y => "Y",
        }
    }
}

/// The largest component magnitude for which single steps and rotations
/// are defined; it keeps all arithmetic of this module far away from the
/// machine integer bounds.
pub const COORD_LIMIT: i32 = 1000000000;

/// A coordinate of the square grid: a 2-D integer vector.  The additive
/// identity is the origin.
#[derive(Eq, PartialEq, Structural, Hash, Clone, Copy, Debug)]
pub struct Coord {
    pub x: i32,
    pub y: i32,
}

impl Coord {
    /// The first component of the coordinate.
    pub open spec fn sx(self) -> int {
        self.x as int
    }

    /// The second component of the coordinate.
    pub open spec fn sy(self) -> int {
        self.y as int
    }

    /// The coordinate with the given components.
    pub open spec fn spec_new(x: int, y: int) -> Coord {
        Coord { x: x as i32, y: y as i32 }
    }

    /// Construct a new square-grid coordinate from x and y coordinates.
    pub fn new(x: i32, y: i32) -> (r: Coord)
        ensures
            r.sx() == x as int,
            r.sy() == y as int,
            r == Coord::spec_new(x as int, y as int),
    {
        Coord { x, y }
    }

    /// The components of the coordinate.
    pub fn parts(&self) -> (r: (i32, i32))
        ensures
            r.0 as int == self.sx(),
            r.1 as int == self.sy(),
    {
        (self.x, self.y)
    }

    /// The two axes of a square grid.
    pub fn axes() -> (r: [Axes; 2])
        ensures
            r@ == seq![Axes::X, Axes::Y],
    {
        let r = [Axes::X, Axes::Y];
        proof {
            assert(r@ =~= seq![Axes::X, Axes::Y]);
        }
        r
    }

    /// Construct the coordinate addressed by the given pair of 2-D array
    /// offsets.  For a square grid the grid coordinates and array offsets
    /// coincide.
    pub fn array_offset_to_grid(array_offset: (isize, isize)) -> (r: Coord)
        requires
            i32::MIN <= array_offset.0 <= i32::MAX,
            i32::MIN <= array_offset.1 <= i32::MAX,
        ensures
            r.sx() == array_offset.0 as int,
            r.sy() == array_offset.1 as int,
    {
        Coord { x: array_offset.0 as i32, y: array_offset.1 as i32 }
    }

    /// The origin.
    pub fn origin() -> (r: Coord)
        ensures
            r == <Coord as crate::ModuleCoord>::spec_origin(),
            r.is_origin_spec(),
    {
        Coord { x: 0, y: 0 }
    }
}

/// Is the coordinate on the square ring of the given radius: within the
/// square of that radius, and on its boundary?
pub open spec fn on_square_ring(c: Coord, radius: int) -> bool {
    abs(c.sx()) <= radius && abs(c.sy()) <= radius && (abs(c.sx()) == radius || abs(c.sy())
        == radius)
}

/// Is the coordinate within the square of the given radius?
pub open spec fn in_square_range(c: Coord, radius: int) -> bool {
    abs(c.sx()) <= radius && abs(c.sy()) <= radius
}

impl Coord {
    /// The ring of the given radius: every coordinate whose larger
    /// component magnitude is exactly the radius.  The ring of radius
    /// zero is the origin alone.
    pub fn ring(radius: usize) -> (r: crate::shape::HashShape<Coord>)
        requires
            radius <= COORD_LIMIT,
        ensures
            forall|c: Coord| r.sset().contains(c) <==> on_square_ring(c, radius as int),
    {
        let rad = radius as i32;
        let mut s = crate::shape::HashShape::<Coord>::singleton(Coord { x: 0, y: 0 });
        if rad == 0 {
            proof {
                assert forall|c: Coord|
                    s.sset().contains(c) <==> on_square_ring(c, 0) by {}
            }
            return s;
        }
        s = <crate::shape::HashShape<Coord> as crate::Shape<Coord>>::new();
        let mut x: i32 = -rad;
        while x <= rad
            invariant
                0 < rad <= COORD_LIMIT,
                -rad <= x <= rad + 1,
                forall|c: Coord| #[trigger]
                    s.sset().contains(c) <==> ((c.sy() == rad || c.sy() == -rad) && -rad
                        <= c.sx() < x),
            decreases rad + 1 - x,
        {
            s.insert(Coord { x, y: rad });
            s.insert(Coord { x, y: -rad });
            x = x + 1;
        }
        let mut y: i32 = -rad + 1;
        while y <= rad - 1
            invariant
                0 < rad <= COORD_LIMIT,
                -rad + 1 <= y <= rad,
                forall|c: Coord| #[trigger]
                    s.sset().contains(c) <==> (((c.sy() == rad || c.sy() == -rad) && -rad
                        <= c.sx() <= rad) || ((c.sx() == rad || c.sx() == -rad) && -rad + 1
                        <= c.sy() < y)),
            decreases rad - y,
        {
            s.insert(Coord { x: rad, y });
            s.insert(Coord { x: -rad, y });
            y = y + 1;
        }
        proof {
            assert forall|c: Coord| #[trigger]
                s.sset().contains(c) <==> on_square_ring(c, rad as int) by {}
        }
        s
    }

    /// The filled square of the given radius: every coordinate whose
    /// components both lie within the radius.
    pub fn range(radius: usize) -> (r: crate::shape::HashShape<Coord>)
        requires
            radius <= COORD_LIMIT,
        ensures
            forall|c: Coord| r.sset().contains(c) <==> in_square_range(c, radius as int),
    {
        let rad = radius as i32;
        let mut s = <crate::shape::HashShape<Coord> as crate::Shape<Coord>>::new();
        let mut x: i32 = -rad;
        while x <= rad
            invariant
                0 <= rad <= COORD_LIMIT,
                -rad <= x <= rad + 1,
                forall|c: Coord| #[trigger]
                    s.sset().contains(c) <==> (-rad <= c.sx() < x && -rad <= c.sy() <= rad),
            decreases rad + 1 - x,
        {
            let mut y: i32 = -rad;
            while y <= rad
                invariant
                    0 <= rad <= COORD_LIMIT,
                    -rad <= x <= rad,
                    -rad <= y <= rad + 1,
                    forall|c: Coord| #[trigger]
                        s.sset().contains(c) <==> ((-rad <= c.sx() < x && -rad <= c.sy()
                            <= rad) || (c.sx() == x && -rad <= c.sy() < y)),
                decreases rad + 1 - y,
            {
                s.insert(Coord { x, y });
                y = y + 1;
            }
            x = x + 1;
        }
        s
    }
}

/// A ring and the range of any smaller radius are disjoint: the ring's
/// coordinates have a component magnitude larger than any the range
/// holds.
pub proof fn lemma_square_range_ring_disjoint(
    range_set: Set<Coord>,
    ring_set: Set<Coord>,
    radius: int,
)
    requires
        radius >= 0,
        forall|c: Coord| range_set.contains(c) <==> in_square_range(c, radius),
        forall|c: Coord| ring_set.contains(c) <==> on_square_ring(c, radius + 1),
    ensures
        range_set.disjoint(ring_set),
{
    assert forall|c: Coord| range_set.contains(c) implies !ring_set.contains(c) by {}
}

/// The ring of radius zero holds exactly the origin.
pub proof fn lemma_square_ring_zero(ring_set: Set<Coord>)
    requires
        forall|c: Coord| ring_set.contains(c) <==> on_square_ring(c, 0),
    ensures
        ring_set == Set::<Coord>::empty().insert(<Coord as crate::ModuleCoord>::spec_origin()),
{
    assert forall|c: Coord|
        ring_set.contains(c) <==> Set::<Coord>::empty().insert(
            <Coord as crate::ModuleCoord>::spec_origin(),
        ).contains(c) by {
        if on_square_ring(c, 0) {
            assert(c.sx() == 0 && c.sy() == 0);
            assert(c == <Coord as crate::ModuleCoord>::spec_origin());
        }
    }
    assert(ring_set =~= Set::<Coord>::empty().insert(<Coord as crate::ModuleCoord>::spec_origin()));
}

impl Default for Coord {
    /// The origin: the additive identity.
    fn default() -> (r: Coord)
        ensures
            r == <Coord as crate::ModuleCoord>::spec_origin(),
    {
        Coord { x: 0, y: 0 }
    }
}

impl crate::Coord for Coord {
    type Axes = Axes;

    /// Both components stay within `COORD_LIMIT`.
    open spec fn fits(self) -> bool {
        -(COORD_LIMIT as int) <= self.sx() <= COORD_LIMIT as int && -(COORD_LIMIT as int)
            <= self.sy() <= COORD_LIMIT as int
    }

    open spec fn is_origin_spec(self) -> bool {
        self == (Coord { x: 0, y: 0 })
    }

    open spec fn comparable(self, other: Coord) -> bool {
        true
    }

    open spec fn axis_ok(self, axis: Axes) -> bool {
        true
    }

    open spec fn spec_rotate_cw(self) -> Coord {
        Coord::spec_new(-self.sy(), self.sx())
    }

    open spec fn spec_rotate_ccw(self) -> Coord {
        Coord::spec_new(self.sy(), -self.sx())
    }

    open spec fn spec_reflect(self, axis: Axes) -> Coord {
        match axis {
            Axes::X => Coord::spec_new(-self.sx(), self.sy()),
            Axes::Y => Coord::spec_new(self.sx(), -self.sy()),
        }
    }

    open spec fn spec_move_axis(self, axis: Axes, positive: bool) -> Coord {
        match (axis, positive) {
            (Axes::Y, true) => Coord::spec_new(self.sx(), self.sy() + 1),
            (Axes::Y, false) => Coord::spec_new(self.sx(), self.sy() - 1),
            (Axes::X, true) => Coord::spec_new(self.sx() + 1, self.sy()),
            (Axes::X, false) => Coord::spec_new(self.sx() - 1, self.sy()),
        }
    }

    open spec fn spec_move(self, dir_type: DirectionType, dir: Direction) -> Option<Coord> {
        match spec_square_offset(dir_type, dir) {
            Some((dx, dy)) => Some(Coord::spec_new(self.sx() + dx, self.sy() + dy)),
            None => None,
        }
    }

    open spec fn spec_allowed(self, dir_type: DirectionType, dir: Direction) -> bool {
        spec_square_offset(dir_type, dir) is Some
    }

    open spec fn spec_distance(self, other: Coord) -> int {
        abs(other.sx() - self.sx()) + abs(other.sy() - self.sy())
    }

    open spec fn spec_offset(self) -> (int, int) {
        (self.sx(), self.sy())
    }

    /// Coordinates whose component sum is even take the first color, the
    /// others the second: stepping along a face changes the parity.
    open spec fn spec_color(self) -> Color {
        if (self.sx() + self.sy()) % 2 == 0 {
            Color::One
        } else {
            Color::Two
        }
    }

    fn eq_coord(&self, other: &Coord) -> bool {
        self.x == other.x && self.y == other.y
    }

    fn eq_axes(a: &Axes, b: &Axes) -> bool {
        match (a, b) {
            (Axes::X, Axes::X) => true,
            (Axes::Y, Axes::Y) => true,
            _ => false,
        }
    }

    fn fits_now(&self) -> bool {
        -COORD_LIMIT <= self.x && self.x <= COORD_LIMIT && -COORD_LIMIT <= self.y && self.y
            <= COORD_LIMIT
    }

    fn comparable_now(&self, other: &Coord) -> bool {
        true
    }

    fn axis_ok_now(&self, axis: &Axes) -> bool {
        true
    }

    fn is_origin(&self) -> bool {
        self.x == 0 && self.y == 0
    }

    fn distance(&self, other: &Coord) -> usize {
        let dx = (other.x as i64) - (self.x as i64);
        let dy = (other.y as i64) - (self.y as i64);
        let ax = if dx < 0 {
            -dx
        } else {
            dx
        };
        let ay = if dy < 0 {
            -dy
        } else {
            dy
        };
        (ax + ay) as usize
    }

    fn move_in_direction(&self, dir_type: DirectionType, dir: Direction) -> Option<Coord> {
        match square_offset(dir_type, dir) {
            Some((dx, dy)) => Some(Coord { x: self.x + dx, y: self.y + dy }),
            None => None,
        }
    }

    fn move_on_axis(&self, axis: Axes, positive: bool) -> Coord {
        match (axis, positive) {
            (Axes::Y, true) => Coord { x: self.x, y: self.y + 1 },
            (Axes::Y, false) => Coord { x: self.x, y: self.y - 1 },
            (Axes::X, true) => Coord { x: self.x + 1, y: self.y },
            (Axes::X, false) => Coord { x: self.x - 1, y: self.y },
        }
    }

    fn allowed_direction(&self, dir_type: DirectionType, dir: Direction) -> bool {
        square_offset(dir_type, dir).is_some()
    }

    fn allowed_directions(&self, dir_type: DirectionType) -> (r: DirectionSet) {
        let r = match dir_type {
            DirectionType::Face => DirectionSet::from_slice(
                &[Direction::North, Direction::East, Direction::South, Direction::West],
            ),
            DirectionType::Vertex => DirectionSet::from_slice(
                &[
                    Direction::NorthEast,
                    Direction::SouthEast,
                    Direction::SouthWest,
                    Direction::NorthWest,
                ],
            ),
        };
        proof {
            assert forall|d: Direction| r.spec_contains(d) <==> self.spec_allowed(dir_type, d) by {
                lemma_square_dir_cases(dir_type, d);
            }
        }
        r
    }

    fn grid_to_array_offset(&self) -> (isize, isize) {
        (self.x as isize, self.y as isize)
    }

    fn to_color(&self) -> Color {
        let sum = (self.x as i64) + (self.y as i64);
        if sum % 2 == 0 {
            Color::One
        } else {
            Color::Two
        }
    }

    fn rotate_clockwise(&self) -> Coord {
        Coord { x: -self.y, y: self.x }
    }

    fn rotate_counterclockwise(&self) -> Coord {
        Coord { x: self.y, y: -self.x }
    }

    fn reflect(&self, axis: Axes) -> Coord {
        match axis {
            Axes::X => Coord { x: -self.x, y: self.y },
            Axes::Y => Coord { x: self.x, y: -self.y },
        }
    }

    proof fn lemma_rotate_inverse(self) {
    }

    proof fn lemma_reflect_involution(self, axis: Axes) {
    }

    proof fn lemma_move_opposite(self, dir_type: DirectionType, dir: Direction) {
        lemma_square_dir_cases(dir_type, dir);
        lemma_square_dir_cases(dir_type, dir.spec_opposite());
    }

    proof fn lemma_color_adjacent(self, dir: Direction) {
        lemma_square_dir_cases(DirectionType::Face, dir);
    }

    proof fn lemma_offset_injective(self, other: Coord) {
    }
}

impl crate::ModuleCoord for Coord {
    /// Sums of three such coordinates stay within the machine range.
    open spec fn law_fits(self) -> bool {
        -700000000 <= self.sx() <= 700000000 && -700000000 <= self.sy() <= 700000000
    }

    open spec fn spec_origin() -> Coord {
        Coord { x: 0, y: 0 }
    }

    open spec fn spec_add(self, other: Coord) -> Coord {
        Coord::spec_new(self.sx() + other.sx(), self.sy() + other.sy())
    }

    open spec fn spec_neg(self) -> Coord {
        Coord::spec_new(-self.sx(), -self.sy())
    }

    open spec fn spec_scale(self, k: int) -> Coord {
        Coord::spec_new(k * self.sx(), k * self.sy())
    }

    open spec fn sum_fits(self, other: Coord) -> bool {
        &&& i32::MIN <= self.sx() + other.sx() <= i32::MAX
        &&& i32::MIN <= self.sy() + other.sy() <= i32::MAX
    }

    fn sum_fits_now(&self, other: &Coord) -> bool {
        let sx = (self.x as i64) + (other.x as i64);
        let sy = (self.y as i64) + (other.y as i64);
        (i32::MIN as i64) <= sx && sx <= (i32::MAX as i64) && (i32::MIN as i64) <= sy && sy
            <= (i32::MAX as i64)
    }

    fn plus(&self, other: &Coord) -> Coord {
        Coord { x: self.x + other.x, y: self.y + other.y }
    }

    fn negated(&self) -> (r: Coord) {
        Coord { x: -self.x, y: -self.y }
    }

    fn offset_in_direction(&self, dir_type: DirectionType, dir: Direction) -> (r: Option<Coord>) {
        let r = match square_offset(dir_type, dir) {
            Some((dx, dy)) => Some(Coord { x: dx, y: dy }),
            None => None,
        };
        proof {
            lemma_square_dir_cases(dir_type, dir);
            if r is Some {
                let o = r->0;
                assert forall|c: Coord| c.fits() implies #[trigger] c.spec_add(o) == c.spec_move(
                    dir_type,
                    dir,
                )->0 by {}
            }
        }
        r
    }

    fn offset_on_axis(&self, axis: Axes, positive: bool) -> (r: Coord) {
        let r = match (axis, positive) {
            (Axes::Y, true) => Coord { x: 0, y: 1 },
            (Axes::Y, false) => Coord { x: 0, y: -1 },
            (Axes::X, true) => Coord { x: 1, y: 0 },
            (Axes::X, false) => Coord { x: -1, y: 0 },
        };
        proof {
            assert forall|c: Coord| c.fits() implies #[trigger] c.spec_add(r) == c.spec_move_axis(
                axis,
                positive,
            ) by {}
        }
        r
    }

    proof fn lemma_add_injective(a: Coord, b: Coord, o: Coord) {
    }

    proof fn lemma_module_laws(a: Coord, b: Coord, c: Coord) {
    }
}

/// Scalar multiplication distributes over coordinate addition and over
/// scalar addition, and multiplication of scalars composes, wherever the
/// products stay within the machine range.
pub proof fn lemma_scale_laws(a: Coord, b: Coord, j: int, k: int)
    requires
        crate::ModuleCoord::law_fits(a),
        crate::ModuleCoord::law_fits(b),
        -1000 <= j <= 1000,
        -1000 <= k <= 1000,
        abs(k * a.sx()) <= 700000000,
        abs(k * a.sy()) <= 700000000,
        abs(k * b.sx()) <= 700000000,
        abs(k * b.sy()) <= 700000000,
        abs(j * a.sx()) <= 700000000,
        abs(j * a.sy()) <= 700000000,
        abs(j * k * a.sx()) <= 700000000,
        abs(j * k * a.sy()) <= 700000000,
    ensures
        crate::ModuleCoord::spec_scale(crate::ModuleCoord::spec_add(a, b), k)
            == crate::ModuleCoord::spec_add(
            crate::ModuleCoord::spec_scale(a, k),
            crate::ModuleCoord::spec_scale(b, k),
        ),
        crate::ModuleCoord::spec_scale(a, j + k) == crate::ModuleCoord::spec_add(
            crate::ModuleCoord::spec_scale(a, j),
            crate::ModuleCoord::spec_scale(a, k),
        ),
        crate::ModuleCoord::spec_scale(a, j * k) == crate::ModuleCoord::spec_scale(
            crate::ModuleCoord::spec_scale(a, k),
            j,
        ),
{
    let ax = a.sx();
    let ay = a.sy();
    let bx = b.sx();
    let by = b.sy();
    assert(k * (ax + bx) == k * ax + k * bx) by (nonlinear_arith);
    assert(k * (ay + by) == k * ay + k * by) by (nonlinear_arith);
    assert(abs(k * (ax + bx)) <= abs(k * ax) + abs(k * bx));
    assert((j + k) * ax == j * ax + k * ax) by (nonlinear_arith);
    assert((j + k) * ay == j * ay + k * ay) by (nonlinear_arith);
    assert(j * k * ax == j * (k * ax)) by (nonlinear_arith);
    assert(j * k * ay == j * (k * ay)) by (nonlinear_arith);
}

impl std::ops::Add for Coord {
    type Output = Coord;

    /// Componentwise vector addition.
    fn add(self, other: Coord) -> (r: Coord) {
        Coord { x: self.x + other.x, y: self.y + other.y }
    }
}

impl vstd::std_specs::ops::AddSpecImpl for Coord {
    open spec fn obeys_add_spec() -> bool {
        true
    }

    open spec fn add_req(self, other: Coord) -> bool {
        crate::ModuleCoord::sum_fits(self, other)
    }

    open spec fn add_spec(self, other: Coord) -> Coord {
        crate::ModuleCoord::spec_add(self, other)
    }
}

impl std::ops::Sub for Coord {
    type Output = Coord;

    /// Componentwise vector subtraction.
    fn sub(self, other: Coord) -> (r: Coord) {
        Coord { x: self.x - other.x, y: self.y - other.y }
    }
}

impl vstd::std_specs::ops::SubSpecImpl for Coord {
    open spec fn obeys_sub_spec() -> bool {
        true
    }

    open spec fn sub_req(self, other: Coord) -> bool {
        &&& i32::MIN <= self.sx() - other.sx() <= i32::MAX
        &&& i32::MIN <= self.sy() - other.sy() <= i32::MAX
    }

    open spec fn sub_spec(self, other: Coord) -> Coord {
        Coord::spec_new(self.sx() - other.sx(), self.sy() - other.sy())
    }
}

impl std::ops::Neg for Coord {
    type Output = Coord;

    /// Componentwise negation.
    fn neg(self) -> (r: Coord) {
        Coord { x: -self.x, y: -self.y }
    }
}

impl vstd::std_specs::ops::NegSpecImpl for Coord {
    open spec fn obeys_neg_spec() -> bool {
        true
    }

    open spec fn neg_req(self) -> bool {
        self.sx() > i32::MIN && self.sy() > i32::MIN
    }

    open spec fn neg_spec(self) -> Coord {
        crate::ModuleCoord::spec_neg(self)
    }
}

impl std::ops::Mul<isize> for Coord {
    type Output = Coord;

    /// Scalar multiplication by a signed integer.
    fn mul(self, other: isize) -> (r: Coord) {
        proof {
            vstd::arithmetic::mul::lemma_mul_is_commutative(self.sx(), other as int);
            vstd::arithmetic::mul::lemma_mul_is_commutative(self.sy(), other as int);
        }
        let x = ((self.x as i128) * (other as i128)) as i32;
        let y = ((self.y as i128) * (other as i128)) as i32;
        Coord { x, y }
    }
}

impl vstd::std_specs::ops::MulSpecImpl<isize> for Coord {
    open spec fn obeys_mul_spec() -> bool {
        true
    }

    open spec fn mul_req(self, other: isize) -> bool {
        &&& i32::MIN <= other * self.sx() <= i32::MAX
        &&& i32::MIN <= other * self.sy() <= i32::MAX
    }

    open spec fn mul_spec(self, other: isize) -> Coord {
        crate::ModuleCoord::spec_scale(self, other as int)
    }
}

/// The raw displacement of one step in the given direction, or `None`
/// where the square grid does not allow the direction: the cardinal
/// directions move along faces, the ordinal ones along vertices.
pub open spec fn spec_square_offset(dir_type: DirectionType, dir: Direction) -> Option<(int, int)> {
    match (dir_type, dir) {
        (DirectionType::Face, Direction::North) => Some((0int, 1int)),
        (DirectionType::Face, Direction::East) => Some((1int, 0int)),
        (DirectionType::Face, Direction::South) => Some((0int, -1int)),
        (DirectionType::Face, Direction::West) => Some((-1int, 0int)),
        (DirectionType::Vertex, Direction::NorthEast) => Some((1int, 1int)),
        (DirectionType::Vertex, Direction::SouthEast) => Some((1int, -1int)),
        (DirectionType::Vertex, Direction::SouthWest) => Some((-1int, -1int)),
        (DirectionType::Vertex, Direction::NorthWest) => Some((-1int, 1int)),
        _ => None,
    }
}

/// The raw displacement of one step in the given direction, or `None`
/// where the square grid does not allow the direction.
fn square_offset(dir_type: DirectionType, dir: Direction) -> (r: Option<(i32, i32)>)
    ensures
        match r {
            Some(o) => spec_square_offset(dir_type, dir) == Some((o.0 as int, o.1 as int)),
            None => spec_square_offset(dir_type, dir) is None,
        },
{
    match (dir_type, dir) {
        (DirectionType::Face, Direction::North) => Some((0, 1)),
        (DirectionType::Face, Direction::East) => Some((1, 0)),
        (DirectionType::Face, Direction::South) => Some((0, -1)),
        (DirectionType::Face, Direction::West) => Some((-1, 0)),
        (DirectionType::Vertex, Direction::NorthEast) => Some((1, 1)),
        (DirectionType::Vertex, Direction::SouthEast) => Some((1, -1)),
        (DirectionType::Vertex, Direction::SouthWest) => Some((-1, -1)),
        (DirectionType::Vertex, Direction::NorthWest) => Some((-1, 1)),
        _ => None,
    }
}

/// Case facts about the square grid's direction table that the solver
/// does not unfold on its own: which directions are allowed, and how the
/// offsets of opposite directions cancel.
proof fn lemma_square_dir_cases(dir_type: DirectionType, dir: Direction)
    ensures
        spec_square_offset(dir_type, dir) is Some ==> {
            let o = spec_square_offset(dir_type, dir)->0;
            let p = spec_square_offset(dir_type, dir.spec_opposite())->0;
            &&& spec_square_offset(dir_type, dir.spec_opposite()) is Some
            &&& p.0 == -o.0
            &&& p.1 == -o.1
            &&& (o.0, o.1) != (0int, 0int)
            &&& abs(o.0) <= 1
            &&& abs(o.1) <= 1
            &&& (o.0 + o.1) % 2 == (if dir_type == DirectionType::Face {
                1int
            } else {
                0int
            })
        },
        dir_type == DirectionType::Face ==> (spec_square_offset(dir_type, dir) is Some <==> (dir
            == Direction::North || dir == Direction::East || dir == Direction::South || dir
            == Direction::West)),
        dir_type == DirectionType::Vertex ==> (spec_square_offset(dir_type, dir) is Some <==> (dir
            == Direction::NorthEast || dir == Direction::SouthEast || dir == Direction::SouthWest
            || dir == Direction::NorthWest)),
{
}

/// The absolute value of an integer.
pub open spec fn abs(x: int) -> int {
    if x < 0 {
        -x
    } else {
        x
    }
}

/// The array-offset conversion round-trips: a coordinate, taken to its
/// array offsets and reconstructed from them, is itself.  On a square
/// grid the offsets and the components coincide.
pub proof fn lemma_offset_round_trip(c: Coord)
    ensures
        Coord::spec_new(c.spec_offset().0, c.spec_offset().1) == c,
{
}

/// Repeated rotation returns to the start: the square grid's rotation
/// has period four, clockwise and counter-clockwise alike.
pub proof fn lemma_rotation_period(c: Coord)
    requires
        c.fits(),
    ensures
        crate::utils::rotate_cw_times(c, 4) == c,
        crate::utils::rotate_ccw_times(c, 4) == c,
{
    assert(crate::utils::rotate_cw_times(c, 1) == crate::utils::rotate_cw_times(
        c,
        0,
    ).spec_rotate_cw());
    assert(crate::utils::rotate_cw_times(c, 2) == crate::utils::rotate_cw_times(
        c,
        1,
    ).spec_rotate_cw());
    assert(crate::utils::rotate_cw_times(c, 3) == crate::utils::rotate_cw_times(
        c,
        2,
    ).spec_rotate_cw());
    assert(crate::utils::rotate_cw_times(c, 4) == crate::utils::rotate_cw_times(
        c,
        3,
    ).spec_rotate_cw());
    assert(crate::utils::rotate_ccw_times(c, 1) == crate::utils::rotate_ccw_times(
        c,
        0,
    ).spec_rotate_ccw());
    assert(crate::utils::rotate_ccw_times(c, 2) == crate::utils::rotate_ccw_times(
        c,
        1,
    ).spec_rotate_ccw());
    assert(crate::utils::rotate_ccw_times(c, 3) == crate::utils::rotate_ccw_times(
        c,
        2,
    ).spec_rotate_ccw());
    assert(crate::utils::rotate_ccw_times(c, 4) == crate::utils::rotate_ccw_times(
        c,
        3,
    ).spec_rotate_ccw());
}

/// The largest endpoint component magnitude for which a path walk is
/// defined; it keeps the exact error arithmetic of the walk within the
/// machine range.
pub const PATH_LIMIT: i32 = 400000000;

/// Are two coordinates face-adjacent: one unit step apart along one
/// axis?
pub open spec fn face_adjacent(a: Coord, b: Coord) -> bool {
    abs(b.sx() - a.sx()) + abs(b.sy() - a.sy()) == 1
}

/// An iterator that traverses a path between two coordinates of a square
/// grid.  At each step it moves along whichever axis brings it closer to
/// the straight line between the endpoints, preferring the first axis
/// when both candidate steps carry the same error.  It yields one more
/// coordinate than the distance between the endpoints, starting at the
/// start coordinate, and every consecutive pair is face-adjacent.
#[derive(Debug, Clone, Copy)]
pub struct SquarePathIter {
    start: Coord,
    end: Coord,
    current: Coord,
    index: usize,
    steps: usize,
}

impl SquarePathIter {
    /// The walk stays on track: the endpoints are bounded, the step
    /// count is their distance, the cursor stays in the endpoints'
    /// bounding box, and each step brings it one unit closer to the end,
    /// which it reaches with the final step.
    #[verifier::type_invariant]
    pub closed spec fn wf(self) -> bool {
        &&& abs(self.start.sx()) <= PATH_LIMIT as int
        &&& abs(self.start.sy()) <= PATH_LIMIT as int
        &&& abs(self.end.sx()) <= PATH_LIMIT as int
        &&& abs(self.end.sy()) <= PATH_LIMIT as int
        &&& self.steps == self.start.spec_distance(self.end)
        &&& self.index <= self.steps + 1
        &&& between(self.start.sx(), self.current.sx(), self.end.sx())
        &&& between(self.start.sy(), self.current.sy(), self.end.sy())
        &&& (self.index <= self.steps ==> self.current.spec_distance(self.end) == self.steps
            - self.index)
        &&& (self.index > self.steps ==> self.current == self.end)
    }

    /// The coordinate the walk begins at.
    pub closed spec fn spec_start(self) -> Coord {
        self.start
    }

    /// The coordinate the walk finishes at.
    pub closed spec fn spec_end(self) -> Coord {
        self.end
    }

    /// The coordinate the iterator will yield next.
    pub closed spec fn spec_current(self) -> Coord {
        self.current
    }

    /// How many coordinates have been yielded.
    pub closed spec fn spec_index(self) -> int {
        self.index as int
    }

    /// The number of steps of the walk: the distance between the
    /// endpoints.
    pub closed spec fn spec_steps(self) -> int {
        self.steps as int
    }

    /// Create a new `SquarePathIter` that will traverse the path between
    /// `start` and `end`.
    pub fn new(start: &Coord, end: &Coord) -> (r: SquarePathIter)
        requires
            abs(start.sx()) <= PATH_LIMIT as int,
            abs(start.sy()) <= PATH_LIMIT as int,
            abs(end.sx()) <= PATH_LIMIT as int,
            abs(end.sy()) <= PATH_LIMIT as int,
        ensures
            r.spec_current() == *start,
            r.spec_start() == *start,
            r.spec_end() == *end,
            r.spec_index() == 0,
            r.spec_steps() == start.spec_distance(*end),
    {
        let steps = start.distance(end);
        SquarePathIter { start: *start, end: *end, current: *start, index: 0, steps }
    }

    /// The next coordinate of the path.  The walk yields one coordinate
    /// more than its number of steps; consecutive coordinates are
    /// face-adjacent, the first is the start, and the last is the end.
    #[verifier::rlimit(100)]
    pub fn next(&mut self) -> (r: Option<Coord>)
        ensures
            final(self).spec_steps() == old(self).spec_steps(),
            final(self).spec_start() == old(self).spec_start(),
            final(self).spec_end() == old(self).spec_end(),
            match r {
                Some(c) => {
                    &&& old(self).spec_index() <= old(self).spec_steps()
                    &&& c == old(self).spec_current()
                    &&& final(self).spec_index() == old(self).spec_index() + 1
                    &&& c.spec_distance(old(self).spec_end()) == old(self).spec_steps() - old(
                        self,
                    ).spec_index()
                    &&& (old(self).spec_index() == 0 ==> c == old(self).spec_start())
                    &&& (old(self).spec_index() == old(self).spec_steps() ==> c == old(
                        self,
                    ).spec_end())
                    &&& (old(self).spec_index() < old(self).spec_steps() ==> face_adjacent(
                        old(self).spec_current(),
                        final(self).spec_current(),
                    ))
                },
                None => {
                    &&& old(self).spec_index() > old(self).spec_steps()
                    &&& *final(self) == *old(self)
                },
            },
    {
        proof {
            use_type_invariant(&*self);
        }
        if self.index > self.steps {
            return None;
        }
        let c = self.current;
        if self.index == self.steps {
            proof {
                assert(self.current.spec_distance(self.end) == 0);
                assert(self.current == self.end);
            }
            self.index = self.index + 1;
            return Some(c);
        }
        // The interpolation target after the next step, scaled by the
        // number of steps.
        let n = self.steps as i128;
        let i1 = (self.index + 1) as i128;
        let sx = self.start.x as i128;
        let sy = self.start.y as i128;
        let ex = self.end.x as i128;
        let ey = self.end.y as i128;
        let cx = self.current.x as i128;
        let cy = self.current.y as i128;
        proof {
            assert(n <= 1600000000);
            assert(abs(cx as int) <= 400000000 && abs(cy as int) <= 400000000);
            lemma_abs_mul_bound(sx as int, n - i1, 400000000, 1600000000);
            lemma_abs_mul_bound(ex as int, i1 as int, 400000000, 1600000000);
            lemma_abs_mul_bound(sy as int, n - i1, 400000000, 1600000000);
            lemma_abs_mul_bound(ey as int, i1 as int, 400000000, 1600000000);
            lemma_abs_mul_bound(cx + 1, n as int, 400000001, 1600000000);
            lemma_abs_mul_bound(cy + 1, n as int, 400000001, 1600000000);
            lemma_abs_mul_bound(cx - 1, n as int, 400000001, 1600000000);
            lemma_abs_mul_bound(cy - 1, n as int, 400000001, 1600000000);
            lemma_abs_mul_bound(cx as int, n as int, 400000000, 1600000000);
            lemma_abs_mul_bound(cy as int, n as int, 400000000, 1600000000);
        }
        let tx = sx * (n - i1) + ex * i1;
        let ty = sy * (n - i1) + ey * i1;
        let dxs: i128 = if ex > sx {
            1
        } else if ex < sx {
            -1
        } else {
            0
        };
        let dys: i128 = if ey > sy {
            1
        } else if ey < sy {
            -1
        } else {
            0
        };
        let axd = tx - (cx + dxs) * n;
        let ayd = ty - cy * n;
        let bxd = tx - cx * n;
        let byd = ty - (cy + dys) * n;
        proof {
            lemma_path_squares(axd as int, ayd as int);
            lemma_path_squares(bxd as int, byd as int);
        }
        let errx = axd * axd + ayd * ayd;
        let erry = bxd * bxd + byd * byd;
        let move_x: bool = dxs != 0 && (dys == 0 || errx <= erry);
        proof {
            let sxi = sx as int;
            let syi = sy as int;
            let exi = ex as int;
            let eyi = ey as int;
            let cxi = cx as int;
            let cyi = cy as int;
            let ni = n as int;
            let i1i = i1 as int;
            assert(dxs as int == sgn(exi - sxi) && dys as int == sgn(eyi - syi));
            assert(ni == abs(exi - sxi) + abs(eyi - syi));
            assert(abs(exi - cxi) + abs(eyi - cyi) == ni - i1i + 1);
            if move_x {
                // The exhausted-axis comparison shows the cursor has not
                // yet reached the end's first component.
                if cxi == exi {
                    if dys == 0 {
                        assert(cyi == eyi);
                        assert(false);
                    } else {
                        lemma_prefer_other_axis(sxi, syi, exi, eyi, cyi, ni, i1i);
                        assert(false);
                    }
                }
                assert(cxi != exi);
                assert(sgn(exi - cxi) == dxs as int);
            } else {
                if dys == 0 {
                    assert(eyi == syi && cyi == eyi);
                    if dxs == 0 {
                        assert(cxi == exi);
                        assert(false);
                    }
                    assert(false);
                }
                if cyi == eyi {
                    if dxs == 0 {
                        assert(cxi == exi);
                        assert(false);
                    } else {
                        lemma_prefer_other_axis(syi, sxi, eyi, exi, cxi, ni, i1i);
                        assert(false);
                    }
                }
                assert(cyi != eyi);
                assert(sgn(eyi - cyi) == dys as int);
            }
        }
        let next_current = if move_x {
            Coord { x: self.current.x + (dxs as i32), y: self.current.y }
        } else {
            Coord { x: self.current.x, y: self.current.y + (dys as i32) }
        };
        *self = SquarePathIter {
            start: self.start,
            end: self.end,
            current: next_current,
            index: self.index + 1,
            steps: self.steps,
        };
        Some(c)
    }
}

/// The sign of an integer.
pub open spec fn sgn(x: int) -> int {
    if x > 0 {
        1
    } else if x < 0 {
        -1
    } else {
        0
    }
}

/// Does `b` lie between `a` and `c`, inclusive, in either order?
pub open spec fn between(a: int, b: int, c: int) -> bool {
    (a <= b && b <= c) || (c <= b && b <= a)
}

/// On an exhausted axis the walk's error comparison strictly prefers the
/// other axis: when the cursor has already reached the end's first
/// component, stepping further along that axis carries a strictly larger
/// error against the interpolated target than stepping along the axis
/// that still has distance to cover.
proof fn lemma_prefer_other_axis(sx: int, sy: int, ex: int, ey: int, cy: int, n: int, i1: int)
    requires
        n == abs(ex - sx) + abs(ey - sy),
        1 <= i1 <= n,
        between(sy, cy, ey),
        abs(ey - cy) == n - i1 + 1,
    ensures
        ({
            let tx = sx * (n - i1) + ex * i1;
            let ty = sy * (n - i1) + ey * i1;
            let dxs = sgn(ex - sx);
            let dys = sgn(ey - sy);
            (tx - (ex + dxs) * n) * (tx - (ex + dxs) * n) + (ty - cy * n) * (ty - cy * n) > (tx - ex
                * n) * (tx - ex * n) + (ty - (cy + dys) * n) * (ty - (cy + dys) * n)
        }),
{
    let kx = ex - sx;
    let ky = ey - sy;
    let dxs = sgn(kx);
    let dys = sgn(ky);
    let j = n - i1 + 1;
    let tx = sx * (n - i1) + ex * i1;
    let ty = sy * (n - i1) + ey * i1;
    // The other axis still has distance to cover, and the cursor sits on
    // the near side of the end.
    assert(ky != 0);
    assert(cy == ey - dys * j);
    assert(abs(ky) >= j);
    let s0 = tx - ex * n;
    let q0 = ty - cy * n;
    assert(s0 == -kx * (n - i1)) by (nonlinear_arith)
        requires
            s0 == sx * (n - i1) + ex * i1 - ex * n,
            kx == ex - sx,
    ;
    assert(q0 == -ky * (n - i1) + dys * j * n) by (nonlinear_arith)
        requires
            q0 == sy * (n - i1) + ey * i1 - cy * n,
            ky == ey - sy,
            cy == ey - dys * j,
    ;
    let errx = (tx - (ex + dxs) * n) * (tx - (ex + dxs) * n) + q0 * q0;
    let erry = s0 * s0 + (q0 - dys * n) * (q0 - dys * n);
    assert(tx - (ex + dxs) * n == s0 - dxs * n) by (nonlinear_arith)
        requires
            s0 == tx - ex * n,
    ;
    assert((s0 - dxs * n) * (s0 - dxs * n) == s0 * s0 - 2 * s0 * (dxs * n) + (dxs * n) * (dxs
        * n)) by (nonlinear_arith);
    assert((q0 - dys * n) * (q0 - dys * n) == q0 * q0 - 2 * q0 * (dys * n) + (dys * n) * (dys
        * n)) by (nonlinear_arith);
    assert((dxs * n) * (dxs * n) == dxs * dxs * (n * n)) by (nonlinear_arith);
    assert((dys * n) * (dys * n) == dys * dys * (n * n)) by (nonlinear_arith);
    assert(2 * s0 * (dxs * n) == 2 * (s0 * dxs) * n) by (nonlinear_arith);
    assert(2 * q0 * (dys * n) == 2 * (q0 * dys) * n) by (nonlinear_arith);
    assert(errx - erry == -(2 * (s0 * dxs) * n) + dxs * dxs * (n * n) + 2 * (q0 * dys) * n - dys
        * dys * (n * n));
    assert(-(s0 * dxs) == abs(kx) * (n - i1)) by (nonlinear_arith)
        requires
            s0 == -kx * (n - i1),
            dxs == sgn(kx),
            n - i1 >= 0,
    ;
    assert(q0 * dys == -(abs(ky) * (n - i1)) + j * n) by (nonlinear_arith)
        requires
            q0 == -ky * (n - i1) + dys * j * n,
            dys == sgn(ky),
            ky != 0,
            n - i1 >= 0,
    ;
    if kx == 0 {
        assert(errx - erry == 2 * (q0 * dys) * n - n * n) by (nonlinear_arith)
            requires
                errx - erry == -(2 * (s0 * dxs) * n) + dxs * dxs * (n * n) + 2 * (q0 * dys) * n
                    - dys * dys * (n * n),
                dxs == 0,
                dys * dys == 1,
                s0 * dxs == 0,
        ;
        assert(q0 * dys == n) by (nonlinear_arith)
            requires
                q0 * dys == -(abs(ky) * (n - i1)) + j * n,
                abs(ky) == n,
                j == n - i1 + 1,
        ;
        assert(errx - erry == n * n) by (nonlinear_arith)
            requires
                errx - erry == 2 * (q0 * dys) * n - n * n,
                q0 * dys == n,
        ;
        assert(n * n > 0) by (nonlinear_arith)
            requires
                n >= 1,
        ;
    } else {
        assert(errx - erry == 2 * n * (abs(kx) * (n - i1) + q0 * dys)) by (nonlinear_arith)
            requires
                errx - erry == -(2 * (s0 * dxs) * n) + dxs * dxs * (n * n) + 2 * (q0 * dys) * n
                    - dys * dys * (n * n),
                dxs * dxs == 1,
                dys * dys == 1,
                -(s0 * dxs) == abs(kx) * (n - i1),
        ;
        assert(abs(kx) * (n - i1) + q0 * dys == abs(kx) * (2 * j - 1) + abs(ky)) by (
        nonlinear_arith)
            requires
                q0 * dys == -(abs(ky) * (n - i1)) + j * n,
                n == abs(kx) + abs(ky),
                j == n - i1 + 1,
        ;
        assert(abs(kx) * (2 * j - 1) + abs(ky) >= 1) by (nonlinear_arith)
            requires
                abs(kx) >= 1,
                j >= 1,
                abs(ky) >= 0,
        ;
        assert(errx - erry > 0) by (nonlinear_arith)
            requires
                errx - erry == 2 * n * (abs(kx) * (n - i1) + q0 * dys),
                abs(kx) * (n - i1) + q0 * dys >= 1,
                n >= 1,
        ;
    }
    assert(ty - (cy + dys) * n == q0 - dys * n) by (nonlinear_arith)
        requires
            q0 == ty - cy * n,
    ;
    assert((tx - (ex + dxs) * n) * (tx - (ex + dxs) * n) + (ty - cy * n) * (ty - cy * n) == errx);
    assert((tx - ex * n) * (tx - ex * n) + (ty - (cy + dys) * n) * (ty - (cy + dys) * n) == erry);
}

/// The squared error terms of a path comparison stay within the machine
/// range.
proof fn lemma_path_squares(a: int, b: int)
    requires
        abs(a) <= 5000000000000000000,
        abs(b) <= 5000000000000000000,
    ensures
        0 <= a * a <= 25000000000000000000000000000000000000,
        0 <= b * b <= 25000000000000000000000000000000000000,
{
    lemma_abs_mul_bound(a, a, 5000000000000000000, 5000000000000000000);
    lemma_abs_mul_bound(b, b, 5000000000000000000, 5000000000000000000);
    assert(0 <= a * a) by (nonlinear_arith);
    assert(0 <= b * b) by (nonlinear_arith);
}

/// The magnitude of a product is bounded by the product of the bounds.
pub proof fn lemma_abs_mul_bound(a: int, b: int, ba: int, bb: int)
    requires
        abs(a) <= ba,
        abs(b) <= bb,
    ensures
        abs(a * b) <= ba * bb,
{
    assert(abs(a * b) <= ba * bb) by (nonlinear_arith)
        requires
            abs(a) <= ba,
            abs(b) <= bb,
    ;
}

impl Coord {
    /// Produce an iterator that steps repeatedly in the given direction,
    /// starting at this coordinate, bounded by the given range.  The
    /// iterator is empty if the direction is not allowed.
    pub fn direction_iterator<RB: crate::utils::AllowedCoordIterRange>(
        &self,
        dir_type: DirectionType,
        dir: Direction,
        range: RB,
    ) -> (r: crate::utils::ModuleCoordIter<Coord, RB>)
        ensures
            r.coord == *self,
            r.index == 0,
            r.range == range,
            r.opt_offset is Some <==> self.spec_allowed(dir_type, dir),
            match r.opt_offset {
                Some(o) => o.fits() && forall|c: Coord|
                    c.fits() ==> #[trigger] c.spec_add(o) == c.spec_move(dir_type, dir)->0,
                None => true,
            },
    {
        crate::utils::ModuleCoordIter {
            coord: *self,
            opt_offset: crate::ModuleCoord::offset_in_direction(self, dir_type, dir),
            index: 0,
            range,
        }
    }

    /// Produce an iterator that steps repeatedly along the given axis in
    /// the given sign, starting at this coordinate, bounded by the given
    /// range.
    pub fn axis_iterator<RB: crate::utils::AllowedCoordIterRange>(
        &self,
        axis: Axes,
        positive: bool,
        range: RB,
    ) -> (r: crate::utils::ModuleCoordIter<Coord, RB>)
        ensures
            r.coord == *self,
            r.index == 0,
            r.range == range,
            r.opt_offset is Some,
            r.opt_offset->0.fits(),
            forall|c: Coord|
                c.fits() ==> #[trigger] c.spec_add(r.opt_offset->0) == c.spec_move_axis(
                    axis,
                    positive,
                ),
    {
        crate::utils::ModuleCoordIter {
            coord: *self,
            opt_offset: Some(crate::ModuleCoord::offset_on_axis(self, axis, positive)),
            index: 0,
            range,
        }
    }
}

} // verus!
