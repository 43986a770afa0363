//! The hexagonal grid topology.
//!
//! Coordinates use the axial system of a flat-topped hexagonal grid: `x`
//! is the axial `q` and `y` is the axial `r`.  A coordinate converts to a
//! cubical triple whose components always sum to zero, which turns
//! rotation and reflection into permutation of components.

use vstd::prelude::*;

use crate::direction::{Direction, DirectionSet};
use crate::{Color, DirectionType};
use crate::{Coord as _, ModuleCoord as _, Shape as _};

verus! {

/// The three axes of translation of a hexagonal grid.
#[derive(Debug, Clone, Copy, PartialEq, Eq, Structural, Hash)]
pub enum Axes {
    Q,
    R,
    S,
}

impl Axes {
    /// The name of this axis.
    pub fn name(self) -> (r: &'static str)
        ensures
            self == Axes::Q ==> r@ == "Q"@,
            self == Axes::R ==> r@ == "R"@,
            self == Axes::S ==> r@ == "S"@,
    {
        match self {
            Axes::Q => "Q",
            Axes::R => "R",
            Axes::S => "S",
        }
    }
}

/// The largest cubical component magnitude for which single steps and
/// rotations are defined; it keeps all arithmetic of this module far away
/// from the machine integer bounds.
pub const COORD_LIMIT: i32 = 1000000000;

/// A coordinate of the hexagonal grid: a 2-D integer vector in axial
/// (q, r) form.  The additive identity is the origin.
#[derive(Eq, PartialEq, Structural, Hash, Clone, Copy, Debug)]
pub struct Coord {
    pub x: i32,
    pub y: i32,
}

impl Coord {
    /// The axial q component of the coordinate.
    pub open spec fn sx(self) -> int {
        self.x as int
    }

    /// The axial r component of the coordinate.
    pub open spec fn sy(self) -> int {
        self.y as int
    }

    /// The coordinate with the given axial components.
    pub open spec fn spec_new(x: int, y: int) -> Coord {
        Coord { x: x as i32, y: y as i32 }
    }

    /// Construct a new hexagonal-grid coordinate from axial q and r
    /// coordinates.
    pub fn new(x: i32, y: i32) -> (r: Coord)
        ensures
            r.sx() == x as int,
            r.sy() == y as int,
            r == Coord::spec_new(x as int, y as int),
    {
        Coord { x, y }
    }

    /// The components of the coordinate.
    pub fn parts(&self) -> (r: (i32, i32))
        ensures
            r.0 as int == self.sx(),
            r.1 as int == self.sy(),
    {
        (self.x, self.y)
    }

    /// The three axes of a hexagonal grid.
    pub fn axes() -> (r: [Axes; 3])
        ensures
            r@ == seq![Axes::Q, Axes::R, Axes::S],
    {
        let r = [Axes::Q, Axes::R, Axes::S];
        proof {
            assert(r@ =~= seq![Axes::Q, Axes::R, Axes::S]);
        }
        r
    }

    /// The origin.
    pub fn origin() -> (r: Coord)
        ensures
            r == <Coord as crate::ModuleCoord>::spec_origin(),
            r.is_origin_spec(),
    {
        Coord { x: 0, y: 0 }
    }

    /// Half of the even integer nearest above the argument: the column
    /// adjustment that turns axial coordinates into array offsets.
    pub open spec fn half_up(q: int) -> int {
        (q + q % 2) / 2
    }

    /// Construct the coordinate addressed by the given pair of 2-D array
    /// offsets, inverting `grid_to_array_offset`.
    pub fn array_offset_to_grid(array_offset: (isize, isize)) -> (r: Coord)
        requires
            i32::MIN <= array_offset.0 <= i32::MAX,
            i32::MIN + Coord::half_up(array_offset.0 as int) <= array_offset.1 <= i32::MAX
                + Coord::half_up(array_offset.0 as int),
        ensures
            r.sx() == array_offset.0 as int,
            r.sy() == array_offset.1 - Coord::half_up(array_offset.0 as int),
    {
        let x = array_offset.0 as i64;
        let y = array_offset.1 as i64;
        let m: i64 = x % 2;
        let p: i64 = if m < 0 {
            m + 2
        } else {
            m
        };
        let r = Coord { x: x as i32, y: (y - (x + p) / 2) as i32 };
        proof {
            assert(p == (x as int) % 2);
            assert((x + p) as int % 2 == 0);
            assert(((x + p) as int) / 2 == Coord::half_up(x as int));
        }
        r
    }

    /// The cubical form of the coordinate: a triple whose components sum
    /// to zero.
    pub open spec fn spec_cubical(self) -> (int, int, int) {
        (self.sx(), -self.sx() - self.sy(), self.sy())
    }

    /// Convert the coordinate to its cubical form.
    pub fn to_cubical(&self) -> (r: (i32, i32, i32))
        requires
            self.fits(),
        ensures
            r.0 as int == self.spec_cubical().0,
            r.1 as int == self.spec_cubical().1,
            r.2 as int == self.spec_cubical().2,
    {
        (self.x, -self.x - self.y, self.y)
    }

    /// Construct the coordinate with the given cubical form.  The
    /// components of a cubical coordinate must sum to zero.
    pub fn from_cubical(coord: (i32, i32, i32)) -> (r: Coord)
        requires
            coord.0 as int + coord.1 as int + coord.2 as int == 0,
        ensures
            r.sx() == coord.0 as int,
            r.sy() == coord.2 as int,
    {
        Coord { x: coord.0, y: coord.2 }
    }
}

/// Is the coordinate on the hexagonal ring of the given radius: at
/// exactly that face-step distance from the origin?
pub open spec fn on_hex_ring(c: Coord, radius: int) -> bool {
    hex_norm(c.sx(), c.sy()) == radius
}

/// Is the coordinate within the hexagonal disk of the given radius?
pub open spec fn in_hex_range(c: Coord, radius: int) -> bool {
    hex_norm(c.sx(), c.sy()) <= radius
}

/// Twice the hexagonal norm is the sum of the three absolute cubical
/// components, and the norm bounds both axial components.
pub proof fn lemma_hex_norm_bounds(a: int, b: int)
    ensures
        2 * hex_norm(a, b) == crate::square::abs(a) + crate::square::abs(b) + crate::square::abs(
            a + b,
        ),
        crate::square::abs(a) <= hex_norm(a, b),
        crate::square::abs(b) <= hex_norm(a, b),
        crate::square::abs(a + b) <= hex_norm(a, b),
        hex_norm(a, b) >= 0,
{
    let s = crate::square::abs(a) + crate::square::abs(b) + crate::square::abs(a + b);
    lemma_hex_norm_even(a, b);
    vstd::arithmetic::div_mod::lemma_fundamental_div_mod(s, 2);
}

/// Compute the hexagonal norm of an axial displacement.
fn hex_norm_exec(dx: i64, dy: i64) -> (r: i64)
    requires
        -4000000000 <= dx <= 4000000000,
        -4000000000 <= dy <= 4000000000,
    ensures
        r as int == hex_norm(dx as int, dy as int),
{
    let ax = if dx < 0 {
        -dx
    } else {
        dx
    };
    let ay = if dy < 0 {
        -dy
    } else {
        dy
    };
    let az = if dx + dy < 0 {
        -(dx + dy)
    } else {
        dx + dy
    };
    proof {
        lemma_hex_norm_even(dx as int, dy as int);
    }
    (ax + ay + az) / 2
}

impl Coord {
    /// The ring of the given radius: every coordinate at exactly that
    /// face-step distance from the origin.  The ring of radius zero is
    /// the origin alone.
    pub fn ring(radius: usize) -> (r: crate::shape::HashShape<Coord>)
        requires
            radius <= COORD_LIMIT,
        ensures
            forall|c: Coord| r.sset().contains(c) <==> on_hex_ring(c, radius as int),
    {
        let rad = radius as i32;
        let mut s = <crate::shape::HashShape<Coord> as crate::Shape<Coord>>::new();
        let mut x: i32 = -rad;
        while x <= rad
            invariant
                0 <= rad <= COORD_LIMIT,
                -rad <= x <= rad + 1,
                forall|c: Coord| #[trigger]
                    s.sset().contains(c) <==> (on_hex_ring(c, rad as int) && -rad <= c.sx() < x),
            decreases rad + 1 - x,
        {
            let mut y: i32 = -rad;
            while y <= rad
                invariant
                    0 <= rad <= COORD_LIMIT,
                    -rad <= x <= rad,
                    -rad <= y <= rad + 1,
                    forall|c: Coord| #[trigger]
                        s.sset().contains(c) <==> ((on_hex_ring(c, rad as int) && -rad <= c.sx()
                            < x) || (on_hex_ring(c, rad as int) && c.sx() == x && -rad <= c.sy()
                            < y)),
                decreases rad + 1 - y,
            {
                if hex_norm_exec(x as i64, y as i64) == rad as i64 {
                    s.insert(Coord { x, y });
                }
                y = y + 1;
            }
            x = x + 1;
        }
        proof {
            assert forall|c: Coord| #[trigger]
                s.sset().contains(c) <==> on_hex_ring(c, rad as int) by {
                if on_hex_ring(c, rad as int) {
                    lemma_hex_norm_bounds(c.sx(), c.sy());
                }
            }
        }
        s
    }

    /// The filled disk of the given radius: every coordinate at no more
    /// than that face-step distance from the origin.
    pub fn range(radius: usize) -> (r: crate::shape::HashShape<Coord>)
        requires
            radius <= COORD_LIMIT,
        ensures
            forall|c: Coord| r.sset().contains(c) <==> in_hex_range(c, radius as int),
    {
        let rad = radius as i32;
        let mut s = <crate::shape::HashShape<Coord> as crate::Shape<Coord>>::new();
        let mut x: i32 = -rad;
        while x <= rad
            invariant
                0 <= rad <= COORD_LIMIT,
                -rad <= x <= rad + 1,
                forall|c: Coord| #[trigger]
                    s.sset().contains(c) <==> (in_hex_range(c, rad as int) && -rad <= c.sx() < x),
            decreases rad + 1 - x,
        {
            let mut y: i32 = -rad;
            while y <= rad
                invariant
                    0 <= rad <= COORD_LIMIT,
                    -rad <= x <= rad,
                    -rad <= y <= rad + 1,
                    forall|c: Coord| #[trigger]
                        s.sset().contains(c) <==> ((in_hex_range(c, rad as int) && -rad <= c.sx()
                            < x) || (in_hex_range(c, rad as int) && c.sx() == x && -rad <= c.sy()
                            < y)),
                decreases rad + 1 - y,
            {
                if hex_norm_exec(x as i64, y as i64) <= rad as i64 {
                    s.insert(Coord { x, y });
                }
                y = y + 1;
            }
            x = x + 1;
        }
        proof {
            assert forall|c: Coord| #[trigger]
                s.sset().contains(c) <==> in_hex_range(c, rad as int) by {
                if in_hex_range(c, rad as int) {
                    lemma_hex_norm_bounds(c.sx(), c.sy());
                }
            }
        }
        s
    }
}

/// A ring and the disk of any smaller radius are disjoint: the ring's
/// coordinates lie at a distance larger than any the disk holds.
pub proof fn lemma_hex_range_ring_disjoint(range_set: Set<Coord>, ring_set: Set<Coord>, radius: int)
    requires
        radius >= 0,
        forall|c: Coord| range_set.contains(c) <==> in_hex_range(c, radius),
        forall|c: Coord| ring_set.contains(c) <==> on_hex_ring(c, radius + 1),
    ensures
        range_set.disjoint(ring_set),
{
    assert forall|c: Coord| range_set.contains(c) implies !ring_set.contains(c) by {}
}

/// The ring of radius zero holds exactly the origin.
pub proof fn lemma_hex_ring_zero(ring_set: Set<Coord>)
    requires
        forall|c: Coord| ring_set.contains(c) <==> on_hex_ring(c, 0),
    ensures
        ring_set == Set::<Coord>::empty().insert(<Coord as crate::ModuleCoord>::spec_origin()),
{
    assert forall|c: Coord|
        ring_set.contains(c) <==> Set::<Coord>::empty().insert(
            <Coord as crate::ModuleCoord>::spec_origin(),
        ).contains(c) by {
        if on_hex_ring(c, 0) {
            lemma_hex_norm_bounds(c.sx(), c.sy());
            assert(c.sx() == 0 && c.sy() == 0);
            assert(c == <Coord as crate::ModuleCoord>::spec_origin());
        }
        if c == <Coord as crate::ModuleCoord>::spec_origin() {
            lemma_hex_norm_bounds(0, 0);
        }
    }
    assert(ring_set =~= Set::<Coord>::empty().insert(<Coord as crate::ModuleCoord>::spec_origin()));
}

impl Default for Coord {
    /// The origin: the additive identity.
    fn default() -> (r: Coord)
        ensures
            r == <Coord as crate::ModuleCoord>::spec_origin(),
    {
        Coord { x: 0, y: 0 }
    }
}

impl crate::Coord for Coord {
    type Axes = Axes;

    /// All three cubical components stay within `COORD_LIMIT`.
    open spec fn fits(self) -> bool {
        &&& -(COORD_LIMIT as int) <= self.sx() <= COORD_LIMIT as int
        &&& -(COORD_LIMIT as int) <= self.sy() <= COORD_LIMIT as int
        &&& -(COORD_LIMIT as int) <= self.sx() + self.sy() <= COORD_LIMIT as int
    }

    open spec fn is_origin_spec(self) -> bool {
        self == (Coord { x: 0, y: 0 })
    }

    open spec fn comparable(self, other: Coord) -> bool {
        true
    }

    open spec fn axis_ok(self, axis: Axes) -> bool {
        true
    }

    /// Clockwise rotation negates and cycles the cubical components.
    open spec fn spec_rotate_cw(self) -> Coord {
        Coord::spec_new(-self.sy(), self.sx() + self.sy())
    }

    /// Counter-clockwise rotation negates and cycles the cubical
    /// components the other way.
    open spec fn spec_rotate_ccw(self) -> Coord {
        Coord::spec_new(self.sx() + self.sy(), -self.sx())
    }

    /// Reflection swaps two cubical components, leaving the axis's own
    /// component in place.
    open spec fn spec_reflect(self, axis: Axes) -> Coord {
        match axis {
            Axes::Q => Coord::spec_new(self.sx(), -self.sx() - self.sy()),
            Axes::R => Coord::spec_new(-self.sx() - self.sy(), self.sy()),
            Axes::S => Coord::spec_new(self.sy(), self.sx()),
        }
    }

    open spec fn spec_move_axis(self, axis: Axes, positive: bool) -> Coord {
        match (axis, positive) {
            (Axes::Q, true) => Coord::spec_new(self.sx(), self.sy() + 1),
            (Axes::Q, false) => Coord::spec_new(self.sx(), self.sy() - 1),
            (Axes::R, true) => Coord::spec_new(self.sx() + 1, self.sy()),
            (Axes::R, false) => Coord::spec_new(self.sx() - 1, self.sy()),
            (Axes::S, true) => Coord::spec_new(self.sx() + 1, self.sy() - 1),
            (Axes::S, false) => Coord::spec_new(self.sx() - 1, self.sy() + 1),
        }
    }

    open spec fn spec_move(self, dir_type: DirectionType, dir: Direction) -> Option<Coord> {
        match spec_hex_offset(dir_type, dir) {
            Some((dx, dy)) => Some(Coord::spec_new(self.sx() + dx, self.sy() + dy)),
            None => None,
        }
    }

    open spec fn spec_allowed(self, dir_type: DirectionType, dir: Direction) -> bool {
        spec_hex_offset(dir_type, dir) is Some
    }

    open spec fn spec_distance(self, other: Coord) -> int {
        hex_norm(other.sx() - self.sx(), other.sy() - self.sy())
    }

    open spec fn spec_offset(self) -> (int, int) {
        (self.sx(), self.sy() + Coord::half_up(self.sx()))
    }

    /// The color cycles through three values along the array rows, offset
    /// by the column parity, so face neighbours always differ.
    open spec fn spec_color(self) -> Color {
        let o = self.spec_offset();
        let n = (o.1 + o.0 % 2) % 3;
        if n == 0 {
            Color::One
        } else if n == 1 {
            Color::Two
        } else {
            Color::Three
        }
    }

    fn eq_coord(&self, other: &Coord) -> bool {
        self.x == other.x && self.y == other.y
    }

    fn eq_axes(a: &Axes, b: &Axes) -> bool {
        match (a, b) {
            (Axes::Q, Axes::Q) => true,
            (Axes::R, Axes::R) => true,
            (Axes::S, Axes::S) => true,
            _ => false,
        }
    }

    fn fits_now(&self) -> bool {
        let s = (self.x as i64) + (self.y as i64);
        -COORD_LIMIT <= self.x && self.x <= COORD_LIMIT && -COORD_LIMIT <= self.y && self.y
            <= COORD_LIMIT && -(COORD_LIMIT as i64) <= s && s <= COORD_LIMIT as i64
    }

    fn comparable_now(&self, other: &Coord) -> bool {
        true
    }

    fn axis_ok_now(&self, axis: &Axes) -> bool {
        true
    }

    fn is_origin(&self) -> bool {
        self.x == 0 && self.y == 0
    }

    fn distance(&self, other: &Coord) -> (r: usize) {
        let dx = (other.x as i64) - (self.x as i64);
        let dy = (other.y as i64) - (self.y as i64);
        let ax = if dx < 0 {
            -dx
        } else {
            dx
        };
        let ay = if dy < 0 {
            -dy
        } else {
            dy
        };
        let az = if dx + dy < 0 {
            -(dx + dy)
        } else {
            dx + dy
        };
        proof {
            lemma_hex_norm_even(dx as int, dy as int);
        }
        ((ax + ay + az) / 2) as usize
    }

    fn move_in_direction(&self, dir_type: DirectionType, dir: Direction) -> Option<Coord> {
        match hex_offset(dir_type, dir) {
            Some((dx, dy)) => Some(Coord { x: self.x + dx, y: self.y + dy }),
            None => None,
        }
    }

    fn move_on_axis(&self, axis: Axes, positive: bool) -> Coord {
        match (axis, positive) {
            (Axes::Q, true) => Coord { x: self.x, y: self.y + 1 },
            (Axes::Q, false) => Coord { x: self.x, y: self.y - 1 },
            (Axes::R, true) => Coord { x: self.x + 1, y: self.y },
            (Axes::R, false) => Coord { x: self.x - 1, y: self.y },
            (Axes::S, true) => Coord { x: self.x + 1, y: self.y - 1 },
            (Axes::S, false) => Coord { x: self.x - 1, y: self.y + 1 },
        }
    }

    fn allowed_direction(&self, dir_type: DirectionType, dir: Direction) -> bool {
        hex_offset(dir_type, dir).is_some()
    }

    fn allowed_directions(&self, dir_type: DirectionType) -> (r: DirectionSet) {
        let r = match dir_type {
            DirectionType::Face => DirectionSet::from_slice(
                &[
                    Direction::North,
                    Direction::NorthEast,
                    Direction::SouthEast,
                    Direction::South,
                    Direction::SouthWest,
                    Direction::NorthWest,
                ],
            ),
            DirectionType::Vertex => DirectionSet::from_slice(
                &[
                    Direction::NorthEast,
                    Direction::East,
                    Direction::SouthEast,
                    Direction::SouthWest,
                    Direction::West,
                    Direction::NorthWest,
                ],
            ),
        };
        proof {
            assert forall|d: Direction| r.spec_contains(d) <==> self.spec_allowed(dir_type, d) by {
                lemma_hex_dir_cases(dir_type, d);
            }
        }
        r
    }

    fn grid_to_array_offset(&self) -> (r: (isize, isize)) {
        let q = self.x as i64;
        let rr = self.y as i64;
        let m: i64 = q % 2;
        let p: i64 = if m < 0 {
            m + 2
        } else {
            m
        };
        proof {
            assert(p == (q as int) % 2);
            assert((q + p) as int % 2 == 0);
        }
        (self.x as isize, (rr + (q + p) / 2) as isize)
    }

    fn to_color(&self) -> (r: Color) {
        let q = self.x as i64;
        let rr = self.y as i64;
        let mh: i64 = q % 2;
        let ph: i64 = if mh < 0 {
            mh + 2
        } else {
            mh
        };
        proof {
            assert(ph == (q as int) % 2);
            assert((q + ph) as int % 2 == 0);
        }
        let x = q;
        let y = rr + (q + ph) / 2;
        let mp: i64 = x % 2;
        let p: i64 = if mp < 0 {
            mp + 2
        } else {
            mp
        };
        let mn: i64 = (y + p) % 3;
        let n: i64 = if mn < 0 {
            mn + 3
        } else {
            mn
        };
        proof {
            assert(p == (x as int) % 2);
            assert(n == (y + p) as int % 3);
        }
        if n == 0 {
            Color::One
        } else if n == 1 {
            Color::Two
        } else {
            Color::Three
        }
    }

    fn rotate_clockwise(&self) -> Coord {
        Coord { x: -self.y, y: self.x + self.y }
    }

    fn rotate_counterclockwise(&self) -> Coord {
        Coord { x: self.x + self.y, y: -self.x }
    }

    fn reflect(&self, axis: Axes) -> Coord {
        match axis {
            Axes::Q => Coord { x: self.x, y: -self.x - self.y },
            Axes::R => Coord { x: -self.x - self.y, y: self.y },
            Axes::S => Coord { x: self.y, y: self.x },
        }
    }

    proof fn lemma_rotate_inverse(self) {
    }

    proof fn lemma_reflect_involution(self, axis: Axes) {
    }

    proof fn lemma_move_opposite(self, dir_type: DirectionType, dir: Direction) {
        lemma_hex_dir_cases(dir_type, dir);
        lemma_hex_dir_cases(dir_type, dir.spec_opposite());
    }

    proof fn lemma_color_adjacent(self, dir: Direction) {
        lemma_hex_dir_cases(DirectionType::Face, dir);
        let q = self.sx();
        lemma_half_up_shift(q);
        let o = spec_hex_offset(DirectionType::Face, dir)->0;
        let m = Coord::spec_new(self.sx() + o.0, self.sy() + o.1);
        let a = self.spec_offset().1 + self.spec_offset().0 % 2;
        let b = m.spec_offset().1 + m.spec_offset().0 % 2;
        assert(((a % 3) - (b % 3)) % 3 == (a - b) % 3) by {
            vstd::arithmetic::div_mod::lemma_sub_mod_noop(a, b, 3);
        };
    }

    proof fn lemma_offset_injective(self, other: Coord) {
    }
}

/// Half of the argument rounded up to an even integer: the shift of
/// `half_up` under unit steps depends on the parity.
proof fn lemma_half_up_shift(q: int)
    ensures
        Coord::half_up(q + 1) == Coord::half_up(q) + 1 - q % 2,
        Coord::half_up(q - 1) == Coord::half_up(q) - q % 2,
        (q + 1) % 2 == 1 - q % 2,
        (q - 1) % 2 == 1 - q % 2,
{
    vstd::arithmetic::div_mod::lemma_fundamental_div_mod(q, 2);
    vstd::arithmetic::div_mod::lemma_fundamental_div_mod(q + 1, 2);
    vstd::arithmetic::div_mod::lemma_fundamental_div_mod(q - 1, 2);
    vstd::arithmetic::div_mod::lemma_mod_bound(q, 2);
    vstd::arithmetic::div_mod::lemma_mod_bound(q + 1, 2);
    vstd::arithmetic::div_mod::lemma_mod_bound(q - 1, 2);
}

/// The hexagonal norm of an axial displacement: the face-step distance
/// it spans.
pub open spec fn hex_norm(dx: int, dy: int) -> int {
    (crate::square::abs(dx) + crate::square::abs(dy) + crate::square::abs(dx + dy)) / 2
}

/// The sum of the three absolute cubical components of a displacement is
/// even, so the hexagonal norm halves it exactly.
proof fn lemma_hex_norm_even(dx: int, dy: int)
    ensures
        (crate::square::abs(dx) + crate::square::abs(dy) + crate::square::abs(dx + dy)) % 2 == 0,
{
    let a = crate::square::abs(dx);
    let b = crate::square::abs(dy);
    let c = crate::square::abs(dx + dy);
    assert((a + b + c) % 2 == 0) by {
        vstd::arithmetic::div_mod::lemma_fundamental_div_mod(dx, 2);
        vstd::arithmetic::div_mod::lemma_fundamental_div_mod(dy, 2);
        vstd::arithmetic::div_mod::lemma_fundamental_div_mod(dx + dy, 2);
        vstd::arithmetic::div_mod::lemma_mod_bound(dx, 2);
        vstd::arithmetic::div_mod::lemma_mod_bound(dy, 2);
        vstd::arithmetic::div_mod::lemma_mod_bound(dx + dy, 2);
        vstd::arithmetic::div_mod::lemma_fundamental_div_mod(a + b + c, 2);
        vstd::arithmetic::div_mod::lemma_mod_bound(a + b + c, 2);
    };
}

/// The raw displacement of one step in the given direction, or `None`
/// where the hexagonal grid does not allow the direction: all directions
/// but East and West move along faces, all but North and South along
/// vertices.
pub open spec fn spec_hex_offset(dir_type: DirectionType, dir: Direction) -> Option<(int, int)> {
    match (dir_type, dir) {
        (DirectionType::Face, Direction::NorthEast) => Some((1int, 0int)),
        (DirectionType::Face, Direction::North) => Some((0int, 1int)),
        (DirectionType::Face, Direction::NorthWest) => Some((-1int, 1int)),
        (DirectionType::Face, Direction::SouthWest) => Some((-1int, 0int)),
        (DirectionType::Face, Direction::South) => Some((0int, -1int)),
        (DirectionType::Face, Direction::SouthEast) => Some((1int, -1int)),
        (DirectionType::Vertex, Direction::East) => Some((2int, -1int)),
        (DirectionType::Vertex, Direction::NorthEast) => Some((1int, 1int)),
        (DirectionType::Vertex, Direction::NorthWest) => Some((-1int, 2int)),
        (DirectionType::Vertex, Direction::West) => Some((-2int, 1int)),
        (DirectionType::Vertex, Direction::SouthWest) => Some((-1int, -1int)),
        (DirectionType::Vertex, Direction::SouthEast) => Some((1int, -2int)),
        _ => None,
    }
}

/// The raw displacement of one step in the given direction, or `None`
/// where the hexagonal grid does not allow the direction.
fn hex_offset(dir_type: DirectionType, dir: Direction) -> (r: Option<(i32, i32)>)
    ensures
        match r {
            Some(o) => spec_hex_offset(dir_type, dir) == Some((o.0 as int, o.1 as int)),
            None => spec_hex_offset(dir_type, dir) is None,
        },
{
    match (dir_type, dir) {
        (DirectionType::Face, Direction::NorthEast) => Some((1, 0)),
        (DirectionType::Face, Direction::North) => Some((0, 1)),
        (DirectionType::Face, Direction::NorthWest) => Some((-1, 1)),
        (DirectionType::Face, Direction::SouthWest) => Some((-1, 0)),
        (DirectionType::Face, Direction::South) => Some((0, -1)),
        (DirectionType::Face, Direction::SouthEast) => Some((1, -1)),
        (DirectionType::Vertex, Direction::East) => Some((2, -1)),
        (DirectionType::Vertex, Direction::NorthEast) => Some((1, 1)),
        (DirectionType::Vertex, Direction::NorthWest) => Some((-1, 2)),
        (DirectionType::Vertex, Direction::West) => Some((-2, 1)),
        (DirectionType::Vertex, Direction::SouthWest) => Some((-1, -1)),
        (DirectionType::Vertex, Direction::SouthEast) => Some((1, -2)),
        _ => None,
    }
}

/// Case facts about the hexagonal grid's direction table: which
/// directions are allowed, and how the offsets of opposite directions
/// cancel.
proof fn lemma_hex_dir_cases(dir_type: DirectionType, dir: Direction)
    ensures
        spec_hex_offset(dir_type, dir) is Some ==> {
            let o = spec_hex_offset(dir_type, dir)->0;
            let p = spec_hex_offset(dir_type, dir.spec_opposite())->0;
            &&& spec_hex_offset(dir_type, dir.spec_opposite()) is Some
            &&& p.0 == -o.0
            &&& p.1 == -o.1
            &&& (o.0, o.1) != (0int, 0int)
            &&& crate::square::abs(o.0) <= 2
            &&& crate::square::abs(o.1) <= 2
            &&& crate::square::abs(o.0 + o.1) <= 2
        },
        dir_type == DirectionType::Face ==> (spec_hex_offset(dir_type, dir) is Some <==> (dir
            != Direction::East && dir != Direction::West)),
        dir_type == DirectionType::Vertex ==> (spec_hex_offset(dir_type, dir) is Some <==> (dir
            != Direction::North && dir != Direction::South)),
{
}

impl crate::ModuleCoord for Coord {
    /// Sums of three such coordinates stay within the machine range.
    open spec fn law_fits(self) -> bool {
        -700000000 <= self.sx() <= 700000000 && -700000000 <= self.sy() <= 700000000
    }

    open spec fn spec_origin() -> Coord {
        Coord { x: 0, y: 0 }
    }

    open spec fn spec_add(self, other: Coord) -> Coord {
        Coord::spec_new(self.sx() + other.sx(), self.sy() + other.sy())
    }

    open spec fn spec_neg(self) -> Coord {
        Coord::spec_new(-self.sx(), -self.sy())
    }

    open spec fn spec_scale(self, k: int) -> Coord {
        Coord::spec_new(k * self.sx(), k * self.sy())
    }

    open spec fn sum_fits(self, other: Coord) -> bool {
        &&& i32::MIN <= self.sx() + other.sx() <= i32::MAX
        &&& i32::MIN <= self.sy() + other.sy() <= i32::MAX
    }

    fn sum_fits_now(&self, other: &Coord) -> bool {
        let sx = (self.x as i64) + (other.x as i64);
        let sy = (self.y as i64) + (other.y as i64);
        (i32::MIN as i64) <= sx && sx <= (i32::MAX as i64) && (i32::MIN as i64) <= sy && sy
            <= (i32::MAX as i64)
    }

    fn plus(&self, other: &Coord) -> Coord {
        Coord { x: self.x + other.x, y: self.y + other.y }
    }

    fn negated(&self) -> (r: Coord) {
        Coord { x: -self.x, y: -self.y }
    }

    fn offset_in_direction(&self, dir_type: DirectionType, dir: Direction) -> (r: Option<Coord>) {
        let r = match hex_offset(dir_type, dir) {
            Some((dx, dy)) => Some(Coord { x: dx, y: dy }),
            None => None,
        };
        proof {
            lemma_hex_dir_cases(dir_type, dir);
            if r is Some {
                let o = r->0;
                assert forall|c: Coord| c.fits() implies #[trigger] c.spec_add(o) == c.spec_move(
                    dir_type,
                    dir,
                )->0 by {}
            }
        }
        r
    }

    fn offset_on_axis(&self, axis: Axes, positive: bool) -> (r: Coord) {
        let r = match (axis, positive) {
            (Axes::Q, true) => Coord { x: 0, y: 1 },
            (Axes::Q, false) => Coord { x: 0, y: -1 },
            (Axes::R, true) => Coord { x: 1, y: 0 },
            (Axes::R, false) => Coord { x: -1, y: 0 },
            (Axes::S, true) => Coord { x: 1, y: -1 },
            (Axes::S, false) => Coord { x: -1, y: 1 },
        };
        proof {
            assert forall|c: Coord| c.fits() implies #[trigger] c.spec_add(r) == c.spec_move_axis(
                axis,
                positive,
            ) by {}
        }
        r
    }

    proof fn lemma_add_injective(a: Coord, b: Coord, o: Coord) {
    }

    proof fn lemma_module_laws(a: Coord, b: Coord, c: Coord) {
    }
}

/// Scalar multiplication distributes over coordinate addition and over
/// scalar addition, and multiplication of scalars composes, wherever the
/// products stay within the machine range.
pub proof fn lemma_scale_laws(a: Coord, b: Coord, j: int, k: int)
    requires
        crate::ModuleCoord::law_fits(a),
        crate::ModuleCoord::law_fits(b),
        -1000 <= j <= 1000,
        -1000 <= k <= 1000,
        crate::square::abs(k * a.sx()) <= 700000000,
        crate::square::abs(k * a.sy()) <= 700000000,
        crate::square::abs(k * b.sx()) <= 700000000,
        crate::square::abs(k * b.sy()) <= 700000000,
        crate::square::abs(j * a.sx()) <= 700000000,
        crate::square::abs(j * a.sy()) <= 700000000,
        crate::square::abs(j * k * a.sx()) <= 700000000,
        crate::square::abs(j * k * a.sy()) <= 700000000,
    ensures
        crate::ModuleCoord::spec_scale(crate::ModuleCoord::spec_add(a, b), k)
            == crate::ModuleCoord::spec_add(
            crate::ModuleCoord::spec_scale(a, k),
            crate::ModuleCoord::spec_scale(b, k),
        ),
        crate::ModuleCoord::spec_scale(a, j + k) == crate::ModuleCoord::spec_add(
            crate::ModuleCoord::spec_scale(a, j),
            crate::ModuleCoord::spec_scale(a, k),
        ),
        crate::ModuleCoord::spec_scale(a, j * k) == crate::ModuleCoord::spec_scale(
            crate::ModuleCoord::spec_scale(a, k),
            j,
        ),
{
    let ax = a.sx();
    let ay = a.sy();
    let bx = b.sx();
    let by = b.sy();
    assert(k * (ax + bx) == k * ax + k * bx) by (nonlinear_arith);
    assert(k * (ay + by) == k * ay + k * by) by (nonlinear_arith);
    assert((j + k) * ax == j * ax + k * ax) by (nonlinear_arith);
    assert((j + k) * ay == j * ay + k * ay) by (nonlinear_arith);
    assert(j * k * ax == j * (k * ax)) by (nonlinear_arith);
    assert(j * k * ay == j * (k * ay)) by (nonlinear_arith);
}

/// The array-offset conversion round-trips: a coordinate, taken to its
/// array offsets and reconstructed from them, is itself.  The first
/// offset is the axial q component; the second shifts the axial r by
/// half the column.
pub proof fn lemma_offset_round_trip(c: Coord)
    ensures
        Coord::spec_new(c.spec_offset().0, c.spec_offset().1 - Coord::half_up(c.spec_offset().0))
            == c,
{
}

/// Repeated rotation returns to the start: the hexagonal grid's
/// rotation has period six, clockwise and counter-clockwise alike.
pub proof fn lemma_rotation_period(c: Coord)
    requires
        c.fits(),
    ensures
        crate::utils::rotate_cw_times(c, 6) == c,
        crate::utils::rotate_ccw_times(c, 6) == c,
{
    assert(crate::utils::rotate_cw_times(c, 1) == crate::utils::rotate_cw_times(
        c,
        0,
    ).spec_rotate_cw());
    assert(crate::utils::rotate_cw_times(c, 2) == crate::utils::rotate_cw_times(
        c,
        1,
    ).spec_rotate_cw());
    assert(crate::utils::rotate_cw_times(c, 3) == crate::utils::rotate_cw_times(
        c,
        2,
    ).spec_rotate_cw());
    assert(crate::utils::rotate_cw_times(c, 4) == crate::utils::rotate_cw_times(
        c,
        3,
    ).spec_rotate_cw());
    assert(crate::utils::rotate_cw_times(c, 5) == crate::utils::rotate_cw_times(
        c,
        4,
    ).spec_rotate_cw());
    assert(crate::utils::rotate_cw_times(c, 6) == crate::utils::rotate_cw_times(
        c,
        5,
    ).spec_rotate_cw());
    assert(crate::utils::rotate_ccw_times(c, 1) == crate::utils::rotate_ccw_times(
        c,
        0,
    ).spec_rotate_ccw());
    assert(crate::utils::rotate_ccw_times(c, 2) == crate::utils::rotate_ccw_times(
        c,
        1,
    ).spec_rotate_ccw());
    assert(crate::utils::rotate_ccw_times(c, 3) == crate::utils::rotate_ccw_times(
        c,
        2,
    ).spec_rotate_ccw());
    assert(crate::utils::rotate_ccw_times(c, 4) == crate::utils::rotate_ccw_times(
        c,
        3,
    ).spec_rotate_ccw());
    assert(crate::utils::rotate_ccw_times(c, 5) == crate::utils::rotate_ccw_times(
        c,
        4,
    ).spec_rotate_ccw());
    assert(crate::utils::rotate_ccw_times(c, 6) == crate::utils::rotate_ccw_times(
        c,
        5,
    ).spec_rotate_ccw());
}

/// The rational `num / den` rounded to the nearest integer, halves away
/// from zero.
pub open spec fn spec_round_div(num: int, den: int) -> int {
    if num >= 0 {
        (2 * num + den) / (2 * den)
    } else {
        -((2 * -num + den) / (2 * den))
    }
}

/// Round `num / den` to the nearest integer, halves away from zero.
fn round_div(num: i128, den: i128) -> (r: i128)
    requires
        0 < den <= 4000000000,
        crate::square::abs(num as int) <= 7000000000000000000,
    ensures
        r as int == spec_round_div(num as int, den as int),
        crate::square::abs(r as int) * (den as int) <= crate::square::abs(num as int) + (
        den as int),
{
    let r = if num >= 0 {
        (2 * num + den) / (2 * den)
    } else {
        -((2 * (-num) + den) / (2 * den))
    };
    proof {
        let n = num as int;
        let d = den as int;
        let a = if n >= 0 {
            n
        } else {
            -n
        };
        vstd::arithmetic::div_mod::lemma_fundamental_div_mod(2 * a + d, 2 * d);
        vstd::arithmetic::div_mod::lemma_mod_bound(2 * a + d, 2 * d);
        let q = (2 * a + d) / (2 * d);
        assert(2 * d * q <= 2 * a + d);
        assert(q * d <= a + d) by (nonlinear_arith)
            requires
                2 * d * q <= 2 * a + d,
                d > 0,
        ;
        assert(q >= 0) by {
            if q < 0 {
                assert(2 * d * q <= 2 * d * -1) by (nonlinear_arith)
                    requires
                        d > 0,
                        q <= -1,
                ;
            }
        }
        assert(crate::square::abs(r as int) == q);
    }
    r
}

/// The cubical interpolation between `a` and `b` after `i` of `n` steps,
/// scaled by `n`.
pub open spec fn hex_lerp_num(a: int, b: int, i: int, n: int) -> int {
    a * (n - i) + b * i
}

/// The cell of the straight line between two hexagonal coordinates after
/// `i` of `n` steps: each cubical component of the interpolated point is
/// rounded to the nearest integer, halves away from zero, and the
/// component with the largest rounding error is reset so that the three
/// again sum to zero.  The first cell of a line is its start and the
/// last its end.
pub open spec fn hex_line_cell(start: Coord, end: Coord, i: int, n: int) -> Coord {
    if n <= 0 || i <= 0 {
        start
    } else if i >= n {
        end
    } else {
        let sc = start.spec_cubical();
        let ec = end.spec_cubical();
        let numx = hex_lerp_num(sc.0, ec.0, i, n);
        let numy = hex_lerp_num(sc.1, ec.1, i, n);
        let numz = hex_lerp_num(sc.2, ec.2, i, n);
        let rx = spec_round_div(numx, n);
        let ry = spec_round_div(numy, n);
        let rz = spec_round_div(numz, n);
        let dx = crate::square::abs(rx * n - numx);
        let dy = crate::square::abs(ry * n - numy);
        let dz = crate::square::abs(rz * n - numz);
        if dx > dy && dx > dz {
            Coord::spec_new(-ry - rz, rz)
        } else if dy > dz {
            Coord::spec_new(rx, rz)
        } else {
            Coord::spec_new(rx, -rx - ry)
        }
    }
}

/// An iterator that traverses the straight line between two hexagonal
/// coordinates: at each step it rounds the linear interpolation of the
/// endpoints' cubical forms to the nearest cell.  It yields one more
/// coordinate than the distance between the endpoints, beginning at the
/// start coordinate and finishing at the end coordinate.
#[derive(Debug, Clone, Copy)]
pub struct HexLineIter {
    start: Coord,
    end: Coord,
    index: usize,
    steps: usize,
}

impl HexLineIter {
    /// The endpoints are bounded and the step count is their distance.
    #[verifier::type_invariant]
    pub closed spec fn wf(self) -> bool {
        &&& self.start.fits()
        &&& self.end.fits()
        &&& self.steps == self.start.spec_distance(self.end)
        &&& self.index <= self.steps + 1
    }

    /// The coordinate the walk begins at.
    pub closed spec fn spec_start(self) -> Coord {
        self.start
    }

    /// The coordinate the walk finishes at.
    pub closed spec fn spec_end(self) -> Coord {
        self.end
    }

    /// How many coordinates have been yielded.
    pub closed spec fn spec_index(self) -> int {
        self.index as int
    }

    /// The number of steps of the walk: the distance between the
    /// endpoints.
    pub closed spec fn spec_steps(self) -> int {
        self.steps as int
    }

    /// Create a new `HexLineIter` that will traverse the line between
    /// `start` and `end`.
    pub fn new(start: &Coord, end: &Coord) -> (r: HexLineIter)
        requires
            start.fits(),
            end.fits(),
        ensures
            r.spec_start() == *start,
            r.spec_end() == *end,
            r.spec_index() == 0,
            r.spec_steps() == start.spec_distance(*end),
    {
        let steps = start.distance(end);
        HexLineIter { start: *start, end: *end, index: 0, steps }
    }

    /// The next coordinate of the line.  The walk yields one coordinate
    /// more than its number of steps; the first is the start and the last
    /// is the end.
    pub fn next(&mut self) -> (r: Option<Coord>)
        ensures
            final(self).spec_steps() == old(self).spec_steps(),
            final(self).spec_start() == old(self).spec_start(),
            final(self).spec_end() == old(self).spec_end(),
            match r {
                Some(c) => {
                    &&& old(self).spec_index() <= old(self).spec_steps()
                    &&& final(self).spec_index() == old(self).spec_index() + 1
                    &&& c == hex_line_cell(
                        old(self).spec_start(),
                        old(self).spec_end(),
                        old(self).spec_index(),
                        old(self).spec_steps(),
                    )
                    &&& (old(self).spec_index() == 0 ==> c == old(self).spec_start())
                    &&& (old(self).spec_index() == old(self).spec_steps() ==> c == old(
                        self,
                    ).spec_end())
                },
                None => {
                    &&& old(self).spec_index() > old(self).spec_steps()
                    &&& *final(self) == *old(self)
                },
            },
    {
        proof {
            use_type_invariant(&*self);
        }
        if self.index > self.steps {
            return None;
        }
        let i = self.index;
        self.index = i + 1;
        if self.steps == 0 || i == 0 {
            return Some(self.start);
        }
        if i == self.steps {
            return Some(self.end);
        }
        // Interpolate the cubical forms, scaled by the step count, and
        // round each component to the nearest integer.
        let n = self.steps as i128;
        let ii = i as i128;
        let (sx, sy, sz) = self.start.to_cubical();
        let (ex, ey, ez) = self.end.to_cubical();
        proof {
            assert(n <= 3000000000);
            crate::square::lemma_abs_mul_bound(sx as int, n - ii, 1000000000, 3000000000);
            crate::square::lemma_abs_mul_bound(sy as int, n - ii, 1000000000, 3000000000);
            crate::square::lemma_abs_mul_bound(sz as int, n - ii, 1000000000, 3000000000);
            crate::square::lemma_abs_mul_bound(ex as int, ii as int, 1000000000, 3000000000);
            crate::square::lemma_abs_mul_bound(ey as int, ii as int, 1000000000, 3000000000);
            crate::square::lemma_abs_mul_bound(ez as int, ii as int, 1000000000, 3000000000);
        }
        let numx = (sx as i128) * (n - ii) + (ex as i128) * ii;
        let numy = (sy as i128) * (n - ii) + (ey as i128) * ii;
        let numz = (sz as i128) * (n - ii) + (ez as i128) * ii;
        proof {
            assert(crate::square::abs(numx as int) <= 1000000000 * (n as int)) by (nonlinear_arith)
                requires
                    numx as int == (sx as int) * ((n - ii) as int) + (ex as int) * (ii as int),
                    crate::square::abs(sx as int) <= 1000000000,
                    crate::square::abs(ex as int) <= 1000000000,
                    0 <= ii as int <= n as int,
            ;
            assert(crate::square::abs(numy as int) <= 1000000000 * (n as int)) by (nonlinear_arith)
                requires
                    numy as int == (sy as int) * ((n - ii) as int) + (ey as int) * (ii as int),
                    crate::square::abs(sy as int) <= 1000000000,
                    crate::square::abs(ey as int) <= 1000000000,
                    0 <= ii as int <= n as int,
            ;
            assert(crate::square::abs(numz as int) <= 1000000000 * (n as int)) by (nonlinear_arith)
                requires
                    numz as int == (sz as int) * ((n - ii) as int) + (ez as int) * (ii as int),
                    crate::square::abs(sz as int) <= 1000000000,
                    crate::square::abs(ez as int) <= 1000000000,
                    0 <= ii as int <= n as int,
            ;
            assert(1000000000 * (n as int) <= 3000000000000000000) by (nonlinear_arith)
                requires
                    1 <= n as int <= 3000000000,
            ;
        }
        let mut rx = round_div(numx, n);
        let mut ry = round_div(numy, n);
        let mut rz = round_div(numz, n);
        proof {
            assert(crate::square::abs(rx as int) <= 1000000001) by (nonlinear_arith)
                requires
                    crate::square::abs(rx as int) * (n as int) <= crate::square::abs(numx as int)
                        + (n as int),
                    crate::square::abs(numx as int) <= 1000000000 * (n as int),
                    n as int >= 1,
            ;
            assert(crate::square::abs(ry as int) <= 1000000001) by (nonlinear_arith)
                requires
                    crate::square::abs(ry as int) * (n as int) <= crate::square::abs(numy as int)
                        + (n as int),
                    crate::square::abs(numy as int) <= 1000000000 * (n as int),
                    n as int >= 1,
            ;
            assert(crate::square::abs(rz as int) <= 1000000001) by (nonlinear_arith)
                requires
                    crate::square::abs(rz as int) * (n as int) <= crate::square::abs(numz as int)
                        + (n as int),
                    crate::square::abs(numz as int) <= 1000000000 * (n as int),
                    n as int >= 1,
            ;
            crate::square::lemma_abs_mul_bound(rx as int, n as int, 1000000001, 3000000000);
            crate::square::lemma_abs_mul_bound(ry as int, n as int, 1000000001, 3000000000);
            crate::square::lemma_abs_mul_bound(rz as int, n as int, 1000000001, 3000000000);
        }
        // Reset the component with the largest rounding error so the
        // three again sum to zero.
        let dx = abs128(rx * n - numx);
        let dy = abs128(ry * n - numy);
        let dz = abs128(rz * n - numz);
        if dx > dy && dx > dz {
            rx = -ry - rz;
        } else if dy > dz {
            ry = -rx - rz;
        } else {
            rz = -rx - ry;
        }
        Some(Coord { x: rx as i32, y: rz as i32 })
    }
}

/// The absolute value of a machine integer.
fn abs128(x: i128) -> (r: i128)
    requires
        x > i128::MIN,
    ensures
        r as int == crate::square::abs(x as int),
{
    if x < 0 {
        -x
    } else {
        x
    }
}

impl std::ops::Add for Coord {
    type Output = Coord;

    /// Componentwise vector addition.
    fn add(self, other: Coord) -> (r: Coord) {
        Coord { x: self.x + other.x, y: self.y + other.y }
    }
}

impl vstd::std_specs::ops::AddSpecImpl for Coord {
    open spec fn obeys_add_spec() -> bool {
        true
    }

    open spec fn add_req(self, other: Coord) -> bool {
        crate::ModuleCoord::sum_fits(self, other)
    }

    open spec fn add_spec(self, other: Coord) -> Coord {
        crate::ModuleCoord::spec_add(self, other)
    }
}

impl std::ops::Sub for Coord {
    type Output = Coord;

    /// Componentwise vector subtraction.
    fn sub(self, other: Coord) -> (r: Coord) {
        Coord { x: self.x - other.x, y: self.y - other.y }
    }
}

impl vstd::std_specs::ops::SubSpecImpl for Coord {
    open spec fn obeys_sub_spec() -> bool {
        true
    }

    open spec fn sub_req(self, other: Coord) -> bool {
        &&& i32::MIN <= self.sx() - other.sx() <= i32::MAX
        &&& i32::MIN <= self.sy() - other.sy() <= i32::MAX
    }

    open spec fn sub_spec(self, other: Coord) -> Coord {
        Coord::spec_new(self.sx() - other.sx(), self.sy() - other.sy())
    }
}

impl std::ops::Neg for Coord {
    type Output = Coord;

    /// Componentwise negation.
    fn neg(self) -> (r: Coord) {
        Coord { x: -self.x, y: -self.y }
    }
}

impl vstd::std_specs::ops::NegSpecImpl for Coord {
    open spec fn obeys_neg_spec() -> bool {
        true
    }

    open spec fn neg_req(self) -> bool {
        self.sx() > i32::MIN && self.sy() > i32::MIN
    }

    open spec fn neg_spec(self) -> Coord {
        crate::ModuleCoord::spec_neg(self)
    }
}

impl std::ops::Mul<isize> for Coord {
    type Output = Coord;

    /// Scalar multiplication by a signed integer.
    fn mul(self, other: isize) -> (r: Coord) {
        proof {
            vstd::arithmetic::mul::lemma_mul_is_commutative(self.sx(), other as int);
            vstd::arithmetic::mul::lemma_mul_is_commutative(self.sy(), other as int);
        }
        let x = ((self.x as i128) * (other as i128)) as i32;
        let y = ((self.y as i128) * (other as i128)) as i32;
        Coord { x, y }
    }
}

impl vstd::std_specs::ops::MulSpecImpl<isize> for Coord {
    open spec fn obeys_mul_spec() -> bool {
        true
    }

    open spec fn mul_req(self, other: isize) -> bool {
        &&& i32::MIN <= other * self.sx() <= i32::MAX
        &&& i32::MIN <= other * self.sy() <= i32::MAX
    }

    open spec fn mul_spec(self, other: isize) -> Coord {
        crate::ModuleCoord::spec_scale(self, other as int)
    }
}

impl Coord {
    /// Produce an iterator that steps repeatedly in the given direction,
    /// starting at this coordinate, bounded by the given range.  The
    /// iterator is empty if the direction is not allowed.
    pub fn direction_iterator<RB: crate::utils::AllowedCoordIterRange>(
        &self,
        dir_type: DirectionType,
        dir: Direction,
        range: RB,
    ) -> (r: crate::utils::ModuleCoordIter<Coord, RB>)
        ensures
            r.coord == *self,
            r.index == 0,
            r.range == range,
            r.opt_offset is Some <==> self.spec_allowed(dir_type, dir),
            match r.opt_offset {
                Some(o) => o.fits() && forall|c: Coord|
                    c.fits() ==> #[trigger] c.spec_add(o) == c.spec_move(dir_type, dir)->0,
                None => true,
            },
    {
        crate::utils::ModuleCoordIter {
            coord: *self,
            opt_offset: crate::ModuleCoord::offset_in_direction(self, dir_type, dir),
            index: 0,
            range,
        }
    }

    /// Produce an iterator that steps repeatedly along the given axis in
    /// the given sign, starting at this coordinate, bounded by the given
    /// range.
    pub fn axis_iterator<RB: crate::utils::AllowedCoordIterRange>(
        &self,
        axis: Axes,
        positive: bool,
        range: RB,
    ) -> (r: crate::utils::ModuleCoordIter<Coord, RB>)
        ensures
            r.coord == *self,
            r.index == 0,
            r.range == range,
            r.opt_offset is Some,
            r.opt_offset->0.fits(),
            forall|c: Coord|
                c.fits() ==> #[trigger] c.spec_add(r.opt_offset->0) == c.spec_move_axis(
                    axis,
                    positive,
                ),
    {
        crate::utils::ModuleCoordIter {
            coord: *self,
            opt_offset: Some(crate::ModuleCoord::offset_on_axis(self, axis, positive)),
            index: 0,
            range,
        }
    }
}

} // verus!
