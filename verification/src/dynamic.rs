//! A "dynamic" coordinate that dispatches to one of the concrete
//! coordinate types, for code that must switch between tilings at run
//! time.  Every operation forwards to the active variant.  Operations
//! that take two coordinates or an axis demand operands of one kind:
//! mixing tilings is a caller error, never meaningful, so those
//! combinations are excluded by precondition.

use vstd::prelude::*;

use crate::direction::{Direction, DirectionSet};
use crate::shape::HashShape;
use crate::{hex, square, triangle};
use crate::{Color, DirectionType};
use crate::{Coord as _, Shape as _};

verus! {

broadcast use vstd::seq_lib::group_seq_properties, vstd::set_lib::group_set_properties;

/// The tilings a dynamic coordinate can carry.
#[derive(Debug, Clone, Copy, PartialEq, Eq, Structural, Hash)]
pub enum Kind {
    Square,
    Hex,
    Triangle,
}

impl Kind {
    /// The number of vertices of one cell of this kind of grid.
    pub fn num_vertices(self) -> (r: usize)
        ensures
            self == Kind::Square ==> r == 4,
            self == Kind::Hex ==> r == 6,
            self == Kind::Triangle ==> r == 3,
    {
        match self {
            Kind::Square => 4,
            Kind::Hex => 6,
            Kind::Triangle => 3,
        }
    }

    /// The axes of this kind of grid.
    pub fn axes(self) -> (r: Vec<Axes>)
        ensures
            self == Kind::Square ==> r@ == seq![
                Axes::Square(square::Axes::X),
                Axes::Square(square::Axes::Y),
            ],
            self == Kind::Hex ==> r@ == seq![
                Axes::Hex(hex::Axes::Q),
                Axes::Hex(hex::Axes::R),
                Axes::Hex(hex::Axes::S),
            ],
            self == Kind::Triangle ==> r@ == seq![
                Axes::Triangle(triangle::Axes::A),
                Axes::Triangle(triangle::Axes::B),
                Axes::Triangle(triangle::Axes::C),
            ],
    {
        let mut r: Vec<Axes> = Vec::new();
        match self {
            Kind::Square => {
                r.push(Axes::Square(square::Axes::X));
                r.push(Axes::Square(square::Axes::Y));
                proof {
                    assert(r@ =~= seq![
                        Axes::Square(square::Axes::X),
                        Axes::Square(square::Axes::Y),
                    ]);
                }
            },
            Kind::Hex => {
                r.push(Axes::Hex(hex::Axes::Q));
                r.push(Axes::Hex(hex::Axes::R));
                r.push(Axes::Hex(hex::Axes::S));
                proof {
                    assert(r@ =~= seq![
                        Axes::Hex(hex::Axes::Q),
                        Axes::Hex(hex::Axes::R),
                        Axes::Hex(hex::Axes::S),
                    ]);
                }
            },
            Kind::Triangle => {
                r.push(Axes::Triangle(triangle::Axes::A));
                r.push(Axes::Triangle(triangle::Axes::B));
                r.push(Axes::Triangle(triangle::Axes::C));
                proof {
                    assert(r@ =~= seq![
                        Axes::Triangle(triangle::Axes::A),
                        Axes::Triangle(triangle::Axes::B),
                        Axes::Triangle(triangle::Axes::C),
                    ]);
                }
            },
        }
        r
    }

    /// Does this kind of coordinate also support the module operations?
    pub fn is_modular(self) -> (r: bool)
        ensures
            r == (self != Kind::Triangle),
    {
        match self {
            Kind::Square => true,
            Kind::Hex => true,
            Kind::Triangle => false,
        }
    }

    /// The name of this kind.
    pub fn name(self) -> (r: &'static str)
        ensures
            self == Kind::Square ==> r@ == "Square"@,
            self == Kind::Hex ==> r@ == "Hex"@,
            self == Kind::Triangle ==> r@ == "Triangle"@,
    {
        match self {
            Kind::Square => "Square",
            Kind::Hex => "Hex",
            Kind::Triangle => "Triangle",
        }
    }
}

/// A coordinate of one of the three tilings.
#[derive(Debug, Clone, Copy, PartialEq, Eq, Structural, Hash)]
pub enum Coord {
    Square(square::Coord),
    Hex(hex::Coord),
    Triangle(triangle::Coord),
}

/// An axis of one of the three tilings.
#[derive(Debug, Clone, Copy, PartialEq, Eq, Structural, Hash)]
pub enum Axes {
    Square(square::Axes),
    Hex(hex::Axes),
    Triangle(triangle::Axes),
}

impl Axes {
    /// The kind of grid this axis belongs to.
    pub open spec fn spec_kind(self) -> Kind {
        match self {
            Axes::Square(_) => Kind::Square,
            Axes::Hex(_) => Kind::Hex,
            Axes::Triangle(_) => Kind::Triangle,
        }
    }

    /// Obtain the kind of grid this axis belongs to.
    pub fn kind(&self) -> (r: Kind)
        ensures
            r == self.spec_kind(),
    {
        match self {
            Axes::Square(_) => Kind::Square,
            Axes::Hex(_) => Kind::Hex,
            Axes::Triangle(_) => Kind::Triangle,
        }
    }
}

impl Coord {
    /// The kind of grid this coordinate belongs to.
    pub open spec fn spec_kind(self) -> Kind {
        match self {
            Coord::Square(_) => Kind::Square,
            Coord::Hex(_) => Kind::Hex,
            Coord::Triangle(_) => Kind::Triangle,
        }
    }

    /// The origin coordinate of the given kind.
    pub open spec fn spec_origin_of(kind: Kind) -> Coord {
        match kind {
            Kind::Square => Coord::Square(<square::Coord as crate::ModuleCoord>::spec_origin()),
            Kind::Hex => Coord::Hex(<hex::Coord as crate::ModuleCoord>::spec_origin()),
            Kind::Triangle => Coord::Triangle(
                triangle::Coord::spec_new(0, 0, triangle::TrianglePoint::Up),
            ),
        }
    }

    /// Obtain the kind of grid this coordinate belongs to.
    pub fn kind(&self) -> (r: Kind)
        ensures
            r == self.spec_kind(),
    {
        match self {
            Coord::Square(_) => Kind::Square,
            Coord::Hex(_) => Kind::Hex,
            Coord::Triangle(_) => Kind::Triangle,
        }
    }

    /// Obtain the origin coordinate for the given kind.
    pub fn origin(kind: Kind) -> (r: Coord)
        ensures
            r == Coord::spec_origin_of(kind),
    {
        match kind {
            Kind::Square => Coord::Square(square::Coord::origin()),
            Kind::Hex => Coord::Hex(hex::Coord::origin()),
            Kind::Triangle => Coord::Triangle(triangle::Coord::origin()),
        }
    }
}

impl crate::Coord for Coord {
    type Axes = Axes;

    open spec fn fits(self) -> bool {
        match self {
            Coord::Square(c) => c.fits(),
            Coord::Hex(c) => c.fits(),
            Coord::Triangle(c) => c.fits(),
        }
    }

    open spec fn is_origin_spec(self) -> bool {
        self == Coord::spec_origin_of(self.spec_kind())
    }

    /// Two dynamic coordinates can be combined only when they carry the
    /// same tiling.
    open spec fn comparable(self, other: Coord) -> bool {
        self.spec_kind() == other.spec_kind()
    }

    /// An axis applies to a dynamic coordinate only when both carry the
    /// same tiling.
    open spec fn axis_ok(self, axis: Axes) -> bool {
        self.spec_kind() == axis.spec_kind()
    }

    open spec fn spec_rotate_cw(self) -> Coord {
        match self {
            Coord::Square(c) => Coord::Square(c.spec_rotate_cw()),
            Coord::Hex(c) => Coord::Hex(c.spec_rotate_cw()),
            Coord::Triangle(c) => Coord::Triangle(c.spec_rotate_cw()),
        }
    }

    open spec fn spec_rotate_ccw(self) -> Coord {
        match self {
            Coord::Square(c) => Coord::Square(c.spec_rotate_ccw()),
            Coord::Hex(c) => Coord::Hex(c.spec_rotate_ccw()),
            Coord::Triangle(c) => Coord::Triangle(c.spec_rotate_ccw()),
        }
    }

    open spec fn spec_reflect(self, axis: Axes) -> Coord {
        match (self, axis) {
            (Coord::Square(c), Axes::Square(a)) => Coord::Square(c.spec_reflect(a)),
            (Coord::Hex(c), Axes::Hex(a)) => Coord::Hex(c.spec_reflect(a)),
            (Coord::Triangle(c), Axes::Triangle(a)) => Coord::Triangle(c.spec_reflect(a)),
            _ => self,
        }
    }

    open spec fn spec_move_axis(self, axis: Axes, positive: bool) -> Coord {
        match (self, axis) {
            (Coord::Square(c), Axes::Square(a)) => Coord::Square(c.spec_move_axis(a, positive)),
            (Coord::Hex(c), Axes::Hex(a)) => Coord::Hex(c.spec_move_axis(a, positive)),
            (Coord::Triangle(c), Axes::Triangle(a)) => Coord::Triangle(
                c.spec_move_axis(a, positive),
            ),
            _ => self,
        }
    }

    open spec fn spec_move(self, dir_type: DirectionType, dir: Direction) -> Option<Coord> {
        match self {
            Coord::Square(c) => match c.spec_move(dir_type, dir) {
                Some(m) => Some(Coord::Square(m)),
                None => None,
            },
            Coord::Hex(c) => match c.spec_move(dir_type, dir) {
                Some(m) => Some(Coord::Hex(m)),
                None => None,
            },
            Coord::Triangle(c) => match c.spec_move(dir_type, dir) {
                Some(m) => Some(Coord::Triangle(m)),
                None => None,
            },
        }
    }

    open spec fn spec_allowed(self, dir_type: DirectionType, dir: Direction) -> bool {
        match self {
            Coord::Square(c) => c.spec_allowed(dir_type, dir),
            Coord::Hex(c) => c.spec_allowed(dir_type, dir),
            Coord::Triangle(c) => c.spec_allowed(dir_type, dir),
        }
    }

    open spec fn spec_distance(self, other: Coord) -> int {
        match (self, other) {
            (Coord::Square(a), Coord::Square(b)) => a.spec_distance(b),
            (Coord::Hex(a), Coord::Hex(b)) => a.spec_distance(b),
            (Coord::Triangle(a), Coord::Triangle(b)) => a.spec_distance(b),
            _ => 0,
        }
    }

    open spec fn spec_offset(self) -> (int, int) {
        match self {
            Coord::Square(c) => c.spec_offset(),
            Coord::Hex(c) => c.spec_offset(),
            Coord::Triangle(c) => c.spec_offset(),
        }
    }

    open spec fn spec_color(self) -> Color {
        match self {
            Coord::Square(c) => c.spec_color(),
            Coord::Hex(c) => c.spec_color(),
            Coord::Triangle(c) => c.spec_color(),
        }
    }

    fn eq_coord(&self, other: &Coord) -> bool {
        match (self, other) {
            (Coord::Square(a), Coord::Square(b)) => a.eq_coord(b),
            (Coord::Hex(a), Coord::Hex(b)) => a.eq_coord(b),
            (Coord::Triangle(a), Coord::Triangle(b)) => a.eq_coord(b),
            _ => false,
        }
    }

    fn eq_axes(a: &Axes, b: &Axes) -> bool {
        match (a, b) {
            (Axes::Square(x), Axes::Square(y)) => square::Coord::eq_axes(x, y),
            (Axes::Hex(x), Axes::Hex(y)) => hex::Coord::eq_axes(x, y),
            (Axes::Triangle(x), Axes::Triangle(y)) => triangle::Coord::eq_axes(x, y),
            _ => false,
        }
    }

    fn fits_now(&self) -> bool {
        match self {
            Coord::Square(c) => c.fits_now(),
            Coord::Hex(c) => c.fits_now(),
            Coord::Triangle(c) => c.fits_now(),
        }
    }

    fn comparable_now(&self, other: &Coord) -> bool {
        match (self, other) {
            (Coord::Square(_), Coord::Square(_)) => true,
            (Coord::Hex(_), Coord::Hex(_)) => true,
            (Coord::Triangle(_), Coord::Triangle(_)) => true,
            _ => false,
        }
    }

    fn axis_ok_now(&self, axis: &Axes) -> bool {
        match (self, axis) {
            (Coord::Square(_), Axes::Square(_)) => true,
            (Coord::Hex(_), Axes::Hex(_)) => true,
            (Coord::Triangle(_), Axes::Triangle(_)) => true,
            _ => false,
        }
    }

    fn is_origin(&self) -> bool {
        match self {
            Coord::Square(c) => c.is_origin(),
            Coord::Hex(c) => c.is_origin(),
            Coord::Triangle(c) => c.is_origin(),
        }
    }

    fn distance(&self, other: &Coord) -> usize {
        match (self, other) {
            (Coord::Square(a), Coord::Square(b)) => a.distance(b),
            (Coord::Hex(a), Coord::Hex(b)) => a.distance(b),
            (Coord::Triangle(a), Coord::Triangle(b)) => a.distance(b),
            _ => {
                proof {
                    assert(false);
                }
                0
            },
        }
    }

    fn move_in_direction(&self, dir_type: DirectionType, dir: Direction) -> Option<Coord> {
        match self {
            Coord::Square(c) => match c.move_in_direction(dir_type, dir) {
                Some(m) => Some(Coord::Square(m)),
                None => None,
            },
            Coord::Hex(c) => match c.move_in_direction(dir_type, dir) {
                Some(m) => Some(Coord::Hex(m)),
                None => None,
            },
            Coord::Triangle(c) => match c.move_in_direction(dir_type, dir) {
                Some(m) => Some(Coord::Triangle(m)),
                None => None,
            },
        }
    }

    fn move_on_axis(&self, axis: Axes, positive: bool) -> Coord {
        match (self, axis) {
            (Coord::Square(c), Axes::Square(a)) => Coord::Square(c.move_on_axis(a, positive)),
            (Coord::Hex(c), Axes::Hex(a)) => Coord::Hex(c.move_on_axis(a, positive)),
            (Coord::Triangle(c), Axes::Triangle(a)) => Coord::Triangle(c.move_on_axis(a, positive)),
            _ => {
                proof {
                    assert(false);
                }
                *self
            },
        }
    }

    fn allowed_direction(&self, dir_type: DirectionType, dir: Direction) -> bool {
        match self {
            Coord::Square(c) => c.allowed_direction(dir_type, dir),
            Coord::Hex(c) => c.allowed_direction(dir_type, dir),
            Coord::Triangle(c) => c.allowed_direction(dir_type, dir),
        }
    }

    fn allowed_directions(&self, dir_type: DirectionType) -> (r: DirectionSet) {
        match self {
            Coord::Square(c) => c.allowed_directions(dir_type),
            Coord::Hex(c) => c.allowed_directions(dir_type),
            Coord::Triangle(c) => c.allowed_directions(dir_type),
        }
    }

    fn grid_to_array_offset(&self) -> (isize, isize) {
        match self {
            Coord::Square(c) => c.grid_to_array_offset(),
            Coord::Hex(c) => c.grid_to_array_offset(),
            Coord::Triangle(c) => c.grid_to_array_offset(),
        }
    }

    fn to_color(&self) -> Color {
        match self {
            Coord::Square(c) => c.to_color(),
            Coord::Hex(c) => c.to_color(),
            Coord::Triangle(c) => c.to_color(),
        }
    }

    fn rotate_clockwise(&self) -> Coord {
        match self {
            Coord::Square(c) => Coord::Square(c.rotate_clockwise()),
            Coord::Hex(c) => Coord::Hex(c.rotate_clockwise()),
            Coord::Triangle(c) => Coord::Triangle(c.rotate_clockwise()),
        }
    }

    fn rotate_counterclockwise(&self) -> Coord {
        match self {
            Coord::Square(c) => Coord::Square(c.rotate_counterclockwise()),
            Coord::Hex(c) => Coord::Hex(c.rotate_counterclockwise()),
            Coord::Triangle(c) => Coord::Triangle(c.rotate_counterclockwise()),
        }
    }

    fn reflect(&self, axis: Axes) -> Coord {
        match (self, axis) {
            (Coord::Square(c), Axes::Square(a)) => Coord::Square(c.reflect(a)),
            (Coord::Hex(c), Axes::Hex(a)) => Coord::Hex(c.reflect(a)),
            (Coord::Triangle(c), Axes::Triangle(a)) => Coord::Triangle(c.reflect(a)),
            _ => {
                proof {
                    assert(false);
                }
                *self
            },
        }
    }

    proof fn lemma_rotate_inverse(self) {
        match self {
            Coord::Square(c) => <square::Coord as crate::Coord>::lemma_rotate_inverse(c),
            Coord::Hex(c) => <hex::Coord as crate::Coord>::lemma_rotate_inverse(c),
            Coord::Triangle(c) => <triangle::Coord as crate::Coord>::lemma_rotate_inverse(c),
        }
    }

    proof fn lemma_reflect_involution(self, axis: Axes) {
        match (self, axis) {
            (Coord::Square(c), Axes::Square(a)) => <square::Coord as crate::Coord>::lemma_reflect_involution(c, a),
            (Coord::Hex(c), Axes::Hex(a)) => <hex::Coord as crate::Coord>::lemma_reflect_involution(c, a),
            (Coord::Triangle(c), Axes::Triangle(a)) => <triangle::Coord as crate::Coord>::lemma_reflect_involution(c, a),
            _ => (),
        }
    }

    proof fn lemma_move_opposite(self, dir_type: DirectionType, dir: Direction) {
        match self {
            Coord::Square(c) => <square::Coord as crate::Coord>::lemma_move_opposite(c, dir_type, dir),
            Coord::Hex(c) => <hex::Coord as crate::Coord>::lemma_move_opposite(c, dir_type, dir),
            Coord::Triangle(c) => <triangle::Coord as crate::Coord>::lemma_move_opposite(c, dir_type, dir),
        }
    }

    proof fn lemma_color_adjacent(self, dir: Direction) {
        match self {
            Coord::Square(c) => <square::Coord as crate::Coord>::lemma_color_adjacent(c, dir),
            Coord::Hex(c) => <hex::Coord as crate::Coord>::lemma_color_adjacent(c, dir),
            Coord::Triangle(c) => <triangle::Coord as crate::Coord>::lemma_color_adjacent(c, dir),
        }
    }

    proof fn lemma_offset_injective(self, other: Coord) {
        match (self, other) {
            (Coord::Square(a), Coord::Square(b)) => <square::Coord as crate::Coord>::lemma_offset_injective(a, b),
            (Coord::Hex(a), Coord::Hex(b)) => <hex::Coord as crate::Coord>::lemma_offset_injective(a, b),
            (Coord::Triangle(a), Coord::Triangle(b)) => <triangle::Coord as crate::Coord>::lemma_offset_injective(a, b),
            _ => (),
        }
    }
}

impl Coord {
    /// The ring of the given radius in the given kind of grid.  For every
    /// kind, the ring of radius zero is exactly the origin cell.
    pub fn ring(kind: Kind, radius: usize) -> (r: HashShape<Coord>)
        requires
            radius <= 300000000,
        ensures
            forall|c: Coord| r.sset().contains(c) ==> c.spec_kind() == kind,
            radius == 0 ==> r.sset() == Set::<Coord>::empty().insert(Coord::spec_origin_of(kind)),
            kind == Kind::Square ==> forall|sc: square::Coord|
                r.sset().contains(Coord::Square(sc)) <==> square::on_square_ring(
                    sc,
                    radius as int,
                ),
            kind == Kind::Hex ==> forall|hc: hex::Coord|
                r.sset().contains(Coord::Hex(hc)) <==> hex::on_hex_ring(hc, radius as int),
            kind == Kind::Triangle ==> forall|tc: triangle::Coord|
                r.sset().contains(Coord::Triangle(tc)) <==> triangle::on_triangle_ring(
                    tc,
                    radius as int,
                ),
    {
        match kind {
            Kind::Square => {
                let inner = square::Coord::ring(radius);
                let r = wrap_square(inner);
                proof {
                    if radius == 0 {
                        assert forall|c: Coord|
                            r.sset().contains(c) <==> c == Coord::spec_origin_of(kind) by {
                            if r.sset().contains(c) {
                                match c {
                                    Coord::Square(sc) => {
                                        assert(r.sset().contains(Coord::Square(sc)));
                                        assert(square::on_square_ring(sc, 0));
                                        assert(sc.sx() == 0 && sc.sy() == 0);
                                    },
                                    _ => {},
                                }
                            }
                            if c == Coord::spec_origin_of(kind) {
                                let o = <square::Coord as crate::ModuleCoord>::spec_origin();
                                assert(square::on_square_ring(o, 0));
                                assert(inner.sset().contains(o));
                                assert(r.sset().contains(Coord::Square(o)));
                            }
                        }
                        assert(r.sset() =~= Set::<Coord>::empty().insert(
                            Coord::spec_origin_of(kind),
                        ));
                    }
                }
                r
            },
            Kind::Hex => {
                let inner = hex::Coord::ring(radius);
                let r = wrap_hex(inner);
                proof {
                    if radius == 0 {
                        assert forall|c: Coord|
                            r.sset().contains(c) <==> c == Coord::spec_origin_of(kind) by {
                            if r.sset().contains(c) {
                                match c {
                                    Coord::Hex(hc) => {
                                        assert(r.sset().contains(Coord::Hex(hc)));
                                        assert(hex::on_hex_ring(hc, 0));
                                        hex::lemma_hex_norm_bounds(hc.sx(), hc.sy());
                                        assert(hc.sx() == 0 && hc.sy() == 0);
                                    },
                                    _ => {},
                                }
                            }
                            if c == Coord::spec_origin_of(kind) {
                                let o = <hex::Coord as crate::ModuleCoord>::spec_origin();
                                hex::lemma_hex_norm_bounds(0, 0);
                                assert(hex::on_hex_ring(o, 0));
                                assert(inner.sset().contains(o));
                                assert(r.sset().contains(Coord::Hex(o)));
                            }
                        }
                        assert(r.sset() =~= Set::<Coord>::empty().insert(
                            Coord::spec_origin_of(kind),
                        ));
                    }
                }
                r
            },
            Kind::Triangle => {
                let inner = triangle::Coord::ring(radius);
                let r = wrap_triangle(inner);
                proof {
                    if radius == 0 {
                        let o = triangle::Coord::spec_new(0, 0, triangle::TrianglePoint::Up);
                        assert forall|c: Coord|
                            r.sset().contains(c) <==> c == Coord::spec_origin_of(kind) by {
                            if r.sset().contains(c) {
                                match c {
                                    Coord::Triangle(tc) => {
                                        assert(r.sset().contains(Coord::Triangle(tc)));
                                        assert(triangle::on_triangle_ring(tc, 0));
                                        assert(tc == o);
                                    },
                                    _ => {},
                                }
                            }
                            if c == Coord::spec_origin_of(kind) {
                                assert(triangle::on_triangle_ring(o, 0));
                                assert(r.sset().contains(Coord::Triangle(o)));
                            }
                        }
                        assert(r.sset() =~= Set::<Coord>::empty().insert(
                            Coord::spec_origin_of(kind),
                        ));
                    }
                }
                r
            },
        }
    }

    /// The filled region of the given radius in the given kind of grid.
    pub fn range(kind: Kind, radius: usize) -> (r: HashShape<Coord>)
        requires
            radius <= 300000000,
        ensures
            forall|c: Coord| r.sset().contains(c) ==> c.spec_kind() == kind,
            r.sset().contains(Coord::spec_origin_of(kind)),
            kind == Kind::Square ==> forall|sc: square::Coord|
                r.sset().contains(Coord::Square(sc)) <==> square::in_square_range(
                    sc,
                    radius as int,
                ),
            kind == Kind::Hex ==> forall|hc: hex::Coord|
                r.sset().contains(Coord::Hex(hc)) <==> hex::in_hex_range(hc, radius as int),
            kind == Kind::Triangle ==> forall|tc: triangle::Coord|
                r.sset().contains(Coord::Triangle(tc)) <==> triangle::in_triangle_range(
                    tc,
                    radius as int,
                ),
    {
        let r = match kind {
            Kind::Square => wrap_square(square::Coord::range(radius)),
            Kind::Hex => wrap_hex(hex::Coord::range(radius)),
            Kind::Triangle => wrap_triangle(triangle::Coord::range(radius)),
        };
        proof {
            match kind {
                Kind::Square => {
                    assert(square::in_square_range(
                        <square::Coord as crate::ModuleCoord>::spec_origin(),
                        radius as int,
                    ));
                },
                Kind::Hex => {
                    hex::lemma_hex_norm_bounds(0, 0);
                    assert(hex::in_hex_range(
                        <hex::Coord as crate::ModuleCoord>::spec_origin(),
                        radius as int,
                    ));
                },
                Kind::Triangle => {
                    assert(triangle::in_triangle_range(
                        triangle::Coord::spec_new(0, 0, triangle::TrianglePoint::Up),
                        radius as int,
                    ));
                },
            }
        }
        r
    }
}

/// Iterated rotation of a dynamic coordinate is the wrapped iterated
/// rotation of the coordinate it carries.
proof fn lemma_wrap_rotate_square(c: square::Coord, k: int)
    ensures
        crate::utils::rotate_cw_times(Coord::Square(c), k) == Coord::Square(
            crate::utils::rotate_cw_times(c, k),
        ),
        crate::utils::rotate_ccw_times(Coord::Square(c), k) == Coord::Square(
            crate::utils::rotate_ccw_times(c, k),
        ),
    decreases k,
{
    if k > 0 {
        lemma_wrap_rotate_square(c, k - 1);
    }
}

/// Iterated rotation of a dynamic coordinate is the wrapped iterated
/// rotation of the coordinate it carries.
proof fn lemma_wrap_rotate_hex(c: hex::Coord, k: int)
    ensures
        crate::utils::rotate_cw_times(Coord::Hex(c), k) == Coord::Hex(
            crate::utils::rotate_cw_times(c, k),
        ),
        crate::utils::rotate_ccw_times(Coord::Hex(c), k) == Coord::Hex(
            crate::utils::rotate_ccw_times(c, k),
        ),
    decreases k,
{
    if k > 0 {
        lemma_wrap_rotate_hex(c, k - 1);
    }
}

/// Iterated rotation of a dynamic coordinate is the wrapped iterated
/// rotation of the coordinate it carries.
proof fn lemma_wrap_rotate_triangle(c: triangle::Coord, k: int)
    ensures
        crate::utils::rotate_cw_times(Coord::Triangle(c), k) == Coord::Triangle(
            crate::utils::rotate_cw_times(c, k),
        ),
        crate::utils::rotate_ccw_times(Coord::Triangle(c), k) == Coord::Triangle(
            crate::utils::rotate_ccw_times(c, k),
        ),
    decreases k,
{
    if k > 0 {
        lemma_wrap_rotate_triangle(c, k - 1);
    }
}

/// Repeated rotation returns a dynamic coordinate to its start after the
/// period of the tiling it carries: four eighth-turns on a square grid,
/// six sixth-turns on a hexagonal one, three third-turns on a triangular
/// one.
pub proof fn lemma_rotation_period(c: Coord)
    requires
        c.fits(),
    ensures
        c.spec_kind() == Kind::Square ==> crate::utils::rotate_cw_times(c, 4) == c
            && crate::utils::rotate_ccw_times(c, 4) == c,
        c.spec_kind() == Kind::Hex ==> crate::utils::rotate_cw_times(c, 6) == c
            && crate::utils::rotate_ccw_times(c, 6) == c,
        c.spec_kind() == Kind::Triangle ==> crate::utils::rotate_cw_times(c, 3) == c
            && crate::utils::rotate_ccw_times(c, 3) == c,
{
    match c {
        Coord::Square(sc) => {
            square::lemma_rotation_period(sc);
            lemma_wrap_rotate_square(sc, 4);
        },
        Coord::Hex(hc) => {
            hex::lemma_rotation_period(hc);
            lemma_wrap_rotate_hex(hc, 6);
        },
        Coord::Triangle(tc) => {
            triangle::lemma_rotation_period(tc);
            lemma_wrap_rotate_triangle(tc, 3);
        },
    }
}

/// The filled region of one radius and the ring of the next are
/// disjoint, whichever tiling the two were built for.
pub proof fn lemma_range_ring_disjoint(
    kind: Kind,
    range_set: Set<Coord>,
    ring_set: Set<Coord>,
    radius: int,
)
    requires
        radius >= 0,
        forall|c: Coord| range_set.contains(c) ==> c.spec_kind() == kind,
        forall|c: Coord| ring_set.contains(c) ==> c.spec_kind() == kind,
        kind == Kind::Square ==> forall|sc: square::Coord|
            range_set.contains(Coord::Square(sc)) <==> square::in_square_range(sc, radius),
        kind == Kind::Square ==> forall|sc: square::Coord|
            ring_set.contains(Coord::Square(sc)) <==> square::on_square_ring(sc, radius + 1),
        kind == Kind::Hex ==> forall|hc: hex::Coord|
            range_set.contains(Coord::Hex(hc)) <==> hex::in_hex_range(hc, radius),
        kind == Kind::Hex ==> forall|hc: hex::Coord|
            ring_set.contains(Coord::Hex(hc)) <==> hex::on_hex_ring(hc, radius + 1),
        kind == Kind::Triangle ==> forall|tc: triangle::Coord|
            range_set.contains(Coord::Triangle(tc)) <==> triangle::in_triangle_range(tc, radius),
        kind == Kind::Triangle ==> forall|tc: triangle::Coord|
            ring_set.contains(Coord::Triangle(tc)) <==> triangle::on_triangle_ring(tc, radius + 1),
    ensures
        range_set.disjoint(ring_set),
{
    assert forall|c: Coord| range_set.contains(c) implies !ring_set.contains(c) by {
        assert(c.spec_kind() == kind);
        match c {
            Coord::Square(sc) => {
                assert(kind == Kind::Square);
                assert(range_set.contains(Coord::Square(sc)));
                assert(square::in_square_range(sc, radius));
                if ring_set.contains(c) {
                    assert(ring_set.contains(Coord::Square(sc)));
                    assert(square::on_square_ring(sc, radius + 1));
                    assert(false);
                }
            },
            Coord::Hex(hc) => {
                assert(kind == Kind::Hex);
                assert(range_set.contains(Coord::Hex(hc)));
                assert(hex::in_hex_range(hc, radius));
                if ring_set.contains(c) {
                    assert(ring_set.contains(Coord::Hex(hc)));
                    assert(hex::on_hex_ring(hc, radius + 1));
                    assert(false);
                }
            },
            Coord::Triangle(tc) => {
                assert(kind == Kind::Triangle);
                assert(range_set.contains(Coord::Triangle(tc)));
                assert(triangle::in_triangle_range(tc, radius));
                triangle::lemma_tri_max_nonneg(tc);
                if ring_set.contains(c) {
                    assert(ring_set.contains(Coord::Triangle(tc)));
                    assert(triangle::on_triangle_ring(tc, radius + 1));
                    assert(false);
                }
            },
        }
    }
}

/// An iterator over dynamic coordinates: one of the concrete coordinate
/// iterators, wrapping each coordinate it produces.  The concrete
/// iterators carry the exact walking contracts; this wrapper promises
/// that every coordinate it yields carries the tiling it was built for.
pub enum CoordIter<RB: crate::utils::AllowedCoordIterRange> {
    SquareSteps(crate::utils::ModuleCoordIter<square::Coord, RB>),
    HexSteps(crate::utils::ModuleCoordIter<hex::Coord, RB>),
    TriangleDirection(triangle::DirectionIter<RB>),
    TriangleAxis(triangle::TriangleAxisIter<RB>),
    SquarePath(square::SquarePathIter),
    HexLine(hex::HexLineIter),
    TrianglePath(triangle::TrianglePathIter),
}

impl<RB: crate::utils::AllowedCoordIterRange> CoordIter<RB> {
    /// The kind of grid whose coordinates this iterator produces.
    pub open spec fn spec_kind(self) -> Kind {
        match self {
            CoordIter::SquareSteps(_) => Kind::Square,
            CoordIter::HexSteps(_) => Kind::Hex,
            CoordIter::TriangleDirection(_) => Kind::Triangle,
            CoordIter::TriangleAxis(_) => Kind::Triangle,
            CoordIter::SquarePath(_) => Kind::Square,
            CoordIter::HexLine(_) => Kind::Hex,
            CoordIter::TrianglePath(_) => Kind::Triangle,
        }
    }

    /// The next coordinate of the underlying iterator, wrapped as a
    /// dynamic coordinate of the iterator's kind.
    pub fn next(&mut self) -> (r: Option<Coord>)
        ensures
            final(self).spec_kind() == old(self).spec_kind(),
            match r {
                Some(c) => c.spec_kind() == old(self).spec_kind(),
                None => true,
            },
    {
        match self {
            CoordIter::SquareSteps(it) => match it.next() {
                Some(c) => Some(Coord::Square(c)),
                None => None,
            },
            CoordIter::HexSteps(it) => match it.next() {
                Some(c) => Some(Coord::Hex(c)),
                None => None,
            },
            CoordIter::TriangleDirection(it) => match it.next() {
                Some(c) => Some(Coord::Triangle(c)),
                None => None,
            },
            CoordIter::TriangleAxis(it) => match it.next() {
                Some(c) => Some(Coord::Triangle(c)),
                None => None,
            },
            CoordIter::SquarePath(it) => match it.next() {
                Some(c) => Some(Coord::Square(c)),
                None => None,
            },
            CoordIter::HexLine(it) => match it.next() {
                Some(c) => Some(Coord::Hex(c)),
                None => None,
            },
            CoordIter::TrianglePath(it) => match it.next() {
                Some(c) => Some(Coord::Triangle(c)),
                None => None,
            },
        }
    }
}

impl Coord {
    /// Are this coordinate's components bounded tightly enough for a
    /// path walk of its kind?
    pub open spec fn path_fits(self) -> bool {
        match self {
            Coord::Square(c) => crate::square::abs(c.sx()) <= square::PATH_LIMIT as int
                && crate::square::abs(c.sy()) <= square::PATH_LIMIT as int,
            Coord::Hex(c) => c.fits(),
            Coord::Triangle(c) => crate::square::abs(c.sx()) <= triangle::PATH_LIMIT as int
                && crate::square::abs(c.sy()) <= triangle::PATH_LIMIT as int,
        }
    }

    /// Produce an iterator that steps repeatedly in the given direction,
    /// starting at this coordinate, bounded by the given range.  The
    /// iterator is empty if the direction is not allowed.
    pub fn direction_iterator<RB: crate::utils::AllowedCoordIterRange>(
        &self,
        dir_type: DirectionType,
        dir: Direction,
        range: RB,
    ) -> (r: CoordIter<RB>)
        requires
            self.fits(),
        ensures
            r.spec_kind() == self.spec_kind(),
    {
        match self {
            Coord::Square(c) => CoordIter::SquareSteps(c.direction_iterator(dir_type, dir, range)),
            Coord::Hex(c) => CoordIter::HexSteps(c.direction_iterator(dir_type, dir, range)),
            Coord::Triangle(c) => CoordIter::TriangleDirection(
                c.direction_iterator(dir_type, dir, range),
            ),
        }
    }

    /// Produce an iterator that steps repeatedly along the given axis in
    /// the given sign, starting at this coordinate, bounded by the given
    /// range.  The axis must belong to this coordinate's kind.
    pub fn axis_iterator<RB: crate::utils::AllowedCoordIterRange>(
        &self,
        axis: Axes,
        positive: bool,
        range: RB,
    ) -> (r: CoordIter<RB>)
        requires
            self.fits(),
            self.spec_kind() == axis.spec_kind(),
        ensures
            r.spec_kind() == self.spec_kind(),
    {
        match (self, axis) {
            (Coord::Square(c), Axes::Square(a)) => CoordIter::SquareSteps(
                c.axis_iterator(a, positive, range),
            ),
            (Coord::Hex(c), Axes::Hex(a)) => CoordIter::HexSteps(
                c.axis_iterator(a, positive, range),
            ),
            (Coord::Triangle(c), Axes::Triangle(a)) => CoordIter::TriangleAxis(
                c.axis_iterator(a, positive, range),
            ),
            _ => {
                proof {
                    assert(false);
                }
                CoordIter::SquarePath(
                    square::SquarePathIter::new(&square::Coord::origin(), &square::Coord::origin()),
                )
            },
        }
    }

    /// Produce an iterator over the coordinates of a path from this
    /// coordinate to the other, which must be of the same kind.  The
    /// walk yields one coordinate more than the distance between them.
    pub fn path_iterator<RB: crate::utils::AllowedCoordIterRange>(
        &self,
        other: &Coord,
    ) -> (r: CoordIter<RB>)
        requires
            self.spec_kind() == other.spec_kind(),
            self.path_fits(),
            other.path_fits(),
        ensures
            r.spec_kind() == self.spec_kind(),
            match r {
                CoordIter::SquarePath(it) => {
                    &&& it.spec_index() == 0
                    &&& *self == Coord::Square(it.spec_start())
                    &&& *other == Coord::Square(it.spec_end())
                    &&& it.spec_steps() == it.spec_start().spec_distance(it.spec_end())
                },
                CoordIter::HexLine(it) => {
                    &&& it.spec_index() == 0
                    &&& *self == Coord::Hex(it.spec_start())
                    &&& *other == Coord::Hex(it.spec_end())
                    &&& it.spec_steps() == it.spec_start().spec_distance(it.spec_end())
                },
                CoordIter::TrianglePath(it) => {
                    &&& it.spec_index() == 0
                    &&& *self == Coord::Triangle(it.spec_start())
                    &&& *other == Coord::Triangle(it.spec_end())
                    &&& it.spec_steps() == it.spec_start().spec_distance(it.spec_end())
                },
                _ => false,
            },
    {
        match (self, other) {
            (Coord::Square(a), Coord::Square(b)) => CoordIter::SquarePath(
                square::SquarePathIter::new(a, b),
            ),
            (Coord::Hex(a), Coord::Hex(b)) => CoordIter::HexLine(hex::HexLineIter::new(a, b)),
            (Coord::Triangle(a), Coord::Triangle(b)) => CoordIter::TrianglePath(
                triangle::TrianglePathIter::new(a, b),
            ),
            _ => {
                proof {
                    assert(false);
                }
                CoordIter::SquarePath(
                    square::SquarePathIter::new(&square::Coord::origin(), &square::Coord::origin()),
                )
            },
        }
    }
}

/// Wrap each square coordinate of a shape as a dynamic coordinate.
fn wrap_square(s: HashShape<square::Coord>) -> (r: HashShape<Coord>)
    ensures
        forall|sc: square::Coord|
            #[trigger] r.sset().contains(Coord::Square(sc)) <==> s.sset().contains(sc),
        forall|c: Coord| r.sset().contains(c) ==> c is Square,
{
    let coords = crate::Shape::to_vec(&s);
    let n = coords.len();
    let mut v: Vec<Coord> = Vec::new();
    let mut i: usize = 0;
    while i < n
        invariant
            n == coords@.len(),
            i <= n,
            v@.len() == i,
            forall|k: int| 0 <= k < i ==> v@[k] == Coord::Square(#[trigger] coords@[k]),
        decreases n - i,
    {
        v.push(Coord::Square(coords[i]));
        i = i + 1;
    }
    let r = HashShape::from_coords(v);
    proof {
        assert forall|sc: square::Coord| #[trigger]
            r.sset().contains(Coord::Square(sc)) <==> s.sset().contains(sc) by {
            if r.sset().contains(Coord::Square(sc)) {
                assert(v@.contains(Coord::Square(sc)));
                let k = choose|k: int| 0 <= k < v@.len() && v@[k] == Coord::Square(sc);
                assert(coords@[k] == sc);
                assert(coords@.contains(sc));
            }
            if s.sset().contains(sc) {
                assert(coords@.contains(sc));
                let k = choose|k: int| 0 <= k < coords@.len() && coords@[k] == sc;
                assert(v@[k] == Coord::Square(sc));
                assert(v@.contains(Coord::Square(sc)));
                assert(r.sset().contains(Coord::Square(sc)));
            }
        }
        assert forall|c: Coord| r.sset().contains(c) implies c is Square by {
            assert(v@.contains(c));
            let k = choose|k: int| 0 <= k < v@.len() && v@[k] == c;
            assert(v@[k] == Coord::Square(coords@[k]));
            assert(v@[k] == c);
        }
    }
    r
}

/// Wrap each hexagonal coordinate of a shape as a dynamic coordinate.
fn wrap_hex(s: HashShape<hex::Coord>) -> (r: HashShape<Coord>)
    ensures
        forall|hc: hex::Coord|
            #[trigger] r.sset().contains(Coord::Hex(hc)) <==> s.sset().contains(hc),
        forall|c: Coord| r.sset().contains(c) ==> c is Hex,
{
    let coords = crate::Shape::to_vec(&s);
    let n = coords.len();
    let mut v: Vec<Coord> = Vec::new();
    let mut i: usize = 0;
    while i < n
        invariant
            n == coords@.len(),
            i <= n,
            v@.len() == i,
            forall|k: int| 0 <= k < i ==> v@[k] == Coord::Hex(#[trigger] coords@[k]),
        decreases n - i,
    {
        v.push(Coord::Hex(coords[i]));
        i = i + 1;
    }
    let r = HashShape::from_coords(v);
    proof {
        assert forall|hc: hex::Coord| #[trigger]
            r.sset().contains(Coord::Hex(hc)) <==> s.sset().contains(hc) by {
            if r.sset().contains(Coord::Hex(hc)) {
                assert(v@.contains(Coord::Hex(hc)));
                let k = choose|k: int| 0 <= k < v@.len() && v@[k] == Coord::Hex(hc);
                assert(coords@[k] == hc);
                assert(coords@.contains(hc));
            }
            if s.sset().contains(hc) {
                assert(coords@.contains(hc));
                let k = choose|k: int| 0 <= k < coords@.len() && coords@[k] == hc;
                assert(v@[k] == Coord::Hex(hc));
                assert(v@.contains(Coord::Hex(hc)));
                assert(r.sset().contains(Coord::Hex(hc)));
            }
        }
        assert forall|c: Coord| r.sset().contains(c) implies c is Hex by {
            assert(v@.contains(c));
            let k = choose|k: int| 0 <= k < v@.len() && v@[k] == c;
            assert(v@[k] == Coord::Hex(coords@[k]));
            assert(v@[k] == c);
        }
    }
    r
}

/// Wrap each triangular coordinate of a shape as a dynamic coordinate.
fn wrap_triangle(s: HashShape<triangle::Coord>) -> (r: HashShape<Coord>)
    ensures
        forall|tc: triangle::Coord|
            #[trigger] r.sset().contains(Coord::Triangle(tc)) <==> s.sset().contains(tc),
        forall|c: Coord| r.sset().contains(c) ==> c is Triangle,
{
    let coords = crate::Shape::to_vec(&s);
    let n = coords.len();
    let mut v: Vec<Coord> = Vec::new();
    let mut i: usize = 0;
    while i < n
        invariant
            n == coords@.len(),
            i <= n,
            v@.len() == i,
            forall|k: int| 0 <= k < i ==> v@[k] == Coord::Triangle(#[trigger] coords@[k]),
        decreases n - i,
    {
        v.push(Coord::Triangle(coords[i]));
        i = i + 1;
    }
    let r = HashShape::from_coords(v);
    proof {
        assert forall|tc: triangle::Coord| #[trigger]
            r.sset().contains(Coord::Triangle(tc)) <==> s.sset().contains(tc) by {
            if r.sset().contains(Coord::Triangle(tc)) {
                assert(v@.contains(Coord::Triangle(tc)));
                let k = choose|k: int| 0 <= k < v@.len() && v@[k] == Coord::Triangle(tc);
                assert(coords@[k] == tc);
                assert(coords@.contains(tc));
            }
            if s.sset().contains(tc) {
                assert(coords@.contains(tc));
                let k = choose|k: int| 0 <= k < coords@.len() && coords@[k] == tc;
                assert(v@[k] == Coord::Triangle(tc));
                assert(v@.contains(Coord::Triangle(tc)));
                assert(r.sset().contains(Coord::Triangle(tc)));
            }
        }
        assert forall|c: Coord| r.sset().contains(c) implies c is Triangle by {
            assert(v@.contains(c));
            let k = choose|k: int| 0 <= k < v@.len() && v@[k] == c;
            assert(v@[k] == Coord::Triangle(coords@[k]));
            assert(v@[k] == c);
        }
    }
    r
}

} // verus!
