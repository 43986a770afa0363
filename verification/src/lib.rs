//! Coordinate geometry for discrete tessellated planes.
//!
//! The crate models cells of square, hexagonal and triangular tilings as
//! small integer value types, all sharing one coordinate interface:
//! movement by compass direction, distance, rotation and reflection about
//! the origin, four-coloring, and conversion to flat-array offsets.
//! Finite regions of a grid are represented by the shape types, and a
//! tagged union allows the tiling to be chosen at run time.

use vstd::prelude::*;

pub mod direction;
pub mod square;
pub mod hex;
pub mod triangle;
pub mod shape;
pub mod utils;
pub mod dynamic;

use crate::direction::Direction;

verus! {

/// A flag that indicates whether a direction is aligned with the faces
/// of a grid cell or with its vertices.
#[derive(Debug, Clone, Copy, PartialEq, Eq, Structural)]
pub enum DirectionType {
    /// A direction that is aligned with the faces of a grid cell.
    Face,
    /// A direction that is aligned with the vertices of a grid cell.
    Vertex,
}

impl DirectionType {
    /// Produce the opposite (dual) of this `DirectionType`.
    pub fn not(self) -> (r: DirectionType)
        ensures
            r == self.spec_not(),
    {
        match self {
            DirectionType::Face => DirectionType::Vertex,
            DirectionType::Vertex => DirectionType::Face,
        }
    }

    /// The dual direction type.
    pub open spec fn spec_not(self) -> DirectionType {
        match self {
            DirectionType::Face => DirectionType::Vertex,
            DirectionType::Vertex => DirectionType::Face,
        }
    }

    /// The name of this direction type.
    pub fn name(self) -> (r: &'static str)
        ensures
            self == DirectionType::Face ==> r@ == "Face"@,
            self == DirectionType::Vertex ==> r@ == "Vertex"@,
    {
        match self {
            DirectionType::Face => "Face",
            DirectionType::Vertex => "Vertex",
        }
    }
}

impl std::ops::Not for DirectionType {
    type Output = DirectionType;

    /// The opposite (dual) direction type.
    fn not(self) -> (r: DirectionType) {
        match self {
            DirectionType::Face => DirectionType::Vertex,
            DirectionType::Vertex => DirectionType::Face,
        }
    }
}

impl vstd::std_specs::ops::NotSpecImpl for DirectionType {
    open spec fn obeys_not_spec() -> bool {
        true
    }

    open spec fn not_req(self) -> bool {
        true
    }

    open spec fn not_spec(self) -> DirectionType {
        self.spec_not()
    }
}

/// Color assignment values for grid coordinates.  By the four color
/// theorem, four colors suffice to color any loopless planar graph so that
/// no two adjacent nodes share a color, and each tiling here is such a
/// graph.
#[derive(Debug, Clone, Copy, PartialEq, Eq, Structural, Hash)]
pub enum Color {
    One,
    Two,
    Three,
    Four,
}

impl Color {
    /// The numeric value of this color, in the range 1 to 4.
    pub open spec fn num(self) -> int {
        match self {
            Color::One => 1,
            Color::Two => 2,
            Color::Three => 3,
            Color::Four => 4,
        }
    }

    /// Try converting a `usize` to a `Color`.  This produces a color
    /// exactly when the value is in the range `1..=4`; any other value is
    /// rejected with a message naming the range and the value.
    pub fn try_from(value: usize) -> (r: Result<Color, String>)
        ensures
            match r {
                Ok(c) => 1 <= value <= 4 && c.num() == value,
                Err(m) => !(1 <= value <= 4) && m@ == "Color value must be in the range 1..=4, got "@
                    + spec_decimal(value as int),
            },
    {
        if value == 1 {
            Ok(Color::One)
        } else if value == 2 {
            Ok(Color::Two)
        } else if value == 3 {
            Ok(Color::Three)
        } else if value == 4 {
            Ok(Color::Four)
        } else {
            let mut m = String::from_str("Color value must be in the range 1..=4, got ");
            m.append(usize_to_string(value).as_str());
            Err(m)
        }
    }

    /// The name of this color.
    pub fn name(self) -> (r: &'static str)
        ensures
            r@ == self.spec_name(),
    {
        match self {
            Color::One => "One",
            Color::Two => "Two",
            Color::Three => "Three",
            Color::Four => "Four",
        }
    }

    /// The name of this color, as a sequence of characters.
    pub open spec fn spec_name(self) -> Seq<char> {
        match self {
            Color::One => "One"@,
            Color::Two => "Two"@,
            Color::Three => "Three"@,
            Color::Four => "Four"@,
        }
    }
}

/// An abstract representation of coordinates in a grid system.
///
/// Implementations fix a mathematical model through the spec functions,
/// promise that each operation computes its model, and discharge the laws
/// stated by the proof functions: rotating clockwise then
/// counter-clockwise is the identity, reflecting twice across one axis is
/// the identity, a move and the opposite move cancel, the four-coloring
/// separates face-adjacent coordinates, and the array-offset conversion
/// is injective on the grid.
pub trait Coord: Sized + Clone + Copy {
    /// The type of the axes for this coordinate system.
    type Axes: Sized + Clone + Copy;

    /// Do the components of this coordinate lie far enough from the
    /// machine integer bounds that single steps and rotations cannot
    /// overflow?
    spec fn fits(self) -> bool;

    /// Is this coordinate the origin of its grid?
    spec fn is_origin_spec(self) -> bool;

    /// Can the two coordinates be combined?  They can unless they carry
    /// different tilings of a dynamically-chosen grid.
    spec fn comparable(self, other: Self) -> bool;

    /// Does the axis belong to this coordinate's grid?  It does unless
    /// the two carry different tilings of a dynamically-chosen grid.
    spec fn axis_ok(self, axis: Self::Axes) -> bool;

    /// The coordinate after one clockwise rotation about the origin.
    spec fn spec_rotate_cw(self) -> Self;

    /// The coordinate after one counter-clockwise rotation about the
    /// origin.
    spec fn spec_rotate_ccw(self) -> Self;

    /// The coordinate after reflection across the given axis.
    spec fn spec_reflect(self, axis: Self::Axes) -> Self;

    /// The coordinate after one step along the given axis.
    spec fn spec_move_axis(self, axis: Self::Axes, positive: bool) -> Self;

    /// The coordinate one step away in the given direction, if that
    /// direction is allowed here.
    spec fn spec_move(self, dir_type: DirectionType, dir: Direction) -> Option<Self>;

    /// Is the given direction allowed from this coordinate?
    spec fn spec_allowed(self, dir_type: DirectionType, dir: Direction) -> bool;

    /// The face-step distance between two coordinates.
    spec fn spec_distance(self, other: Self) -> int;

    /// The pair of offsets that address this coordinate in a 2-D array.
    spec fn spec_offset(self) -> (int, int);

    /// The four-coloring value of this coordinate.
    spec fn spec_color(self) -> Color;

    /// Compare two coordinates.
    fn eq_coord(&self, other: &Self) -> (r: bool)
        ensures
            r <==> *self == *other,
    ;

    /// Compare two axes.
    fn eq_axes(a: &Self::Axes, b: &Self::Axes) -> (r: bool)
        ensures
            r <==> *a == *b,
    ;

    /// Does this coordinate lie far enough from the machine integer
    /// bounds for single steps and rotations?
    fn fits_now(&self) -> (r: bool)
        ensures
            r == self.fits(),
    ;

    /// Can the two coordinates be combined?
    fn comparable_now(&self, other: &Self) -> (r: bool)
        ensures
            r == self.comparable(*other),
    ;

    /// Does the axis belong to this coordinate's grid?
    fn axis_ok_now(&self, axis: &Self::Axes) -> (r: bool)
        ensures
            r == self.axis_ok(*axis),
    ;

    /// Is this coordinate the origin of the grid?
    fn is_origin(&self) -> (r: bool)
        ensures
            r == self.is_origin_spec(),
    ;

    /// Compute the face-step distance between the two coordinates: the
    /// length of a shortest path that only moves along face directions.
    fn distance(&self, other: &Self) -> (r: usize)
        requires
            self.fits(),
            other.fits(),
            self.comparable(*other),
        ensures
            r == self.spec_distance(*other),
    ;

    /// Produce the coordinate that results from moving in the given
    /// direction, or `None` if the direction is not allowed for this
    /// coordinate.
    fn move_in_direction(&self, dir_type: DirectionType, dir: Direction) -> (r: Option<Self>)
        requires
            self.fits(),
        ensures
            r == self.spec_move(dir_type, dir),
            r is Some <==> self.spec_allowed(dir_type, dir),
    ;

    /// Produce the coordinate that results from moving along the given
    /// axis, in the positive or negative direction.
    fn move_on_axis(&self, axis: Self::Axes, positive: bool) -> (r: Self)
        requires
            self.fits(),
            self.axis_ok(axis),
        ensures
            r == self.spec_move_axis(axis, positive),
    ;

    /// Is it possible to move in the given direction from this
    /// coordinate?
    fn allowed_direction(&self, dir_type: DirectionType, dir: Direction) -> (r: bool)
        ensures
            r == self.spec_allowed(dir_type, dir),
    ;

    /// The set of directions that are allowed from this coordinate.
    fn allowed_directions(&self, dir_type: DirectionType) -> (r: direction::DirectionSet)
        ensures
            forall|d: Direction| r.spec_contains(d) <==> self.spec_allowed(dir_type, d),
    ;

    /// Convert the coordinate to a pair of offsets suitable for indexing
    /// into a 2-D array.
    fn grid_to_array_offset(&self) -> (r: (isize, isize))
        requires
            self.fits(),
        ensures
            r.0 as int == self.spec_offset().0,
            r.1 as int == self.spec_offset().1,
    ;

    /// Provide a coloring for this coordinate such that no face-adjacent
    /// coordinate has the same color.
    fn to_color(&self) -> (r: Color)
        ensures
            r == self.spec_color(),
    ;

    /// Produce a coordinate by rotating this one around the origin
    /// clockwise.
    fn rotate_clockwise(&self) -> (r: Self)
        requires
            self.fits(),
        ensures
            r == self.spec_rotate_cw(),
            r.fits(),
    ;

    /// Produce a coordinate by rotating this one around the origin
    /// counter-clockwise.
    fn rotate_counterclockwise(&self) -> (r: Self)
        requires
            self.fits(),
        ensures
            r == self.spec_rotate_ccw(),
            r.fits(),
    ;

    /// Produce a coordinate by reflecting this one across the given axis,
    /// centered around the origin.
    fn reflect(&self, axis: Self::Axes) -> (r: Self)
        requires
            self.fits(),
            self.axis_ok(axis),
        ensures
            r == self.spec_reflect(axis),
            r.fits(),
            r.axis_ok(axis),
    ;

    /// Rotating clockwise and then counter-clockwise is the identity, and
    /// the other way around.
    proof fn lemma_rotate_inverse(self)
        requires
            self.fits(),
        ensures
            self.spec_rotate_cw().spec_rotate_ccw() == self,
            self.spec_rotate_ccw().spec_rotate_cw() == self,
    ;

    /// Reflecting twice across the same axis is the identity.
    proof fn lemma_reflect_involution(self, axis: Self::Axes)
        requires
            self.fits(),
            self.axis_ok(axis),
        ensures
            self.spec_reflect(axis).spec_reflect(axis) == self,
    ;

    /// A move in an allowed direction reaches a different coordinate,
    /// from which the opposite move leads back; and a move in a
    /// disallowed direction yields nothing.
    proof fn lemma_move_opposite(self, dir_type: DirectionType, dir: Direction)
        requires
            self.fits(),
        ensures
            self.spec_move(dir_type, dir) is Some <==> self.spec_allowed(dir_type, dir),
            match self.spec_move(dir_type, dir) {
                Some(m) => m != self && m.spec_move(dir_type, dir.spec_opposite()) == Some(self),
                None => true,
            },
    ;

    /// No face-adjacent coordinate shares this coordinate's color.
    proof fn lemma_color_adjacent(self, dir: Direction)
        requires
            self.fits(),
            self.spec_allowed(DirectionType::Face, dir),
        ensures
            match self.spec_move(DirectionType::Face, dir) {
                Some(m) => m.spec_color() != self.spec_color(),
                None => false,
            },
    ;

    /// The array-offset conversion is injective: two distinct coordinates
    /// have distinct array offsets.
    proof fn lemma_offset_injective(self, other: Self)
        requires
            self != other,
            self.comparable(other),
        ensures
            self.spec_offset() != other.spec_offset(),
    ;
}

/// A refinement of `Coord` for those coordinate systems that form an
/// algebraic module: they support addition, negation and scalar
/// multiplication obeying the usual vector-space-like laws.  The square
/// and hexagonal grids qualify; the triangular grid does not, because its
/// orientation flag has no identity-preserving additive combination.
pub trait ModuleCoord: Coord {
    /// Are the components of this coordinate small enough that sums of
    /// three such coordinates cannot overflow?  The module laws are
    /// stated on this region.
    spec fn law_fits(self) -> bool;

    /// The origin coordinate: the additive identity.
    spec fn spec_origin() -> Self;

    /// The sum of two coordinates, componentwise.
    spec fn spec_add(self, other: Self) -> Self;

    /// The additive inverse of this coordinate.
    spec fn spec_neg(self) -> Self;

    /// The coordinate scaled by an integer.
    spec fn spec_scale(self, k: int) -> Self;

    /// Are the components of both coordinates small enough that their sum
    /// cannot overflow?
    spec fn sum_fits(self, other: Self) -> bool;

    /// Can the two coordinates be added without overflow?
    fn sum_fits_now(&self, other: &Self) -> (r: bool)
        ensures
            r == self.sum_fits(*other),
    ;

    /// Add the offset to this coordinate, componentwise.
    fn plus(&self, other: &Self) -> (r: Self)
        requires
            self.sum_fits(*other),
        ensures
            r == self.spec_add(*other),
    ;

    /// Negate this coordinate, componentwise.
    fn negated(&self) -> (r: Self)
        requires
            self.fits(),
        ensures
            r == self.spec_neg(),
    ;

    /// Produce the offset that, added to this coordinate, results in a
    /// move in the given direction; or `None` if the direction is not
    /// allowed.
    fn offset_in_direction(&self, dir_type: DirectionType, dir: Direction) -> (r: Option<Self>)
        ensures
            r is Some <==> self.spec_allowed(dir_type, dir),
            match r {
                Some(o) => o.fits() && forall|c: Self|
                    c.fits() ==> #[trigger] c.spec_add(o) == c.spec_move(dir_type, dir)->0,
                None => true,
            },
    ;

    /// Produce the offset that, added to this coordinate, results in a
    /// move along the given axis in the given sign.
    fn offset_on_axis(&self, axis: Self::Axes, positive: bool) -> (r: Self)
        ensures
            r.fits(),
            forall|c: Self|
                c.fits() ==> #[trigger] c.spec_add(r) == c.spec_move_axis(axis, positive),
    ;

    /// Adding one offset to two distinct coordinates yields distinct
    /// coordinates.
    proof fn lemma_add_injective(a: Self, b: Self, o: Self)
        requires
            a.sum_fits(o),
            b.sum_fits(o),
            a != b,
        ensures
            a.spec_add(o) != b.spec_add(o),
    ;

    /// Addition is commutative and associative, the origin is its
    /// identity, and a coordinate and its negation cancel.
    proof fn lemma_module_laws(a: Self, b: Self, c: Self)
        requires
            a.law_fits(),
            b.law_fits(),
            c.law_fits(),
        ensures
            a.spec_add(b) == b.spec_add(a),
            a.spec_add(b).spec_add(c) == a.spec_add(b.spec_add(c)),
            a.spec_add(Self::spec_origin()) == a,
            a.spec_add(a.spec_neg()) == Self::spec_origin(),
            a.spec_scale(0) == Self::spec_origin(),
            a.spec_scale(1) == a,
    ;

}

/// An abstraction for representing finite portions of an infinite grid
/// plane: an unordered, deduplicated set of coordinates of one topology,
/// with membership tests and set algebra.
pub trait Shape<C: Coord>: Sized {
    /// The set of coordinates of the shape.
    spec fn sset(self) -> Set<C>;

    /// Create an empty shape.
    fn new() -> (r: Self)
        ensures
            r.sset() == Set::<C>::empty(),
    ;

    /// Checks whether the given grid coordinate is contained within the
    /// shape.
    fn contains(&self, coord: &C) -> (r: bool)
        ensures
            r == self.sset().contains(*coord),
    ;

    /// Are the coordinates of this shape contained within the other
    /// shape?
    fn is_subshape(&self, other: &Self) -> (r: bool)
        ensures
            r == self.sset().subset_of(other.sset()),
    ;

    /// Does this shape contain all coordinates of the other shape?
    fn is_supershape(&self, other: &Self) -> (r: bool)
        ensures
            r == other.sset().subset_of(self.sset()),
    ;

    /// Are the coordinates of this shape disjoint from the other shape?
    fn is_disjoint(&self, other: &Self) -> (r: bool)
        ensures
            r == self.sset().disjoint(other.sset()),
    ;

    /// Are there no coordinates in this shape?
    fn is_empty(&self) -> (r: bool)
        ensures
            r == (self.sset() == Set::<C>::empty()),
    ;

    /// Create a shape holding the coordinates of both shapes.
    fn union(&self, other: &Self) -> (r: Self)
        ensures
            r.sset() == self.sset().union(other.sset()),
    ;

    /// Create a shape holding the coordinates of this shape that are not
    /// in the other.
    fn difference(&self, other: &Self) -> (r: Self)
        ensures
            r.sset() == self.sset().difference(other.sset()),
    ;

    /// The coordinates of the shape, without duplicates, in an
    /// implementation-chosen order.
    fn to_vec(&self) -> (r: Vec<C>)
        ensures
            forall|c: C| r@.contains(c) <==> self.sset().contains(c),
            r@.no_duplicates(),
    ;
}

/// A specialization of `Shape` for coordinate systems that satisfy
/// `ModuleCoord` and thus support translation.
pub trait ModuleShape<MC: ModuleCoord>: Shape<MC> {
    /// Translate the shape by the given coordinate offset.
    fn translate(&self, offset: &MC) -> (r: Self)
        requires
            forall|c: MC| self.sset().contains(c) ==> c.sum_fits(*offset),
        ensures
            forall|c: MC|
                self.sset().contains(c) ==> r.sset().contains(#[trigger] c.spec_add(*offset)),
            forall|d: MC|
                r.sset().contains(d) ==> exists|c: MC|
                    #[trigger] self.sset().contains(c) && d == c.spec_add(*offset),
    ;
}

/// An abstraction for associating one value with each coordinate of a
/// finite portion of a grid plane, with the same membership queries as
/// `Shape` plus lookup and insertion.
pub trait ShapeContainer<C: Coord, V>: Sized {
    /// The associated shape type.
    type Shape: Shape<C>;

    /// The map from coordinates to values.
    spec fn smap(self) -> Map<C, V>;

    /// Checks whether the given grid coordinate has a value in the
    /// container.
    fn contains(&self, coord: &C) -> (r: bool)
        ensures
            r == self.smap().contains_key(*coord),
    ;

    /// Retrieves the value stored at the given grid coordinate, or `None`
    /// if the coordinate has none.
    fn get<'a>(&'a self, coord: &C) -> (r: Option<&'a V>)
        ensures
            match r {
                Some(v) => self.smap().contains_key(*coord) && *v == self.smap()[*coord],
                None => !self.smap().contains_key(*coord),
            },
    ;

    /// Associates a value with a coordinate, potentially replacing an
    /// existing value, which is returned.
    fn insert(&mut self, coord: C, value: V) -> (r: Option<V>)
        ensures
            final(self).smap() == old(self).smap().insert(coord, value),
            match r {
                Some(v) => old(self).smap().contains_key(coord) && v == old(self).smap()[coord],
                None => !old(self).smap().contains_key(coord),
            },
    ;

    /// Are there no coordinates in this container?
    fn is_empty(&self) -> (r: bool)
        ensures
            r == (self.smap().dom() == Set::<C>::empty()),
    ;

    /// Strip the values and obtain the corresponding shape.
    fn as_shape(&self) -> (r: Self::Shape)
        ensures
            r.sset() == self.smap().dom(),
    ;
}

/// A marker for iterators over the coordinates of a `Shape`.
pub trait ShapeIterator<C: Coord> {

}

/// A marker for iterators over the coordinates and values of a
/// `ShapeContainer`.
pub trait ShapeContainerIterator<C: Coord, V> {

}

/// A specialization of `ShapeContainer` for coordinate systems that
/// satisfy `ModuleCoord` and thus support translation.
pub trait ModuleShapeContainer<MC: ModuleCoord, V>: ShapeContainer<MC, V> {
    /// Translate the container by the given coordinate offset, keeping
    /// each coordinate's value.
    fn translate(&self, offset: &MC) -> (r: Self)
        where V: Copy
        requires
            forall|c: MC| self.smap().contains_key(c) ==> c.sum_fits(*offset),
        ensures
            forall|c: MC|
                self.smap().contains_key(c) ==> r.smap().contains_key(
                    #[trigger] c.spec_add(*offset),
                ) && r.smap()[c.spec_add(*offset)] == self.smap()[c],
            forall|d: MC|
                r.smap().contains_key(d) ==> exists|c: MC|
                    #[trigger] self.smap().contains_key(c) && d == c.spec_add(*offset),
    ;
}

/// The decimal digit character for a value below ten.
pub open spec fn spec_digit(n: int) -> char {
    ((48 + n) as u8) as char
}

/// The decimal rendering of a non-negative integer.
pub open spec fn spec_decimal(n: int) -> Seq<char>
    decreases n,
{
    if n < 10 {
        seq![spec_digit(n)]
    } else {
        spec_decimal(n / 10).push(spec_digit(n % 10))
    }
}

/// The one-character string for a decimal digit value below ten.
fn digit_str(d: u8) -> (r: &'static str)
    requires
        d < 10,
    ensures
        r@ == seq![spec_digit(d as int)],
{
    let r: &'static str = if d == 0 {
        proof { reveal_strlit("0"); }
        "0"
    } else if d == 1 {
        proof { reveal_strlit("1"); }
        "1"
    } else if d == 2 {
        proof { reveal_strlit("2"); }
        "2"
    } else if d == 3 {
        proof { reveal_strlit("3"); }
        "3"
    } else if d == 4 {
        proof { reveal_strlit("4"); }
        "4"
    } else if d == 5 {
        proof { reveal_strlit("5"); }
        "5"
    } else if d == 6 {
        proof { reveal_strlit("6"); }
        "6"
    } else if d == 7 {
        proof { reveal_strlit("7"); }
        "7"
    } else if d == 8 {
        proof { reveal_strlit("8"); }
        "8"
    } else {
        proof { reveal_strlit("9"); }
        "9"
    };
    proof {
        assert(r@ =~= seq![spec_digit(d as int)]);
    }
    r
}

/// Render a non-negative integer in decimal.
pub fn usize_to_string(n: usize) -> (r: String)
    ensures
        r@ == spec_decimal(n as int),
{
    let mut digits: Vec<u8> = Vec::new();
    let mut rest: usize = n;
    loop
        invariant_except_break
            spec_decimal(n as int) == spec_decimal(rest as int) + digits@.map_values(
                |d: u8| spec_digit(d as int),
            ),
        invariant
            forall|k: int| 0 <= k < digits@.len() ==> digits@[k] < 10,
        ensures
            spec_decimal(n as int) == digits@.map_values(|d: u8| spec_digit(d as int)),
        decreases rest,
    {
        let d: u8 = (rest % 10) as u8;
        let ghost prev = digits@.map_values(|x: u8| spec_digit(x as int));
        digits.insert(0, d);
        proof {
            assert(digits@.map_values(|x: u8| spec_digit(x as int)) =~= seq![
                spec_digit(rest as int % 10),
            ] + prev);
            if rest >= 10 {
                assert(spec_decimal(rest as int) == spec_decimal(rest as int / 10).push(
                    spec_digit(rest as int % 10),
                ));
                assert(spec_decimal(rest as int) + prev =~= spec_decimal(rest as int / 10) + (seq![
                    spec_digit(rest as int % 10),
                ] + prev));
            } else {
                assert(spec_decimal(rest as int) =~= seq![spec_digit(rest as int)]);
                assert(spec_decimal(rest as int) + prev =~= Seq::<char>::empty() + (seq![
                    spec_digit(rest as int),
                ] + prev));
            }
        }
        if rest < 10 {
            break;
        }
        rest = rest / 10;
    }
    let mut out = String::new();
    let mut i: usize = 0;
    while i < digits.len()
        invariant
            i <= digits@.len(),
            forall|k: int| 0 <= k < digits@.len() ==> digits@[k] < 10,
            out@ == digits@.map_values(|d: u8| spec_digit(d as int)).subrange(0, i as int),
        decreases digits@.len() - i,
    {
        out.append(digit_str(digits[i]));
        proof {
            assert(out@ =~= digits@.map_values(|d: u8| spec_digit(d as int)).subrange(0, i + 1));
        }
        i = i + 1;
    }
    proof {
        assert(out@ =~= digits@.map_values(|d: u8| spec_digit(d as int)));
    }
    out
}

} // verus!
