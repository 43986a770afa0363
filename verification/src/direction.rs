//! Compass directions and byte-sized sets of them.
//!
//! Directions are ordered counter-clockwise starting at East, so that a
//! direction's index times an eighth of a turn gives its angle.

use vstd::prelude::*;

verus! {

/// An enumeration of compass directions: the traditional "cardinal"
/// directions along with the "ordinal" (intercardinal) ones.
///
/// The ordering is counter-clockwise starting at East, so that it aligns
/// well with radian angles.
#[derive(PartialEq, Eq, Structural, Clone, Copy, Hash, Debug)]
pub enum Direction {
    East,
    NorthEast,
    North,
    NorthWest,
    West,
    SouthWest,
    South,
    SouthEast,
}

impl Direction {
    /// The position of this direction in the counter-clockwise order
    /// starting at East.
    pub open spec fn idx(self) -> int {
        match self {
            Direction::East => 0,
            Direction::NorthEast => 1,
            Direction::North => 2,
            Direction::NorthWest => 3,
            Direction::West => 4,
            Direction::SouthWest => 5,
            Direction::South => 6,
            Direction::SouthEast => 7,
        }
    }

    /// The direction with the given index; meaningful for indices below 8.
    pub open spec fn from_idx(i: int) -> Direction {
        if i == 0 {
            Direction::East
        } else if i == 1 {
            Direction::NorthEast
        } else if i == 2 {
            Direction::North
        } else if i == 3 {
            Direction::NorthWest
        } else if i == 4 {
            Direction::West
        } else if i == 5 {
            Direction::SouthWest
        } else if i == 6 {
            Direction::South
        } else {
            Direction::SouthEast
        }
    }

    /// The index of this direction in the counter-clockwise order
    /// starting at East.
    pub fn index(self) -> (r: u8)
        ensures
            r == self.idx(),
    {
        match self {
            Direction::East => 0,
            Direction::NorthEast => 1,
            Direction::North => 2,
            Direction::NorthWest => 3,
            Direction::West => 4,
            Direction::SouthWest => 5,
            Direction::South => 6,
            Direction::SouthEast => 7,
        }
    }

    /// Convert a `u8` value to a `Direction`.  The value must be in the
    /// range 0-7.
    pub fn from_u8(value: u8) -> (r: Direction)
        requires
            value < 8,
        ensures
            r == Direction::from_idx(value as int),
    {
        if value == 0 {
            Direction::East
        } else if value == 1 {
            Direction::NorthEast
        } else if value == 2 {
            Direction::North
        } else if value == 3 {
            Direction::NorthWest
        } else if value == 4 {
            Direction::West
        } else if value == 5 {
            Direction::SouthWest
        } else if value == 6 {
            Direction::South
        } else {
            Direction::SouthEast
        }
    }

    /// Convert a `u8` value to an `Option<Direction>`.
    /// Returns `None` if the provided value is not in the range 0-7.
    pub fn from_u8_checked(value: u8) -> (r: Option<Direction>)
        ensures
            value < 8 ==> r == Some(Direction::from_idx(value as int)),
            value >= 8 ==> r is None,
    {
        if value < 8 {
            Some(Direction::from_u8(value))
        } else {
            None
        }
    }

    /// Is this a cardinal `Direction` (East, North, West or South)?
    pub fn is_cardinal(self) -> (r: bool)
        ensures
            r == (self.idx() % 2 == 0),
    {
        matches!(self, Direction::East | Direction::North | Direction::West | Direction::South)
    }

    /// Is this an ordinal (intercardinal) `Direction`?
    pub fn is_ordinal(self) -> (r: bool)
        ensures
            r == (self.idx() % 2 == 1),
    {
        matches!(
            self,
            Direction::NorthEast | Direction::NorthWest | Direction::SouthWest
                | Direction::SouthEast,
        )
    }

    /// The direction one step clockwise from this one.
    pub open spec fn spec_clockwise(self) -> Direction {
        Direction::from_idx((self.idx() + 7) % 8)
    }

    /// The direction one step counter-clockwise from this one.
    pub open spec fn spec_counter_clockwise(self) -> Direction {
        Direction::from_idx((self.idx() + 1) % 8)
    }

    /// The direction opposite to this one.
    pub open spec fn spec_opposite(self) -> Direction {
        Direction::from_idx((self.idx() + 4) % 8)
    }

    /// The direction reached by rotating this one clockwise by `steps`
    /// eighth-turns; negative steps rotate counter-clockwise.
    pub open spec fn spec_rotate(self, steps: int) -> Direction {
        Direction::from_idx((self.idx() - steps) % 8)
    }

    /// Produce the `Direction` clockwise from this `Direction`.
    pub fn clockwise(self) -> (r: Direction)
        ensures
            r == self.spec_clockwise(),
    {
        let i = self.index();
        Direction::from_u8((i + 7) % 8)
    }

    /// Produce the `Direction` counter-clockwise from this `Direction`.
    pub fn counter_clockwise(self) -> (r: Direction)
        ensures
            r == self.spec_counter_clockwise(),
    {
        let i = self.index();
        Direction::from_u8((i + 1) % 8)
    }

    /// The opposite `Direction` from this `Direction`.
    pub fn opposite(self) -> (r: Direction)
        ensures
            r == self.spec_opposite(),
    {
        let i = self.index();
        Direction::from_u8((i + 4) % 8)
    }

    /// Rotate this `Direction` by the given number of steps.  Positive
    /// steps rotate clockwise, negative steps rotate counter-clockwise.
    pub fn rotate(self, steps: isize) -> (r: Direction)
        ensures
            r == self.spec_rotate(steps as int),
    {
        let i = self.index();
        let neg = steps < 0;
        let mag: u64 = if neg {
            (-(steps as i128)) as u64
        } else {
            steps as u64
        };
        let m: u8 = (mag % 8) as u8;
        let j: u8 = if neg {
            (i + m) % 8
        } else {
            (i + 8 - m) % 8
        };
        proof {
            let s = steps as int;
            let ii = i as int;
            if neg {
                assert(s == -(mag as int));
                assert((ii - s) % 8 == (ii + mag) % 8);
                vstd::arithmetic::div_mod::lemma_add_mod_noop(ii, mag as int, 8);
                assert((ii % 8 + (mag as int) % 8) % 8 == (ii + mag) % 8);
                assert(ii % 8 == ii);
                assert((ii + (mag as int) % 8) % 8 == (ii + mag) % 8);
                assert(j == (ii + (mag as int) % 8) % 8);
            } else {
                assert(s == mag as int);
                vstd::arithmetic::div_mod::lemma_sub_mod_noop(ii, mag as int, 8);
                assert((ii % 8 - (mag as int) % 8) % 8 == (ii - mag) % 8);
                assert(ii % 8 == ii);
                assert((ii - (mag as int) % 8) % 8 == (ii - mag) % 8);
                assert(j == (ii + 8 - (mag as int) % 8) % 8);
                assert((ii + 8 - (mag as int) % 8) % 8 == (ii - (mag as int) % 8) % 8) by {
                    vstd::arithmetic::div_mod::lemma_mod_add_multiples_vanish(
                        ii - (mag as int) % 8,
                        8,
                    );
                };
            }
        }
        Direction::from_u8(j)
    }

    /// The full name of this `Direction`.
    pub fn name(self) -> (r: &'static str)
        ensures
            r@ == self.spec_name(),
    {
        match self {
            Direction::East => "East",
            Direction::NorthEast => "NorthEast",
            Direction::North => "North",
            Direction::NorthWest => "NorthWest",
            Direction::West => "West",
            Direction::SouthWest => "SouthWest",
            Direction::South => "South",
            Direction::SouthEast => "SouthEast",
        }
    }

    /// The full name of this `Direction`, as a sequence of characters.
    pub open spec fn spec_name(self) -> Seq<char> {
        match self {
            Direction::East => "East"@,
            Direction::NorthEast => "NorthEast"@,
            Direction::North => "North"@,
            Direction::NorthWest => "NorthWest"@,
            Direction::West => "West"@,
            Direction::SouthWest => "SouthWest"@,
            Direction::South => "South"@,
            Direction::SouthEast => "SouthEast"@,
        }
    }

    /// Obtain an abbreviated name for this `Direction`.
    pub fn short_name(self) -> (r: &'static str)
        ensures
            r@ == self.spec_short_name(),
    {
        match self {
            Direction::East => "E",
            Direction::NorthEast => "NE",
            Direction::North => "N",
            Direction::NorthWest => "NW",
            Direction::West => "W",
            Direction::SouthWest => "SW",
            Direction::South => "S",
            Direction::SouthEast => "SE",
        }
    }

    /// The abbreviated name of this `Direction`, as a sequence of
    /// characters.
    pub open spec fn spec_short_name(self) -> Seq<char> {
        match self {
            Direction::East => "E"@,
            Direction::NorthEast => "NE"@,
            Direction::North => "N"@,
            Direction::NorthWest => "NW"@,
            Direction::West => "W"@,
            Direction::SouthWest => "SW"@,
            Direction::South => "S"@,
            Direction::SouthEast => "SE"@,
        }
    }
}

impl std::ops::Not for Direction {
    type Output = Direction;

    /// The opposite direction.
    fn not(self) -> (r: Direction) {
        self.opposite()
    }
}

impl vstd::std_specs::ops::NotSpecImpl for Direction {
    open spec fn obeys_not_spec() -> bool {
        true
    }

    open spec fn not_req(self) -> bool {
        true
    }

    open spec fn not_spec(self) -> Direction {
        self.spec_opposite()
    }
}

/// Rotating clockwise and then counter-clockwise is the identity, and the
/// opposite of the opposite direction is the direction itself.
pub proof fn lemma_direction_rotation(d: Direction)
    ensures
        d.spec_clockwise().spec_counter_clockwise() == d,
        d.spec_counter_clockwise().spec_clockwise() == d,
        d.spec_opposite().spec_opposite() == d,
        d.spec_rotate(1) == d.spec_clockwise(),
        d.spec_rotate(-1) == d.spec_counter_clockwise(),
        d.spec_rotate(8) == d,
        d.spec_rotate(-8) == d,
        d.spec_rotate(0) == d,
{
}

/// A set of directions.  This crate's `Direction` type only models eight
/// possible directions, so a set of them fits in the bits of a single byte.
#[derive(Debug, Clone, Copy, Hash, PartialEq, Eq, Structural)]
pub struct DirectionSet(pub u8);

impl DirectionSet {
    /// The bit mask that stands for one direction.
    pub open spec fn mask(d: Direction) -> u8 {
        1u8 << (d.idx() as u8)
    }

    /// The underlying bits of the set.
    pub open spec fn bits(self) -> u8 {
        self.0
    }

    /// Does the set contain the given direction?
    pub open spec fn spec_contains(self, d: Direction) -> bool {
        self.bits() & DirectionSet::mask(d) != 0
    }

    /// Create an empty `DirectionSet`.
    pub fn new() -> (r: DirectionSet)
        ensures
            forall|d: Direction| !r.spec_contains(d),
            r.bits() == 0,
    {
        proof {
            assert forall|d: Direction| (0u8 & DirectionSet::mask(d)) == 0 by {
                let i = d.idx() as u8;
                assert(0u8 & (1u8 << i) == 0) by (bit_vector);
            }
        }
        DirectionSet(0)
    }

    /// Create a `DirectionSet` from a slice of `Direction`s.
    pub fn from_slice(dirs: &[Direction]) -> (r: DirectionSet)
        ensures
            forall|d: Direction|
                r.spec_contains(d) <==> exists|i: int| 0 <= i < dirs@.len() && dirs@[i] == d,
    {
        let mut v: u8 = 0;
        proof {
            assert forall|d: Direction| (0u8 & DirectionSet::mask(d)) == 0 by {
                let i = d.idx() as u8;
                assert(0u8 & (1u8 << i) == 0) by (bit_vector);
            }
        }
        let mut index: usize = 0;
        while index < dirs.len()
            invariant
                index <= dirs@.len(),
                forall|d: Direction|
                    #[trigger] (v & DirectionSet::mask(d)) != 0 <==> exists|i: int|
                        0 <= i < index && dirs@[i] == d,
            decreases dirs@.len() - index,
        {
            let d = dirs[index];
            let ghost old_v = v;
            v = v | (1u8 << d.index());
            proof {
                assert forall|e: Direction| #[trigger]
                    (v & DirectionSet::mask(e)) != 0 <==> (old_v & DirectionSet::mask(e)) != 0
                        || e == d by {
                    let i = d.idx() as u8;
                    let j = e.idx() as u8;
                    let o = old_v;
                    assert((o | (1u8 << i)) & (1u8 << j) != 0 <==> (o & (1u8 << j) != 0 || i == j))
                        by (bit_vector)
                        requires i < 8 && j < 8;
                    if e.idx() == d.idx() {
                        assert(e == d);
                    }
                }
            }
            index = index + 1;
        }
        DirectionSet(v)
    }

    /// Insert the given `Direction` into the `DirectionSet`.  Returns true
    /// if the direction was not already present.
    pub fn insert(&mut self, dir: Direction) -> (r: bool)
        ensures
            r == !old(self).spec_contains(dir),
            forall|e: Direction|
                final(self).spec_contains(e) <==> (old(self).spec_contains(e) || e == dir),
    {
        let contains = self.contains(dir);
        let ghost o = self.0;
        self.0 = self.0 | (1u8 << dir.index());
        proof {
            assert forall|e: Direction| #[trigger]
                self.spec_contains(e) <==> (o & DirectionSet::mask(e)) != 0 || e == dir by {
                let i = dir.idx() as u8;
                let j = e.idx() as u8;
                assert((o | (1u8 << i)) & (1u8 << j) != 0 <==> (o & (1u8 << j) != 0 || i == j))
                    by (bit_vector)
                    requires i < 8 && j < 8;
                if e.idx() == dir.idx() {
                    assert(e == dir);
                }
            }
        }
        !contains
    }

    /// Remove the given `Direction` from the `DirectionSet`.  Returns true
    /// if the direction was present.
    pub fn remove(&mut self, dir: Direction) -> (r: bool)
        ensures
            r == old(self).spec_contains(dir),
            forall|e: Direction|
                final(self).spec_contains(e) <==> (old(self).spec_contains(e) && e != dir),
    {
        let contains = self.contains(dir);
        let ghost o = self.0;
        self.0 = self.0 & !(1u8 << dir.index());
        proof {
            assert forall|e: Direction| #[trigger]
                self.spec_contains(e) <==> (o & DirectionSet::mask(e)) != 0 && e != dir by {
                let i = dir.idx() as u8;
                let j = e.idx() as u8;
                assert((o & !(1u8 << i)) & (1u8 << j) != 0 <==> (o & (1u8 << j) != 0 && i != j))
                    by (bit_vector)
                    requires i < 8 && j < 8;
                if e.idx() == dir.idx() {
                    assert(e == dir);
                }
            }
        }
        contains
    }

    /// Returns true if the `DirectionSet` contains the given `Direction`.
    pub fn contains(&self, dir: Direction) -> (r: bool)
        ensures
            r == self.spec_contains(dir),
    {
        self.0 & (1u8 << dir.index()) != 0
    }

    /// Is this `DirectionSet` a superset of the other?
    pub fn is_superset(&self, other: &DirectionSet) -> (r: bool)
        ensures
            r <==> forall|d: Direction| other.spec_contains(d) ==> self.spec_contains(d),
    {
        let diff = other.difference(self);
        let r = diff.0 == 0;
        proof {
            lemma_set_cover(diff);
        }
        r
    }

    /// Is this `DirectionSet` a subset of the other?
    pub fn is_subset(&self, other: &DirectionSet) -> (r: bool)
        ensures
            r <==> forall|d: Direction| self.spec_contains(d) ==> other.spec_contains(d),
    {
        other.is_superset(self)
    }

    /// Return the intersection of this `DirectionSet` with another.
    pub fn intersection(&self, other: &DirectionSet) -> (r: DirectionSet)
        ensures
            forall|d: Direction|
                r.spec_contains(d) <==> (self.spec_contains(d) && other.spec_contains(d)),
    {
        let r = DirectionSet(self.0 & other.0);
        proof {
            assert forall|d: Direction| #[trigger]
                r.spec_contains(d) <==> (self.spec_contains(d) && other.spec_contains(d)) by {
                let i = d.idx() as u8;
                let a = self.0;
                let b = other.0;
                assert((a & b) & (1u8 << i) != 0 <==> (a & (1u8 << i) != 0 && b & (1u8 << i) != 0))
                    by (bit_vector);
            }
        }
        r
    }

    /// Return the difference of this `DirectionSet` with another: the
    /// directions of this set that are not in the other.
    pub fn difference(&self, other: &DirectionSet) -> (r: DirectionSet)
        ensures
            forall|d: Direction|
                r.spec_contains(d) <==> (self.spec_contains(d) && !other.spec_contains(d)),
    {
        let r = DirectionSet(self.0 & !other.0);
        proof {
            assert forall|d: Direction| #[trigger]
                r.spec_contains(d) <==> (self.spec_contains(d) && !other.spec_contains(d)) by {
                let i = d.idx() as u8;
                let a = self.0;
                let b = other.0;
                assert((a & !b) & (1u8 << i) != 0 <==> (a & (1u8 << i) != 0 && b & (1u8 << i)
                    == 0)) by (bit_vector);
            }
        }
        r
    }

    /// Return the union of this `DirectionSet` with another.
    pub fn union(&self, other: &DirectionSet) -> (r: DirectionSet)
        ensures
            forall|d: Direction|
                r.spec_contains(d) <==> (self.spec_contains(d) || other.spec_contains(d)),
    {
        let r = DirectionSet(self.0 | other.0);
        proof {
            assert forall|d: Direction| #[trigger]
                r.spec_contains(d) <==> (self.spec_contains(d) || other.spec_contains(d)) by {
                let i = d.idx() as u8;
                let a = self.0;
                let b = other.0;
                assert((a | b) & (1u8 << i) != 0 <==> (a & (1u8 << i) != 0 || b & (1u8 << i) != 0))
                    by (bit_vector);
            }
        }
        r
    }

    /// Return the number of `Direction`s in the set.
    pub fn len(&self) -> (r: usize)
        ensures
            r == self.spec_len(),
    {
        let mut count: usize = 0;
        let mut i: u8 = 0;
        while i < 8
            invariant
                i <= 8,
                count == count_below(self.0, i as int),
                count <= i,
            decreases 8 - i,
        {
            if self.0 & (1u8 << i) != 0 {
                count = count + 1;
            }
            i = i + 1;
        }
        count
    }

    /// The number of directions in the set.
    pub open spec fn spec_len(self) -> int {
        count_below(self.bits(), 8)
    }

    /// Returns true if the set of `Direction`s is empty.
    pub fn is_empty(&self) -> (r: bool)
        ensures
            r <==> forall|d: Direction| !self.spec_contains(d),
    {
        let r = self.0 == 0;
        proof {
            lemma_set_cover(*self);
        }
        r
    }
}

impl Direction {
    /// The set of all eight directions.
    pub fn values() -> (r: DirectionSet)
        ensures
            r == DirectionSet::spec_values(),
            forall|d: Direction| r.spec_contains(d),
    {
        let r = DirectionSet(0xff);
        proof {
            assert forall|d: Direction| r.spec_contains(d) by {
                let i = d.idx() as u8;
                assert(0xffu8 & (1u8 << i) != 0) by (bit_vector)
                    requires i < 8;
            }
        }
        r
    }

    /// The set of the four cardinal directions.
    pub fn cardinal() -> (r: DirectionSet)
        ensures
            r == DirectionSet::spec_cardinal(),
            forall|d: Direction| r.spec_contains(d) <==> d.idx() % 2 == 0,
    {
        let r = DirectionSet(0x55);
        proof {
            assert forall|d: Direction| r.spec_contains(d) <==> d.idx() % 2 == 0 by {
                let i = d.idx() as u8;
                assert(0x55u8 & (1u8 << i) != 0 <==> i % 2 == 0) by (bit_vector)
                    requires i < 8;
            }
        }
        r
    }

    /// The set of the four ordinal directions.
    pub fn ordinal() -> (r: DirectionSet)
        ensures
            r == DirectionSet::spec_ordinal(),
            forall|d: Direction| r.spec_contains(d) <==> d.idx() % 2 == 1,
    {
        let r = DirectionSet(0xaa);
        proof {
            assert forall|d: Direction| r.spec_contains(d) <==> d.idx() % 2 == 1 by {
                let i = d.idx() as u8;
                assert(0xaau8 & (1u8 << i) != 0 <==> i % 2 == 1) by (bit_vector)
                    requires i < 8;
            }
        }
        r
    }
}

impl DirectionSet {
    /// The set of all eight directions.
    pub open spec fn spec_values() -> DirectionSet {
        DirectionSet(0xff)
    }

    /// The set of the four cardinal directions.
    pub open spec fn spec_cardinal() -> DirectionSet {
        DirectionSet(0x55)
    }

    /// The set of the four ordinal directions.
    pub open spec fn spec_ordinal() -> DirectionSet {
        DirectionSet(0xaa)
    }

    /// The set difference, at the level of specifications.
    pub open spec fn spec_difference(self, other: DirectionSet) -> DirectionSet {
        DirectionSet(self.bits() & !other.bits())
    }

    /// The set intersection, at the level of specifications.
    pub open spec fn spec_intersection(self, other: DirectionSet) -> DirectionSet {
        DirectionSet(self.bits() & other.bits())
    }
}

/// Removing the cardinal directions from the set of all directions leaves
/// exactly the ordinal directions, and the two families are disjoint.
pub proof fn lemma_direction_families()
    ensures
        DirectionSet::spec_values().spec_difference(DirectionSet::spec_cardinal())
            == DirectionSet::spec_ordinal(),
        DirectionSet::spec_values().spec_difference(DirectionSet::spec_ordinal())
            == DirectionSet::spec_cardinal(),
        DirectionSet::spec_cardinal().spec_intersection(DirectionSet::spec_ordinal()).bits() == 0,
        forall|d: Direction|
            !(DirectionSet::spec_cardinal().spec_contains(d)
                && DirectionSet::spec_ordinal().spec_contains(d)),
{
    assert(0xffu8 & !0x55u8 == 0xaau8) by (bit_vector);
    assert(0xffu8 & !0xaau8 == 0x55u8) by (bit_vector);
    assert(0x55u8 & 0xaau8 == 0u8) by (bit_vector);
    assert forall|d: Direction|
        !(DirectionSet::spec_cardinal().spec_contains(d)
            && DirectionSet::spec_ordinal().spec_contains(d)) by {
        let i = d.idx() as u8;
        assert(!(0x55u8 & (1u8 << i) != 0 && 0xaau8 & (1u8 << i) != 0)) by (bit_vector);
    }
}

/// An iterator for visiting all directions in a `DirectionSet`, in
/// increasing index order.
pub struct DirectionSetIter {
    /// The set being iterated over.
    pub set: DirectionSet,
    /// The next index to examine.
    pub index: u8,
}

impl DirectionSetIter {
    /// Start an iterator over the given set.
    pub fn new(set: &DirectionSet) -> (r: DirectionSetIter)
        ensures
            r.set == *set,
            r.index == 0,
    {
        DirectionSetIter { set: *set, index: 0 }
    }

    /// Is iteration over: does no direction with index at or above `index`
    /// remain in the set?
    pub open spec fn spec_done(self) -> bool {
        forall|d: Direction| d.idx() >= self.index ==> !self.set.spec_contains(d)
    }

    /// The next direction of the set, or `None` when every direction of the
    /// set has already been produced.  Directions come out in increasing
    /// index order.
    pub fn next(&mut self) -> (r: Option<Direction>)
        ensures
            final(self).set == old(self).set,
            match r {
                Some(d) => {
                    &&& old(self).set.spec_contains(d)
                    &&& d.idx() >= old(self).index
                    &&& final(self).index == d.idx() + 1
                    &&& forall|e: Direction|
                        old(self).index <= e.idx() < d.idx() ==> !old(self).set.spec_contains(e)
                },
                None => {
                    &&& old(self).spec_done()
                    &&& final(self).index == 8
                },
            },
    {
        if self.index > 8 {
            self.index = 8;
        }
        let ghost start = self.index;
        proof {
            assert forall|e: Direction| start <= e.idx() < self.index
                implies !self.set.spec_contains(e) by {}
        }
        while self.index < 8
            invariant
                self.set == old(self).set,
                self.index >= start,
                start >= old(self).index || start == 8,
                start == old(self).index || old(self).index > 8,
                self.index <= 8,
                forall|e: Direction|
                    start <= e.idx() < self.index ==> !self.set.spec_contains(e),
            decreases 8 - self.index,
        {
            let i = self.index;
            if self.set.0 & (1u8 << i) != 0 {
                let d = Direction::from_u8(i);
                proof {
                    assert(d.idx() == i as int);
                    assert(DirectionSet::mask(d) == 1u8 << i);
                }
                self.index = i + 1;
                return Some(d);
            }
            proof {
                let ghost d = Direction::from_idx(i as int);
                assert(d.idx() == i as int);
                assert(DirectionSet::mask(d) == 1u8 << i);
                assert(!self.set.spec_contains(d));
                assert forall|e: Direction|
                    start <= e.idx() < self.index + 1
                        implies !self.set.spec_contains(e) by {
                    if e.idx() == i as int {
                        assert(e == d);
                    }
                }
            }
            self.index = self.index + 1;
        }
        None
    }
}

impl DirectionSet {
    /// Returns an iterator for visiting all directions in the set, in
    /// increasing index order.
    pub fn iter(&self) -> (r: DirectionSetIter)
        ensures
            r.set == *self,
            r.index == 0,
    {
        DirectionSetIter::new(self)
    }

    /// The directions of the set, in increasing index order.
    pub fn to_vec(&self) -> (r: Vec<Direction>)
        ensures
            forall|d: Direction| self.spec_contains(d) <==> r@.contains(d),
            forall|i: int, j: int| 0 <= i < j < r@.len() ==> r@[i].idx() < r@[j].idx(),
    {
        let mut v: Vec<Direction> = Vec::new();
        let mut i: u8 = 0;
        while i < 8
            invariant
                i <= 8,
                forall|d: Direction| d.idx() < i ==> (self.spec_contains(d) <==> v@.contains(d)),
                forall|k: int| 0 <= k < v@.len() ==> v@[k].idx() < i && self.spec_contains(v@[k]),
                forall|k: int, l: int| 0 <= k < l < v@.len() ==> v@[k].idx() < v@[l].idx(),
            decreases 8 - i,
        {
            let d = Direction::from_u8(i);
            proof {
                assert(d.idx() == i as int);
            }
            let ghost old_v = v@;
            let pushed = self.contains(d);
            if pushed {
                v.push(d);
            }
            proof {
                assert forall|e: Direction| #[trigger]
                    v@.contains(e) <==> (old_v.contains(e) || (pushed && e == d)) by {
                    if v@.contains(e) {
                        let k = choose|k: int| 0 <= k < v@.len() && v@[k] == e;
                        if k < old_v.len() {
                            assert(old_v[k] == e);
                        } else {
                            assert(pushed && e == d);
                        }
                    }
                    if old_v.contains(e) {
                        let k = choose|k: int| 0 <= k < old_v.len() && old_v[k] == e;
                        assert(v@[k] == e);
                    }
                    if pushed && e == d {
                        assert(v@[v@.len() - 1] == d);
                    }
                }
                assert forall|e: Direction| e.idx() < i + 1
                    implies (self.spec_contains(e) <==> v@.contains(e)) by {
                    if e.idx() == i as int {
                        assert(e == d);
                    }
                }
            }
            i = i + 1;
        }
        v
    }
}

impl DirectionSet {
    /// The names of the directions of the set from index `i` upwards,
    /// joined with commas; `first` says whether nothing has been written
    /// yet, so that no comma precedes the first name.
    pub open spec fn spec_joined_from(self, i: int, first: bool) -> Seq<char>
        decreases 8 - i,
    {
        if i < 0 || i >= 8 {
            Seq::empty()
        } else {
            let d = Direction::from_idx(i);
            if self.spec_contains(d) {
                (if first {
                    Seq::<char>::empty()
                } else {
                    ", "@
                }) + d.spec_name() + self.spec_joined_from(i + 1, false)
            } else {
                self.spec_joined_from(i + 1, first)
            }
        }
    }

    /// The display form of the set: the names of its directions in
    /// increasing index order, comma-separated, between braces.
    pub open spec fn spec_display(self) -> Seq<char> {
        "{"@ + self.spec_joined_from(0, true) + "}"@
    }

    /// Render the set as its display form: the names of its directions in
    /// increasing index order, comma-separated, between braces.
    pub fn to_display_string(&self) -> (r: String)
        ensures
            r@ == self.spec_display(),
    {
        let mut out = String::from_str("{");
        let mut i: u8 = 0;
        let mut first = true;
        while i < 8
            invariant
                i <= 8,
                out@ + self.spec_joined_from(i as int, first) == "{"@ + self.spec_joined_from(
                    0,
                    true,
                ),
            decreases 8 - i,
        {
            let d = Direction::from_u8(i);
            proof {
                assert(d.idx() == i as int);
            }
            if self.contains(d) {
                if !first {
                    out.append(", ");
                }
                out.append(d.name());
                first = false;
            }
            i = i + 1;
        }
        out.append("}");
        proof {
            assert(out@ =~= self.spec_display());
        }
        out
    }
}

/// The character with upper-case ASCII letters folded to lower case.
pub open spec fn spec_lower_char(c: char) -> char {
    if 65 <= c as u32 && c as u32 <= 90 {
        (c as u32 + 32) as char
    } else {
        c
    }
}

/// The sequence with upper-case ASCII letters folded to lower case.
pub open spec fn spec_lower(s: Seq<char>) -> Seq<char> {
    s.map_values(|c: char| spec_lower_char(c))
}

/// Is the character a white-space character (the Unicode `White_Space`
/// set)?
pub open spec fn is_space_char(c: char) -> bool {
    let u = c as u32;
    (9 <= u && u <= 13) || u == 32 || u == 133 || u == 160 || u == 0x1680 || (0x2000 <= u && u
        <= 0x200a) || u == 0x2028 || u == 0x2029 || u == 0x202f || u == 0x205f || u == 0x3000
}

/// Is the sequence an accepted separator between the two words of an
/// intercardinal direction name: a single hyphen, a single underscore, or
/// any amount of white space (including none)?
pub open spec fn sep_ok(m: Seq<char>) -> bool {
    m == "-"@ || m == "_"@ || (forall|i: int| 0 <= i < m.len() ==> is_space_char(#[trigger] m[i]))
}

/// Does the sequence consist of the word `a`, an accepted separator, and
/// the word `b`?
pub open spec fn compound_matches(t: Seq<char>, a: Seq<char>, b: Seq<char>) -> bool {
    &&& t.len() >= a.len() + b.len()
    &&& t.subrange(0, a.len() as int) == a
    &&& t.subrange(t.len() - b.len(), t.len() as int) == b
    &&& sep_ok(t.subrange(a.len() as int, t.len() - b.len()))
}

impl Direction {
    /// Which direction, if any, the string names.  Long and abbreviated
    /// names are accepted, case-insensitively; the two words of an
    /// intercardinal name may be joined directly or separated by a hyphen,
    /// an underscore, or white space.
    pub open spec fn spec_parse(s: Seq<char>) -> Option<Direction> {
        let t = spec_lower(s);
        if t == "e"@ || t == "east"@ {
            Some(Direction::East)
        } else if t == "ne"@ || compound_matches(t, "north"@, "east"@) {
            Some(Direction::NorthEast)
        } else if t == "n"@ || t == "north"@ {
            Some(Direction::North)
        } else if t == "nw"@ || compound_matches(t, "north"@, "west"@) {
            Some(Direction::NorthWest)
        } else if t == "w"@ || t == "west"@ {
            Some(Direction::West)
        } else if t == "sw"@ || compound_matches(t, "south"@, "west"@) {
            Some(Direction::SouthWest)
        } else if t == "s"@ || t == "south"@ {
            Some(Direction::South)
        } else if t == "se"@ || compound_matches(t, "south"@, "east"@) {
            Some(Direction::SouthEast)
        } else {
            None
        }
    }

    /// Parse a string into a `Direction`.
    /// Both abbreviated and full direction names are supported, along with
    /// white space, hyphens, and underscores between the intercardinal
    /// direction words.
    pub fn parse(s: &str) -> (r: Option<Direction>)
        ensures
            r == Direction::spec_parse(s@),
    {
        let t = lower_chars(s);
        if chars_eq_str(&t, "e") || chars_eq_str(&t, "east") {
            Some(Direction::East)
        } else if chars_eq_str(&t, "ne") || compound(&t, "north", "east") {
            Some(Direction::NorthEast)
        } else if chars_eq_str(&t, "n") || chars_eq_str(&t, "north") {
            Some(Direction::North)
        } else if chars_eq_str(&t, "nw") || compound(&t, "north", "west") {
            Some(Direction::NorthWest)
        } else if chars_eq_str(&t, "w") || chars_eq_str(&t, "west") {
            Some(Direction::West)
        } else if chars_eq_str(&t, "sw") || compound(&t, "south", "west") {
            Some(Direction::SouthWest)
        } else if chars_eq_str(&t, "s") || chars_eq_str(&t, "south") {
            Some(Direction::South)
        } else if chars_eq_str(&t, "se") || compound(&t, "south", "east") {
            Some(Direction::SouthEast)
        } else {
            None
        }
    }
}

/// Fold one upper-case ASCII letter to lower case.
fn lower_char(c: char) -> (r: char)
    ensures
        r == spec_lower_char(c),
{
    let u = c as u32;
    if 65 <= u && u <= 90 {
        ((u + 32) as u8) as char
    } else {
        c
    }
}

/// The characters of the string, with upper-case ASCII letters folded to
/// lower case.
fn lower_chars(s: &str) -> (r: Vec<char>)
    ensures
        r@ == spec_lower(s@),
{
    let n = s.unicode_len();
    let mut v: Vec<char> = Vec::new();
    let mut i: usize = 0;
    while i < n
        invariant
            n == s@.len(),
            i <= n,
            v@.len() == i,
            forall|k: int| 0 <= k < i ==> v@[k] == spec_lower_char(s@[k]),
        decreases n - i,
    {
        let c = s.get_char(i);
        v.push(lower_char(c));
        i = i + 1;
    }
    proof {
        assert(v@ =~= spec_lower(s@));
    }
    v
}

/// Do the characters equal the string, character for character?
fn chars_eq_str(v: &Vec<char>, p: &str) -> (r: bool)
    ensures
        r <==> v@ == p@,
{
    let n = p.unicode_len();
    if v.len() != n {
        proof {
            assert(v@ != p@);
        }
        return false;
    }
    let mut i: usize = 0;
    while i < n
        invariant
            n == p@.len(),
            v@.len() == n,
            i <= n,
            forall|k: int| 0 <= k < i ==> v@[k] == p@[k],
        decreases n - i,
    {
        if v[i] != p.get_char(i) {
            return false;
        }
        i = i + 1;
    }
    proof {
        assert(v@ =~= p@);
    }
    true
}

/// Is the character a white-space character?
fn is_space(c: char) -> (r: bool)
    ensures
        r == is_space_char(c),
{
    let u = c as u32;
    (9 <= u && u <= 13) || u == 32 || u == 133 || u == 160 || u == 0x1680 || (0x2000 <= u && u
        <= 0x200a) || u == 0x2028 || u == 0x2029 || u == 0x202f || u == 0x205f || u == 0x3000
}

/// Do the characters consist of word `a`, an accepted separator, and word
/// `b`?
fn compound(v: &Vec<char>, a: &str, b: &str) -> (r: bool)
    ensures
        r == compound_matches(v@, a@, b@),
{
    let alen = a.unicode_len();
    let blen = b.unicode_len();
    if v.len() < alen || v.len() - alen < blen {
        return false;
    }
    let n = v.len();
    let mut i: usize = 0;
    while i < alen
        invariant
            alen == a@.len(),
            n == v@.len(),
            n >= alen,
            i <= alen,
            forall|k: int| 0 <= k < i ==> v@[k] == a@[k],
        decreases alen - i,
    {
        if v[i] != a.get_char(i) {
            proof {
                assert(v@.subrange(0, a@.len() as int)[i as int] != a@[i as int]);
            }
            return false;
        }
        i = i + 1;
    }
    proof {
        assert(v@.subrange(0, a@.len() as int) =~= a@);
    }
    let mut j: usize = 0;
    while j < blen
        invariant
            blen == b@.len(),
            n == v@.len(),
            n >= blen,
            j <= blen,
            forall|k: int| 0 <= k < j ==> v@[n - blen + k] == b@[k],
        decreases blen - j,
    {
        if v[n - blen + j] != b.get_char(j) {
            proof {
                assert(v@.subrange(n - b@.len(), n as int)[j as int] != b@[j as int]);
            }
            return false;
        }
        j = j + 1;
    }
    proof {
        assert(v@.subrange(n - b@.len(), n as int) =~= b@);
    }
    let ghost mid = v@.subrange(a@.len() as int, n - b@.len());
    let mlen = n - blen - alen;
    if mlen == 1 {
        let c = v[alen];
        if c == '-' {
            proof {
                reveal_strlit("-");
                assert(mid =~= "-"@);
            }
            return true;
        }
        if c == '_' {
            proof {
                reveal_strlit("_");
                assert(mid =~= "_"@);
            }
            return true;
        }
    }
    proof {
        reveal_strlit("-");
        reveal_strlit("_");
        assert(mid.len() == mlen);
        if mid == "-"@ {
            assert(mid[0] == '-');
            assert(v@[alen as int] == '-');
            assert(false);
        }
        if mid == "_"@ {
            assert(mid[0] == '_');
            assert(v@[alen as int] == '_');
            assert(false);
        }
    }
    let mut k: usize = 0;
    while k < mlen
        invariant
            n == v@.len(),
            alen == a@.len(),
            blen == b@.len(),
            mlen == n - blen - alen,
            n >= alen + blen,
            k <= mlen,
            mid == v@.subrange(a@.len() as int, n - b@.len()),
            mid != "-"@,
            mid != "_"@,
            forall|l: int| 0 <= l < k ==> is_space_char(#[trigger] mid[l]),
        decreases mlen - k,
    {
        if !is_space(v[alen + k]) {
            proof {
                assert(mid[k as int] == v@[alen + k]);
                assert(!sep_ok(mid));
            }
            return false;
        }
        k = k + 1;
    }
    proof {
        assert(sep_ok(mid));
    }
    true
}

/// The number of set bits of `bits` with index below `n`.
pub open spec fn count_below(bits: u8, n: int) -> int
    decreases n,
{
    if n <= 0 {
        0
    } else {
        count_below(bits, n - 1) + if bits & (1u8 << ((n - 1) as u8)) != 0 {
            1int
        } else {
            0int
        }
    }
}

/// A direction set's byte is zero exactly when it holds no direction.
proof fn lemma_set_cover(s: DirectionSet)
    ensures
        s.bits() == 0 <==> forall|d: Direction| !s.spec_contains(d),
{
    let b = s.bits();
    if b == 0 {
        assert forall|d: Direction| !s.spec_contains(d) by {
            let i = d.idx() as u8;
            assert(b & (1u8 << i) == 0) by (bit_vector)
                requires b == 0;
        }
    } else {
        assert(b & (1u8 << 0) != 0 || b & (1u8 << 1) != 0 || b & (1u8 << 2) != 0 || b & (1u8 << 3)
            != 0 || b & (1u8 << 4) != 0 || b & (1u8 << 5) != 0 || b & (1u8 << 6) != 0 || b & (1u8
            << 7) != 0) by (bit_vector)
            requires b != 0;
        assert(DirectionSet::mask(Direction::East) == 1u8 << 0);
        assert(DirectionSet::mask(Direction::NorthEast) == 1u8 << 1);
        assert(DirectionSet::mask(Direction::North) == 1u8 << 2);
        assert(DirectionSet::mask(Direction::NorthWest) == 1u8 << 3);
        assert(DirectionSet::mask(Direction::West) == 1u8 << 4);
        assert(DirectionSet::mask(Direction::SouthWest) == 1u8 << 5);
        assert(DirectionSet::mask(Direction::South) == 1u8 << 6);
        assert(DirectionSet::mask(Direction::SouthEast) == 1u8 << 7);
        assert(s.spec_contains(Direction::East) || s.spec_contains(Direction::NorthEast)
            || s.spec_contains(Direction::North) || s.spec_contains(Direction::NorthWest)
            || s.spec_contains(Direction::West) || s.spec_contains(Direction::SouthWest)
            || s.spec_contains(Direction::South) || s.spec_contains(Direction::SouthEast));
    }
}

} // verus!
