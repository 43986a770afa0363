//! Generic helpers shared by the topologies: iterator plumbing and the
//! corner-walking ring construction.

use vstd::prelude::*;

use crate::shape::HashShape;
use crate::{Coord, ModuleCoord};
use crate::Shape as _;

verus! {

/// Declares the standard library's full range `..`, a unit struct, so
/// that iterators can carry it as an unbounded range.
#[verifier::external_type_specification]
pub struct ExRangeFull(core::ops::RangeFull);

/// Declares the standard library's exclusive prefix range `..end`, a
/// struct of the public field `end`, so that iterators can carry it as a
/// bound.
#[verifier::external_type_specification]
#[verifier::reject_recursive_types(Idx)]
pub struct ExRangeTo<Idx>(core::ops::RangeTo<Idx>);

/// Declares the standard library's inclusive prefix range `..=end`, a
/// struct of the public field `end`, so that iterators can carry it as a
/// bound.
#[verifier::external_type_specification]
#[verifier::reject_recursive_types(Idx)]
pub struct ExRangeToInclusive<Idx>(core::ops::RangeToInclusive<Idx>);

/// The prefix ranges that can bound a coordinate iterator: a full range,
/// an exclusive upper bound, or an inclusive upper bound on the number of
/// coordinates produced.
pub trait AllowedCoordIterRange: Sized + Clone + Copy {
    /// Is iteration complete at the given index?
    spec fn spec_complete(self, index: int) -> bool;

    /// Check if iteration is complete at the provided index.
    fn complete(&self, index: usize) -> (r: bool)
        ensures
            r == self.spec_complete(index as int),
    ;
}

impl AllowedCoordIterRange for core::ops::RangeFull {
    open spec fn spec_complete(self, index: int) -> bool {
        false
    }

    fn complete(&self, index: usize) -> bool {
        false
    }
}

impl AllowedCoordIterRange for core::ops::RangeTo<usize> {
    open spec fn spec_complete(self, index: int) -> bool {
        index >= self.end
    }

    fn complete(&self, index: usize) -> bool {
        index >= self.end
    }
}

impl AllowedCoordIterRange for core::ops::RangeToInclusive<usize> {
    open spec fn spec_complete(self, index: int) -> bool {
        index > self.end
    }

    fn complete(&self, index: usize) -> bool {
        index > self.end
    }
}

/// A generic iterator for traversing grids whose coordinates form an
/// algebraic module: starting at a coordinate, it repeatedly adds a fixed
/// offset.  With no offset it is empty; it also stops where the range
/// says so, or where another step could overflow.
pub struct ModuleCoordIter<MC: ModuleCoord, RB: AllowedCoordIterRange> {
    /// The coordinate the iterator will produce next.
    pub coord: MC,
    /// The offset added after each coordinate, or `None` for an empty
    /// iterator.
    pub opt_offset: Option<MC>,
    /// How many coordinates have been produced.
    pub index: usize,
    /// The bound on the number of coordinates produced.
    pub range: RB,
}

impl<MC: ModuleCoord, RB: AllowedCoordIterRange> ModuleCoordIter<MC, RB> {
    /// The next coordinate: the current coordinate, unless the offset is
    /// absent, the range is complete, or another step could overflow.
    pub fn next(&mut self) -> (r: Option<MC>)
        ensures
            final(self).opt_offset == old(self).opt_offset,
            final(self).range == old(self).range,
            match r {
                Some(c) => {
                    &&& old(self).opt_offset is Some
                    &&& !old(self).range.spec_complete(old(self).index as int)
                    &&& c == old(self).coord
                    &&& final(self).coord == old(self).coord.spec_add(old(self).opt_offset->0)
                    &&& final(self).index == old(self).index + 1
                },
                None => {
                    &&& *final(self) == *old(self)
                    &&& (old(self).opt_offset is None || old(self).range.spec_complete(
                        old(self).index as int,
                    ) || old(self).index == usize::MAX || !old(self).coord.sum_fits(
                        old(self).opt_offset->0,
                    ))
                },
            },
    {
        match &self.opt_offset {
            None => None,
            Some(offset) => {
                if self.range.complete(self.index) || self.index == usize::MAX {
                    return None;
                }
                let stepped = checked_plus(&self.coord, offset);
                match stepped {
                    Some(next_coord) => {
                        let result = self.coord;
                        self.coord = next_coord;
                        self.index = self.index + 1;
                        Some(result)
                    },
                    None => None,
                }
            },
        }
    }
}

/// Add two coordinates where their sum stays in range, and report the
/// overflow otherwise.
pub fn checked_plus<MC: ModuleCoord>(a: &MC, b: &MC) -> (r: Option<MC>)
    ensures
        match r {
            Some(c) => a.sum_fits(*b) && c == a.spec_add(*b),
            None => !a.sum_fits(*b),
        },
{
    if a.sum_fits_now(b) {
        Some(a.plus(b))
    } else {
        None
    }
}

/// A generic construction that produces rings by rotating the current
/// corner to find the next one, and walking the axes between the
/// corners, flipping the walking direction after each full cycle of
/// axes.  The walk starts and ends at `start`; every visited coordinate
/// joins the shape.  A walk that leaves the machine range, fails to
/// close, or does not reach a corner within the expected number of steps
/// stops early with the coordinates visited so far.
pub fn ring<C: Coord>(
    start: C,
    start_axis: C::Axes,
    flip_axis: C::Axes,
    axes: &[C::Axes],
    rotation_step: isize,
) -> (r: HashShape<C>)
    requires
        start.fits(),
        axes@.len() >= 1,
    ensures
        r.sset().contains(start),
        forall|c: C| r.sset().contains(c) ==> c.fits(),
{
    let mut coords = HashShape::<C>::singleton(start);
    proof {
        assert forall|c: C| coords.sset().contains(c) implies c.fits() by {}
    }
    let mut current_coord = start;
    // Position in the cycle over `axes`, starting at `start_axis`.
    let n = axes.len();
    let mut scan: usize = 0;
    while scan < n
        invariant
            n == axes@.len(),
            scan <= n,
        decreases n - scan,
    {
        if C::eq_axes(&axes[scan], &start_axis) {
            break;
        }
        scan = scan + 1;
    }
    let mut axis_pos: usize = if scan < n {
        scan
    } else {
        0
    };
    let mut axis_sign = false;
    // Each corner is a rotation of the last; a full circuit closes after
    // at most twelve corners on the topologies of this crate.
    let mut corners: usize = 0;
    while corners < 16
        invariant
            coords.sset().contains(start),
            forall|c: C| coords.sset().contains(c) ==> c.fits(),
            current_coord.fits(),
            n == axes@.len(),
            n >= 1,
            axis_pos < n,
        decreases 16 - corners,
    {
        corners = corners + 1;
        let next_corner_coord = rotated(&current_coord, rotation_step);
        let axis = axes[axis_pos];
        axis_pos = axis_pos + 1;
        if axis_pos == n {
            axis_pos = 0;
        }
        // Walk along the axis to the next corner; the corner of a ring
        // is never farther than the distance between the corners.
        if !next_corner_coord.fits_now() || !current_coord.comparable_now(&next_corner_coord)
            || !current_coord.axis_ok_now(&axis) {
            return coords;
        }
        let cap = current_coord.distance(&next_corner_coord);
        let mut next_coord = current_coord;
        let mut steps: usize = 0;
        let mut reached = false;
        loop
            invariant
                coords.sset().contains(start),
                forall|c: C| coords.sset().contains(c) ==> c.fits(),
                next_coord.fits(),
                steps <= cap,
            decreases cap - steps,
        {
            coords.insert(next_coord);
            if !next_coord.axis_ok_now(&axis) {
                return coords;
            }
            let coord = next_coord.move_on_axis(axis, axis_sign);
            if coord.eq_coord(&next_corner_coord) {
                reached = true;
                break;
            }
            if steps >= cap {
                break;
            }
            if !coord.fits_now() {
                return coords;
            }
            next_coord = coord;
            steps = steps + 1;
        }
        if !reached {
            // The walk failed to close; keep what was collected.
            return coords;
        }
        current_coord = next_corner_coord;
        if current_coord.eq_coord(&start) {
            return coords;
        }
        // Whenever we complete a full cycle of axes, flip the axis sign.
        if C::eq_axes(&axes[axis_pos], &flip_axis) {
            axis_sign = !axis_sign;
        }
    }
    coords
}

/// Rotate a coordinate by the given number of steps: positive steps
/// rotate clockwise, negative steps counter-clockwise.
pub fn rotated<C: Coord>(coord: &C, steps: isize) -> (r: C)
    requires
        coord.fits(),
    ensures
        r.fits(),
        steps >= 0 ==> r == rotate_cw_times(*coord, steps as int),
        steps < 0 ==> r == rotate_ccw_times(*coord, -(steps as int)),
        steps == 1 ==> r == coord.spec_rotate_cw(),
        steps == -1 ==> r == coord.spec_rotate_ccw(),
        steps == 0 ==> r == *coord,
{
    let mut result = *coord;
    if steps >= 0 {
        let mut i: isize = 0;
        while i < steps
            invariant
                result.fits(),
                0 <= i,
                i <= steps || steps < 0,
                result == rotate_cw_times(*coord, i as int),
            decreases steps - i,
        {
            result = result.rotate_clockwise();
            i = i + 1;
        }
    } else {
        let mut i: isize = 0;
        while i > steps
            invariant
                result.fits(),
                steps <= i <= 0,
                result == rotate_ccw_times(*coord, -i as int),
            decreases i - steps,
        {
            result = result.rotate_counterclockwise();
            i = i - 1;
        }
    }
    result
}

/// The coordinate rotated clockwise the given number of times.
pub open spec fn rotate_cw_times<C: Coord>(coord: C, n: int) -> C
    decreases n,
{
    if n <= 0 {
        coord
    } else {
        rotate_cw_times(coord, n - 1).spec_rotate_cw()
    }
}

/// The coordinate rotated counter-clockwise the given number of times.
pub open spec fn rotate_ccw_times<C: Coord>(coord: C, n: int) -> C
    decreases n,
{
    if n <= 0 {
        coord
    } else {
        rotate_ccw_times(coord, n - 1).spec_rotate_ccw()
    }
}

} // verus!
