//! Shapes backed by plain vectors of coordinates.
//!
//! A `HashShape` holds a finite set of coordinates of one topology; a
//! `HashShapeContainer` additionally binds one value to each coordinate.
//! The backing vectors may hold a coordinate more than once; every
//! contract speaks of the set or map they stand for, and the functions
//! that hand entries out deduplicate first.

use vstd::prelude::*;

use crate::{Coord, ModuleCoord};
use crate::{Shape as _, ModuleShape as _, ShapeContainer as _, ModuleShapeContainer as _};

verus! {

broadcast use vstd::seq_lib::group_seq_properties, vstd::set_lib::group_set_properties;

/// A finite set of coordinates of one topology.
#[derive(Debug, Clone)]
pub struct HashShape<C: Coord> {
    v: Vec<C>,
}

impl<C: Coord> HashShape<C> {
    /// Create a shape holding the given coordinates.
    pub fn from_coords(coords: Vec<C>) -> (r: HashShape<C>)
        ensures
            r.sset() == coords@.to_set(),
    {
        HashShape { v: coords }
    }

    /// Create a shape holding one coordinate.
    pub fn singleton(coord: C) -> (r: HashShape<C>)
        ensures
            r.sset() == Set::<C>::empty().insert(coord),
    {
        let mut v: Vec<C> = Vec::new();
        v.push(coord);
        proof {
            assert(v@.to_set() =~= Set::<C>::empty().insert(coord));
        }
        HashShape { v }
    }

    /// Add one coordinate to the shape.
    pub fn insert(&mut self, coord: C)
        ensures
            final(self).sset() == old(self).sset().insert(coord),
    {
        self.v.push(coord);
        proof {
            assert(self.v@.to_set() =~= old(self).v@.to_set().insert(coord));
        }
    }

    /// Do the backing entries up to `n` hold the coordinate?
    spec fn prefix_contains(self, n: int, c: C) -> bool {
        exists|k: int| 0 <= k < n && self.v@[k] == c
    }

    /// Scan the backing entries for the coordinate.
    fn scan(&self, coord: &C) -> (r: bool)
        ensures
            r == self.sset().contains(*coord),
    {
        let n = self.v.len();
        let mut i: usize = 0;
        while i < n
            invariant
                n == self.v@.len(),
                i <= n,
                forall|k: int| 0 <= k < i ==> self.v@[k] != *coord,
            decreases n - i,
        {
            if self.v[i].eq_coord(coord) {
                return true;
            }
            i = i + 1;
        }
        proof {
            assert(!self.v@.contains(*coord));
        }
        false
    }
}

impl<C: Coord> crate::Shape<C> for HashShape<C> {
    closed spec fn sset(self) -> Set<C> {
        self.v@.to_set()
    }

    fn new() -> (r: HashShape<C>) {
        let r = HashShape { v: Vec::new() };
        proof {
            assert(r.v@.to_set() =~= Set::<C>::empty());
        }
        r
    }

    fn contains(&self, coord: &C) -> (r: bool) {
        self.scan(coord)
    }

    fn is_subshape(&self, other: &HashShape<C>) -> (r: bool) {
        let n = self.v.len();
        let mut i: usize = 0;
        while i < n
            invariant
                n == self.v@.len(),
                i <= n,
                forall|k: int| 0 <= k < i ==> other.sset().contains(#[trigger] self.v@[k]),
            decreases n - i,
        {
            if !other.scan(&self.v[i]) {
                proof {
                    assert(self.sset().contains(self.v@[i as int]));
                }
                return false;
            }
            i = i + 1;
        }
        proof {
            assert forall|c: C| self.sset().contains(c) implies other.sset().contains(c) by {
                let k = choose|k: int| 0 <= k < self.v@.len() && self.v@[k] == c;
                assert(other.sset().contains(self.v@[k]));
            }
        }
        true
    }

    fn is_supershape(&self, other: &HashShape<C>) -> (r: bool) {
        other.is_subshape(self)
    }

    fn is_disjoint(&self, other: &HashShape<C>) -> (r: bool) {
        let n = self.v.len();
        let mut i: usize = 0;
        while i < n
            invariant
                n == self.v@.len(),
                i <= n,
                forall|k: int| 0 <= k < i ==> !other.sset().contains(#[trigger] self.v@[k]),
            decreases n - i,
        {
            if other.scan(&self.v[i]) {
                proof {
                    assert(self.sset().contains(self.v@[i as int]));
                    assert(!self.sset().disjoint(other.sset()));
                }
                return false;
            }
            i = i + 1;
        }
        proof {
            assert forall|c: C| self.sset().contains(c) implies !other.sset().contains(c) by {
                let k = choose|k: int| 0 <= k < self.v@.len() && self.v@[k] == c;
                assert(!other.sset().contains(self.v@[k]));
            }
        }
        true
    }

    fn is_empty(&self) -> (r: bool) {
        let r = self.v.len() == 0;
        proof {
            if self.v@.len() == 0 {
                assert(self.sset() =~= Set::<C>::empty());
            } else {
                assert(self.sset().contains(self.v@[0]));
            }
        }
        r
    }

    fn union(&self, other: &HashShape<C>) -> (r: HashShape<C>) {
        let mut v: Vec<C> = Vec::new();
        let n = self.v.len();
        let m = other.v.len();
        let mut i: usize = 0;
        while i < n
            invariant
                n == self.v@.len(),
                i <= n,
                v@ == self.v@.subrange(0, i as int),
            decreases n - i,
        {
            v.push(self.v[i]);
            proof {
                assert(v@ =~= self.v@.subrange(0, i + 1));
            }
            i = i + 1;
        }
        proof {
            assert(v@ =~= self.v@);
        }
        let mut j: usize = 0;
        while j < m
            invariant
                m == other.v@.len(),
                j <= m,
                v@ == self.v@ + other.v@.subrange(0, j as int),
            decreases m - j,
        {
            v.push(other.v[j]);
            proof {
                assert(v@ =~= self.v@ + other.v@.subrange(0, j + 1));
            }
            j = j + 1;
        }
        let r = HashShape { v };
        proof {
            assert(r.v@ =~= self.v@ + other.v@);
            assert(r.v@.to_set() =~= self.v@.to_set().union(other.v@.to_set()));
        }
        r
    }

    fn difference(&self, other: &HashShape<C>) -> (r: HashShape<C>) {
        let mut v: Vec<C> = Vec::new();
        let n = self.v.len();
        let mut i: usize = 0;
        while i < n
            invariant
                n == self.v@.len(),
                i <= n,
                forall|c: C|
                    v@.contains(c) <==> (self.prefix_contains(i as int, c)
                        && !other.sset().contains(c)),
            decreases n - i,
        {
            let c = self.v[i];
            let ghost old_v = v@;
            let kept = !other.scan(&c);
            if kept {
                v.push(c);
            }
            proof {
                assert forall|e: C| #[trigger]
                    v@.contains(e) <==> (self.prefix_contains(i + 1, e)
                        && !other.sset().contains(e)) by {
                    if v@.contains(e) {
                        let k = choose|k: int| 0 <= k < v@.len() && v@[k] == e;
                        if k < old_v.len() {
                            assert(old_v[k] == e);
                            assert(old_v.contains(e));
                            assert(self.prefix_contains(i as int, e));
                            let l = choose|l: int| 0 <= l < i && self.v@[l] == e;
                            assert(0 <= l < i + 1 && self.v@[l] == e);
                        } else {
                            assert(kept && e == c);
                            assert(0 <= i < i + 1 && self.v@[i as int] == e);
                        }
                        assert(self.prefix_contains(i + 1, e));
                    }
                    if self.prefix_contains(i + 1, e) && !other.sset().contains(e) {
                        let k = choose|k: int| 0 <= k < i + 1 && self.v@[k] == e;
                        if k < i {
                            assert(self.prefix_contains(i as int, e));
                            assert(old_v.contains(e));
                            let l = choose|l: int| 0 <= l < old_v.len() && old_v[l] == e;
                            assert(v@[l] == e);
                        } else {
                            assert(e == c);
                            assert(kept);
                            assert(v@[v@.len() - 1] == e);
                        }
                        assert(v@.contains(e));
                    }
                }
            }
            i = i + 1;
        }
        let r = HashShape { v };
        proof {
            assert forall|c: C| #[trigger]
                r.sset().contains(c) <==> self.sset().difference(other.sset()).contains(c) by {
                assert(r.v@.contains(c) <==> (self.prefix_contains(n as int, c)
                    && !other.sset().contains(c)));
                if self.v@.contains(c) {
                    let k = choose|k: int| 0 <= k < self.v@.len() && self.v@[k] == c;
                    assert(self.prefix_contains(n as int, c));
                }
            }
            assert(r.sset() =~= self.sset().difference(other.sset()));
        }
        r
    }

    fn to_vec(&self) -> (r: Vec<C>) {
        let n = self.v.len();
        let mut r: Vec<C> = Vec::new();
        let mut i: usize = 0;
        while i < n
            invariant
                n == self.v@.len(),
                i <= n,
                forall|c: C| r@.contains(c) <==> self.prefix_contains(i as int, c),
                r@.no_duplicates(),
            decreases n - i,
        {
            let c = self.v[i];
            let ghost old_r = r@;
            let mut seen = false;
            let m = r.len();
            let mut j: usize = 0;
            while j < m
                invariant
                    m == r@.len(),
                    j <= m,
                    seen <==> exists|k: int| 0 <= k < j && r@[k] == c,
                decreases m - j,
            {
                if r[j].eq_coord(&c) {
                    seen = true;
                    proof {
                        assert(r@[j as int] == c);
                    }
                }
                j = j + 1;
            }
            proof {
                assert(seen <==> old_r.contains(c));
            }
            if !seen {
                r.push(c);
            }
            proof {
                assert forall|e: C| #[trigger]
                    r@.contains(e) <==> (old_r.contains(e) || e == c) by {
                    if r@.contains(e) {
                        let k = choose|k: int| 0 <= k < r@.len() && r@[k] == e;
                        if k < old_r.len() {
                            assert(old_r[k] == e);
                        } else {
                            assert(e == c);
                        }
                    }
                    if old_r.contains(e) {
                        let k = choose|k: int| 0 <= k < old_r.len() && old_r[k] == e;
                        assert(r@[k] == e);
                    }
                    if e == c && !old_r.contains(c) {
                        assert(r@[r@.len() - 1] == c);
                    }
                }
                assert forall|e: C| r@.contains(e) implies self.prefix_contains(i + 1, e) by {
                    if old_r.contains(e) {
                        assert(self.prefix_contains(i as int, e));
                        let k = choose|k: int| 0 <= k < i && self.v@[k] == e;
                        assert(0 <= k < i + 1 && self.v@[k] == e);
                    } else {
                        assert(e == c);
                        assert(0 <= i < i + 1 && self.v@[i as int] == e);
                    }
                }
                assert forall|e: C| self.prefix_contains(i + 1, e) implies r@.contains(e) by {
                    let k = choose|k: int| 0 <= k < i + 1 && self.v@[k] == e;
                    if k < i {
                        assert(self.prefix_contains(i as int, e));
                        assert(old_r.contains(e));
                    } else {
                        assert(e == c);
                    }
                }
            }
            i = i + 1;
        }
        proof {
            assert forall|c: C| r@.contains(c) <==> #[trigger] self.sset().contains(c) by {
                if self.v@.contains(c) {
                    let k = choose|k: int| 0 <= k < self.v@.len() && self.v@[k] == c;
                    assert(self.prefix_contains(n as int, c));
                }
                if r@.contains(c) {
                    assert(self.prefix_contains(n as int, c));
                    let k = choose|k: int| 0 <= k < n && self.v@[k] == c;
                    assert(self.v@.contains(c));
                }
            }
        }
        r
    }
}

impl<C: Coord> PartialEq for HashShape<C> {
    /// Two shapes are equal when they hold the same set of coordinates,
    /// in whatever order the backing entries came.
    fn eq(&self, other: &HashShape<C>) -> (r: bool) {
        let r = crate::Shape::is_subshape(self, other) && crate::Shape::is_supershape(
            self,
            other,
        );
        proof {
            if r {
                assert(self.sset() =~= other.sset());
            }
        }
        r
    }
}

impl<C: Coord> vstd::std_specs::cmp::PartialEqSpecImpl for HashShape<C> {
    open spec fn obeys_eq_spec() -> bool {
        true
    }

    open spec fn eq_spec(&self, other: &HashShape<C>) -> bool {
        self.sset() == other.sset()
    }
}

impl<MC: ModuleCoord> crate::ModuleShape<MC> for HashShape<MC> {
    fn translate(&self, offset: &MC) -> (r: HashShape<MC>) {
        let n = self.v.len();
        let mut v: Vec<MC> = Vec::new();
        let mut i: usize = 0;
        while i < n
            invariant
                n == self.v@.len(),
                i <= n,
                v@.len() == i,
                forall|k: int| 0 <= k < i ==> self.sset().contains(#[trigger] self.v@[k]),
                forall|k: int|
                    0 <= k < i ==> v@[k] == (#[trigger] self.v@[k]).spec_add(*offset),
                forall|c: MC| self.sset().contains(c) ==> c.sum_fits(*offset),
            decreases n - i,
        {
            let c = self.v[i];
            proof {
                assert(self.sset().contains(self.v@[i as int]));
            }
            v.push(c.plus(offset));
            i = i + 1;
        }
        let r = HashShape { v };
        proof {
            assert forall|c: MC| self.sset().contains(c) implies r.sset().contains(
                #[trigger] c.spec_add(*offset),
            ) by {
                let k = choose|k: int| 0 <= k < self.v@.len() && self.v@[k] == c;
                assert(r.v@[k] == c.spec_add(*offset));
            }
            assert forall|d: MC| r.sset().contains(d) implies exists|c: MC|
                #[trigger] self.sset().contains(c) && d == c.spec_add(*offset) by {
                let k = choose|k: int| 0 <= k < r.v@.len() && r.v@[k] == d;
                assert(self.sset().contains(self.v@[k]) && d == self.v@[k].spec_add(*offset));
            }
        }
        r
    }
}

/// The map that a sequence of key-value entries stands for; a later
/// entry for a key overrides an earlier one.
pub open spec fn map_of<C, V>(s: Seq<(C, V)>) -> Map<C, V>
    decreases s.len(),
{
    if s.len() == 0 {
        Map::empty()
    } else {
        map_of(s.drop_last()).insert(s.last().0, s.last().1)
    }
}

/// Membership in the map of a sequence of entries is membership among
/// its keys; with no duplicate keys, each key looks up its entry's value.
proof fn lemma_map_of_props<C, V>(s: Seq<(C, V)>)
    ensures
        forall|c: C|
            map_of(s).contains_key(c) <==> exists|k: int|
                0 <= k < s.len() && (#[trigger] s[k]).0 == c,
        s.map_values(|e: (C, V)| e.0).no_duplicates() ==> forall|k: int|
            0 <= k < s.len() ==> map_of(s).contains_key((#[trigger] s[k]).0) && map_of(s)[s[k].0]
                == s[k].1,
    decreases s.len(),
{
    let keys = s.map_values(|e: (C, V)| e.0);
    if s.len() > 0 {
        lemma_map_of_props(s.drop_last());
        assert forall|c: C|
            map_of(s).contains_key(c) <==> exists|k: int|
                0 <= k < s.len() && (#[trigger] s[k]).0 == c by {
            let dl = s.drop_last();
            if map_of(s).contains_key(c) {
                if c == s.last().0 {
                    assert((s[s.len() - 1]).0 == c);
                } else {
                    assert(map_of(dl).contains_key(c));
                    let k = choose|k: int| 0 <= k < dl.len() && (#[trigger] dl[k]).0 == c;
                    assert(dl[k] == s[k]);
                    assert((s[k]).0 == c);
                }
            }
            if exists|k: int| 0 <= k < s.len() && (#[trigger] s[k]).0 == c {
                let k = choose|k: int| 0 <= k < s.len() && (#[trigger] s[k]).0 == c;
                if k < s.len() - 1 {
                    assert(dl[k] == s[k]);
                    assert((dl[k]).0 == c);
                    assert(map_of(dl).contains_key(c));
                }
            }
        }
        if keys.no_duplicates() {
            assert(s.drop_last().map_values(|e: (C, V)| e.0) =~= keys.drop_last());
            assert forall|k: int|
                0 <= k < s.len() implies map_of(s).contains_key((#[trigger] s[k]).0) && map_of(
                s,
            )[s[k].0] == s[k].1 by {
                if k < s.len() - 1 {
                    assert(keys[k] == s[k].0 && keys[s.len() - 1] == s.last().0);
                    assert(s[k].0 != s.last().0);
                    assert(s.drop_last()[k] == s[k]);
                }
            }
        }
    }
}

/// An association from coordinates of one topology to values, one entry
/// per coordinate.
#[derive(Debug)]
pub struct HashShapeContainer<C: Coord, V> {
    v: Vec<(C, V)>,
}

impl<C: Coord, V> HashShapeContainer<C, V> {
    /// Each coordinate has at most one entry.
    #[verifier::type_invariant]
    pub closed spec fn wf(self) -> bool {
        self.v@.map_values(|e: (C, V)| e.0).no_duplicates()
    }

    /// Create an empty container.
    pub fn new() -> (r: HashShapeContainer<C, V>)
        ensures
            r.smap() == Map::<C, V>::empty(),
    {
        let v: Vec<(C, V)> = Vec::new();
        proof {
            assert(v@.map_values(|e: (C, V)| e.0) =~= Seq::<C>::empty());
        }
        HashShapeContainer { v }
    }

    /// The position of the entry for the coordinate, if there is one.
    fn position(&self, coord: &C) -> (r: Option<usize>)
        ensures
            match r {
                Some(i) => i < self.v@.len() && self.v@[i as int].0 == *coord,
                None => forall|k: int| 0 <= k < self.v@.len() ==> (#[trigger] self.v@[k]).0
                    != *coord,
            },
    {
        let n = self.v.len();
        let mut i: usize = 0;
        while i < n
            invariant
                n == self.v@.len(),
                i <= n,
                forall|k: int| 0 <= k < i ==> (#[trigger] self.v@[k]).0 != *coord,
            decreases n - i,
        {
            if self.v[i].0.eq_coord(coord) {
                return Some(i);
            }
            i = i + 1;
        }
        None
    }

    /// Associate the same value with every coordinate of the shape.
    pub fn from_shape_value(shape: &HashShape<C>, value: V) -> (r: HashShapeContainer<C, V>)
        where V: Clone
        ensures
            r.smap().dom() == shape.sset(),
    {
        let coords = crate::Shape::to_vec(shape);
        let n = coords.len();
        let mut v: Vec<(C, V)> = Vec::new();
        let mut i: usize = 0;
        while i < n
            invariant
                n == coords@.len(),
                i <= n,
                v@.len() == i,
                forall|k: int| 0 <= k < i ==> (#[trigger] v@[k]).0 == coords@[k],
                coords@.no_duplicates(),
            decreases n - i,
        {
            let c = coords[i];
            v.push((c, value.clone()));
            i = i + 1;
        }
        let ghost keys = v@.map_values(|e: (C, V)| e.0);
        proof {
            assert(keys =~= coords@);
            lemma_map_of_props(v@);
            assert forall|c: C|
                map_of(v@).dom().contains(c) <==> shape.sset().contains(c) by {
                if coords@.contains(c) {
                    let k = choose|k: int| 0 <= k < coords@.len() && coords@[k] == c;
                    assert(v@[k].0 == c);
                    assert(map_of(v@).contains_key(c));
                }
                if map_of(v@).contains_key(c) {
                    let k = choose|k: int| 0 <= k < v@.len() && (#[trigger] v@[k]).0 == c;
                    assert(coords@[k] == c);
                    assert(coords@.contains(c));
                }
            }
            assert(map_of(v@).dom() =~= shape.sset());
        }
        HashShapeContainer { v }
    }

    /// Associate the same value with every listed coordinate.
    pub fn from_iter_value(coords: Vec<C>, value: V) -> (r: HashShapeContainer<C, V>)
        where V: Clone
        ensures
            r.smap().dom() == coords@.to_set(),
    {
        Self::from_shape_value(&HashShape::from_coords(coords), value)
    }
}

impl<C: Coord, V> crate::ShapeContainer<C, V> for HashShapeContainer<C, V> {
    type Shape = HashShape<C>;

    closed spec fn smap(self) -> Map<C, V> {
        map_of(self.v@)
    }

    fn contains(&self, coord: &C) -> (r: bool) {
        proof {
            lemma_map_of_props(self.v@);
        }
        self.position(coord).is_some()
    }

    fn get<'a>(&'a self, coord: &C) -> (r: Option<&'a V>) {
        proof {
            use_type_invariant(self);
            lemma_map_of_props(self.v@);
        }
        match self.position(coord) {
            Some(i) => Some(&self.v[i].1),
            None => None,
        }
    }

    fn insert(&mut self, coord: C, value: V) -> (r: Option<V>) {
        proof {
            use_type_invariant(&*self);
            lemma_map_of_props(self.v@);
        }
        let ghost old_v = self.v@;
        match self.position(&coord) {
            Some(i) => {
                let mut entry = (coord, value);
                let mut tmp: Vec<(C, V)> = Vec::new();
                proof {
                    assert(tmp@.map_values(|e: (C, V)| e.0).no_duplicates());
                }
                core::mem::swap(&mut self.v, &mut tmp);
                core::mem::swap(&mut tmp[i], &mut entry);
                proof {
                    let keys = tmp@.map_values(|e: (C, V)| e.0);
                    let old_keys = old_v.map_values(|e: (C, V)| e.0);
                    assert(keys =~= old_keys.update(i as int, coord));
                    assert(old_keys[i as int] == coord);
                    assert(keys =~= old_keys);
                    assert(keys.no_duplicates());
                }
                core::mem::swap(&mut self.v, &mut tmp);
                proof {
                    let keys = self.v@.map_values(|e: (C, V)| e.0);
                    let old_keys = old_v.map_values(|e: (C, V)| e.0);
                    assert(keys =~= old_keys);
                    lemma_map_of_props(self.v@);
                    assert forall|c: C|
                        map_of(self.v@).contains_key(c) <==> map_of(old_v).insert(
                            coord,
                            value,
                        ).contains_key(c) by {
                        if map_of(self.v@).contains_key(c) {
                            let k = choose|k: int|
                                0 <= k < self.v@.len() && (#[trigger] self.v@[k]).0 == c;
                            if k != i {
                                assert(old_v[k].0 == c);
                            }
                        }
                        if map_of(old_v).insert(coord, value).contains_key(c) {
                            if c == coord {
                                assert(self.v@[i as int].0 == c);
                            } else {
                                let k = choose|k: int|
                                    0 <= k < old_v.len() && (#[trigger] old_v[k]).0 == c;
                                assert(self.v@[k].0 == c);
                            }
                        }
                    }
                    assert forall|c: C| map_of(self.v@).contains_key(c) implies map_of(
                        self.v@,
                    )[c] == map_of(old_v).insert(coord, value)[c] by {
                        let k = choose|k: int|
                            0 <= k < self.v@.len() && (#[trigger] self.v@[k]).0 == c;
                        if self.v@[k].0 == coord {
                            assert(k == i) by {
                                if k != i {
                                    assert(old_v[k].0 == coord);
                                    assert(old_keys[k] == coord && old_keys[i as int] == coord);
                                }
                            };
                            assert(map_of(self.v@)[c] == value);
                        } else {
                            assert(old_v[k] == self.v@[k]);
                            assert(map_of(old_v)[c] == old_v[k].1);
                            assert(map_of(self.v@)[c] == self.v@[k].1);
                        }
                    }
                    assert(map_of(self.v@) =~= map_of(old_v).insert(coord, value));
                }
                Some(entry.1)
            },
            None => {
                let mut tmp: Vec<(C, V)> = Vec::new();
                proof {
                    assert(tmp@.map_values(|e: (C, V)| e.0).no_duplicates());
                }
                core::mem::swap(&mut self.v, &mut tmp);
                tmp.push((coord, value));
                proof {
                    let keys = tmp@.map_values(|e: (C, V)| e.0);
                    let old_keys = old_v.map_values(|e: (C, V)| e.0);
                    assert(keys =~= old_keys.push(coord));
                    assert forall|k: int| 0 <= k < old_keys.len() implies old_keys[k]
                        != coord by {
                        assert(old_v[k].0 == old_keys[k]);
                    }
                    assert(keys.no_duplicates());
                }
                core::mem::swap(&mut self.v, &mut tmp);
                proof {
                    assert(self.v@.drop_last() =~= old_v);
                    assert(map_of(self.v@) == map_of(old_v).insert(coord, value));
                }
                None
            },
        }
    }

    fn is_empty(&self) -> (r: bool) {
        proof {
            lemma_map_of_props(self.v@);
        }
        let r = self.v.len() == 0;
        proof {
            if self.v@.len() == 0 {
                assert(self.smap().dom() =~= Set::<C>::empty());
            } else {
                assert(self.smap().contains_key(self.v@[0].0));
                assert(self.smap().dom().contains(self.v@[0].0));
            }
        }
        r
    }

    fn as_shape(&self) -> (r: HashShape<C>) {
        proof {
            lemma_map_of_props(self.v@);
        }
        let n = self.v.len();
        let mut coords: Vec<C> = Vec::new();
        let mut i: usize = 0;
        while i < n
            invariant
                n == self.v@.len(),
                i <= n,
                coords@.len() == i,
                forall|k: int| 0 <= k < i ==> coords@[k] == (#[trigger] self.v@[k]).0,
            decreases n - i,
        {
            coords.push(self.v[i].0);
            i = i + 1;
        }
        let r = HashShape::from_coords(coords);
        proof {
            assert forall|c: C|
                r.sset().contains(c) <==> self.smap().dom().contains(c) by {
                if map_of(self.v@).contains_key(c) {
                    let k = choose|k: int|
                        0 <= k < self.v@.len() && (#[trigger] self.v@[k]).0 == c;
                    assert(coords@[k] == c);
                }
                if coords@.contains(c) {
                    let k = choose|k: int| 0 <= k < coords@.len() && coords@[k] == c;
                    assert(self.v@[k].0 == c);
                }
            }
            assert(r.sset() =~= self.smap().dom());
        }
        r
    }

}

/// An iterator over the entries of a `HashShapeContainer`, handing each
/// coordinate and a reference to its value out exactly once.
pub struct HashShapeContainerIterator<'a, C: Coord, V> {
    container: &'a HashShapeContainer<C, V>,
    i: usize,
}

impl<'a, C: Coord, V> HashShapeContainerIterator<'a, C, V> {
    /// The entries being iterated over.
    pub closed spec fn entries(self) -> Seq<(C, V)> {
        self.container.v@
    }

    /// How many entries have been handed out.
    pub closed spec fn pos(self) -> int {
        self.i as int
    }

    /// The container being iterated over.
    pub closed spec fn source(self) -> HashShapeContainer<C, V> {
        *self.container
    }

    /// The next coordinate and its value, or `None` when every entry has
    /// been handed out.
    pub fn next(&mut self) -> (r: Option<(C, &'a V)>)
        ensures
            final(self).entries() == old(self).entries(),
            final(self).source() == old(self).source(),
            match r {
                Some(e) => {
                    &&& old(self).pos() < old(self).entries().len()
                    &&& final(self).pos() == old(self).pos() + 1
                    &&& e.0 == old(self).entries()[old(self).pos()].0
                    &&& *e.1 == old(self).entries()[old(self).pos()].1
                    &&& old(self).source().smap().contains_key(e.0)
                    &&& *e.1 == old(self).source().smap()[e.0]
                },
                None => {
                    &&& old(self).pos() >= old(self).entries().len()
                    &&& final(self).pos() == old(self).pos()
                },
            },
    {
        proof {
            use_type_invariant(self.container);
            lemma_map_of_props(self.container.v@);
        }
        if self.i < self.container.v.len() {
            let i = self.i;
            self.i = i + 1;
            Some((self.container.v[i].0, &self.container.v[i].1))
        } else {
            None
        }
    }
}

impl<C: Coord, V> HashShapeContainer<C, V> {
    /// Obtain an iterator over the entries of the container.  Each
    /// coordinate of the container comes out exactly once, paired with
    /// its value.
    pub fn iter<'a>(&'a self) -> (r: HashShapeContainerIterator<'a, C, V>)
        ensures
            r.source() == *self,
            r.pos() == 0,
            r.entries().map_values(|e: (C, V)| e.0).no_duplicates(),
            r.entries().len() == self.smap().dom().len(),
            forall|k: int|
                0 <= k < r.entries().len() ==> self.smap().contains_key(
                    (#[trigger] r.entries()[k]).0,
                ) && self.smap()[r.entries()[k].0] == r.entries()[k].1,
    {
        proof {
            use_type_invariant(self);
            lemma_map_of_props(self.v@);
            let keys = self.v@.map_values(|e: (C, V)| e.0);
            assert forall|c: C| self.smap().dom().contains(c) implies keys.to_set().contains(
                c,
            ) by {
                let k = choose|k: int| 0 <= k < self.v@.len() && (#[trigger] self.v@[k]).0 == c;
                assert(keys[k] == c);
            }
            assert forall|c: C| keys.to_set().contains(c) implies self.smap().dom().contains(
                c,
            ) by {
                let k = choose|k: int| 0 <= k < keys.len() && keys[k] == c;
                assert(self.v@[k].0 == c);
            }
            assert(keys.to_set() =~= self.smap().dom());
            keys.unique_seq_to_set();
        }
        HashShapeContainerIterator { container: self, i: 0 }
    }
}

/// An iterator over the coordinates of a `HashShape`, handing each
/// coordinate out once.
pub struct HashShapeIterator<C: Coord> {
    /// The deduplicated coordinates still to come, last first.
    v: Vec<C>,
}

impl<C: Coord> HashShapeIterator<C> {
    /// The coordinates still to come.
    pub closed spec fn remaining(self) -> Seq<C> {
        self.v@
    }

    /// An iterator with nothing to hand out.
    pub fn empty() -> (r: HashShapeIterator<C>)
        ensures
            r.remaining() == Seq::<C>::empty(),
    {
        let r = HashShapeIterator { v: Vec::new() };
        proof {
            assert(r.v@ =~= Seq::<C>::empty());
        }
        r
    }

    /// The next coordinate, or `None` when all have been handed out.
    pub fn next(&mut self) -> (r: Option<C>)
        ensures
            match r {
                Some(c) => old(self).remaining().len() > 0 && c == old(self).remaining().last()
                    && final(self).remaining() == old(self).remaining().drop_last(),
                None => old(self).remaining().len() == 0 && final(self).remaining() == old(
                    self,
                ).remaining(),
            },
    {
        self.v.pop()
    }
}

impl<C: Coord> crate::ShapeIterator<C> for HashShapeIterator<C> {

}

impl<'a, C: Coord, V> crate::ShapeContainerIterator<C, V> for HashShapeContainerIterator<
    'a,
    C,
    V,
> {

}

impl<MC: ModuleCoord, V> crate::ModuleShapeContainer<MC, V> for HashShapeContainer<MC, V> {
    fn translate(&self, offset: &MC) -> (r: HashShapeContainer<MC, V>)
        where V: Copy
    {
        proof {
            use_type_invariant(self);
            lemma_map_of_props(self.v@);
        }
        let n = self.v.len();
        let mut v: Vec<(MC, V)> = Vec::new();
        let mut i: usize = 0;
        while i < n
            invariant
                n == self.v@.len(),
                i <= n,
                v@.len() == i,
                forall|k: int|
                    0 <= k < i ==> (#[trigger] v@[k]).0 == self.v@[k].0.spec_add(*offset)
                        && v@[k].1 == self.v@[k].1,
                forall|k: int|
                    0 <= k < self.v@.len() ==> map_of(self.v@).contains_key(
                        (#[trigger] self.v@[k]).0,
                    ),
                forall|c: MC| map_of(self.v@).contains_key(c) ==> c.sum_fits(*offset),
            decreases n - i,
        {
            let c = self.v[i].0;
            let val = self.v[i].1;
            v.push((c.plus(offset), val));
            i = i + 1;
        }
        proof {
            let keys = v@.map_values(|e: (MC, V)| e.0);
            let old_keys = self.v@.map_values(|e: (MC, V)| e.0);
            assert forall|k: int, l: int| 0 <= k < l < keys.len() implies keys[k] != keys[l] by {
                assert(old_keys[k] == self.v@[k].0 && old_keys[l] == self.v@[l].0);
                assert(self.v@[k].0 != self.v@[l].0);
                MC::lemma_add_injective(self.v@[k].0, self.v@[l].0, *offset);
            }
            lemma_map_of_props(v@);
        }
        let r = HashShapeContainer { v };
        proof {
            assert forall|c: MC| self.smap().contains_key(c) implies r.smap().contains_key(
                #[trigger] c.spec_add(*offset),
            ) && r.smap()[c.spec_add(*offset)] == self.smap()[c] by {
                let k = choose|k: int| 0 <= k < self.v@.len() && (#[trigger] self.v@[k]).0 == c;
                assert(r.v@[k].0 == c.spec_add(*offset));
                assert(r.smap().contains_key(r.v@[k].0) && r.smap()[r.v@[k].0] == r.v@[k].1);
                assert(self.smap()[c] == self.v@[k].1);
            }
            assert forall|d: MC| r.smap().contains_key(d) implies exists|c: MC|
                #[trigger] self.smap().contains_key(c) && d == c.spec_add(*offset) by {
                let k = choose|k: int| 0 <= k < r.v@.len() && (#[trigger] r.v@[k]).0 == d;
                assert(self.smap().contains_key(self.v@[k].0) && d == self.v@[k].0.spec_add(
                    *offset,
                ));
            }
        }
        r
    }
}

impl<C: Coord> HashShape<C> {
    /// Obtain an iterator over the coordinates of the shape.  Each
    /// coordinate of the shape comes out exactly once.
    pub fn iter(&self) -> (r: HashShapeIterator<C>)
        ensures
            forall|c: C| r.remaining().contains(c) <==> self.sset().contains(c),
            r.remaining().no_duplicates(),
    {
        HashShapeIterator { v: crate::Shape::to_vec(self) }
    }
}

} // verus!
