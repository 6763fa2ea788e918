//! Sets of points, and maps keyed by points.
//!
//! Both are hash tables keyed by one `u64` per point: the two coordinates,
//! each shifted into the non-negative range, side by side.

use std::collections::hash_map::Entry;
use std::collections::HashMap;
use std::collections::HashSet;
use vstd::prelude::*;
use vstd::std_specs::hash::*;
use vstd::std_specs::iter::IteratorSpec;

use crate::point::Point;

verus! {

broadcast use vstd::std_specs::hash::group_hash_axioms;

/// The key that stands for `p` in the hash tables.
pub open spec fn key_of(p: Point) -> u64 {
    ((p.x + 0x8000_0000) * 0x1_0000_0000 + (p.y + 0x8000_0000)) as u64
}

/// The point that `k` stands for.
pub open spec fn point_of(k: u64) -> Point {
    Point {
        x: (k / 0x1_0000_0000 - 0x8000_0000) as i32,
        y: (k % 0x1_0000_0000 - 0x8000_0000) as i32,
    }
}

/// Keys and points correspond one to one.
pub broadcast proof fn lemma_key_point(p: Point)
    ensures
        #[trigger] point_of(key_of(p)) == p,
{
}

/// Keys and points correspond one to one.
pub broadcast proof fn lemma_point_key(k: u64)
    ensures
        #[trigger] key_of(point_of(k)) == k,
{
}

/// The key that stands for `p` in the hash tables.
pub fn point_key(p: &Point) -> (k: u64)
    ensures
        k == key_of(*p),
{
    let a: u64 = (p.x as i64 + 0x8000_0000) as u64;
    let b: u64 = (p.y as i64 + 0x8000_0000) as u64;
    a * 0x1_0000_0000 + b
}

/// The point that `k` stands for.
pub fn key_point(k: u64) -> (p: Point)
    ensures
        p == point_of(k),
{
    let a: u64 = k / 0x1_0000_0000;
    let b: u64 = k % 0x1_0000_0000;
    Point { x: (a as i64 - 0x8000_0000) as i32, y: (b as i64 - 0x8000_0000) as i32 }
}

/// The square of positions no further than `radius` from `center` in
/// either direction.
pub open spec fn square(center: Point, radius: int) -> Set<Point> {
    Set::new(
        |p: Point|
            center.x - radius <= p.x <= center.x + radius && center.y - radius <= p.y <= center.y
                + radius,
    )
}

/// The positions of the square that lie in a row above row `y`.
pub open spec fn rows_before(center: Point, radius: int, y: int) -> Set<Point> {
    Set::new(|p: Point| square(center, radius).contains(p) && p.y < y)
}

/// The positions of the square that lie in row `y` left of column `x`.
pub open spec fn row_before(center: Point, radius: int, y: int, x: int) -> Set<Point> {
    Set::new(|p: Point| square(center, radius).contains(p) && p.y == y && p.x < x)
}

/// `v`, or the nearest coordinate where `v` is none.
pub open spec fn spec_clip(v: int) -> int {
    if v < i32::MIN {
        i32::MIN as int
    } else if v > i32::MAX {
        i32::MAX as int
    } else {
        v
    }
}

fn clip(v: i64) -> (c: i64)
    ensures
        c == spec_clip(v as int),
{
    if v < i32::MIN as i64 {
        i32::MIN as i64
    } else if v > i32::MAX as i64 {
        i32::MAX as i64
    } else {
        v
    }
}

/// A finite set of points.
#[derive(Debug)]
pub struct PointSet {
    keys: HashSet<u64>,
}

impl View for PointSet {
    type V = Set<Point>;

    closed spec fn view(&self) -> Set<Point> {
        Set::new(|p: Point| self.keys@.contains(key_of(p)))
    }
}

impl PointSet {
    /// The empty set.
    pub fn new() -> (s: PointSet)
        ensures
            s@ == Set::<Point>::empty(),
    {
        let s = PointSet { keys: HashSet::new() };
        assert(s@ =~= Set::<Point>::empty());
        s
    }

    /// Adds `p`; true where it was not in the set before.
    pub fn insert(&mut self, p: Point) -> (fresh: bool)
        ensures
            final(self)@ == old(self)@.insert(p),
            fresh == !old(self)@.contains(p),
    {
        broadcast use lemma_key_point;
        let fresh = self.keys.insert(point_key(&p));
        assert(self@ =~= old(self)@.insert(p));
        fresh
    }

    /// Whether `p` is in the set.
    pub fn contains(&self, p: &Point) -> (b: bool)
        ensures
            b == self@.contains(*p),
    {
        let k = point_key(p);
        self.keys.contains(&k)
    }

    /// The view as the image of the keys.
    proof fn lemma_view_is_image(&self)
        ensures
            self@ == self.keys@.map(|k: u64| point_of(k)),
            self@.finite(),
            self@.len() == self.keys@.len(),
    {
        broadcast use lemma_key_point, lemma_point_key;

        let f = |k: u64| point_of(k);
        let all: Seq<u64> = spec_hash_keys_iter(&self.keys).remaining().unref();
        assert(all.to_set() == self.keys@);
        vstd::seq_lib::seq_to_set_is_finite(all);
        assert(self@ =~= self.keys@.map(f)) by {
            assert forall|p: Point| self@.contains(p) implies self.keys@.map(f).contains(p) by {
                assert(self.keys@.contains(key_of(p)) && f(key_of(p)) == p);
            }
        }
        assert(vstd::relations::injective_on(f, self.keys@)) by {
            assert forall|a: u64, b: u64| #[trigger] f(a) == #[trigger] f(b) implies a == b by {
                assert(key_of(point_of(a)) == a);
                assert(key_of(point_of(b)) == b);
            }
        }
        vstd::set_lib::lemma_map_size(self.keys@, self@, f);
    }

    /// The number of points in the set.
    pub fn len(&self) -> (n: usize)
        ensures
            n == self@.len(),
    {
        proof {
            self.lemma_view_is_image();
        }
        self.keys.len()
    }

    /// Whether the set holds no point.
    pub fn is_empty(&self) -> (b: bool)
        ensures
            b == (self@ == Set::<Point>::empty()),
    {
        proof {
            self.lemma_view_is_image();
            if self@ == Set::<Point>::empty() {
                assert(self.keys@.len() == 0);
            }
            if self.keys@.len() == 0 {
                assert(self@.len() == 0);
                assert(self@ =~= Set::<Point>::empty());
            }
        }
        self.keys.len() == 0
    }

    /// Adds every position no further than `radius` from `center` in either
    /// direction.
    pub fn insert_square(&mut self, center: Point, radius: i32)
        ensures
            final(self)@ == old(self)@.union(square(center, radius as int)),
    {
        let x_lo: i64 = clip(center.x as i64 - radius as i64);
        let x_hi: i64 = clip(center.x as i64 + radius as i64);
        let y_lo: i64 = clip(center.y as i64 - radius as i64);
        let y_hi: i64 = clip(center.y as i64 + radius as i64);
        if radius < 0 {
            assert(self@ =~= old(self)@.union(square(center, radius as int)));
            return ;
        }
        let mut y: i64 = y_lo;
        while y <= y_hi
            invariant
                radius >= 0,
                x_lo == spec_clip(center.x - radius),
                x_hi == spec_clip(center.x + radius),
                y_lo == spec_clip(center.y - radius),
                y_hi == spec_clip(center.y + radius),
                y_lo <= y <= y_hi + 1,
                self@ == old(self)@.union(rows_before(center, radius as int, y as int)),
            decreases y_hi + 1 - y,
        {
            let mut x: i64 = x_lo;
            while x <= x_hi
                invariant
                    radius >= 0,
                    x_lo == spec_clip(center.x - radius),
                    x_hi == spec_clip(center.x + radius),
                    y_lo == spec_clip(center.y - radius),
                    y_hi == spec_clip(center.y + radius),
                    y_lo <= y <= y_hi,
                    x_lo <= x <= x_hi + 1,
                    self@ == old(self)@.union(rows_before(center, radius as int, y as int)).union(
                        row_before(center, radius as int, y as int, x as int),
                    ),
                decreases x_hi + 1 - x,
            {
                let p = Point { x: x as i32, y: y as i32 };
                self.insert(p);
                x = x + 1;
                assert(self@ =~= old(self)@.union(rows_before(center, radius as int, y as int)).union(
                    row_before(center, radius as int, y as int, x as int),
                ));
            }
            y = y + 1;
            assert(self@ =~= old(self)@.union(rows_before(center, radius as int, y as int)));
        }
        assert(self@ =~= old(self)@.union(square(center, radius as int)));
    }

    /// Adds every one of `points`.
    pub fn insert_all(&mut self, points: &Vec<Point>)
        ensures
            final(self)@ == old(self)@.union(points@.to_set()),
    {
        let mut n: usize = 0;
        assert(self@ =~= old(self)@.union(points@.subrange(0, 0).to_set()));
        while n < points.len()
            invariant
                n <= points@.len(),
                self@ == old(self)@.union(points@.subrange(0, n as int).to_set()),
            decreases points@.len() - n,
        {
            self.insert(points[n]);
            proof {
                let before = points@.subrange(0, n as int);
                let after = points@.subrange(0, n + 1);
                assert(after =~= before.push(points@[n as int]));
                assert(after.to_set() =~= before.to_set().insert(points@[n as int])) by {
                    assert forall|p: Point| after.to_set().contains(p) implies before.to_set().insert(
                        points@[n as int],
                    ).contains(p) by {
                        let i = choose|i: int| 0 <= i < after.len() && after[i] == p;
                        if i < n {
                            assert(before[i] == p);
                        }
                    }
                    assert forall|p: Point|
                        before.to_set().insert(points@[n as int]).contains(
                            p,
                        ) implies after.to_set().contains(p) by {
                        if p == points@[n as int] {
                            assert(after[n as int] == p);
                        } else {
                            let i = choose|i: int| 0 <= i < before.len() && before[i] == p;
                            assert(after[i] == p);
                        }
                    }
                }
                assert(self@ =~= old(self)@.union(after.to_set()));
            }
            n = n + 1;
        }
        proof {
            assert(points@.subrange(0, n as int) =~= points@);
        }
    }

    /// The points of the set, each once, in no particular order.
    pub fn to_vec(&self) -> (points: Vec<Point>)
        ensures
            points@.to_set() == self@,
            points@.no_duplicates(),
    {
        let mut points: Vec<Point> = Vec::new();
        let ghost all: Seq<u64> = spec_hash_keys_iter(&self.keys).remaining().unref();
        for k in it: self.keys.iter()
            invariant
                points@.len() == it.index(),
                it.seq().unref() == all,
                all.to_set() == self.keys@,
                all.no_duplicates(),
                forall|i: int| 0 <= i < points@.len() ==> points@[i] == point_of(all[i]),
        {
            points.push(key_point(*k));
        }
        proof {
            broadcast use lemma_key_point, lemma_point_key;
            assert(points@.len() == all.len());
            assert forall|p: Point| points@.to_set().contains(p) <==> self@.contains(p) by {
                if points@.to_set().contains(p) {
                    let i = choose|i: int| 0 <= i < points@.len() && points@[i] == p;
                    assert(all.to_set().contains(all[i]));
                }
                if self@.contains(p) {
                    assert(all.to_set().contains(key_of(p)));
                    let i = choose|i: int| 0 <= i < all.len() && all[i] == key_of(p);
                    assert(points@[i] == p);
                }
            }
            assert(points@.to_set() =~= self@);
            assert forall|i: int, j: int|
                0 <= i < points@.len() && 0 <= j < points@.len() && i != j implies points@[i]
                != points@[j] by {
                assert(all[i] != all[j]);
                assert(key_of(point_of(all[i])) == all[i]);
                assert(key_of(point_of(all[j])) == all[j]);
            }
        }
        points
    }
}

impl Clone for PointSet {
    fn clone(&self) -> (r: PointSet)
        ensures
            r@ == self@,
    {
        let points = self.to_vec();
        let mut r = PointSet::new();
        r.insert_all(&points);
        assert(r@ =~= self@);
        r
    }
}

/// A finite map from points to values of type `V`.
#[derive(Debug)]
pub struct PointMap<V> {
    cells: HashMap<u64, V>,
}

impl<V> View for PointMap<V> {
    type V = Map<Point, V>;

    closed spec fn view(&self) -> Map<Point, V> {
        Map::new(|p: Point| self.cells@.contains_key(key_of(p)), |p: Point| self.cells@[key_of(p)])
    }
}

impl<V> PointMap<V> {
    /// The empty map.
    pub fn new() -> (m: PointMap<V>)
        ensures
            m@ == Map::<Point, V>::empty(),
    {
        let m = PointMap { cells: HashMap::new() };
        assert(m@ =~= Map::<Point, V>::empty());
        m
    }

    /// Puts `value` at `p` and returns what was there.
    pub fn insert(&mut self, p: Point, value: V) -> (previous: Option<V>)
        ensures
            final(self)@ == old(self)@.insert(p, value),
            previous == if old(self)@.contains_key(p) {
                Some(old(self)@[p])
            } else {
                None
            },
    {
        broadcast use lemma_key_point;

        let previous = self.cells.insert(point_key(&p), value);
        assert(self@ =~= old(self)@.insert(p, value));
        previous
    }

    /// Whether `p` has a value.
    pub fn contains_key(&self, p: &Point) -> (b: bool)
        ensures
            b == self@.contains_key(*p),
    {
        let k = point_key(p);
        self.cells.contains_key(&k)
    }

    /// The value at `p`.
    pub fn get(&self, p: &Point) -> (r: Option<&V>)
        ensures
            match r {
                Some(v) => self@.contains_key(*p) && *v == self@[*p],
                None => !self@.contains_key(*p),
            },
    {
        let k = point_key(p);
        self.cells.get(&k)
    }

    /// The value at `p`, to be changed in place.
    pub fn get_mut(&mut self, p: &Point) -> (r: Option<&mut V>)
        ensures
            match r {
                Some(v) => {
                    &&& old(self)@.contains_key(*p)
                    &&& *v == old(self)@[*p]
                    &&& final(self)@ == old(self)@.insert(*p, *final(v))
                },
                None => !old(self)@.contains_key(*p) && final(self)@ == old(self)@,
            },
    {
        broadcast use lemma_key_point;

        let k = point_key(p);
        match self.cells.entry(k) {
            Entry::Occupied(occupied) => {
                let v = occupied.into_mut();
                proof {
                    let after = old(self).cells@.insert(k, *final(v));
                    let view_after = Map::new(
                        |q: Point| after.contains_key(key_of(q)),
                        |q: Point| after[key_of(q)],
                    );
                    assert(view_after =~= old(self)@.insert(*p, *final(v)));
                }
                Some(v)
            },
            Entry::Vacant(_) => None,
        }
    }

    /// The points that have a value, each once, in no particular order.
    pub fn points(&self) -> (points: Vec<Point>)
        ensures
            points@.to_set() == self@.dom(),
            points@.no_duplicates(),
    {
        let mut points: Vec<Point> = Vec::new();
        let ghost all: Seq<u64> = spec_keys_iter(&self.cells).remaining().unref();
        for k in it: self.cells.keys()
            invariant
                points@.len() == it.index(),
                it.seq().unref() == all,
                all.to_set() == self.cells@.dom(),
                all.no_duplicates(),
                forall|i: int| 0 <= i < points@.len() ==> points@[i] == point_of(all[i]),
        {
            points.push(key_point(*k));
        }
        proof {
            broadcast use lemma_key_point, lemma_point_key;

            assert(points@.len() == all.len());
            assert forall|p: Point| points@.to_set().contains(p) <==> self@.dom().contains(p) by {
                if points@.to_set().contains(p) {
                    let i = choose|i: int| 0 <= i < points@.len() && points@[i] == p;
                    assert(all.to_set().contains(all[i]));
                }
                if self@.dom().contains(p) {
                    assert(all.to_set().contains(key_of(p)));
                    let i = choose|i: int| 0 <= i < all.len() && all[i] == key_of(p);
                    assert(points@[i] == p);
                }
            }
            assert(points@.to_set() =~= self@.dom());
            assert forall|i: int, j: int|
                0 <= i < points@.len() && 0 <= j < points@.len() && i != j implies points@[i]
                != points@[j] by {
                assert(all[i] != all[j]);
                assert(key_of(point_of(all[i])) == all[i]);
                assert(key_of(point_of(all[j])) == all[j]);
            }
        }
        points
    }
}

} // verus!
