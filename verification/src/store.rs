//! The store of plotted points: an ordered sequence that only grows.

use crate::point::Point;
use vstd::prelude::*;

verus! {

/// Every point given to a plot, in the order of arrival. Points are added at
/// the end and never changed or removed, so the store as it was is always a
/// prefix of the store as it is.
#[derive(Debug)]
pub struct PointStore {
    points: Vec<Point>,
}

impl View for PointStore {
    type V = Seq<Point>;

    closed spec fn view(&self) -> Seq<Point> {
        self.points@
    }
}

impl PointStore {
    /// An empty store.
    pub fn new() -> (store: Self)
        ensures
            store@ == Seq::<Point>::empty(),
    {
        PointStore { points: Vec::new() }
    }

    /// A store that holds the given points, in their order.
    pub fn from_points(points: Vec<Point>) -> (store: Self)
        ensures
            store@ == points@,
    {
        PointStore { points }
    }

    /// The number of points.
    pub fn len(&self) -> (len: usize)
        ensures
            len == self@.len(),
    {
        self.points.len()
    }

    /// Whether the store holds no point.
    pub fn is_empty(&self) -> (empty: bool)
        ensures
            empty == (self@.len() == 0),
    {
        self.points.len() == 0
    }

    /// The points, in order.
    pub fn as_slice(&self) -> (points: &[Point])
        ensures
            points@ == self@,
    {
        self.points.as_slice()
    }

    /// Adds one point at the end.
    pub fn append(&mut self, point: Point)
        ensures
            final(self)@ == old(self)@.push(point),
            old(self)@.is_prefix_of(final(self)@),
    {
        self.points.push(point);
    }

    /// Adds the points at the end, in their order.
    pub fn extend(&mut self, points: &[Point])
        ensures
            final(self)@ == old(self)@ + points@,
            old(self)@.is_prefix_of(final(self)@),
    {
        self.points.extend_from_slice(points);
        assert(self@ =~= old(self)@ + points@);
    }

    /// Moves the points of `points` to the end of the store, in their order,
    /// and leaves `points` empty.
    pub fn append_all(&mut self, points: &mut Vec<Point>)
        ensures
            final(self)@ == old(self)@ + old(points)@,
            final(points)@ == Seq::<Point>::empty(),
            old(self)@.is_prefix_of(final(self)@),
    {
        self.points.append(points);
    }

    /// The number of points and a copy of them, as they are at one moment.
    pub fn snapshot(&self) -> (snapshot: (usize, Vec<Point>))
        ensures
            snapshot.0 == self@.len(),
            snapshot.1@ == self@,
    {
        let copy = self.points.clone();
        assert(copy@ =~= self.points@);
        (copy.len(), copy)
    }
}

impl Default for PointStore {
    /// An empty store.
    fn default() -> (store: Self)
        ensures
            store@ == Seq::<Point>::empty(),
    {
        PointStore::new()
    }
}

} // verus!
