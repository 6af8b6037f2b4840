use vstd::prelude::*;

verus! {

/// The imageries attached to one terrain tile, in drawing order. The element
/// type is the caller's imagery record.
pub struct TileImageryVec<T>(pub Vec<T>);

impl<T> TileImageryVec<T> {
    pub fn new() -> (r: TileImageryVec<T>)
        ensures
            r.0@ == Seq::<T>::empty(),
    {
        TileImageryVec(Vec::new())
    }

    /// Adds an imagery at `insertion_point`, or at the end when none is given.
    pub fn add(&mut self, tile_imagery: T, insertion_point: Option<usize>)
        requires
            insertion_point matches Some(p) ==> p <= old(self).0.len(),
        ensures
            final(self).0@ == match insertion_point {
                Some(p) => old(self).0@.insert(p as int, tile_imagery),
                None => old(self).0@.push(tile_imagery),
            },
    {
        match insertion_point {
            None => self.0.push(tile_imagery),
            Some(p) => self.0.insert(p, tile_imagery),
        }
    }

    /// Removes and returns the imagery at `index`.
    pub fn remove(&mut self, index: usize) -> (r: T)
        requires
            index < old(self).0.len(),
        ensures
            r == old(self).0@[index as int],
            final(self).0@ == old(self).0@.remove(index as int),
    {
        self.0.remove(index)
    }

    pub fn len(&self) -> (r: usize)
        ensures
            r == self.0@.len(),
    {
        self.0.len()
    }
}

/// Removing at the place where an imagery was just added gives that imagery
/// back and restores the list.
pub proof fn lemma_add_then_remove<T>(s: Seq<T>, x: T, p: int)
    requires
        0 <= p <= s.len(),
    ensures
        s.insert(p, x)[p] == x,
        s.insert(p, x).remove(p) == s,
        s.push(x) == s.insert(s.len() as int, x),
{
    assert(s.insert(p, x).remove(p) =~= s);
    assert(s.push(x) =~= s.insert(s.len() as int, x));
}

} // verus!
