//! Enemy spawn markers: positions in hundredths of a cell, kept in a list of
//! bounded length.
use vstd::prelude::*;
use crate::grid::MAX_SIDE;

verus! {

/// Largest number of markers a level may hold.
pub const MAX_MARKERS: usize = 10;

/// Hundredths of a cell in one cell.
pub const UNITS_PER_CELL: i32 = 100;

/// A spawn point, in hundredths of a cell: `(150, 250)` is the centre of
/// cell `(1, 2)`.
#[derive(Debug, Clone, Copy, PartialEq, Eq, Structural)]
pub struct Marker {
    pub x: i32,
    pub y: i32,
}

/// The position, in hundredths of a cell, of the centre of cell `c`.
pub open spec fn center(c: int) -> int {
    c * 100 + 50
}

/// Squared distance, in square hundredths, from `m` to `(qx, qy)`.
pub open spec fn dist2(m: Marker, qx: int, qy: int) -> int {
    (m.x - qx) * (m.x - qx) + (m.y - qy) * (m.y - qy)
}

/// `i` is the first index of a marker of `s` closest to `(qx, qy)`.
pub open spec fn is_nearest(s: Seq<Marker>, qx: int, qy: int, i: int) -> bool {
    &&& 0 <= i < s.len()
    &&& forall|j: int| 0 <= j < i ==> dist2(#[trigger] s[j], qx, qy) > dist2(s[i], qx, qy)
    &&& forall|j: int| i < j < s.len() ==> dist2(#[trigger] s[j], qx, qy) >= dist2(s[i], qx, qy)
}

/// The marker list after a placement at cell `(x, y)`.
pub open spec fn placed(s: Seq<Marker>, x: int, y: int) -> Seq<Marker> {
    if s.len() < MAX_MARKERS {
        s.push(Marker { x: center(x) as i32, y: center(y) as i32 })
    } else {
        s
    }
}

/// `t` is `s` with its first marker closest to `(qx, qy)` taken out, or `s`
/// itself when `s` is empty.
pub open spec fn removed_nearest(s: Seq<Marker>, t: Seq<Marker>, qx: int, qy: int) -> bool {
    &&& s.len() == 0 ==> t == s
    &&& s.len() > 0 ==> exists|i: int| is_nearest(s, qx, qy, i) && t == s.remove(i)
}

/// The marker list after placements at each cell of `cells`, in order.
pub open spec fn placed_all(s: Seq<Marker>, cells: Seq<(int, int)>) -> Seq<Marker>
    decreases cells.len(),
{
    if cells.len() == 0 {
        s
    } else {
        placed(placed_all(s, cells.drop_last()), cells.last().0, cells.last().1)
    }
}

/// However many placements are made on a list, it ends with the smaller of
/// its length plus the number of placements and `MAX_MARKERS`: a placement
/// on a full list is dropped.
pub proof fn lemma_place_capacity(s: Seq<Marker>, cells: Seq<(int, int)>)
    requires
        s.len() <= MAX_MARKERS,
    ensures
        placed_all(s, cells).len() == if s.len() + cells.len() < MAX_MARKERS {
            (s.len() + cells.len()) as int
        } else {
            MAX_MARKERS as int
        },
    decreases cells.len(),
{
    if cells.len() > 0 {
        lemma_place_capacity(s, cells.drop_last());
    }
}

impl Marker {
    /// The marker at the centre of cell `(x, y)`.
    pub fn at_cell(x: usize, y: usize) -> (m: Marker)
        requires
            x < MAX_SIDE,
            y < MAX_SIDE,
        ensures
            m.x == center(x as int),
            m.y == center(y as int),
    {
        Marker { x: x as i32 * UNITS_PER_CELL + 50, y: y as i32 * UNITS_PER_CELL + 50 }
    }
}

/// The squared distance from `m` to `(qx, qy)`.
fn distance_squared(m: Marker, qx: i32, qy: i32) -> (r: i128)
    ensures
        r == dist2(m, qx as int, qy as int),
{
    let dx: i128 = m.x as i128 - qx as i128;
    let dy: i128 = m.y as i128 - qy as i128;
    assert(0 <= dx * dx <= 0x1_0000_0000 * 0x1_0000_0000) by (nonlinear_arith)
        requires -0x1_0000_0000 <= dx <= 0x1_0000_0000;
    assert(0 <= dy * dy <= 0x1_0000_0000 * 0x1_0000_0000) by (nonlinear_arith)
        requires -0x1_0000_0000 <= dy <= 0x1_0000_0000;
    dx * dx + dy * dy
}

/// The placed spawn markers, in order of placement.
#[derive(Debug)]
pub struct MarkerSet {
    items: Vec<Marker>,
}

impl MarkerSet {
    /// At most `MAX_MARKERS` markers are held.
    pub closed spec fn wf(&self) -> bool {
        self.items@.len() <= MAX_MARKERS
    }

    pub closed spec fn view(&self) -> Seq<Marker> {
        self.items@
    }

    pub proof fn lemma_wf(&self)
        ensures
            self.wf() <==> self@.len() <= MAX_MARKERS,
    {
    }

    /// An empty list.
    pub fn new() -> (s: MarkerSet)
        ensures
            s.wf(),
            s@ == Seq::<Marker>::empty(),
    {
        MarkerSet { items: Vec::new() }
    }

    /// A list holding `items`, or `None` when there are more than
    /// `MAX_MARKERS` of them.
    pub fn from_vec(items: Vec<Marker>) -> (r: Option<MarkerSet>)
        ensures
            items@.len() <= MAX_MARKERS <==> r.is_some(),
            r matches Some(s) ==> s.wf() && s@ == items@,
    {
        if items.len() <= MAX_MARKERS {
            Some(MarkerSet { items })
        } else {
            None
        }
    }

    /// The markers, in order.
    pub fn to_vec(&self) -> (r: Vec<Marker>)
        ensures
            r@ == self@,
    {
        let mut r: Vec<Marker> = Vec::new();
        let mut i: usize = 0;
        while i < self.items.len()
            invariant
                i <= self.items@.len(),
                r@ == self.items@.subrange(0, i as int),
            decreases self.items@.len() - i,
        {
            r.push(self.items[i]);
            i = i + 1;
            assert(r@ =~= self.items@.subrange(0, i as int));
        }
        assert(r@ =~= self.items@);
        r
    }

    pub fn len(&self) -> (r: usize)
        ensures
            r == self@.len(),
    {
        self.items.len()
    }

    /// The marker at index `i`.
    pub fn get(&self, i: usize) -> (r: Option<Marker>)
        ensures
            i < self@.len() ==> r == Some(self@[i as int]),
            i >= self@.len() ==> r.is_none(),
    {
        if i < self.items.len() {
            Some(self.items[i])
        } else {
            None
        }
    }

    /// Appends a marker at the centre of cell `(x, y)` unless the list is
    /// full; a placement on a full list does nothing.
    pub fn place(&mut self, x: usize, y: usize)
        requires
            old(self).wf(),
            x < MAX_SIDE,
            y < MAX_SIDE,
        ensures
            final(self).wf(),
            final(self)@ == placed(old(self)@, x as int, y as int),
    {
        if self.items.len() < MAX_MARKERS {
            let m = Marker::at_cell(x, y);
            self.items.push(m);
        }
    }

    /// Removes the first marker closest to the centre of cell `(x, y)`, by
    /// squared distance; on an empty list it does nothing.
    pub fn remove_nearest(&mut self, x: usize, y: usize)
        requires
            old(self).wf(),
            x < MAX_SIDE,
            y < MAX_SIDE,
        ensures
            final(self).wf(),
            removed_nearest(old(self)@, final(self)@, center(x as int), center(y as int)),
    {
        let n = self.items.len();
        if n == 0 {
            return;
        }
        let q = Marker::at_cell(x, y);
        let ghost qx = center(x as int);
        let ghost qy = center(y as int);
        let mut best: usize = 0;
        let mut best_d: i128 = distance_squared(self.items[0], q.x, q.y);
        let mut i: usize = 1;
        while i < n
            invariant
                n == self.items@.len(),
                0 < n,
                q.x == qx,
                q.y == qy,
                best < i <= n,
                best_d == dist2(self.items@[best as int], qx, qy),
                forall|j: int| 0 <= j < best ==> dist2(#[trigger] self.items@[j], qx, qy) > best_d,
                forall|j: int| best < j < i ==> dist2(#[trigger] self.items@[j], qx, qy) >= best_d,
            decreases n - i,
        {
            let d = distance_squared(self.items[i], q.x, q.y);
            if d < best_d {
                best = i;
                best_d = d;
            }
            i = i + 1;
        }
        proof {
            assert(is_nearest(self.items@, qx, qy, best as int));
        }
        self.items.remove(best);
    }
}

} // verus!
