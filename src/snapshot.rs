//! The unit of persistence: the grid and the marker list together.
use vstd::prelude::*;
use crate::grid::{Grid, MAP_WIDTH, MAP_HEIGHT, MAX_SIDE, fresh_rows, is_rectangle};
use crate::markers::{Marker, MarkerSet, MAX_MARKERS};
use crate::emit::{emit_source, source_text};

verus! {

/// Why saved parts could not be loaded.
#[derive(Debug, Clone, Copy, PartialEq, Eq, Structural)]
pub enum LoadError {
    /// The rows are empty, ragged, or larger than a grid may be.
    BadGrid,
    /// There are more markers than a level may hold.
    TooManyMarkers,
}

/// What loading `rows` and `ms` gives: the grid's rows and the markers, or
/// the first problem found.
pub open spec fn loaded(rows: Seq<Seq<i32>>, ms: Seq<Marker>) -> Result<(Seq<Seq<i32>>, Seq<Marker>), LoadError> {
    if !is_rectangle(rows) {
        Err(LoadError::BadGrid)
    } else if ms.len() > MAX_MARKERS {
        Err(LoadError::TooManyMarkers)
    } else {
        Ok((rows, ms))
    }
}

/// A grid with its markers.
#[derive(Debug)]
pub struct Snapshot {
    pub grid: Grid,
    pub markers: MarkerSet,
}

impl Snapshot {
    pub open spec fn wf(&self) -> bool {
        self.grid.wf() && self.markers.wf()
    }

    /// A level of the default size with a fresh border and no markers.
    pub fn new() -> (s: Snapshot)
        ensures
            s.wf(),
            s.grid.spec_width() == MAP_WIDTH,
            s.grid.spec_height() == MAP_HEIGHT,
            s.grid@ == fresh_rows(MAP_WIDTH as int, MAP_HEIGHT as int),
            s.markers@ == Seq::<Marker>::empty(),
    {
        Snapshot::with_size(MAP_WIDTH, MAP_HEIGHT)
    }

    /// A `width` by `height` level with a fresh border and no markers.
    pub fn with_size(width: usize, height: usize) -> (s: Snapshot)
        requires
            0 < width <= MAX_SIDE,
            0 < height <= MAX_SIDE,
        ensures
            s.wf(),
            s.grid.spec_width() == width,
            s.grid.spec_height() == height,
            s.grid@ == fresh_rows(width as int, height as int),
            s.markers@ == Seq::<Marker>::empty(),
    {
        Snapshot { grid: Grid::new(width, height), markers: MarkerSet::new() }
    }

    /// The rows of the grid and the markers, as the structured save holds them.
    pub fn to_parts(&self) -> (r: (Vec<Vec<i32>>, Vec<Marker>))
        requires
            self.wf(),
        ensures
            r.0.deep_view() == self.grid@,
            r.1@ == self.markers@,
    {
        (self.grid.to_rows(), self.markers.to_vec())
    }

    /// The snapshot made of saved rows and markers; nothing is loaded unless
    /// the rows form a rectangle of allowed size and the markers fit.
    pub fn from_parts(rows: &Vec<Vec<i32>>, markers: Vec<Marker>) -> (r: Result<Snapshot, LoadError>)
        ensures
            r is Ok <==> loaded(rows.deep_view(), markers@) is Ok,
            r matches Err(e) ==> loaded(rows.deep_view(), markers@) == Err::<(Seq<Seq<i32>>, Seq<Marker>), LoadError>(e),
            r matches Ok(s) ==> s.wf() && loaded(rows.deep_view(), markers@)
                == Ok::<(Seq<Seq<i32>>, Seq<Marker>), LoadError>((s.grid@, s.markers@)),
    {
        let grid = match Grid::from_rows(rows) {
            Some(g) => g,
            None => return Err(LoadError::BadGrid),
        };
        let ms = match MarkerSet::from_vec(markers) {
            Some(m) => m,
            None => return Err(LoadError::TooManyMarkers),
        };
        Ok(Snapshot { grid, markers: ms })
    }

    /// The generated source fragment of this level after `preamble`.
    pub fn emit_source(&self, preamble: &str) -> (r: String)
        requires
            self.wf(),
        ensures
            r@ == preamble@ + source_text(self.grid@, self.markers@),
    {
        let (rows, ms) = self.to_parts();
        emit_source(preamble, &rows, &ms)
    }
}

/// Loading what a snapshot saves gives back the same grid values and the
/// same markers in the same order.
pub proof fn lemma_save_load_round_trip(s: &Snapshot)
    requires
        s.wf(),
    ensures
        loaded(s.grid@, s.markers@) == Ok::<(Seq<Seq<i32>>, Seq<Marker>), LoadError>((s.grid@, s.markers@)),
{
    s.grid.lemma_view_shape();
    s.markers.lemma_wf();
}

} // verus!
