//! The editor controller: tool mode, selected tile, and the edits that
//! pointer clicks and key presses make.
use vstd::prelude::*;
use crate::grid::{EMPTY_TILE, MAP_WIDTH, MAP_HEIGHT, fresh_rows};
use crate::markers::{Marker, placed, removed_nearest, center};
use crate::snapshot::{Snapshot, LoadError, loaded};

verus! {

/// Side of one cell on screen, in pixels.
pub const CELL_SIZE: i32 = 32;

/// The tool that clicks apply.
#[derive(Debug, Clone, Copy, PartialEq, Eq, Structural)]
pub enum Mode {
    Wall,
    Enemy,
}

/// The pointer button of a click.
#[derive(Debug, Clone, Copy, PartialEq, Eq, Structural)]
pub enum Button {
    Primary,
    Secondary,
}

/// The keys the editor reacts to; any other key is `Other`.
#[derive(Debug, Clone, Copy, PartialEq, Eq, Structural)]
pub enum Key {
    ToggleMode,
    Save,
    Load,
    Tile1,
    Tile2,
    Tile3,
    Tile4,
    Other,
}

/// Work a key asks of the caller once the editor has handled it.
#[derive(Debug, Clone, Copy, PartialEq, Eq, Structural)]
pub enum Command {
    Nothing,
    Save,
    Load,
}

/// The other mode.
pub open spec fn toggled(m: Mode) -> Mode {
    match m {
        Mode::Wall => Mode::Enemy,
        Mode::Enemy => Mode::Wall,
    }
}

/// The mode after `n` toggles from `m`.
pub open spec fn toggled_times(m: Mode, n: nat) -> Mode
    decreases n,
{
    if n == 0 { m } else { toggled(toggled_times(m, (n - 1) as nat)) }
}

/// Toggling is a two-cycle: from `Wall`, the mode is `Wall` again exactly
/// after an even number of toggles.
pub proof fn lemma_toggle_cycle(n: nat)
    ensures
        toggled_times(Mode::Wall, 1) == Mode::Enemy,
        toggled_times(Mode::Wall, 2) == Mode::Wall,
        (toggled_times(Mode::Wall, n) == Mode::Wall) <==> n % 2 == 0,
    decreases n,
{
    reveal_with_fuel(toggled_times, 3);
    if n > 0 {
        lemma_toggle_cycle((n - 1) as nat);
    }
}

/// The tile code a selector key picks, if it is one.
pub open spec fn key_tile(k: Key) -> Option<i32> {
    match k {
        Key::Tile1 => Some(1i32),
        Key::Tile2 => Some(2i32),
        Key::Tile3 => Some(3i32),
        Key::Tile4 => Some(4i32),
        _ => None,
    }
}

/// The command a key hands back.
pub open spec fn key_command(k: Key) -> Command {
    match k {
        Key::Save => Command::Save,
        Key::Load => Command::Load,
        _ => Command::Nothing,
    }
}

/// The cell a pixel coordinate falls in, if it is not negative.
pub open spec fn pixel_cell(p: int) -> Option<int> {
    if p < 0 { None } else { Some(p / CELL_SIZE as int) }
}

/// The editor: the level being edited, the tool mode and the tile painted by
/// primary clicks in `Wall` mode.
#[derive(Debug)]
pub struct Editor {
    pub level: Snapshot,
    pub mode: Mode,
    pub tile: i32,
}

impl Editor {
    pub open spec fn wf(&self) -> bool {
        self.level.wf()
    }

    /// A fresh default level, in `Wall` mode with tile `1` selected.
    pub fn new() -> (e: Editor)
        ensures
            e.wf(),
            e.level.grid.spec_width() == MAP_WIDTH,
            e.level.grid.spec_height() == MAP_HEIGHT,
            e.level.grid@ == fresh_rows(MAP_WIDTH as int, MAP_HEIGHT as int),
            e.level.markers@ == Seq::<Marker>::empty(),
            e.mode == Mode::Wall,
            e.tile == 1,
    {
        Editor { level: Snapshot::new(), mode: Mode::Wall, tile: 1 }
    }

    /// Switches to the other mode.
    pub fn toggle_mode(&mut self)
        ensures
            final(self).mode == toggled(old(self).mode),
            final(self).tile == old(self).tile,
            final(self).level == old(self).level,
    {
        self.mode = match self.mode {
            Mode::Wall => Mode::Enemy,
            Mode::Enemy => Mode::Wall,
        };
    }

    /// Handles a key press: toggles the mode, selects a tile, or hands back
    /// the save or load command for the caller to carry out.
    pub fn handle_key(&mut self, key: Key) -> (c: Command)
        ensures
            c == key_command(key),
            final(self).mode == if key == Key::ToggleMode { toggled(old(self).mode) } else { old(self).mode },
            final(self).tile == match key_tile(key) { Some(t) => t, None => old(self).tile },
            final(self).level == old(self).level,
    {
        match key {
            Key::ToggleMode => {
                self.toggle_mode();
                Command::Nothing
            },
            Key::Save => Command::Save,
            Key::Load => Command::Load,
            Key::Tile1 => {
                self.tile = 1;
                Command::Nothing
            },
            Key::Tile2 => {
                self.tile = 2;
                Command::Nothing
            },
            Key::Tile3 => {
                self.tile = 3;
                Command::Nothing
            },
            Key::Tile4 => {
                self.tile = 4;
                Command::Nothing
            },
            Key::Other => Command::Nothing,
        }
    }

    /// Handles a click at pixel `(px, py)`. A click outside the grid does
    /// nothing. Inside, in `Wall` mode a primary click paints the selected
    /// tile and a secondary one empties the cell; in `Enemy` mode a primary
    /// click places a marker in the cell and a secondary one removes the
    /// marker nearest to it.
    pub fn handle_click(&mut self, button: Button, px: i32, py: i32)
        requires
            old(self).wf(),
        ensures
            final(self).wf(),
            final(self).mode == old(self).mode,
            final(self).tile == old(self).tile,
            ({
                let g0 = old(self).level.grid;
                let g1 = final(self).level.grid;
                let m0 = old(self).level.markers@;
                let m1 = final(self).level.markers@;
                match (pixel_cell(px as int), pixel_cell(py as int)) {
                    (Some(x), Some(y)) if g0.in_bounds(x, y) => {
                        &&& g1.spec_width() == g0.spec_width()
                        &&& g1.spec_height() == g0.spec_height()
                        &&& (old(self).mode == Mode::Wall ==> m1 == m0 && g1@ == g0@.update(y, g0@[y].update(x,
                            if button == Button::Primary { old(self).tile } else { EMPTY_TILE })))
                        &&& (old(self).mode == Mode::Enemy ==> g1@ == g0@ && if button == Button::Primary {
                            m1 == placed(m0, x, y)
                        } else {
                            removed_nearest(m0, m1, center(x), center(y))
                        })
                    },
                    _ => g1@ == g0@ && g1.spec_width() == g0.spec_width()
                        && g1.spec_height() == g0.spec_height() && m1 == m0,
                }
            }),
    {
        if px < 0 || py < 0 {
            return;
        }
        let x = (px / CELL_SIZE) as usize;
        let y = (py / CELL_SIZE) as usize;
        if x >= self.level.grid.width() || y >= self.level.grid.height() {
            return;
        }
        proof {
            self.level.grid.lemma_view_shape();
        }
        match (button, self.mode) {
            (Button::Primary, Mode::Wall) => {
                let _ = self.level.grid.set(x, y, self.tile);
            },
            (Button::Secondary, Mode::Wall) => {
                let _ = self.level.grid.clear(x, y);
            },
            (Button::Primary, Mode::Enemy) => {
                self.level.markers.place(x, y);
            },
            (Button::Secondary, Mode::Enemy) => {
                self.level.markers.remove_nearest(x, y);
            },
        }
    }

    /// Replaces the level with one loaded from saved rows and markers; on an
    /// error the level is left as it was. The mode and tile never change.
    pub fn load_parts(&mut self, rows: &Vec<Vec<i32>>, markers: Vec<Marker>) -> (r: Result<(), LoadError>)
        requires
            old(self).wf(),
        ensures
            final(self).wf(),
            final(self).mode == old(self).mode,
            final(self).tile == old(self).tile,
            r is Ok <==> loaded(rows.deep_view(), markers@) is Ok,
            r matches Err(e) ==> final(self).level == old(self).level
                && loaded(rows.deep_view(), markers@) == Err::<(Seq<Seq<i32>>, Seq<Marker>), LoadError>(e),
            r is Ok ==> loaded(rows.deep_view(), markers@) == Ok::<(Seq<Seq<i32>>, Seq<Marker>), LoadError>(
                (final(self).level.grid@, final(self).level.markers@)),
    {
        match Snapshot::from_parts(rows, markers) {
            Ok(s) => {
                self.level = s;
                Ok(())
            },
            Err(e) => Err(e),
        }
    }
}

} // verus!
