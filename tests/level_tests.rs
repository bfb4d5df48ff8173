use mapmaker::editor::{Button, Command, Editor, Key, Mode};
use mapmaker::emit::emit_source;
use mapmaker::grid::{Grid, GridError, MAP_HEIGHT, MAP_WIDTH};
use mapmaker::markers::{Marker, MarkerSet, MAX_MARKERS};
use mapmaker::snapshot::{LoadError, Snapshot};

fn markers_of(s: &MarkerSet) -> Vec<Marker> {
    s.to_vec()
}

#[test]
fn get_after_set_returns_tile() {
    let mut g = Grid::new(5, 4);
    for y in 0..4 {
        for x in 0..5 {
            let t = (x * 10 + y) as i32;
            assert_eq!(g.set(x, y, t), Ok(()));
            assert_eq!(g.get(x, y), Ok(t));
        }
    }
}

#[test]
fn out_of_bounds_is_reported() {
    let mut g = Grid::new(3, 3);
    assert_eq!(g.get(3, 0), Err(GridError::OutOfBounds));
    assert_eq!(g.get(0, 3), Err(GridError::OutOfBounds));
    assert_eq!(g.set(3, 1, 2), Err(GridError::OutOfBounds));
    assert_eq!(g.set(1, 7, 2), Err(GridError::OutOfBounds));
    assert_eq!(g.clear(9, 9), Err(GridError::OutOfBounds));
    assert_eq!(g.to_rows(), vec![vec![1, 1, 1], vec![1, 0, 1], vec![1, 1, 1]]);
}

#[test]
fn clear_empties_a_border_cell() {
    let mut g = Grid::new(3, 3);
    assert_eq!(g.clear(0, 0), Ok(()));
    assert_eq!(g.get(0, 0), Ok(0));
    assert_eq!(g.get(1, 0), Ok(1));
}

#[test]
fn fresh_grid_has_border() {
    let g = Grid::new(MAP_WIDTH, MAP_HEIGHT);
    assert_eq!(g.width(), 20);
    assert_eq!(g.height(), 20);
    for x in 0..MAP_WIDTH {
        assert_eq!(g.get(x, 0), Ok(1));
        assert_eq!(g.get(x, MAP_HEIGHT - 1), Ok(1));
    }
    for y in 0..MAP_HEIGHT {
        assert_eq!(g.get(0, y), Ok(1));
        assert_eq!(g.get(MAP_WIDTH - 1, y), Ok(1));
    }
    for y in 1..MAP_HEIGHT - 1 {
        for x in 1..MAP_WIDTH - 1 {
            assert_eq!(g.get(x, y), Ok(0));
        }
    }
}

#[test]
fn one_by_one_grid_is_all_border() {
    let g = Grid::new(1, 1);
    assert_eq!(g.to_rows(), vec![vec![1]]);
}

#[test]
fn eleventh_placement_is_dropped() {
    let mut s = MarkerSet::new();
    for i in 0..11 {
        s.place(i, i);
    }
    assert_eq!(s.len(), MAX_MARKERS);
    assert_eq!(s.len(), 10);
    assert_eq!(s.get(9), Some(Marker { x: 950, y: 950 }));
    assert_eq!(s.get(10), None);
}

#[test]
fn placement_is_cell_centred() {
    let mut s = MarkerSet::new();
    s.place(2, 3);
    assert_eq!(markers_of(&s), vec![Marker { x: 250, y: 350 }]);
    assert_eq!(Marker::at_cell(0, 7), Marker { x: 50, y: 750 });
}

#[test]
fn remove_nearest_takes_closest() {
    let mut s = MarkerSet::new();
    s.place(1, 1);
    s.place(5, 5);
    s.remove_nearest(1, 1);
    assert_eq!(s.len(), 1);
    assert_eq!(markers_of(&s), vec![Marker { x: 550, y: 550 }]);
}

#[test]
fn remove_nearest_on_empty_is_noop() {
    let mut s = MarkerSet::new();
    s.remove_nearest(1, 1);
    assert_eq!(s.len(), 0);
    s.remove_nearest(0, 0);
    assert_eq!(s.len(), 0);
}

#[test]
fn remove_nearest_breaks_ties_by_order() {
    let mut s = MarkerSet::new();
    s.place(0, 2);
    s.place(4, 2);
    s.place(2, 0);
    s.remove_nearest(2, 2);
    assert_eq!(markers_of(&s), vec![Marker { x: 450, y: 250 }, Marker { x: 250, y: 50 }]);
}

#[test]
fn remove_nearest_uses_squared_distance() {
    let mut s = MarkerSet::new();
    s.place(3, 0);
    s.place(2, 2);
    s.remove_nearest(0, 0);
    assert_eq!(markers_of(&s), vec![Marker { x: 350, y: 50 }]);
}

#[test]
fn save_load_round_trip() {
    let mut e = Editor::new();
    e.handle_click(Button::Primary, 40, 40);
    e.handle_key(Key::ToggleMode);
    e.handle_click(Button::Primary, 100, 200);
    e.handle_click(Button::Primary, 70, 5);
    let (rows, ms) = e.level.to_parts();
    let back = Snapshot::from_parts(&rows, ms.clone()).unwrap();
    let (rows2, ms2) = back.to_parts();
    assert_eq!(rows, rows2);
    assert_eq!(ms, ms2);
    assert_eq!(ms2, vec![Marker { x: 350, y: 650 }, Marker { x: 250, y: 50 }]);
    assert_eq!(rows2[1][1], 1);
}

#[test]
fn load_rejects_bad_parts() {
    let ragged = vec![vec![1, 1], vec![1]];
    assert_eq!(Snapshot::from_parts(&ragged, vec![]).unwrap_err(), LoadError::BadGrid);
    let empty: Vec<Vec<i32>> = vec![];
    assert_eq!(Snapshot::from_parts(&empty, vec![]).unwrap_err(), LoadError::BadGrid);
    let no_cols: Vec<Vec<i32>> = vec![vec![]];
    assert_eq!(Snapshot::from_parts(&no_cols, vec![]).unwrap_err(), LoadError::BadGrid);
    let many = vec![Marker { x: 50, y: 50 }; 11];
    assert_eq!(Snapshot::from_parts(&vec![vec![0]], many).unwrap_err(), LoadError::TooManyMarkers);
}

#[test]
fn failed_load_keeps_level() {
    let mut e = Editor::new();
    e.handle_click(Button::Primary, 33, 33);
    let before = e.level.to_parts();
    let ragged = vec![vec![1, 1], vec![1]];
    assert_eq!(e.load_parts(&ragged, vec![]), Err(LoadError::BadGrid));
    assert_eq!(e.level.to_parts(), before);
    e.handle_key(Key::ToggleMode);
    assert_eq!(e.load_parts(&vec![vec![2, 3]], vec![Marker { x: -25, y: 375 }]), Ok(()));
    assert_eq!(e.level.grid.to_rows(), vec![vec![2, 3]]);
    assert_eq!(e.mode, Mode::Enemy);
    assert_eq!(e.tile, 1);
}

#[test]
fn generated_source_rows_and_calls() {
    let rows = vec![vec![1, 1, 1], vec![1, 0, 1], vec![1, 1, 1]];
    let ms = vec![Marker { x: 250, y: 375 }];
    let out = emit_source("", &rows, &ms);
    assert!(out.contains("{1,0,1}"));
    assert!(out.contains("2.50f, 3.75f"));
    let expected = "int map[MAP_HEIGHT][MAP_WIDTH] = {\n    {1,1,1},\n    {1,0,1},\n    {1,1,1},\n};\n\nvoid spawn_initial_enemies(void) {\n    spawn_enemy_at(2.50f, 3.75f);\n}\n";
    assert_eq!(out, expected);
}

#[test]
fn generated_source_numbers() {
    let rows = vec![vec![-12, 305, 2147483647, -2147483648]];
    let ms = vec![Marker { x: -25, y: 1005 }, Marker { x: 0, y: 10 }];
    let out = emit_source("// head\n", &rows, &ms);
    let expected = "// head\nint map[MAP_HEIGHT][MAP_WIDTH] = {\n    {-12,305,2147483647,-2147483648},\n};\n\nvoid spawn_initial_enemies(void) {\n    spawn_enemy_at(-0.25f, 10.05f);\n    spawn_enemy_at(0.00f, 0.10f);\n}\n";
    assert_eq!(out, expected);
}

#[test]
fn snapshot_emits_its_level() {
    let mut s = Snapshot::with_size(3, 3);
    s.markers.place(1, 1);
    let out = s.emit_source("#pragma once\n");
    assert!(out.starts_with("#pragma once\nint map"));
    assert!(out.contains("    {1,0,1},\n"));
    assert!(out.contains("spawn_enemy_at(1.50f, 1.50f);"));
}

#[test]
fn toggle_is_two_cycle() {
    let mut e = Editor::new();
    assert_eq!(e.mode, Mode::Wall);
    e.toggle_mode();
    assert_eq!(e.mode, Mode::Enemy);
    e.toggle_mode();
    assert_eq!(e.mode, Mode::Wall);
    for n in 1..9 {
        e.handle_key(Key::ToggleMode);
        assert_eq!(e.mode == Mode::Wall, n % 2 == 0);
    }
}

#[test]
fn keys_select_tiles_and_commands() {
    let mut e = Editor::new();
    assert_eq!(e.tile, 1);
    assert_eq!(e.handle_key(Key::Tile3), Command::Nothing);
    assert_eq!(e.tile, 3);
    assert_eq!(e.handle_key(Key::Save), Command::Save);
    assert_eq!(e.handle_key(Key::Load), Command::Load);
    assert_eq!(e.handle_key(Key::Other), Command::Nothing);
    assert_eq!(e.tile, 3);
    e.handle_key(Key::Tile4);
    e.handle_click(Button::Primary, 64, 96);
    assert_eq!(e.level.grid.get(2, 3), Ok(4));
    e.handle_click(Button::Secondary, 64, 96);
    assert_eq!(e.level.grid.get(2, 3), Ok(0));
}

#[test]
fn clicks_outside_grid_are_ignored() {
    let mut e = Editor::new();
    let before = e.level.to_parts();
    e.handle_click(Button::Primary, 640, 10);
    e.handle_click(Button::Secondary, 700, 300);
    e.handle_click(Button::Primary, -1, 10);
    e.handle_click(Button::Primary, 10, 640);
    e.handle_key(Key::ToggleMode);
    e.handle_click(Button::Primary, 800, 10);
    assert_eq!(e.level.to_parts(), before);
}

#[test]
fn enemy_mode_clicks_place_and_remove() {
    let mut e = Editor::new();
    e.handle_key(Key::ToggleMode);
    e.handle_click(Button::Primary, 48, 48);
    e.handle_click(Button::Primary, 176, 176);
    assert_eq!(e.level.markers.len(), 2);
    e.handle_click(Button::Secondary, 40, 40);
    assert_eq!(markers_of(&e.level.markers), vec![Marker { x: 550, y: 550 }]);
    assert_eq!(e.level.grid.get(1, 1), Ok(0));
}

#[test]
fn marker_set_from_vec_bounds() {
    assert!(MarkerSet::from_vec(vec![Marker { x: 1, y: 2 }; 10]).is_some());
    assert!(MarkerSet::from_vec(vec![Marker { x: 1, y: 2 }; 11]).is_none());
}
