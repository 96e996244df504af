use rusty_life::grid::Grid;
use rusty_life::grid::state_to_char;
use rusty_life::grid::write_top_or_bottom_border;

#[test]
fn state_to_char_maps_live_and_dead() {
    assert_eq!(state_to_char(true), 'X');
    assert_eq!(state_to_char(false), ' ');
}

#[test]
fn border_row_has_plus_corners_and_dashes() {
    let mut out = String::new();
    write_top_or_bottom_border(&mut out, 3);
    assert_eq!(out, "+---+\n");
}

#[test]
fn border_row_appends_to_existing_text() {
    let mut out = String::from("x");
    write_top_or_bottom_border(&mut out, 0);
    assert_eq!(out, "x++\n");
}

#[test]
fn render_draws_borders_and_glyphs() {
    let grid = Grid::from_cells(2, 2, vec![true, false, false, true]);
    assert_eq!(grid.render(), "+--+\n|X |\n| X|\n+--+\n");
}

#[test]
fn render_of_empty_grid_is_two_borders() {
    let grid = Grid::from_cells(0, 0, vec![]);
    assert_eq!(grid.render(), "++\n++\n");
}

#[test]
fn render_of_one_row_grid() {
    let grid = Grid::from_cells(3, 1, vec![false, true, false]);
    assert_eq!(grid.render(), "+---+\n| X |\n+---+\n");
}
