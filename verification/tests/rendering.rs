use game_of_life::grid::Universe;

/// A width-by-height universe with every cell `Dead`.
fn dead_grid(width: i32, height: i32) -> Universe {
    let mut u = Universe::new();
    u.set_width(width);
    u.set_height(height);
    u
}

#[test]
fn render_has_height_lines_of_width_glyphs() {
    let mut u = dead_grid(5, 3);
    u.set_cells(&[(0, 0), (2, 4)]);
    let text = u.render();
    let lines: Vec<&str> = text.lines().collect();
    assert_eq!(lines.len(), 3);
    for line in &lines {
        assert_eq!(line.chars().count(), 5);
    }
    assert!(text.ends_with('\n'));
}

#[test]
fn render_maps_each_cell_to_its_glyph() {
    let mut u = dead_grid(2, 3);
    u.set_cells(&[(0, 0), (2, 1)]);
    assert_eq!(u.render(), "◼◻\n◻◻\n◻◼\n");
}

#[test]
fn render_of_an_empty_grid_is_empty() {
    let u = dead_grid(0, 0);
    assert_eq!(u.render(), "");
}

#[test]
fn render_changes_after_a_toggle() {
    let mut u = dead_grid(3, 3);
    let plain = u.render();
    u.toggle_cell(1, 1);
    let marked = u.render();
    assert_ne!(plain, marked);
    assert_eq!(marked.matches('◼').count(), 1);
    assert_eq!(marked.matches('◻').count(), 8);
}
