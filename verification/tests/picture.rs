use ari_color::grid::{Grid, LoadError};
use ari_color::picture::{COLS, LINE_WIDTH, ROWS};
use ari_color::text::{chars_of, split_lines};
use ari_color::tile::{Tile, BLANK};

fn dots() -> String {
    ".".repeat(COLS)
}

fn rows_of(text: &str) -> Vec<String> {
    split_lines(&chars_of(text))
        .into_iter()
        .map(|row| row.into_iter().collect())
        .collect()
}

fn std_rows(text: &str) -> Vec<String> {
    text.lines().map(|row| row.to_string()).collect()
}

#[test]
fn default_tile_is_blank_and_hidden() {
    let tile = Tile::default();
    assert_eq!(tile.glyph(), '.');
    assert!(tile.is_hidden());
    assert_eq!(tile.display(), '.');
    assert_eq!(tile, Tile::new(BLANK, true));
}

#[test]
fn tile_setters_change_one_field() {
    let mut tile = Tile::default();
    tile.set_glyph('#');
    assert_eq!(tile, Tile { glyph: '#', hidden: true });
    assert_eq!(tile.display(), '.');
    tile.set_hidden(false);
    assert_eq!(tile, Tile { glyph: '#', hidden: false });
    assert_eq!(tile.display(), '#');
    tile.set_glyph('@');
    assert_eq!(tile, Tile { glyph: '@', hidden: false });
    tile.set_hidden(true);
    assert_eq!(tile, Tile { glyph: '@', hidden: true });
}

#[test]
fn sizes_are_twenty_by_forty() {
    assert_eq!(ROWS, 20);
    assert_eq!(COLS, 40);
    assert_eq!(LINE_WIDTH, 41);
}

#[test]
fn fresh_grid_renders_dots() {
    let grid = Grid::new();
    let text = grid.render_text();
    assert_eq!(text.len(), ROWS * LINE_WIDTH);
    let lines: Vec<&str> = text.lines().collect();
    assert_eq!(lines.len(), ROWS);
    for line in lines {
        assert_eq!(line, dots());
    }
    assert!(text.ends_with('\n'));
    assert_eq!(grid.hidden_rows(), (0..ROWS).collect::<Vec<usize>>());
}

#[test]
fn chars_of_gives_each_character() {
    assert_eq!(chars_of(""), Vec::<char>::new());
    assert_eq!(chars_of("a\u{e9}\n\u{1F600}"), vec!['a', '\u{e9}', '\n', '\u{1F600}']);
}

#[test]
fn split_lines_cuts_at_line_feeds() {
    assert_eq!(rows_of(""), Vec::<String>::new());
    assert_eq!(rows_of("abc"), vec!["abc"]);
    assert_eq!(rows_of("abc\n"), vec!["abc"]);
    assert_eq!(rows_of("\n"), vec![""]);
    assert_eq!(rows_of("\n\n"), vec!["", ""]);
    assert_eq!(rows_of("a\n\nb"), vec!["a", "", "b"]);
    assert_eq!(rows_of("a\nb\n"), vec!["a", "b"]);
}

#[test]
fn split_lines_drops_a_return_before_a_line_feed() {
    assert_eq!(rows_of("a\r\nb"), vec!["a", "b"]);
    assert_eq!(rows_of("a\r\n"), vec!["a"]);
    assert_eq!(rows_of("\r\n"), vec![""]);
    assert_eq!(rows_of("a\r\r\nb"), vec!["a\r", "b"]);
    assert_eq!(rows_of("a\rb\n"), vec!["a\rb"]);
    // The last row keeps a return that no line feed follows.
    assert_eq!(rows_of("a\nb\r"), vec!["a", "b\r"]);
}

#[test]
fn split_lines_agrees_with_the_standard_library() {
    let alphabet = ['a', '\n', '\r', ' '];
    let mut texts = vec![String::new()];
    let mut last = vec![String::new()];
    for _ in 0..6 {
        let mut next = Vec::new();
        for text in &last {
            for c in alphabet {
                let mut longer = text.clone();
                longer.push(c);
                next.push(longer);
            }
        }
        texts.extend(next.iter().cloned());
        last = next;
    }
    assert_eq!(texts.len(), 1 + 4 + 16 + 64 + 256 + 1024 + 4096);
    for text in texts {
        assert_eq!(rows_of(&text), std_rows(&text), "text {:?}", text);
    }
}

#[test]
fn load_keeps_everything_hidden() {
    let mut grid = Grid::new();
    assert_eq!(grid.load("hello\nworld"), Ok(()));
    assert_eq!(grid.render_text(), Grid::new().render_text());
    assert_eq!(grid.tile(0, 0), Tile::new('h', true));
    assert_eq!(grid.tile(0, 4), Tile::new('o', true));
    assert_eq!(grid.tile(0, 5), Tile::new('.', true));
    assert_eq!(grid.tile(1, 0), Tile::new('w', true));
    assert_eq!(grid.tile(2, 0), Tile::new('.', true));
    assert_eq!(grid.hidden_rows().len(), ROWS);
}

#[test]
fn load_never_fails_on_text() {
    let mut grid = Grid::new();
    let outcome: Result<(), LoadError> = grid.load("");
    assert_eq!(outcome, Ok(()));
    assert_eq!(grid.cells(), Grid::new().cells());
    assert_eq!(grid.load("\n\n\n"), Ok(()));
    assert_eq!(grid.cells(), Grid::new().cells());
}

#[test]
fn load_drops_what_falls_outside() {
    let wide: String = "0123456789".repeat(5);
    let mut text = String::new();
    for r in 0..25 {
        text.push_str(&wide);
        text.push(char::from(b'a' + r as u8));
        text.push('\n');
    }
    let mut grid = Grid::new();
    assert_eq!(grid.load(&text), Ok(()));
    for r in 0..ROWS {
        assert!(grid.reveal_row(r));
    }
    let shown = grid.render_text();
    let lines: Vec<&str> = shown.lines().collect();
    assert_eq!(lines.len(), ROWS);
    for line in lines {
        assert_eq!(line, &wide[..COLS]);
    }
}

#[test]
fn load_leaves_untouched_tiles_as_they_were() {
    let mut grid = Grid::new();
    grid.load("aaaa\nbbbb\ncccc").unwrap();
    grid.reveal_row(0);
    grid.reveal_row(1);
    grid.reveal_row(2);
    grid.load("xy\n\nz").unwrap();
    // Covered again where the new text reaches, as before elsewhere.
    assert_eq!(grid.tile(0, 0), Tile::new('x', true));
    assert_eq!(grid.tile(0, 1), Tile::new('y', true));
    assert_eq!(grid.tile(0, 2), Tile::new('a', false));
    assert_eq!(grid.tile(0, 3), Tile::new('a', false));
    assert_eq!(grid.tile(0, 4), Tile::new('.', false));
    assert_eq!(grid.tile(1, 0), Tile::new('b', false));
    assert_eq!(grid.tile(2, 0), Tile::new('z', true));
    assert_eq!(grid.tile(2, 1), Tile::new('c', false));
    assert_eq!(grid.tile(3, 0), Tile::new('.', true));
    let shown = grid.render_text();
    let lines: Vec<&str> = shown.lines().collect();
    assert_eq!(lines[0], format!("..aa{}", ".".repeat(COLS - 4)));
    assert_eq!(lines[1], format!("bbbb{}", ".".repeat(COLS - 4)));
    assert_eq!(lines[2], format!(".ccc{}", ".".repeat(COLS - 4)));
    assert_eq!(
        grid.hidden_rows(),
        vec![0, 2, 3, 4, 5, 6, 7, 8, 9, 10, 11, 12, 13, 14, 15, 16, 17, 18, 19]
    );
}

#[test]
fn load_with_returns_before_line_feeds() {
    let mut grid = Grid::new();
    grid.load("ab\r\ncd\r\n").unwrap();
    assert_eq!(grid.tile(0, 0), Tile::new('a', true));
    assert_eq!(grid.tile(0, 1), Tile::new('b', true));
    assert_eq!(grid.tile(0, 2), Tile::new('.', true));
    assert_eq!(grid.tile(1, 1), Tile::new('d', true));
    assert_eq!(grid.tile(1, 2), Tile::new('.', true));
    assert_eq!(grid.tile(2, 0), Tile::new('.', true));
}

#[test]
fn short_picture_leaves_the_last_row_blank() {
    let mut picture = String::new();
    for r in 0..19usize {
        let mut line = vec![' '; COLS];
        line[r] = '\\';
        line[COLS - 1 - r] = '/';
        picture.extend(line);
        picture.push('\n');
    }
    let mut grid = Grid::new();
    assert_eq!(grid.load(&picture), Ok(()));
    assert_eq!(grid.render_text(), Grid::new().render_text());
    for r in 0..ROWS {
        assert!(grid.reveal_row(r));
    }
    let shown = grid.render_text();
    let lines: Vec<&str> = shown.lines().collect();
    let wanted: Vec<&str> = picture.lines().collect();
    assert_eq!(lines.len(), ROWS);
    assert_eq!(&lines[..19], &wanted[..]);
    assert_eq!(lines[19], dots());
}

#[test]
fn reveal_row_shows_what_was_loaded() {
    for row in 0..ROWS {
        let mut grid = Grid::new();
        grid.load("first\nsecond row\n\nfourth").unwrap();
        assert!(grid.reveal_row(row));
        let shown = grid.render_text();
        let lines: Vec<&str> = shown.lines().collect();
        for (r, line) in lines.iter().enumerate() {
            let wanted = match (r == row, r) {
                (true, 0) => format!("first{}", ".".repeat(COLS - 5)),
                (true, 1) => format!("second row{}", ".".repeat(COLS - 10)),
                (true, 3) => format!("fourth{}", ".".repeat(COLS - 6)),
                _ => dots(),
            };
            assert_eq!(*line, wanted);
        }
    }
}

#[test]
fn reveal_row_reports_whether_it_changed_anything() {
    let mut grid = Grid::new();
    assert!(grid.reveal_row(7));
    assert!(!grid.reveal_row(7));
    grid.load("\n\n\n\n\n\n\nx").unwrap();
    // One covered tile hides the row again.
    assert_eq!(grid.tile(7, 0), Tile::new('x', true));
    assert_eq!(grid.tile(7, 1), Tile::new('.', false));
    assert!(grid.row_is_hidden(7));
    assert!(grid.reveal_row(7));
    assert!(!grid.row_is_hidden(7));
    assert_eq!(grid.tile(7, 0), Tile::new('x', false));
}

#[test]
fn hidden_rows_lose_the_revealed_row() {
    let mut grid = Grid::new();
    grid.load("a\nb\nc").unwrap();
    let mut wanted: Vec<usize> = (0..ROWS).collect();
    for row in [5usize, 0, 19, 5, 12, 0] {
        let before = grid.hidden_rows();
        let was_hidden = before.contains(&row);
        assert_eq!(grid.reveal_row(row), was_hidden);
        wanted.retain(|r| *r != row);
        let after = grid.hidden_rows();
        assert_eq!(after, wanted);
        assert_eq!(after.len(), before.len() - usize::from(was_hidden));
    }
}

#[test]
fn hidden_row_needs_only_one_hidden_tile() {
    let mut cells = [[Tile::new('o', false); COLS]; ROWS];
    cells[4][39] = Tile::new('x', true);
    cells[9][0] = Tile::new('y', true);
    let grid = Grid::from_cells(cells);
    assert_eq!(grid.cells(), cells);
    assert_eq!(grid.hidden_rows(), vec![4, 9]);
    assert!(grid.row_is_hidden(4));
    assert!(!grid.row_is_hidden(5));
    let shown = grid.render_text();
    let lines: Vec<&str> = shown.lines().collect();
    assert_eq!(lines[4], format!("{}.", "o".repeat(COLS - 1)));
    assert_eq!(lines[9], format!(".{}", "o".repeat(COLS - 1)));
    assert_eq!(lines[5], "o".repeat(COLS));
}
