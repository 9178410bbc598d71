use lsf::grid::{display_width, format_comma, format_grid, format_single_column, strip_ansi,
    terminal_width_or_default};

#[test]
fn display_width_ignores_escapes() {
    assert_eq!(
        display_width("\x1b[1;34mname\x1b[0m"),
        display_width("name")
    );
    assert_eq!(display_width("\x1b[1;34mname\x1b[0m"), 4);
}

#[test]
fn display_width_ascii_and_wide() {
    assert_eq!(display_width("abc"), 3);
    assert_eq!(display_width(""), 0);
    // An East-Asian wide character takes two columns.
    assert_eq!(display_width("\u{3042}"), 2);
}

#[test]
fn strip_ansi_drops_sequences() {
    assert_eq!(strip_ansi("\x1b[31mred\x1b[0m"), "red");
    assert_eq!(strip_ansi("plain"), "plain");
    // An unterminated escape drops the rest of the text.
    assert_eq!(strip_ansi("ab\x1b[31"), "ab");
}

#[test]
fn grid_single_row() {
    let items = vec![
        "file1.txt".to_string(),
        "file2.txt".to_string(),
        "file10.txt".to_string(),
        "zzz".to_string(),
    ];
    // Widest item is 10 columns; the column width rounds up to 16; five
    // columns fit in 80, so everything lands on one row.
    let out = format_grid(&items, 80, 8, false);
    assert_eq!(
        out,
        "file1.txt       file2.txt       file10.txt      zzz\n"
    );
}

#[test]
fn grid_column_major_fills_columns_first() {
    let items = vec![
        "a".to_string(),
        "b".to_string(),
        "c".to_string(),
        "d".to_string(),
    ];
    // Column width 8, two columns in 16: column-major puts a,b in the first
    // column and c,d in the second.
    let out = format_grid(&items, 16, 8, false);
    assert_eq!(out, "a       c\nb       d\n");
}

#[test]
fn grid_row_major_fills_rows_first() {
    let items = vec![
        "a".to_string(),
        "b".to_string(),
        "c".to_string(),
        "d".to_string(),
    ];
    let out = format_grid(&items, 16, 8, true);
    assert_eq!(out, "a       b\nc       d\n");
}

#[test]
fn grid_empty_input_yields_empty_output() {
    let items: Vec<String> = vec![];
    assert_eq!(format_grid(&items, 80, 8, false), "");
}

#[test]
fn grid_every_item_appears_once() {
    let items: Vec<String> = (0..7).map(|i| format!("it{}", i)).collect();
    for by_rows in [false, true] {
        let out = format_grid(&items, 24, 8, by_rows);
        for it in &items {
            assert_eq!(out.matches(it.as_str()).count(), 1);
        }
        // No line is wider than the terminal, since no single item is.
        for line in out.lines() {
            assert!(display_width(line) <= 24);
        }
    }
}

#[test]
fn single_column_appends_terminator() {
    let items = vec!["a".to_string(), "b".to_string()];
    assert_eq!(format_single_column(&items, '\n'), "a\nb\n");
    assert_eq!(format_single_column(&items, '\0'), "a\0b\0");
}

#[test]
fn comma_layout_wraps_at_width() {
    let items = vec![
        "aaa".to_string(),
        "bbb".to_string(),
        "ccc".to_string(),
    ];
    // "aaa, bbb, " is ten columns; appending "ccc" would pass 12, so it
    // wraps.
    let out = format_comma(&items, 12);
    assert_eq!(out, "aaa, bbb, \nccc\n");
    let wide = format_comma(&items, 80);
    assert_eq!(wide, "aaa, bbb, ccc\n");
}

#[test]
fn terminal_width_default() {
    assert_eq!(terminal_width_or_default(Some(120)), 120);
    assert_eq!(terminal_width_or_default(None), 80);
}
