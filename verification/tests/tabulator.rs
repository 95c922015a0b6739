use billiards::util::tabulator::{byte_len, repeat, Tabulator};

fn row(cells: &[&str]) -> Vec<String> {
    cells.iter().map(|cell| cell.to_string()).collect()
}

#[test]
fn byte_len_counts_bytes() {
    assert_eq!(byte_len(""), 0);
    assert_eq!(byte_len("count"), 5);
    assert_eq!(byte_len("\u{e9}"), 2);
    assert_eq!(byte_len("\u{65e5}\u{672c}"), 6);
}

#[test]
fn repeat_writes_the_piece_over() {
    assert_eq!(repeat("-", 0), "");
    assert_eq!(repeat("-", 5), "-----");
    assert_eq!(repeat("ab", 3), "ababab");
    assert_eq!(repeat("", 4), "");
}

#[test]
fn table_with_a_header_only() {
    colored::control::set_override(false);
    let table = Tabulator::new(row(&["name", "count"]));
    assert_eq!(
        table.lines().unwrap(),
        row(&[
            "+______________+",
            "| name | count |",
            "|------|-------|",
            "+--------------+",
        ])
    );
}

#[test]
fn columns_are_as_wide_as_their_widest_cell() {
    colored::control::set_override(false);
    let mut table = Tabulator::new(row(&["name", "count", "created"]));
    table.append(row(&["cerberus", "12", "Mon"]));
    table.append(row(&["io", "7"]));
    table.append(row(&["a-long-name-here", "100000", "Tue, 1 Jan"]));
    assert_eq!(
        table.lines().unwrap(),
        row(&[
            "+________________________________________+",
            "| name             | count  | created    |",
            "|------------------|--------|------------|",
            "| cerberus         | 12     | Mon        |",
            "| io               | 7      |",
            "| a-long-name-here | 100000 | Tue, 1 Jan |",
            "+----------------------------------------+",
        ])
    );
}

#[test]
fn widths_are_counted_in_bytes() {
    colored::control::set_override(false);
    let mut table = Tabulator::new(row(&["\u{e9}"]));
    table.append(row(&["\u{65e5}\u{672c}"]));
    assert_eq!(
        table.lines().unwrap(),
        row(&[
            "+________+",
            "| \u{e9}     |",
            "|--------|",
            "| \u{65e5}\u{672c} |",
            "+--------+",
        ])
    );
}

#[test]
fn short_rows_end_early() {
    colored::control::set_override(false);
    let mut table = Tabulator::new(row(&["a", "b"]));
    table.append(row(&[]));
    table.append(row(&["x"]));
    assert_eq!(
        table.lines().unwrap(),
        row(&["+_______+", "| a | b |", "|---|---|", "|", "| x |", "+-------+"])
    );
}

#[test]
fn row_line_pads_to_the_column() {
    colored::control::set_override(false);
    let mut table = Tabulator::new(row(&["name", "n"]));
    table.append(row(&["cerberus", "12"]));
    assert_eq!(
        table.row_line(&row(&["io", "7"])).unwrap(),
        "| io       | 7  |"
    );
    assert_eq!(table.blank_row().unwrap(), "|----------|----|");
    assert_eq!(table.rule("=").unwrap(), "+===============+");
}

#[test]
fn row_line_refuses_what_does_not_fit() {
    colored::control::set_override(false);
    let table = Tabulator::new(row(&["name", "n"]));
    assert!(table.row_line(&row(&["a", "b", "c"])).is_none());
    assert!(table.row_line(&row(&["cerberus"])).is_none());
    assert!(table.row_line(&row(&["io", "12"])).is_none());
    assert!(table.row_line(&row(&["io", "7"])).is_some());
}

#[test]
fn render_row_keeps_the_padding_of_the_text() {
    let mut table = Tabulator::new(row(&["name", "n"]));
    table.append(row(&["cerberus", "12"]));
    // the paint may be longer than the text: the padding goes by the text
    assert_eq!(
        table.render_row(&row(&["io", "7"]), &row(&["<io>", "<7>"])),
        "| <io>       | <7>  |"
    );
}

#[test]
fn table_without_columns_cannot_be_laid_out() {
    let table = Tabulator::new(row(&[]));
    assert!(table.lines().is_none());
    assert!(table.rule("-").is_none());
    assert_eq!(table.blank_row().unwrap(), "|");
}

#[test]
fn table_with_a_row_longer_than_the_header_cannot_be_laid_out() {
    colored::control::set_override(false);
    let mut table = Tabulator::new(row(&["a", "b"]));
    table.append(row(&["x", "y"]));
    assert!(table.lines().is_some());
    table.append(row(&["x", "y", "z"]));
    assert!(table.lines().is_none());
}

#[test]
fn cells_beyond_the_header_widen_nothing() {
    colored::control::set_override(false);
    let mut table = Tabulator::new(row(&["a"]));
    table.append(row(&["x", "a-very-wide-cell"]));
    assert_eq!(table.rule("-").unwrap(), "+---+");
    assert_eq!(table.blank_row().unwrap(), "|---|");
}
