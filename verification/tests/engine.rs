use mdr::mapper::{char_index_at_col, line_from_rendered, link_at_position, link_at_scroll,
    LinkTarget};
use mdr::style::{apply_search_highlight, StyledLine, StyledSpan, TextStyle, Theme};
use mdr::search::{build_search_matches, find_matches, match_ranges};
use mdr::style::estimate_rendered_lines;
use mdr::table::{fit_table_widths, pad_row, wrap_cell};
use mdr::wrap::{build_wraps, row_for_char, wrap_line_ranges, RowRange};

#[test]
fn wrap_ranges_and_link_hit_test() {
    let text = String::from("abcd efghij");
    let (wraps, offsets) = build_wraps(&vec![text.clone()], 5);
    let lines_text = vec![text.clone()];
    let links = vec![LinkTarget {
        line_idx: 0,
        start_char: 2,
        end_char: 8,
        url: "https://example.com".to_string(),
    }];

    let hit_row0 = link_at_position(&links, &wraps, &offsets, &lines_text, 0, 2);
    assert!(hit_row0.is_some());

    let hit_row1 = link_at_position(&links, &wraps, &offsets, &lines_text, 1, 1);
    assert!(hit_row1.is_some());

    let miss = link_at_position(&links, &wraps, &offsets, &lines_text, 1, 4);
    assert!(miss.is_none());
}

#[test]
fn search_matches_scroll_to_wrapped_row() {
    let lines = vec![String::from("hello world")];
    let (wraps, offsets) = build_wraps(&lines, 5);
    let matches = build_search_matches(&lines, "world", &wraps, &offsets, 5);

    assert_eq!(matches.len(), 1);
    assert_eq!(matches[0].scroll_pos, 2);
}

#[test]
fn wrap_splits_whitespace_token_then_hard_splits_tail() {
    let wrap = wrap_line_ranges("abcd efghij", 5);
    let rows: Vec<(usize, usize)> = wrap.rows.iter().map(|r| (r.start, r.end)).collect();
    assert_eq!(rows, vec![(0, 5), (5, 10), (10, 11)]);
}

#[test]
fn wrap_rows_partition_the_line_without_gaps() {
    let line = "lorem ipsum dolor sit amet, consectetur adipiscing";
    for budget in 1..12usize {
        let wrap = wrap_line_ranges(line, budget);
        assert!(!wrap.rows.is_empty());
        assert_eq!(wrap.rows[0].start, 0);
        assert_eq!(wrap.rows.last().unwrap().end, line.chars().count());
        for pair in wrap.rows.windows(2) {
            assert_eq!(pair[0].end, pair[1].start);
            assert!(pair[0].start < pair[0].end);
        }
    }
}

#[test]
fn wrap_rows_fit_the_column_budget() {
    let line = "one supercalifragilistic two";
    for budget in 1..10usize {
        let wrap = wrap_line_ranges(line, budget);
        for row in &wrap.rows {
            let width = row.end - row.start;
            assert!(width <= budget || row.end == row.start + 1);
        }
    }
}

#[test]
fn empty_line_yields_one_zero_width_row() {
    let wrap = wrap_line_ranges("", 10);
    assert_eq!(wrap.rows.len(), 1);
    assert_eq!((wrap.rows[0].start, wrap.rows[0].end), (0, 0));
}

#[test]
fn wide_characters_occupy_two_columns_when_wrapping() {
    // Each CJK character is two columns wide, so only one fits per row at
    // a budget of two columns, and none of them is split further.
    let wrap = wrap_line_ranges("\u{4e00}\u{4e8c}\u{4e09}", 2);
    let rows: Vec<(usize, usize)> = wrap.rows.iter().map(|r| (r.start, r.end)).collect();
    assert_eq!(rows, vec![(0, 1), (1, 2), (2, 3)]);
}

#[test]
fn combining_marks_occupy_no_columns_when_wrapping() {
    // 'e' followed by a combining acute accent and then 'x': the mark has
    // width zero, so at a budget of one column the accented 'e' (two index
    // slots) shares the first row and 'x' takes the second.
    let wrap = wrap_line_ranges("e\u{0301}x", 1);
    let rows: Vec<(usize, usize)> = wrap.rows.iter().map(|r| (r.start, r.end)).collect();
    assert_eq!(rows, vec![(0, 2), (2, 3)]);
}

#[test]
fn columns_skip_combining_marks_in_hit_testing() {
    let row = RowRange { start: 0, end: 3 };
    let text = "e\u{0301}x";
    assert_eq!(char_index_at_col(text, &row, 0), Some(0));
    // Column one belongs to 'x'; the zero-width mark has no column.
    assert_eq!(char_index_at_col(text, &row, 1), Some(2));
    // The row is two columns wide in total.
    assert_eq!(char_index_at_col(text, &row, 2), None);
}

#[test]
fn offsets_accumulate_row_counts() {
    let lines = vec![
        String::from("abcd efghij"),
        String::from(""),
        String::from("xy"),
    ];
    let (wraps, offsets) = build_wraps(&lines, 5);
    assert_eq!(offsets, vec![0, 3, 4]);
    assert_eq!(wraps[1].rows.len(), 1);

    assert_eq!(line_from_rendered(&offsets, 0), Some((0, 0)));
    assert_eq!(line_from_rendered(&offsets, 2), Some((0, 2)));
    assert_eq!(line_from_rendered(&offsets, 3), Some((1, 0)));
    assert_eq!(line_from_rendered(&offsets, 4), Some((2, 0)));
    assert_eq!(line_from_rendered(&Vec::new(), 7), None);
}

#[test]
fn row_for_char_finds_the_containing_row() {
    let wrap = wrap_line_ranges("abcd efghij", 5);
    assert_eq!(row_for_char(&wrap, 0), Some(0));
    assert_eq!(row_for_char(&wrap, 4), Some(0));
    assert_eq!(row_for_char(&wrap, 5), Some(1));
    assert_eq!(row_for_char(&wrap, 10), Some(2));
    assert_eq!(row_for_char(&wrap, 11), None);
}

#[test]
fn char_index_at_col_resolves_and_rejects_padding() {
    let row = RowRange { start: 5, end: 10 };
    assert_eq!(char_index_at_col("abcd efghij", &row, 0), Some(5));
    assert_eq!(char_index_at_col("abcd efghij", &row, 4), Some(9));
    assert_eq!(char_index_at_col("abcd efghij", &row, 5), None);
    let empty = RowRange { start: 3, end: 3 };
    assert_eq!(char_index_at_col("abcd efghij", &empty, 0), None);
}

#[test]
fn match_ranges_reports_overlapping_matches_in_order() {
    assert_eq!(match_ranges("aaa", "aa"), vec![(0, 2), (1, 3)]);
    assert_eq!(match_ranges("aaa", ""), Vec::<(usize, usize)>::new());
    assert_eq!(match_ranges("HeLLo hello", "hello"), vec![(0, 5), (6, 11)]);
}

#[test]
fn find_matches_is_ordered_and_empty_query_matches_nothing() {
    let lines = vec![String::from("ab ab"), String::from("xab")];
    let found = find_matches(&lines, "ab");
    let keys: Vec<(usize, usize, usize)> = found
        .iter()
        .map(|m| (m.line_idx, m.start, m.start_char))
        .collect();
    assert_eq!(keys, vec![(0, 0, 0), (0, 3, 3), (1, 1, 1)]);

    assert!(find_matches(&lines, "").is_empty());
    assert!(find_matches(&lines, "zz").is_empty());
}

#[test]
fn link_at_scroll_prefers_first_link_at_or_below_scroll() {
    let lines = vec![String::from("abcd efghij"), String::from("klm")];
    let (wraps, offsets) = build_wraps(&lines, 5);
    let links = vec![
        LinkTarget {
            line_idx: 0,
            start_char: 0,
            end_char: 4,
            url: "first".to_string(),
        },
        LinkTarget {
            line_idx: 1,
            start_char: 0,
            end_char: 3,
            url: "second".to_string(),
        },
    ];
    assert_eq!(link_at_scroll(&links, &wraps, &offsets, 0).as_deref(), Some("first"));
    assert_eq!(link_at_scroll(&links, &wraps, &offsets, 2).as_deref(), Some("second"));
    // Past every link the first one is the fallback.
    assert_eq!(link_at_scroll(&links, &wraps, &offsets, 9).as_deref(), Some("first"));
    assert_eq!(link_at_scroll(&Vec::new(), &wraps, &offsets, 0), None);
}

#[test]
fn estimate_counts_ceil_divided_rows() {
    let lines = vec![
        String::from("abcdefghij"),
        String::from(""),
        String::from("abc"),
    ];
    // widths 10, 0 (counts as 1), 3 at viewport width 4: 3 + 1 + 1 rows.
    assert_eq!(estimate_rendered_lines(&lines, 4), 5);
    assert_eq!(estimate_rendered_lines(&lines, 0), 0);
}

#[test]
fn fit_table_widths_keeps_fitting_tables_and_shrinks_wide_ones() {
    // Overhead for two columns is 7; at width 20 there are 13 columns left.
    assert_eq!(fit_table_widths(vec![4, 5], 2, 20), vec![4, 5]);
    // 1 + 3 * col_count >= max_width collapses every column to one cell.
    assert_eq!(fit_table_widths(vec![9, 9], 2, 7), vec![1, 1]);
    // Desired 20 into 13 available: scaled then topped up to use the room.
    let fitted = fit_table_widths(vec![10, 10], 2, 20);
    assert_eq!(fitted.iter().sum::<usize>(), 13);
    assert!(fitted.iter().all(|w| *w >= 1));
    assert_eq!(fit_table_widths(vec![3, 3], 2, 0), vec![3, 3]);
}

#[test]
fn wrap_cell_chunks_by_character_count() {
    let rows: Vec<String> = wrap_cell("abcdefg", 3);
    assert_eq!(rows, vec!["abc", "def", "g"]);
    assert_eq!(wrap_cell("", 3), vec![String::new()]);
    assert_eq!(wrap_cell("ab", 0), vec![String::new()]);
}

fn plain_line(text: &str) -> StyledLine {
    StyledLine {
        spans: vec![StyledSpan {
            content: text.to_string(),
            style: TextStyle {
                fg: None,
                bg: None,
                modifiers: 0,
            },
        }],
    }
}

fn flat_text(line: &StyledLine) -> String {
    line.spans.iter().map(|s| s.content.as_str()).collect()
}

#[test]
fn search_highlight_restyles_matches_and_coalesces_runs() {
    let theme = Theme::pastel();
    let lines = vec![plain_line("say hello twice: hello")];
    let out = apply_search_highlight(&lines, "hello", None, &theme);

    assert_eq!(out.len(), 1);
    assert_eq!(flat_text(&out[0]), "say hello twice: hello");
    // Runs alternate between plain and highlighted, never empty, never
    // adjacent with equal styles.
    assert!(out[0].spans.len() > 1);
    for span in &out[0].spans {
        assert!(!span.content.is_empty());
    }
    for pair in out[0].spans.windows(2) {
        assert_ne!(pair[0].style, pair[1].style);
    }
    let highlighted: String = out[0]
        .spans
        .iter()
        .filter(|s| s.style.bg.is_some())
        .map(|s| s.content.as_str())
        .collect();
    assert_eq!(highlighted, "hellohello");
}

#[test]
fn empty_query_clears_all_highlighting() {
    let theme = Theme::pastel();
    let lines = vec![plain_line("hello world")];
    let out = apply_search_highlight(&lines, "", None, &theme);
    assert_eq!(out.len(), 1);
    assert_eq!(out[0].spans.len(), 1);
    assert_eq!(out[0].spans[0].style.bg, None);
    assert_eq!(flat_text(&out[0]), "hello world");
}

#[test]
fn pad_row_fills_missing_cells_with_empty_strings() {
    let mut row = vec![String::from("a")];
    pad_row(&mut row, 3);
    assert_eq!(row, vec!["a", "", ""]);
    let mut full = vec![String::from("a"), String::from("b")];
    pad_row(&mut full, 1);
    assert_eq!(full, vec!["a", "b"]);
}
