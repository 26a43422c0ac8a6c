use bytes::BytesMut;
use owo_colors::OwoColorize;
use tale_ndjson::logpatterns::columns::write_columns;

fn display_width(text: &str) -> usize {
    ansi_width::ansi_width(text)
}

#[test]
fn columns_empty_cells() {
    let mut buffer = BytesMut::new();
    let cells: Vec<String> = vec![];
    let written = write_columns(&mut buffer, &cells, 80, 2);
    assert_eq!(written, 0);
    assert_eq!(buffer.len(), 0);
}

#[test]
fn columns_single_cell() {
    let mut buffer = BytesMut::new();
    let cells = vec!["hello".to_string()];
    let written = write_columns(&mut buffer, &cells, 80, 2);
    assert_eq!(written, 5);
    assert_eq!(String::from_utf8_lossy(&buffer), "hello");
}

#[test]
fn columns_simple_columns() {
    let mut buffer = BytesMut::new();
    let cells = vec!["a".to_string(), "b".to_string(), "c".to_string()];
    let written = write_columns(&mut buffer, &cells, 80, 2);
    let result = String::from_utf8_lossy(&buffer);
    assert_eq!(result, "a  b  c");
    assert_eq!(written, 7);
}

#[test]
fn columns_line_wrapping() {
    let mut buffer = BytesMut::new();
    let cells = vec!["long".to_string(), "cell".to_string(), "text".to_string()];
    let written = write_columns(&mut buffer, &cells, 10, 2);
    let result = String::from_utf8_lossy(&buffer);
    let lines: Vec<&str> = result.lines().collect();
    // With elastic tabstops, 2 columns fit (4+2+4=10)
    assert_eq!(lines.len(), 2, "Should wrap to 2 lines");
    assert!(lines[0].contains("long") && lines[0].contains("cell"));
    assert!(lines[1].contains("text"));
    assert_eq!(written, result.len());
}

#[test]
fn columns_line_wrapping_tight_fit() {
    let mut buffer = BytesMut::new();
    let cells = vec!["abc".to_string(), "def".to_string(), "ghi".to_string()];
    let written = write_columns(&mut buffer, &cells, 9, 2);
    let result = String::from_utf8_lossy(&buffer);
    let lines: Vec<&str> = result.lines().collect();
    // 2 columns: 3+2+3=8 <= 9, third cell wraps
    assert_eq!(lines.len(), 2);
    assert!(lines[0].contains("abc") && lines[0].contains("def"));
    assert!(lines[1].contains("ghi"));
    assert_eq!(written, result.len());
}

#[test]
fn columns_single_cell_too_wide() {
    let mut buffer = BytesMut::new();
    let cells = vec!["verylongcelltext".to_string()];
    let written = write_columns(&mut buffer, &cells, 10, 2);
    assert_eq!(String::from_utf8_lossy(&buffer), "verylongcelltext");
    assert_eq!(written, 16);
}

#[test]
fn columns_zero_padding() {
    let mut buffer = BytesMut::new();
    let cells = vec!["a".to_string(), "b".to_string(), "c".to_string()];
    let written = write_columns(&mut buffer, &cells, 80, 0);
    assert_eq!(String::from_utf8_lossy(&buffer), "abc");
    assert_eq!(written, 3);
}

#[test]
fn columns_debug_wrapping_issue() {
    let mut buffer = BytesMut::new();
    let cells: Vec<String> = [
        "field01a", "field02b", "field03c", "field04d", "field05e", "field06f", "field07g", "field08h",
        "field09i", "field10j", "field11k", "field12l",
    ]
    .iter()
    .map(|s| s.to_string())
    .collect();

    write_columns(&mut buffer, &cells, 100, 2);
    let result = String::from_utf8_lossy(&buffer);
    let lines: Vec<&str> = result.lines().collect();

    // 10 uniform 8-char fields fit per row: 10*8 + 9*2 = 98 <= 100
    assert_eq!(lines.len(), 2);
    assert!(
        lines[1].contains("field11k") && lines[1].contains("field12l"),
        "Wrapped line should contain field11k and field12l: {}",
        lines[1]
    );
}

#[test]
fn columns_large_padding() {
    let mut buffer = BytesMut::new();
    let cells = vec!["a".to_string(), "b".to_string()];
    let written = write_columns(&mut buffer, &cells, 80, 10);
    let result = String::from_utf8_lossy(&buffer);
    // tabwriter with padding=10: "a" + 10 spaces + "b"
    assert!(result.contains("a") && result.contains("b"));
    assert_eq!(display_width(&result), 12); // 1 + 10 + 1
    assert_eq!(written, 12);
}

#[test]
fn columns_ansi_colors() {
    let mut buffer = BytesMut::new();
    let cells = vec!["normal".to_string(), "red".red().to_string(), "blue".blue().to_string()];
    let written = write_columns(&mut buffer, &cells, 80, 2);
    let result = String::from_utf8_lossy(&buffer);

    // All cells present
    assert!(result.contains("normal"));
    assert!(result.contains("red"));
    assert!(result.contains("blue"));
    // More bytes than display chars due to ANSI codes
    assert!(written > 17);
    // All on one line
    assert_eq!(result.lines().count(), 1);
}

#[test]
fn columns_multiline_column_alignment_uniform() {
    let mut buffer = BytesMut::new();

    // 40 uniform 8-char cells, width 100, padding 2
    let cells: Vec<String> = (1..=40).map(|i| format!("field{:02}x", i)).collect();

    write_columns(&mut buffer, &cells, 100, 2);
    let result = String::from_utf8_lossy(&buffer);
    let lines: Vec<&str> = result.lines().collect();

    // 40 cells / 10 cols = 4 rows
    assert_eq!(lines.len(), 4, "Expected 4 lines, got {}", lines.len());

    for (i, line) in lines.iter().enumerate() {
        let line_width = display_width(line);
        assert!(line_width <= 100, "Line {} width {} exceeds 100: {}", i, line_width, line);
    }

    // Verify consistent column count on full rows
    for line in &lines[..3] {
        let fields: Vec<&str> = line.split_whitespace().collect();
        assert_eq!(fields.len(), 10, "Full row should have 10 fields: {}", line);
    }
}

#[test]
fn columns_multiline_column_alignment_mixed_lengths() {
    let mut buffer = BytesMut::new();

    let cells: Vec<String> = [
        "a", "medium_field", "x", "very_long_field_name", "short", "b", "another_medium_length", "c", "tiny",
        "extremely_long_field_that_takes_space", "d", "normal", "e", "quite_a_long_one", "f", "mid", "g",
        "long_enough", "h", "average_size", "i", "super_duper_long_field_name_here", "j", "regular", "k",
        "somewhat_longer", "l", "brief", "m", "extended_field", "n", "moderate_length_field", "o", "p",
        "incredibly_long_field_name_that_should_wrap", "q", "standard", "r", "final",
    ]
    .iter()
    .map(|s| s.to_string())
    .collect();

    write_columns(&mut buffer, &cells, 100, 2);
    let result = String::from_utf8_lossy(&buffer);
    let lines: Vec<&str> = result.lines().collect();

    // Should span multiple lines
    assert!(lines.len() >= 4, "Expected at least 4 lines, got {}", lines.len());

    // Verify each line respects width limit
    for (i, line) in lines.iter().enumerate() {
        let line_width = display_width(line);
        assert!(line_width <= 100, "Line {} width {} exceeds 100: {}", i, line_width, line);
    }

    // All cells should appear in output
    for cell in &cells {
        assert!(result.contains(cell.as_str()), "Missing cell: {}", cell);
    }
}

#[test]
fn columns_column_width_boundary_conditions() {
    let mut buffer = BytesMut::new();
    let cells = vec!["12345678".to_string(), "90123456".to_string(), "78901234".to_string()];

    // Width 28: 8+2+8+2+8=28, should fit exactly
    write_columns(&mut buffer, &cells, 28, 2);
    let result = String::from_utf8_lossy(&buffer);
    let lines: Vec<&str> = result.lines().collect();
    assert_eq!(lines.len(), 1, "Should fit exactly on one line");
    assert_eq!(display_width(lines[0]), 28);

    // Width 27: doesn't fit, should wrap
    buffer.clear();
    write_columns(&mut buffer, &cells, 27, 2);
    let result = String::from_utf8_lossy(&buffer);
    let lines: Vec<&str> = result.lines().collect();
    assert_eq!(lines.len(), 2, "Should wrap to two lines with width 27");

    // Width 18: 8+2+8=18, two columns fit
    buffer.clear();
    write_columns(&mut buffer, &cells, 18, 2);
    let result = String::from_utf8_lossy(&buffer);
    let lines: Vec<&str> = result.lines().collect();
    assert_eq!(lines.len(), 2, "Should wrap last field to second line with width 18");
}

#[test]
fn columns_align_across_wrapped_rows() {
    let mut buffer = BytesMut::new();

    // Cells with varying widths: elastic tabstops should align columns
    let cells: Vec<String> =
        ["short", "medium_len", "x", "a_longer_cell", "med", "y"].iter().map(|s| s.to_string()).collect();

    write_columns(&mut buffer, &cells, 40, 2);
    let result = String::from_utf8_lossy(&buffer);
    let lines: Vec<&str> = result.lines().collect();

    assert!(lines.len() >= 2, "Should wrap to multiple lines");

    if lines.len() >= 2 {
        let line0_parts: Vec<&str> = lines[0].split_whitespace().collect();
        let line1_parts: Vec<&str> = lines[1].split_whitespace().collect();
        if line0_parts.len() == line1_parts.len() {
            let col1_start_0 = lines[0].find(line0_parts[1]);
            let col1_start_1 = lines[1].find(line1_parts[1]);
            assert_eq!(
                col1_start_0, col1_start_1,
                "Column 1 should align: row0={:?} row1={:?}",
                col1_start_0, col1_start_1
            );
        }
    }
}

#[test]
fn single_cell_no_tabwriter_overhead() {
    let mut buffer = BytesMut::new();
    let cells = vec!["only_one".to_string()];
    write_columns(&mut buffer, &cells, 80, 5);
    let result = String::from_utf8_lossy(&buffer);
    // Single cell should have no padding or extra whitespace
    assert_eq!(result, "only_one");
}
