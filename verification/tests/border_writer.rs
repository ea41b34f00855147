use hexler::border_writer::BorderWriter;

#[test]
fn test_write_header() {
    let mut output = Vec::new();
    BorderWriter::write_header(&mut output, "Test Header", 8).unwrap();

    let result = String::from_utf8_lossy(&output);
    assert!(result.contains("Test Header"));
    assert!(result.contains("─"));
    assert!(result.contains("┬"));
}

#[test]
fn test_write_footer() {
    let mut output = Vec::new();
    BorderWriter::write_footer(&mut output, "Test Footer", 8).unwrap();

    let result = String::from_utf8_lossy(&output);
    assert!(result.contains("Test Footer"));
    assert!(result.contains("─"));
    assert!(result.contains("┴"));
}

#[test]
fn test_empty_title() {
    let mut output = Vec::new();
    BorderWriter::write_header(&mut output, "", 8).unwrap();

    let result = String::from_utf8_lossy(&output);
    assert!(result.contains("─"));
    assert!(result.contains("┬"));
}

#[test]
fn test_different_widths() {
    let mut output = Vec::new();
    BorderWriter::write_header(&mut output, "Test", 16).unwrap();
    let len_16 = output.len();

    output.clear();
    BorderWriter::write_header(&mut output, "Test", 32).unwrap();
    let len_32 = output.len();

    assert!(
        len_32 > len_16,
        "32-byte width should produce longer border"
    );
}

#[test]
fn header_is_title_line_then_border_line() {
    let mut output = Vec::new();
    BorderWriter::write_header(&mut output, "t", 8).unwrap();
    let expected = format!(
        "t\n{}┬{}┬{}\n",
        "─".repeat(9),
        "─".repeat(25),
        "─".repeat(9)
    );
    assert_eq!(String::from_utf8(output).unwrap(), expected);
}

#[test]
fn footer_is_border_line_then_title_line() {
    let mut output = Vec::new();
    BorderWriter::write_footer(&mut output, "t", 16).unwrap();
    let expected = format!(
        "{}┴{}┴{}\nt\n",
        "─".repeat(9),
        "─".repeat(50),
        "─".repeat(17)
    );
    assert_eq!(String::from_utf8(output).unwrap(), expected);
}

#[test]
fn empty_title_leaves_the_border_line_alone() {
    let mut header = Vec::new();
    BorderWriter::write_header(&mut header, "", 8).unwrap();
    let mut footer = Vec::new();
    BorderWriter::write_footer(&mut footer, "", 8).unwrap();
    assert_eq!(
        String::from_utf8(header).unwrap(),
        format!("{}┬{}┬{}\n", "─".repeat(9), "─".repeat(25), "─".repeat(9))
    );
    assert_eq!(
        String::from_utf8(footer).unwrap(),
        format!("{}┴{}┴{}\n", "─".repeat(9), "─".repeat(25), "─".repeat(9))
    );
}

#[test]
fn border_appends_to_what_the_buffer_holds() {
    let mut output = vec![0x41, 0x42];
    BorderWriter::write_header(&mut output, "x", 8).unwrap();
    assert!(output.starts_with(&[0x41, 0x42, 0x78, 0x0a]));
}

#[test]
fn border_for_a_width_below_one_group() {
    let mut output = Vec::new();
    BorderWriter::write_footer(&mut output, "", 4).unwrap();
    assert_eq!(
        String::from_utf8(output).unwrap(),
        format!("{}┴┴{}\n", "─".repeat(9), "─".repeat(5))
    );
}
