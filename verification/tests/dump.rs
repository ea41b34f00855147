use hexler::demo;
use hexler::dump;
use hexler::line_writer::LineWriter;
use hexler::Args;
use hexler::Source;

fn dump_to_string(title: &str, data: &[u8], bytes_per_line: usize) -> String {
    let mut line_writer = LineWriter::new_bytes(bytes_per_line).unwrap();
    let mut output = Vec::new();
    let result = dump(title, data, &mut line_writer, &mut output);
    assert!(result.is_ok());
    String::from_utf8(output).unwrap()
}

fn strip_escapes(text: &str) -> String {
    let mut out = String::new();
    let mut in_escape = false;
    for c in text.chars() {
        if in_escape {
            if c == 'm' {
                in_escape = false;
            }
        } else if c == '\x1b' {
            in_escape = true;
        } else {
            out.push(c);
        }
    }
    out
}

#[test]
fn test_dump_empty() {
    let test_data = b"";

    let mut output = Vec::new();
    let mut line_writer = LineWriter::new_bytes(8).unwrap();

    let result = dump("Empty", test_data, &mut line_writer, &mut output);
    assert!(result.is_ok());

    let output = String::from_utf8_lossy(&output);
    // Should have header and footer borders
    assert!(output.contains("Empty"));
    assert!(output.contains("─")); // Border character
}

#[test]
fn test_dump_single_byte() {
    let test_data = b"x";

    let mut output = Vec::new();
    let mut line_writer = LineWriter::new_bytes(8).unwrap();

    let result = dump("Test", test_data, &mut line_writer, &mut output);
    assert!(result.is_ok());

    let output = String::from_utf8_lossy(&output);
    // Should contain the hex value of 'x' (0x78)
    assert!(output.contains("78"));
    assert!(output.contains("Test"));
}

#[test]
fn test_dump_multiple_lines() {
    // Test data that spans multiple lines
    let test_data: Vec<u8> = (0..=255).collect();

    let mut output = Vec::new();
    let mut line_writer = LineWriter::new_bytes(16).unwrap();

    let result = dump("Multi-line test", &test_data, &mut line_writer, &mut output);
    assert!(result.is_ok());

    let output = String::from_utf8_lossy(&output);
    // Should have title and multiple lines of hex output
    assert!(output.contains("Multi-line test"));
    // Should contain hex for first byte (00) and last byte (ff)
    assert!(output.contains("00"));
    assert!(output.contains("ff"));
    // Count lines - should have header, footer, and data lines
    let line_count = output.lines().count();
    assert!(line_count >= 18); // 256 bytes / 16 per line = 16 lines + header + footer
}

#[test]
fn test_dump_partial_line() {
    // Test data that doesn't fill a complete line
    let test_data = b"Hello";

    let mut output = Vec::new();
    let mut line_writer = LineWriter::new_bytes(16).unwrap();

    let result = dump("Partial", test_data, &mut line_writer, &mut output);
    assert!(result.is_ok());

    let output = String::from_utf8_lossy(&output);
    // Should contain hex values for "Hello"
    assert!(output.contains("48")); // 'H'
    assert!(output.contains("65")); // 'e'
    assert!(output.contains("6c")); // 'l'
    assert!(output.contains("6f")); // 'o'
}

#[test]
fn test_dump_with_various_byte_values() {
    // Test with control characters, printable, and extended ASCII
    let test_data = vec![
        0x00, // NUL
        0x0a, // LF
        0x20, // Space
        0x41, // 'A'
        0x7f, // DEL
        0xff, // Extended
    ];

    let mut output = Vec::new();
    let mut line_writer = LineWriter::new_bytes(8).unwrap();

    let result = dump("Various bytes", &test_data, &mut line_writer, &mut output);
    assert!(result.is_ok());

    let output = String::from_utf8_lossy(&output);
    // Verify all hex values are present
    assert!(output.contains("00"));
    assert!(output.contains("0a"));
    assert!(output.contains("20"));
    assert!(output.contains("41"));
    assert!(output.contains("7f"));
    assert!(output.contains("ff"));
}

#[test]
fn test_border_output() {
    let test_data = b"test";

    let mut output = Vec::new();
    let mut line_writer = LineWriter::new_bytes(8).unwrap();

    let result = dump("Border Test", test_data, &mut line_writer, &mut output);
    assert!(result.is_ok());

    let output = String::from_utf8_lossy(&output);
    // Should have border characters and title
    assert!(output.contains("Border Test"));
    assert!(output.contains("─")); // Unicode box drawing character
    let line_count = output.lines().count();
    assert!(line_count >= 3); // At least header, data, and footer
}

#[test]
fn test_exact_buffer_boundary() {
    // Test data that exactly fills the read buffer (64KB)
    let read_size: usize = 64 * 1024;
    let test_data: Vec<u8> = (0..read_size).map(|i| (i % 256) as u8).collect();

    let mut output = Vec::new();
    let mut line_writer = LineWriter::new_bytes(16).unwrap();

    let result = dump("Buffer boundary", &test_data, &mut line_writer, &mut output);
    assert!(result.is_ok());

    // Should have produced output
    assert!(!output.is_empty());
    // Should have multiple lines (64KB / 16 bytes per line = 4096 lines + borders)
    let output_str = String::from_utf8_lossy(&output);
    let line_count = output_str.lines().count();
    assert!(line_count >= 4098); // 4096 data lines + header + footer
}

#[test]
fn dump_of_six_bytes() {
    let output = dump_to_string("t", &[0x00, 0x0a, 0x20, 0x41, 0x7f, 0xff], 8);
    let plain = strip_escapes(&output);
    let lines: Vec<&str> = plain.lines().collect();
    assert_eq!(lines.len(), 4);
    assert_eq!(lines[0], "t");
    assert_eq!(
        lines[1],
        format!("{}┬{}┬{}", "─".repeat(9), "─".repeat(25), "─".repeat(9))
    );
    assert_eq!(lines[2], "00000000 │ 00 0a 20 41 7f ff       │ ⋄◙ A⌂ﬀ");
    assert_eq!(
        lines[3],
        format!("{}┴{}┴{}", "─".repeat(9), "─".repeat(25), "─".repeat(9))
    );
    assert!(output.ends_with("─\n"));
    let mut at = 0;
    for token in ["00000000", "00", "0a", "20", "41", "7f", "ff"] {
        let found = plain[at..].find(token).unwrap();
        at += found + token.len();
    }
}

#[test]
fn dump_of_256_bytes_has_sixteen_lines() {
    let data: Vec<u8> = (0..=255).collect();
    let plain = strip_escapes(&dump_to_string("all", &data, 16));
    let lines: Vec<&str> = plain.lines().collect();
    assert_eq!(lines.len(), 1 + 1 + 16 + 1);
    for (i, line) in lines[2..18].iter().enumerate() {
        assert_eq!(&line[..8], format!("{:08x}", i * 16));
    }
    assert_eq!(&lines[2][..8], "00000000");
    assert_eq!(&lines[3][..8], "00000010");
    assert_eq!(&lines[17][..8], "000000f0");
}

#[test]
fn dump_of_nothing_is_header_and_footer() {
    let output = dump_to_string("nothing", &[], 8);
    let expected = format!(
        "nothing\n{r9}┬{r25}┬{r9}\n{r9}┴{r25}┴{r9}\n",
        r9 = "─".repeat(9),
        r25 = "─".repeat(25)
    );
    assert_eq!(output, expected);
}

#[test]
fn dump_pads_the_hex_column_of_the_last_line() {
    let data: Vec<u8> = (b'a'..=b'z').collect();
    let plain = strip_escapes(&dump_to_string("", &data, 8));
    let lines: Vec<&str> = plain.lines().collect();
    assert_eq!(lines.len(), 1 + 4 + 1);
    assert_eq!(lines[3], "00000010 │ 71 72 73 74 75 76 77 78 │ qrstuvwx");
    assert_eq!(lines[4], "00000018 │ 79 7a                   │ yz");
}

#[test]
fn demo_is_the_dump_of_all_bytes() {
    let mut line_writer = LineWriter::new_bytes(16).unwrap();
    let mut output = Vec::new();
    assert!(demo(&mut line_writer, &mut output).is_ok());
    let data: Vec<u8> = (0..=255).collect();
    assert_eq!(
        String::from_utf8(output).unwrap(),
        dump_to_string("demo, 256 bytes, 0 to 255", &data, 16)
    );
}

#[test]
fn every_dump_begins_at_offset_zero() {
    let mut line_writer = LineWriter::new_bytes(8).unwrap();
    let mut first = Vec::new();
    dump("a", b"01234567", &mut line_writer, &mut first).unwrap();
    let mut second = Vec::new();
    dump("t", &[0x41], &mut line_writer, &mut second).unwrap();
    let text = String::from_utf8(second).unwrap();
    let lines: Vec<&str> = text.lines().collect();
    assert!(lines[2].starts_with("\x1b[90m00000000\x1b[0m │"));
    assert_eq!(text, dump_to_string("t", &[0x41], 8));

    let mut third = Vec::new();
    assert!(demo(&mut line_writer, &mut third).is_ok());
    let plain = strip_escapes(&String::from_utf8(third).unwrap());
    assert!(plain.lines().nth(2).unwrap().starts_with("00000000 │"));
}

#[test]
fn arguments_decide_source_and_pager() {
    let args = Args {
        num_bytes_per_line: None,
        stdout: false,
        demo: false,
        file: None,
    };
    assert!(args.use_pager());
    assert!(args.needs_terminal());
    assert!(matches!(args.source(), Source::Stdin));
    assert!(args.line_writer(None).is_err());
    assert_eq!(
        args.line_writer(Some((112, 24))).unwrap().bytes_per_line(),
        16
    );

    let args = Args {
        num_bytes_per_line: Some(32),
        stdout: true,
        demo: false,
        file: Some(String::from("a file")),
    };
    assert!(!args.use_pager());
    assert!(!args.needs_terminal());
    match args.source() {
        Source::File(name) => assert_eq!(name, "a file"),
        _ => panic!("the file was not taken"),
    }
    assert_eq!(args.line_writer(None).unwrap().bytes_per_line(), 32);

    let args = Args {
        num_bytes_per_line: Some(12),
        stdout: true,
        demo: true,
        file: Some(String::from("ignored")),
    };
    assert!(matches!(args.source(), Source::Demo));
    assert!(args.line_writer(Some((200, 50))).is_err());
}
