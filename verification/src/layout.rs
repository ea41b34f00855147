use crate::ascii_renderer::glyph_char;
use crate::ascii_renderer::glyph_text;
use crate::ascii_renderer::lemma_glyph_char_visible;
use crate::border_writer::border_line;
use crate::border_writer::hex_section_width;
use crate::border_writer::rule;
use crate::border_writer::BorderWriter;
use crate::byte_to_color::color_escape;
use crate::byte_to_color::ByteToColor;
use crate::hex_formatter::blank_text;
use crate::hex_formatter::hex_digits;
use crate::hex_formatter::hex_text;
use crate::hex_formatter::leading_zero_digits;
use crate::hex_formatter::lemma_hex_digit;
use crate::hex_formatter::lemma_hex_digits_index;
use crate::hex_formatter::lemma_hex_digits_len;
use crate::hex_formatter::offset_text;
use crate::hex_formatter::zero_digits;
use crate::hex_formatter::HexFormatter;
use crate::line_writer::color_change;
use crate::line_writer::color_end;
use crate::line_writer::glyph_cell;
use crate::line_writer::glyph_column;
use crate::line_writer::group_gap;
use crate::line_writer::groups_for_width;
use crate::line_writer::hex_cell;
use crate::line_writer::hex_column;
use crate::line_writer::line_text;
use crate::line_writer::valid_bytes_per_line;
use crate::line_writer::LineWriter;
use vstd::prelude::*;

verus! {

/// The byte that begins an escape sequence.
pub open spec fn is_escape(byte: u8) -> bool {
    byte == 0x1b
}

/// The letter `m`, which ends an escape sequence that sets a colour.
pub open spec fn ends_escape(byte: u8) -> bool {
    byte == 0x6d
}

/// A byte of UTF-8 that goes on with the character that an earlier byte
/// began.
pub open spec fn is_continuation(byte: u8) -> bool {
    0x80 <= byte <= 0xbf
}

/// Whether the end of `bytes` lies within an escape sequence, where `inside`
/// says so of their start.
pub open spec fn escape_open(bytes: Seq<u8>, inside: bool) -> bool
    decreases bytes.len(),
{
    if bytes.len() == 0 {
        inside
    } else if escape_open(bytes.drop_last(), inside) {
        !ends_escape(bytes.last())
    } else {
        is_escape(bytes.last())
    }
}

/// Whether the last byte of `bytes` begins a character that takes a column:
/// it stands outside the escape sequences, and it is no line feed and no
/// continuation of a character.
pub open spec fn takes_column(bytes: Seq<u8>, inside: bool) -> bool {
    !escape_open(bytes.drop_last(), inside) && !is_escape(bytes.last()) && bytes.last() != 0x0a
        && !is_continuation(bytes.last())
}

/// The number of columns that `bytes` take on a terminal, where `inside`
/// says whether they start within an escape sequence.
pub open spec fn columns_from(bytes: Seq<u8>, inside: bool) -> nat
    decreases bytes.len(),
{
    if bytes.len() == 0 {
        0
    } else {
        columns_from(bytes.drop_last(), inside) + if takes_column(bytes, inside) {
            1nat
        } else {
            0nat
        }
    }
}

/// The number of columns that `bytes` take on a terminal: one for each
/// character outside the escape sequences, the line feed not counted.
pub open spec fn columns(bytes: Seq<u8>) -> nat {
    columns_from(bytes, false)
}

/// `bytes` take `width` columns and leave no escape sequence open.
pub open spec fn spans(bytes: Seq<u8>, width: nat) -> bool {
    !escape_open(bytes, false) && columns(bytes) == width
}

/// The number of columns of a line that shows `bytes_per_line` bytes: 12 for
/// the offset and the bars, 25 for each group of hexadecimal numbers, and
/// one for each byte.
pub open spec fn line_width(bytes_per_line: nat) -> nat {
    12 + hex_section_width(bytes_per_line) + bytes_per_line
}

/// The columns of two pieces add up, and the second piece starts where the
/// first one ends.
pub proof fn lemma_columns_add(a: Seq<u8>, b: Seq<u8>, inside: bool)
    ensures
        escape_open(a + b, inside) == escape_open(b, escape_open(a, inside)),
        columns_from(a + b, inside) == columns_from(a, inside) + columns_from(
            b,
            escape_open(a, inside),
        ),
    decreases b.len(),
{
    if b.len() == 0 {
        assert(a + b =~= a);
    } else {
        lemma_columns_add(a, b.drop_last(), inside);
        assert((a + b).drop_last() =~= a + b.drop_last());
        assert((a + b).last() == b.last());
    }
}

/// Two pieces that leave no escape sequence open make one such piece.
pub proof fn lemma_spans_add(a: Seq<u8>, m: nat, b: Seq<u8>, n: nat)
    requires
        spans(a, m),
        spans(b, n),
    ensures
        spans(a + b, m + n),
{
    lemma_columns_add(a, b, false);
}

/// A sequence that begins with ESC and holds the letter `m` at its end and
/// nowhere else takes no column.
pub proof fn lemma_escape_spans(bytes: Seq<u8>)
    requires
        bytes.len() >= 2,
        is_escape(bytes[0]),
        ends_escape(bytes.last()),
        forall|i: int| 0 < i < bytes.len() - 1 ==> !ends_escape(#[trigger] bytes[i]),
    ensures
        spans(bytes, 0),
{
    lemma_escape_prefix(bytes, bytes.len() - 1);
    assert(bytes.drop_last() =~= bytes.take(bytes.len() - 1));
}

proof fn lemma_escape_prefix(bytes: Seq<u8>, k: int)
    requires
        1 <= k < bytes.len(),
        is_escape(bytes[0]),
        forall|i: int| 0 < i < bytes.len() - 1 ==> !ends_escape(#[trigger] bytes[i]),
    ensures
        escape_open(bytes.take(k), false),
        columns_from(bytes.take(k), false) == 0,
    decreases k,
{
    let prefix = bytes.take(k);
    assert(prefix.drop_last() =~= bytes.take(k - 1));
    assert(prefix.last() == bytes[k - 1]);
    if k > 1 {
        lemma_escape_prefix(bytes, k - 1);
    } else {
        assert(bytes.take(0).len() == 0);
        assert(!escape_open(bytes.take(0), false));
        assert(columns_from(bytes.take(0), false) == 0);
    }
}

/// A character of UTF-8 that is not ESC or a line feed takes one column: a
/// first byte that is no continuation, and continuations after it.
pub proof fn lemma_char_spans(bytes: Seq<u8>)
    requires
        bytes.len() >= 1,
        !is_escape(bytes[0]),
        !is_continuation(bytes[0]),
        bytes[0] != 0x0a,
        forall|i: int| 0 < i < bytes.len() ==> is_continuation(#[trigger] bytes[i]),
    ensures
        spans(bytes, 1),
{
    lemma_char_prefix(bytes, bytes.len() as int);
    assert(bytes.take(bytes.len() as int) =~= bytes);
}

proof fn lemma_char_prefix(bytes: Seq<u8>, k: int)
    requires
        1 <= k <= bytes.len(),
        !is_escape(bytes[0]),
        !is_continuation(bytes[0]),
        bytes[0] != 0x0a,
        forall|i: int| 0 < i < bytes.len() ==> is_continuation(#[trigger] bytes[i]),
    ensures
        spans(bytes.take(k), 1),
    decreases k,
{
    let prefix = bytes.take(k);
    assert(prefix.drop_last() =~= bytes.take(k - 1));
    assert(prefix.last() == bytes[k - 1]);
    if k > 1 {
        lemma_char_prefix(bytes, k - 1);
    } else {
        assert(bytes.take(0).len() == 0);
        assert(!escape_open(bytes.take(0), false));
        assert(columns_from(bytes.take(0), false) == 0);
    }
}

/// Printable characters of ASCII take one column each.
pub proof fn lemma_plain_spans(bytes: Seq<u8>)
    requires
        forall|i: int| 0 <= i < bytes.len() ==> 0x20 <= #[trigger] bytes[i] < 0x7f,
    ensures
        spans(bytes, bytes.len()),
    decreases bytes.len(),
{
    if bytes.len() > 0 {
        lemma_plain_spans(bytes.drop_last());
    }
}

/// The line feed takes no column.
pub proof fn lemma_line_feed_spans()
    ensures
        spans(seq![0x0au8], 0),
{
    let empty = Seq::<u8>::empty();
    assert(seq![0x0au8].drop_last() =~= empty);
    assert(!escape_open(empty, false));
    assert(columns_from(empty, false) == 0);
}

/// The escape sequence of every byte takes no column, and so does the reset
/// of a line.
pub proof fn lemma_color_spans(byte: u8)
    ensures
        spans(color_escape(byte), 0),
        spans(LineWriter::COLOR_RESET@, 0),
{
    lemma_escape_spans(ByteToColor::RESET@);
    lemma_escape_spans(ByteToColor::GREY@);
    lemma_escape_spans(ByteToColor::MAGENTA@);
    lemma_escape_spans(ByteToColor::GREEN@);
    lemma_escape_spans(ByteToColor::BLUE@);
    lemma_escape_spans(LineWriter::COLOR_RESET@);
}

/// The character of every byte takes one column.
pub proof fn lemma_glyph_spans(byte: u8)
    ensures
        spans(glyph_text(byte), 1),
{
    let c = glyph_char(byte);
    let v = c as u32;
    lemma_glyph_char_visible(byte);
    vstd::utf8::char_is_scalar(c);
    assert(v > 0x7f ==> {
        &&& (0xc0 | ((v >> 6) & 0x1f) as u8) >= 0xc0
        &&& (0xe0 | ((v >> 12) & 0x0f) as u8) >= 0xc0
        &&& 0x80 <= (0x80 | (v & 0x3f) as u8) <= 0xbf
        &&& 0x80 <= (0x80 | ((v >> 6) & 0x3f) as u8) <= 0xbf
    }) by (bit_vector);
    assert(v <= 0x7f ==> (v & 0x7f) as u8 == v) by (bit_vector);
    lemma_char_spans(glyph_text(byte));
}

/// The hexadecimal number of a byte takes three columns, and so do the
/// blanks in its place.
pub proof fn lemma_hex_text_spans(byte: u8)
    ensures
        spans(hex_text(byte), 3),
        spans(blank_text(), 3),
{
    lemma_plain_spans(hex_text(byte));
    lemma_plain_spans(blank_text());
}

/// The offset takes eight columns.
pub proof fn lemma_offset_spans(offset: u32)
    ensures
        spans(offset_text(offset), 8),
{
    let zeros = leading_zero_digits(offset);
    let digits = hex_digits(offset as nat, 8);
    let rest = digits.subrange(zeros as int, 8);
    lemma_hex_digits_len(offset as nat, 8);
    assert forall|i: int| 0 <= i < rest.len() implies 0x20 <= #[trigger] rest[i] < 0x7f by {
        lemma_hex_digits_index(offset as nat, 8, zeros + i);
        let p = crate::hex_formatter::pow16((7 - zeros - i) as nat);
        lemma_hex_digit(((offset as nat / p) % 16) as int);
    }
    lemma_escape_spans(HexFormatter::GREY@);
    lemma_escape_spans(HexFormatter::COLOR_RESET@);
    lemma_plain_spans(zero_digits(zeros));
    lemma_plain_spans(rest);
    lemma_spans_add(HexFormatter::GREY@, 0, zero_digits(zeros), zeros);
    lemma_spans_add(HexFormatter::GREY@ + zero_digits(zeros), zeros, HexFormatter::COLOR_RESET@, 0);
    lemma_spans_add(
        HexFormatter::GREY@ + zero_digits(zeros) + HexFormatter::COLOR_RESET@,
        zeros,
        rest,
        (8 - zeros) as nat,
    );
}

/// A rule takes one column for each stroke.
pub proof fn lemma_rule_spans(count: nat)
    ensures
        spans(rule(count), count),
    decreases count,
{
    if count > 0 {
        lemma_rule_spans((count - 1) as nat);
        lemma_char_spans(BorderWriter::HORIZONTAL@);
        lemma_spans_add(rule((count - 1) as nat), (count - 1) as nat, BorderWriter::HORIZONTAL@, 1);
    }
}

/// The number of columns of the first `count` positions of the hexadecimal
/// numbers: three for each position and one for each group that they begin.
pub open spec fn hex_column_width(count: nat) -> nat {
    3 * count + (count + 7) / 8
}

/// The change of colour in front of a byte takes no column.
pub proof fn lemma_color_change_spans(data: Seq<u8>, index: int)
    ensures
        spans(color_change(data, index), 0),
        spans(color_end(data), 0),
{
    lemma_color_spans(data[index]);
}

/// The first `count` positions of the hexadecimal numbers take the same
/// number of columns whatever the bytes are and however many there are.
pub proof fn lemma_hex_column_spans(data: Seq<u8>, count: nat)
    ensures
        spans(hex_column(data, count), hex_column_width(count)),
    decreases count,
{
    if count > 0 {
        let index = (count - 1) as int;
        lemma_hex_column_spans(data, (count - 1) as nat);
        lemma_hex_text_spans(data[index]);
        lemma_color_change_spans(data, index);
        lemma_plain_spans(group_gap(index));
        let inner = if index < data.len() {
            color_change(data, index) + hex_text(data[index])
        } else {
            blank_text()
        };
        if index < data.len() {
            lemma_spans_add(color_change(data, index), 0, hex_text(data[index]), 3);
        }
        lemma_spans_add(group_gap(index), group_gap(index).len(), inner, 3);
        lemma_spans_add(
            hex_column(data, (count - 1) as nat),
            hex_column_width((count - 1) as nat),
            hex_cell(data, index),
            group_gap(index).len() + 3,
        );
    }
}

/// The first `count` characters of a line take `count` columns.
pub proof fn lemma_glyph_column_spans(data: Seq<u8>, count: nat)
    ensures
        spans(glyph_column(data, count), count),
    decreases count,
{
    if count > 0 {
        let index = (count - 1) as int;
        lemma_glyph_column_spans(data, (count - 1) as nat);
        lemma_glyph_spans(data[index]);
        lemma_color_change_spans(data, index);
        lemma_spans_add(color_change(data, index), 0, glyph_text(data[index]), 1);
        lemma_spans_add(
            glyph_column(data, (count - 1) as nat),
            (count - 1) as nat,
            glyph_cell(data, index),
            1,
        );
    }
}

/// A line up to the bar that closes its hexadecimal numbers: the offset, the
/// first bar and the numbers, with the reset that may follow them.
pub open spec fn line_head(offset: u32, data: Seq<u8>, bytes_per_line: nat) -> Seq<u8> {
    offset_text(offset) + LineWriter::OFFSET_END@ + hex_column(data, bytes_per_line) + color_end(
        data,
    )
}

/// The second bar of every line, short or full, stands in the same column:
/// the width of the hexadecimal numbers does not depend on the data.
pub proof fn lemma_line_head_spans(offset: u32, data: Seq<u8>, bytes_per_line: nat)
    requires
        valid_bytes_per_line(bytes_per_line),
    ensures
        spans(line_head(offset, data, bytes_per_line), 10 + hex_section_width(bytes_per_line)),
{
    lemma_offset_spans(offset);
    let bar = seq![0xe2u8, 0x94u8, 0x82u8];
    lemma_plain_spans(seq![0x20u8]);
    lemma_char_spans(bar);
    lemma_spans_add(seq![0x20u8], 1, bar, 1);
    assert(LineWriter::OFFSET_END@ =~= seq![0x20u8] + bar);
    lemma_hex_column_spans(data, bytes_per_line);
    lemma_color_change_spans(data, 0);
    lemma_spans_add(offset_text(offset), 8, LineWriter::OFFSET_END@, 2);
    lemma_spans_add(
        offset_text(offset) + LineWriter::OFFSET_END@,
        10,
        hex_column(data, bytes_per_line),
        hex_column_width(bytes_per_line),
    );
    lemma_spans_add(
        offset_text(offset) + LineWriter::OFFSET_END@ + hex_column(data, bytes_per_line),
        10 + hex_column_width(bytes_per_line),
        color_end(data),
        0,
    );
}

/// A line takes 12 columns for the offset and the bars, 25 for each group of
/// hexadecimal numbers and one for each of its bytes.
pub proof fn lemma_line_text_spans(offset: u32, data: Seq<u8>, bytes_per_line: nat)
    requires
        valid_bytes_per_line(bytes_per_line),
    ensures
        spans(line_text(offset, data, bytes_per_line), 12 + hex_section_width(bytes_per_line)
            + data.len()),
{
    let head = line_head(offset, data, bytes_per_line);
    let head_width = 10 + hex_section_width(bytes_per_line);
    lemma_line_head_spans(offset, data, bytes_per_line);
    let bar = seq![0xe2u8, 0x94u8, 0x82u8];
    lemma_plain_spans(seq![0x20u8]);
    lemma_char_spans(bar);
    lemma_spans_add(bar, 1, seq![0x20u8], 1);
    assert(LineWriter::GLYPHS_BEGIN@ =~= bar + seq![0x20u8]);
    lemma_glyph_column_spans(data, data.len());
    lemma_color_change_spans(data, 0);
    lemma_line_feed_spans();
    lemma_spans_add(head, head_width, LineWriter::GLYPHS_BEGIN@, 2);
    lemma_spans_add(
        head + LineWriter::GLYPHS_BEGIN@,
        head_width + 2,
        glyph_column(data, data.len()),
        data.len(),
    );
    lemma_spans_add(
        head + LineWriter::GLYPHS_BEGIN@ + glyph_column(data, data.len()),
        head_width + 2 + data.len(),
        color_end(data),
        0,
    );
    lemma_spans_add(
        head + LineWriter::GLYPHS_BEGIN@ + glyph_column(data, data.len()) + color_end(data),
        head_width + 2 + data.len(),
        seq![0x0au8],
        0,
    );
}

/// The border line up to its second joint.
pub open spec fn border_head(bytes_per_line: nat, connector: Seq<u8>) -> Seq<u8> {
    rule(9) + connector + rule(hex_section_width(bytes_per_line)) + connector
}

/// The border line takes as many columns as a full line of the dump, and its
/// second joint stands in the column of the second bar.
pub proof fn lemma_border_line_spans(bytes_per_line: nat, connector: Seq<u8>)
    requires
        connector == BorderWriter::CONNECTOR_TOP@ || connector == BorderWriter::CONNECTOR_BOTTOM@,
    ensures
        spans(border_head(bytes_per_line, connector), 11 + hex_section_width(bytes_per_line)),
        spans(border_line(bytes_per_line, connector), line_width(bytes_per_line)),
{
    let middle = hex_section_width(bytes_per_line);
    lemma_rule_spans(9);
    lemma_rule_spans(middle);
    lemma_rule_spans(bytes_per_line + 1);
    lemma_char_spans(connector);
    lemma_line_feed_spans();
    lemma_spans_add(rule(9), 9, connector, 1);
    lemma_spans_add(rule(9) + connector, 10, rule(middle), middle);
    lemma_spans_add(rule(9) + connector + rule(middle), 10 + middle, connector, 1);
    lemma_spans_add(
        border_head(bytes_per_line, connector),
        11 + middle,
        rule(bytes_per_line + 1),
        bytes_per_line + 1,
    );
    lemma_spans_add(
        border_head(bytes_per_line, connector) + rule(bytes_per_line + 1),
        12 + middle + bytes_per_line,
        seq![0x0au8],
        0,
    );
}

/// A line that shows as many bytes as the line writer is made for is as
/// wide as the border of the header and as the border of the footer; and in
/// any line, full or short, the bar that closes the hexadecimal numbers
/// stands below the second joint of the border.
pub proof fn lemma_lines_align_with_border(offset: u32, data: Seq<u8>, bytes_per_line: nat)
    requires
        valid_bytes_per_line(bytes_per_line),
        data.len() <= bytes_per_line,
    ensures
        data.len() == bytes_per_line ==> columns(line_text(offset, data, bytes_per_line))
            == columns(border_line(bytes_per_line, BorderWriter::CONNECTOR_TOP@)),
        data.len() == bytes_per_line ==> columns(line_text(offset, data, bytes_per_line))
            == columns(border_line(bytes_per_line, BorderWriter::CONNECTOR_BOTTOM@)),
        columns(border_line(bytes_per_line, BorderWriter::CONNECTOR_TOP@)) == 12 + 33 * (
        bytes_per_line / 8),
        columns(line_text(offset, data, bytes_per_line)) == 12 + 25 * (bytes_per_line / 8)
            + data.len(),
        columns(line_head(offset, data, bytes_per_line)) + 1 == columns(
            border_head(bytes_per_line, BorderWriter::CONNECTOR_TOP@),
        ),
{
    lemma_line_text_spans(offset, data, bytes_per_line);
    lemma_line_head_spans(offset, data, bytes_per_line);
    lemma_border_line_spans(bytes_per_line, BorderWriter::CONNECTOR_TOP@);
    lemma_border_line_spans(bytes_per_line, BorderWriter::CONNECTOR_BOTTOM@);
}

/// Where a terminal is wide enough for two groups, the lines of the line
/// writer that is made for its width are narrower than the terminal.
pub proof fn lemma_width_fits(max_width: nat)
    requires
        max_width >= 79,
    ensures
        valid_bytes_per_line(8 * groups_for_width(max_width)),
        line_width(8 * groups_for_width(max_width)) < max_width,
{
}

} // verus!
