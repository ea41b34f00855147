use crate::ascii_renderer::glyph_text;
use crate::ascii_renderer::AsciiRenderer;
use crate::border_writer::footer_text;
use crate::border_writer::header_text;
use crate::border_writer::BorderWriter;
use crate::byte_to_color::color_escape;
use crate::byte_to_color::color_id;
use crate::byte_to_color::ByteToColor;
use crate::error::HexlerError;
use crate::hex_formatter::blank_text;
use crate::hex_formatter::hex_text;
use crate::hex_formatter::offset_text;
use crate::hex_formatter::HexFormatter;
use vstd::prelude::*;

verus! {

/// Whether a number of bytes per line is accepted: a multiple of 8 that is
/// at least 8.
pub open spec fn valid_bytes_per_line(bytes_per_line: nat) -> bool {
    bytes_per_line >= 8 && bytes_per_line % 8 == 0
}

/// How many groups of eight bytes a line has on a terminal of `max_width`
/// columns: the largest `g >= 1` with `13 + (g + 1) * 33 <= max_width`, and
/// 1 where no such `g` exists.
pub open spec fn groups_for_width(max_width: nat) -> nat {
    if max_width < 79 {
        1
    } else {
        ((max_width - 13) / 33 - 1) as nat
    }
}

/// `groups_for_width` meets the condition wherever a number of groups does,
/// no larger number meets it, and it is at least 1.
pub proof fn lemma_groups_for_width(max_width: nat, groups: nat)
    ensures
        groups_for_width(max_width) >= 1,
        max_width >= 79 ==> 13 + (groups_for_width(max_width) + 1) * 33 <= max_width,
        groups >= 1 && 13 + (groups + 1) * 33 <= max_width ==> groups <= groups_for_width(
            max_width,
        ) && max_width >= 79,
{
}

/// The colour id that is in force when the byte at `index` is reached: that
/// of the byte before it, and 0 at the start of a column.
pub open spec fn color_before(data: Seq<u8>, index: int) -> u8 {
    if index <= 0 {
        0
    } else {
        color_id(data[index - 1])
    }
}

/// The escape sequence in front of the byte at `index`: that of its colour
/// where the colour changes there, and nothing within a run of one colour.
pub open spec fn color_change(data: Seq<u8>, index: int) -> Seq<u8> {
    if color_id(data[index]) != color_before(data, index) {
        color_escape(data[index])
    } else {
        Seq::empty()
    }
}

/// The reset escape where a colour other than the terminal's own is in force
/// at the end of `data`, else nothing.
pub open spec fn color_end(data: Seq<u8>) -> Seq<u8> {
    if color_before(data, data.len() as int) != 0 {
        LineWriter::COLOR_RESET@
    } else {
        Seq::empty()
    }
}

/// The space that opens a group of eight positions.
pub open spec fn group_gap(index: int) -> Seq<u8> {
    if index % 8 == 0 {
        seq![0x20u8]
    } else {
        Seq::empty()
    }
}

/// What the column of hexadecimal numbers holds for the position `index`:
/// the gap where a group begins, and then the byte's number after the change
/// of colour, or blanks where the data has ended.
pub open spec fn hex_cell(data: Seq<u8>, index: int) -> Seq<u8> {
    group_gap(index) + if index < data.len() {
        color_change(data, index) + hex_text(data[index])
    } else {
        blank_text()
    }
}

/// The first `count` positions of the column of hexadecimal numbers.
pub open spec fn hex_column(data: Seq<u8>, count: nat) -> Seq<u8>
    decreases count,
{
    if count == 0 {
        Seq::empty()
    } else {
        hex_column(data, (count - 1) as nat) + hex_cell(data, count - 1)
    }
}

/// What the column of characters holds for the byte at `index`.
pub open spec fn glyph_cell(data: Seq<u8>, index: int) -> Seq<u8> {
    color_change(data, index) + glyph_text(data[index])
}

/// The first `count` characters of the column of characters.
pub open spec fn glyph_column(data: Seq<u8>, count: nat) -> Seq<u8>
    decreases count,
{
    if count == 0 {
        Seq::empty()
    } else {
        glyph_column(data, (count - 1) as nat) + glyph_cell(data, count - 1)
    }
}

/// One line of the dump for the bytes `data`, which begin at `offset`: the
/// offset, a bar, the hexadecimal numbers in `bytes_per_line` positions, a
/// bar, the characters of the bytes, and a line feed.
pub open spec fn line_text(offset: u32, data: Seq<u8>, bytes_per_line: nat) -> Seq<u8> {
    offset_text(offset) + LineWriter::OFFSET_END@ + hex_column(data, bytes_per_line) + color_end(
        data,
    ) + LineWriter::GLYPHS_BEGIN@ + glyph_column(data, data.len()) + color_end(data) + seq![
        0x0au8,
    ]
}

/// The offset that is reached `count` bytes after `offset`. Offsets have 32
/// bits and start again at 0 after 4 GiB.
pub open spec fn advance(offset: u32, count: nat) -> u32 {
    ((offset + count) % 0x1_0000_0000) as u32
}

/// The lines of the dump for `data`, which begins at `offset`: each line but
/// the last takes `bytes_per_line` bytes, the last one what is left.
#[verifier::opaque]
pub open spec fn lines_text(offset: u32, data: Seq<u8>, bytes_per_line: nat) -> Seq<u8>
    decreases data.len(),
{
    if data.len() == 0 || bytes_per_line == 0 {
        Seq::empty()
    } else if data.len() <= bytes_per_line {
        line_text(offset, data, bytes_per_line)
    } else {
        line_text(offset, data.take(bytes_per_line as int), bytes_per_line) + lines_text(
            advance(offset, bytes_per_line),
            data.skip(bytes_per_line as int),
            bytes_per_line,
        )
    }
}

/// Which border to draw.
pub enum Border {
    Header,
    Footer,
}

/// Writes the lines of a dump: offset, hexadecimal numbers and characters.
pub struct LineWriter {
    hex_formatter: HexFormatter,
    ascii_renderer: AsciiRenderer,
    byte_to_color: ByteToColor,
    bytes_per_line: usize,
    byte_counter: u32,
}

impl LineWriter {
    /// `ESC [ 0 m`: back to the terminal's own colour.
    pub const COLOR_RESET: [u8; 4] = [0x1b, 0x5b, 0x30, 0x6d];

    /// What follows the offset: a space and the vertical bar U+2502.
    pub const OFFSET_END: [u8; 4] = [0x20, 0xe2, 0x94, 0x82];

    /// What opens the column of characters: the vertical bar and a space.
    pub const GLYPHS_BEGIN: [u8; 4] = [0xe2, 0x94, 0x82, 0x20];

    #[verifier::type_invariant]
    spec fn well_formed(self) -> bool {
        valid_bytes_per_line(self.bytes_per_line as nat)
    }

    /// The number of bytes that a line shows.
    pub closed spec fn width(&self) -> usize {
        self.bytes_per_line
    }

    /// The offset of the next byte that will be written.
    pub closed spec fn offset(&self) -> u32 {
        self.byte_counter
    }

    /// A line writer for `bytes_per_line` bytes per line, starting at the
    /// offset 0. Any number but a multiple of 8 that is at least 8 is
    /// refused, and the error holds it.
    pub fn new_bytes(bytes_per_line: usize) -> (result: Result<Self, HexlerError>)
        ensures
            valid_bytes_per_line(bytes_per_line as nat) ==> (result matches Ok(writer)
                && writer.width() == bytes_per_line && writer.offset() == 0),
            !valid_bytes_per_line(bytes_per_line as nat) ==> (result matches Err(
                HexlerError::InvalidBytesPerLine(n),
            ) && n == bytes_per_line),
    {
        if bytes_per_line < 8 || bytes_per_line % 8 != 0 {
            Err(HexlerError::InvalidBytesPerLine(bytes_per_line))
        } else {
            Ok(
                Self {
                    hex_formatter: HexFormatter::new(),
                    ascii_renderer: AsciiRenderer::new(),
                    byte_to_color: ByteToColor::new(),
                    bytes_per_line,
                    byte_counter: 0,
                },
            )
        }
    }

    /// A line writer for a terminal of `max_width` columns: with the largest
    /// number of groups of eight bytes `g >= 1` for which
    /// `13 + (g + 1) * 33 <= max_width`, and with one group where there is
    /// none.
    pub fn new_max_width(max_width: usize) -> (result: Result<Self, HexlerError>)
        ensures
            result matches Ok(writer) && writer.width() == 8 * groups_for_width(max_width as nat)
                && writer.offset() == 0,
    {
        let num_groups_of_8: usize = if max_width < 79 {
            1
        } else {
            (max_width - 13) / 33 - 1
        };
        Self::new_bytes(num_groups_of_8 * 8)
    }

    /// A line writer for a terminal of the given columns and rows, and the
    /// error `TerminalSizeError` where the size is not known.
    pub fn new_terminal(dimensions: Option<(usize, usize)>) -> (result: Result<Self, HexlerError>)
        ensures
            dimensions matches Some(size) ==> (result matches Ok(writer) && writer.width() == 8
                * groups_for_width(size.0 as nat) && writer.offset() == 0),
            dimensions is None ==> result matches Err(HexlerError::TerminalSizeError),
    {
        match dimensions {
            Some((columns, _)) => Self::new_max_width(columns),
            None => Err(HexlerError::TerminalSizeError),
        }
    }

    /// Sets the offset back to 0, where every dump begins.
    pub fn rewind(&mut self)
        ensures
            final(self).offset() == 0,
            final(self).width() == old(self).width(),
    {
        proof {
            use_type_invariant(&*self);
        }
        self.byte_counter = 0;
    }

    /// The number of bytes that a line shows: a multiple of 8, at least 8.
    pub fn bytes_per_line(&self) -> (bytes_per_line: usize)
        ensures
            bytes_per_line == self.width(),
            valid_bytes_per_line(bytes_per_line as nat),
    {
        proof {
            use_type_invariant(self);
        }
        self.bytes_per_line
    }

    /// Appends the header or the footer to `buffer`.
    pub fn write_border(&mut self, buffer: &mut Vec<u8>, border: Border, title: &str) -> (result:
        Result<(), HexlerError>)
        ensures
            result is Ok,
            *final(self) == *old(self),
            final(buffer)@ == old(buffer)@ + match border {
                Border::Header => header_text(title@, old(self).width() as nat),
                Border::Footer => footer_text(title@, old(self).width() as nat),
            },
    {
        match border {
            Border::Header => BorderWriter::write_header(buffer, title, self.bytes_per_line),
            Border::Footer => BorderWriter::write_footer(buffer, title, self.bytes_per_line),
        }
    }

    /// Appends to `buffer` the escape sequence of `byte` where its colour is
    /// not the one in force, and gives back the colour that is in force then.
    fn write_color_change(&self, buffer: &mut Vec<u8>, byte: u8, previous_color_id: u8) -> (id: u8)
        ensures
            id == color_id(byte),
            final(buffer)@ == old(buffer)@ + if color_id(byte) != previous_color_id {
                color_escape(byte)
            } else {
                Seq::empty()
            },
    {
        let next_color_id = self.byte_to_color.color_id(byte);
        if next_color_id != previous_color_id {
            buffer.extend_from_slice(self.byte_to_color.color_bytes(byte));
        } else {
            assert(buffer@ =~= old(buffer)@ + Seq::<u8>::empty());
        }
        next_color_id
    }

    /// Appends one line to `buffer`: the offset, the first `bytes_in_buffer`
    /// bytes of `line_data` as hexadecimal numbers, blanks up to the width of
    /// the line, and the same bytes as characters. The offset moves on by
    /// `bytes_in_buffer`.
    pub fn write_line(&mut self, buffer: &mut Vec<u8>, line_data: &[u8], bytes_in_buffer: usize)
        requires
            bytes_in_buffer <= line_data@.len(),
            bytes_in_buffer <= old(self).width(),
        ensures
            final(buffer)@ == old(buffer)@ + line_text(
                old(self).offset(),
                line_data@.take(bytes_in_buffer as int),
                old(self).width() as nat,
            ),
            final(self).offset() == advance(old(self).offset(), bytes_in_buffer as nat),
            final(self).width() == old(self).width(),
    {
        proof {
            use_type_invariant(&*self);
        }
        let ghost data = line_data@.take(bytes_in_buffer as int);
        let ghost width = self.bytes_per_line as nat;
        let ghost offset = self.byte_counter;

        self.hex_formatter.write_offset(buffer, self.byte_counter);
        buffer.extend_from_slice(&Self::OFFSET_END);
        let ghost head = old(buffer)@ + offset_text(offset) + Self::OFFSET_END@;
        assert(buffer@ =~= head);

        let step: u32 = #[verifier::truncate]
        (bytes_in_buffer as u32);
        proof {
            lemma_advance(self.byte_counter, bytes_in_buffer, step);
        }
        self.byte_counter = self.byte_counter.wrapping_add(step);

        // The bytes as hexadecimal numbers.
        let mut previous_color_id: u8 = 0;
        let mut i: usize = 0;
        assert(buffer@ =~= head + hex_column(data, 0));
        while i < bytes_in_buffer
            invariant
                i <= bytes_in_buffer <= line_data@.len(),
                data == line_data@.take(bytes_in_buffer as int),
                previous_color_id == color_before(data, i as int),
                buffer@ == head + hex_column(data, i as nat),
            decreases bytes_in_buffer - i,
        {
            let byte = line_data[i];
            let ghost before = buffer@;
            if i % 8 == 0 {
                buffer.push(0x20);
            }
            assert(buffer@ =~= before + group_gap(i as int));
            previous_color_id = self.write_color_change(buffer, byte, previous_color_id);
            buffer.extend_from_slice(self.hex_formatter.hex_byte(byte));
            i += 1;
            assert(buffer@ =~= before + hex_cell(data, i - 1));
            assert(buffer@ =~= head + hex_column(data, i as nat));
        }

        // Blanks in the positions that have no byte.
        while i < self.bytes_per_line
            invariant
                bytes_in_buffer <= i <= self.bytes_per_line,
                self.bytes_per_line == width,
                data.len() == bytes_in_buffer,
                buffer@ == head + hex_column(data, i as nat),
            decreases self.bytes_per_line - i,
        {
            let ghost before = buffer@;
            if i % 8 == 0 {
                buffer.push(0x20);
            }
            assert(buffer@ =~= before + group_gap(i as int));
            buffer.extend_from_slice(HexFormatter::hex_space());
            i += 1;
            assert(buffer@ =~= before + hex_cell(data, i - 1));
            assert(buffer@ =~= head + hex_column(data, i as nat));
        }

        // The bytes as characters.
        if previous_color_id != 0 {
            buffer.extend_from_slice(&Self::COLOR_RESET);
            previous_color_id = 0;
        }
        buffer.extend_from_slice(&Self::GLYPHS_BEGIN);
        let ghost middle = head + hex_column(data, width) + color_end(data) + Self::GLYPHS_BEGIN@;
        assert(buffer@ =~= middle);

        let mut j: usize = 0;
        assert(buffer@ =~= middle + glyph_column(data, 0));
        while j < bytes_in_buffer
            invariant
                j <= bytes_in_buffer <= line_data@.len(),
                data == line_data@.take(bytes_in_buffer as int),
                previous_color_id == color_before(data, j as int),
                buffer@ == middle + glyph_column(data, j as nat),
            decreases bytes_in_buffer - j,
        {
            let byte = line_data[j];
            let ghost before = buffer@;
            previous_color_id = self.write_color_change(buffer, byte, previous_color_id);
            buffer.extend_from_slice(self.ascii_renderer.render_bytes(byte));
            j += 1;
            assert(buffer@ =~= before + glyph_cell(data, j - 1));
            assert(buffer@ =~= middle + glyph_column(data, j as nat));
        }

        if previous_color_id != 0 {
            buffer.extend_from_slice(&Self::COLOR_RESET);
        }
        buffer.push(0x0a);
        assert(buffer@ =~= old(buffer)@ + line_text(offset, data, width));
    }

    /// Appends to `buffer` the lines for all of `data`: lines of full width
    /// and, where bytes are left over, a shorter last line. The offset moves
    /// on by the length of `data`.
    pub fn write_lines(&mut self, buffer: &mut Vec<u8>, data: &[u8])
        ensures
            final(buffer)@ == old(buffer)@ + lines_text(
                old(self).offset(),
                data@,
                old(self).width() as nat,
            ),
            final(self).offset() == advance(old(self).offset(), data@.len()),
            final(self).width() == old(self).width(),
    {
        proof {
            use_type_invariant(&*self);
        }
        let ghost width = self.bytes_per_line as nat;
        let total = data.len();
        let mut position: usize = 0;
        assert(data@.skip(0) =~= data@);
        assert(buffer@ =~= old(buffer)@ + Seq::<u8>::empty());
        while position < total
            invariant
                position <= total == data@.len(),
                self.width() == width == old(self).width(),
                valid_bytes_per_line(width),
                self.offset() == advance(old(self).offset(), position as nat),
                buffer@ + lines_text(self.offset(), data@.skip(position as int), width) == old(
                    buffer,
                )@ + lines_text(old(self).offset(), data@, width),
            decreases total - position,
        {
            let available = total - position;
            let bytes_per_line = self.bytes_per_line();
            let to_write = if available < bytes_per_line {
                available
            } else {
                bytes_per_line
            };
            let line = vstd::slice::slice_subrange(data, position, position + to_write);
            let ghost rest = data@.skip(position as int);
            let ghost before = buffer@;
            let ghost start = self.offset();
            proof {
                assert(line@.take(to_write as int) =~= rest.take(to_write as int));
                assert(rest.skip(to_write as int) =~= data@.skip(position + to_write));
                if available <= bytes_per_line {
                    assert(rest.take(to_write as int) =~= rest);
                    assert(data@.skip(position + to_write).len() == 0);
                }
                lemma_advance_twice(old(self).offset(), position as nat, to_write as nat);
                lemma_lines_text_unfold(start, rest, width);
                lemma_lines_text_unfold(
                    advance(start, to_write as nat),
                    data@.skip(position + to_write),
                    width,
                );
            }
            self.write_line(buffer, line, to_write);
            position += to_write;
            assert(buffer@ + lines_text(self.offset(), data@.skip(position as int), width)
                =~= before + lines_text(start, rest, width));
        }
        proof {
            lemma_lines_text_unfold(self.offset(), data@.skip(position as int), width);
            assert(buffer@ + Seq::<u8>::empty() =~= buffer@);
        }
    }
}

/// `lines_text` by cases: no data, one line, or a first line and the rest.
pub proof fn lemma_lines_text_unfold(offset: u32, data: Seq<u8>, bytes_per_line: nat)
    requires
        bytes_per_line > 0,
    ensures
        data.len() == 0 ==> lines_text(offset, data, bytes_per_line) == Seq::<u8>::empty(),
        0 < data.len() <= bytes_per_line ==> lines_text(offset, data, bytes_per_line)
            == line_text(offset, data, bytes_per_line),
        data.len() > bytes_per_line ==> lines_text(offset, data, bytes_per_line) == line_text(
            offset,
            data.take(bytes_per_line as int),
            bytes_per_line,
        ) + lines_text(
            advance(offset, bytes_per_line),
            data.skip(bytes_per_line as int),
            bytes_per_line,
        ),
{
    reveal(lines_text);
}

/// Data may be handed over in pieces: where a first piece ends with a whole
/// line, the lines of the pieces, one after the other, are the lines of the
/// whole.
pub proof fn lemma_lines_text_split(offset: u32, data: Seq<u8>, bytes_per_line: nat, first: nat)
    requires
        bytes_per_line > 0,
        first % bytes_per_line == 0,
        first <= data.len(),
    ensures
        lines_text(offset, data, bytes_per_line) == lines_text(
            offset,
            data.take(first as int),
            bytes_per_line,
        ) + lines_text(advance(offset, first), data.skip(first as int), bytes_per_line),
    decreases first,
{
    let head = data.take(first as int);
    let tail = data.skip(first as int);
    let whole = lines_text(offset, data, bytes_per_line);
    let empty = Seq::<u8>::empty();
    lemma_lines_text_unfold(offset, data, bytes_per_line);
    lemma_lines_text_unfold(offset, head, bytes_per_line);
    if first == 0 {
        assert(tail =~= data);
        assert(advance(offset, 0) == offset);
        assert(empty + whole =~= whole);
    } else {
        if first < bytes_per_line {
            vstd::arithmetic::div_mod::lemma_small_mod(first, bytes_per_line);
        }
        let width = bytes_per_line as int;
        let next = advance(offset, bytes_per_line);
        if data.len() <= bytes_per_line {
            assert(head =~= data);
            lemma_lines_text_unfold(advance(offset, first), tail, bytes_per_line);
            assert(whole + empty =~= whole);
        } else {
            let rest = data.skip(width);
            let less = (first - bytes_per_line) as nat;
            vstd::arithmetic::div_mod::lemma_mod_sub_multiples_vanish(first as int, width);
            lemma_lines_text_split(next, rest, bytes_per_line, less);
            lemma_advance_twice(offset, bytes_per_line, less);
            assert(rest.skip(less as int) =~= tail);
            assert(head.take(width) =~= data.take(width));
            let first_line = line_text(offset, data.take(width), bytes_per_line);
            let middle = lines_text(next, rest.take(less as int), bytes_per_line);
            let last = lines_text(advance(offset, first), tail, bytes_per_line);
            assert(whole == first_line + (middle + last));
            if first == bytes_per_line {
                lemma_lines_text_unfold(next, rest.take(less as int), bytes_per_line);
                assert(head =~= data.take(width));
                assert(first_line + (empty + last) =~= first_line + last);
            } else {
                assert(head.skip(width) =~= rest.take(less as int));
                assert(first_line + (middle + last) =~= (first_line + middle) + last);
            }
        }
    }
}

/// Adding the low 32 bits of a count, and letting the sum wrap, advances an
/// offset by the count.
proof fn lemma_advance(offset: u32, count: usize, step: u32)
    requires
        step == count as u32,
    ensures
        vstd::wrapping::u32_specs::wrapping_add(offset, step) == advance(offset, count as nat),
{
    assert(count as u32 == (count as u64) % 0x1_0000_0000u64) by (bit_vector);
    let c = count as int;
    let s = step as int;
    let o = offset as int;
    assert(s == c % 0x1_0000_0000);
    assert((o + s) % 0x1_0000_0000 == (o + c) % 0x1_0000_0000) by {
        vstd::arithmetic::div_mod::lemma_add_mod_noop_right(o, c, 0x1_0000_0000);
        vstd::arithmetic::div_mod::lemma_add_mod_noop_right(o, s, 0x1_0000_0000);
        vstd::arithmetic::div_mod::lemma_mod_twice(c, 0x1_0000_0000);
    }
}

/// Advancing by `a` and then by `b` is advancing by `a + b`.
pub proof fn lemma_advance_twice(offset: u32, a: nat, b: nat)
    ensures
        advance(advance(offset, a), b) == advance(offset, a + b),
{
    let o = offset as int;
    vstd::arithmetic::div_mod::lemma_add_mod_noop((o + a) as int, b as int, 0x1_0000_0000);
    vstd::arithmetic::div_mod::lemma_add_mod_noop((o + a) % 0x1_0000_0000, b as int, 0x1_0000_0000);
    vstd::arithmetic::div_mod::lemma_mod_twice((o + a) as int, 0x1_0000_0000);
}

} // verus!
