pub mod ascii_renderer;
pub mod border_writer;
pub mod byte_to_color;
pub mod error;
pub mod hex_formatter;
pub mod layout;
pub mod line_writer;
pub mod pipeline;
pub mod title;

use crate::border_writer::footer_text;
use crate::border_writer::header_text;
use crate::error::HexlerError;
use crate::line_writer::advance;
use crate::line_writer::groups_for_width;
use crate::line_writer::lemma_advance_twice;
use crate::line_writer::lemma_lines_text_split;
use crate::line_writer::lines_text;
use crate::line_writer::valid_bytes_per_line;
use crate::line_writer::LineWriter;
use crate::pipeline::Action;
use crate::pipeline::Event;
use crate::pipeline::Pipeline;
use crate::pipeline::Stage;
use vstd::prelude::*;

verus! {

/// What the command line asks for.
pub struct Args {
    /// The number of bytes per line, where it is not to follow from the
    /// width of the terminal.
    pub num_bytes_per_line: Option<usize>,
    /// Write to the standard output and start no pager.
    pub stdout: bool,
    /// Show the bytes from 0 to 255 in place of any input.
    pub demo: bool,
    /// The file to show; the standard input where there is none.
    pub file: Option<String>,
}

/// Where the bytes of a dump come from.
pub enum Source {
    /// The bytes from 0 to 255.
    Demo,
    /// The file of this name.
    File(String),
    /// The standard input.
    Stdin,
}

impl Args {
    /// Whether the output goes through a pager.
    pub fn use_pager(&self) -> (answer: bool)
        ensures
            answer == !self.stdout,
    {
        !self.stdout
    }

    /// Whether the width of the terminal decides the number of bytes per
    /// line.
    pub fn needs_terminal(&self) -> (answer: bool)
        ensures
            answer == (self.num_bytes_per_line is None),
    {
        self.num_bytes_per_line.is_none()
    }

    /// The line writer for these arguments: with the number of bytes per
    /// line that they name, and else with the one that follows from the size
    /// of the terminal, `terminal`.
    pub fn line_writer(&self, terminal: Option<(usize, usize)>) -> (result: Result<
        LineWriter,
        HexlerError,
    >)
        ensures
            match (self.num_bytes_per_line, terminal) {
                (Some(n), _) => if valid_bytes_per_line(n as nat) {
                    result matches Ok(writer) && writer.width() == n && writer.offset() == 0
                } else {
                    result matches Err(HexlerError::InvalidBytesPerLine(refused)) && refused == n
                },
                (None, Some(size)) => result matches Ok(writer) && writer.width() == 8
                    * groups_for_width(size.0 as nat) && writer.offset() == 0,
                (None, None) => result matches Err(HexlerError::TerminalSizeError),
            },
    {
        match self.num_bytes_per_line {
            Some(num_bytes) => LineWriter::new_bytes(num_bytes),
            None => LineWriter::new_terminal(terminal),
        }
    }

    /// Where the bytes come from: the demonstration wins over a file, a file
    /// over the standard input.
    pub fn source(&self) -> (source: Source)
        ensures
            self.demo ==> source is Demo,
            !self.demo ==> match self.file {
                Some(name) => source matches Source::File(file) && file@ == name@,
                None => source is Stdin,
            },
    {
        if self.demo {
            Source::Demo
        } else {
            match &self.file {
                Some(name) => Source::File(name.clone()),
                None => Source::Stdin,
            }
        }
    }
}

/// The bytes of the demonstration: 0, 1, .. 255.
pub open spec fn demo_bytes() -> Seq<u8> {
    Seq::new(256, |i: int| i as u8)
}

/// A whole dump: the header with the title, the lines of `data`, whose
/// first byte has the offset 0, and the footer, which has no title.
pub open spec fn dump_text(title: Seq<char>, data: Seq<u8>, bytes_per_line: nat) -> Seq<u8> {
    header_text(title, bytes_per_line) + lines_text(0, data, bytes_per_line) + footer_text(
        Seq::empty(),
        bytes_per_line,
    )
}

/// The dump of no bytes is the header and, right below it, the footer.
pub proof fn lemma_dump_of_nothing(title: Seq<char>, bytes_per_line: nat)
    requires
        valid_bytes_per_line(bytes_per_line),
    ensures
        dump_text(title, Seq::empty(), bytes_per_line) == header_text(title, bytes_per_line)
            + footer_text(Seq::empty(), bytes_per_line),
{
    crate::line_writer::lemma_lines_text_unfold(0, Seq::empty(), bytes_per_line);
    assert(header_text(title, bytes_per_line) + Seq::<u8>::empty() =~= header_text(
        title,
        bytes_per_line,
    ));
}

/// A dump may be made chunk by chunk: where the data before a chunk ends
/// with a whole line, the lines up to the chunk and the lines of the chunk
/// are the lines of all the data up to the end of the chunk.
pub proof fn lemma_dump_by_chunks(offset: u32, before: Seq<u8>, chunk: Seq<u8>, bytes_per_line: nat)
    requires
        valid_bytes_per_line(bytes_per_line),
        before.len() % bytes_per_line == 0,
    ensures
        lines_text(offset, before, bytes_per_line) + lines_text(
            advance(offset, before.len()),
            chunk,
            bytes_per_line,
        ) == lines_text(offset, before + chunk, bytes_per_line),
{
    let all = before + chunk;
    assert(all.take(before.len() as int) =~= before);
    assert(all.skip(before.len() as int) =~= chunk);
    lemma_lines_text_split(offset, all, bytes_per_line, before.len());
}

/// Hands the buffer of a `Send` to `writer`, as the writer of a dump does,
/// and gives the buffer back.
fn deliver(action: Action, writer: &mut Vec<u8>) -> (buffer: Vec<u8>)
    requires
        action is Send,
    ensures
        action matches Action::Send(sent) && final(writer)@ == old(writer)@ + sent@,
{
    match action {
        Action::Send(buffer) => {
            writer.extend_from_slice(buffer.as_slice());
            assert(writer@ =~= old(writer)@ + buffer@);
            buffer
        },
        _ => vstd::pervasive::unreached(),
    }
}

/// Appends to `writer` the dump of `data` under `title`: header, lines and
/// footer, in this order. The offsets begin at 0, wherever `line_writer`
/// stood before.
///
/// The dump is made as a stream is dumped: the producer is taken through its
/// steps, the data reaches it in chunks of `Pipeline::chunk_size` bytes, and
/// each buffer that it sends is written before the next one is rendered.
pub fn dump(title: &str, data: &[u8], line_writer: &mut LineWriter, writer: &mut Vec<u8>) -> (result:
    Result<(), HexlerError>)
    ensures
        result is Ok,
        final(writer)@ == old(writer)@ + dump_text(
            title@,
            data@,
            old(line_writer).width() as nat,
        ),
        final(line_writer).offset() == advance(0, data@.len()),
        final(line_writer).width() == old(line_writer).width(),
{
    let ghost width = line_writer.width() as nat;
    let ghost origin = 0u32;
    let ghost start = writer@ + header_text(title@, width);
    let chunk_size = Pipeline::chunk_size(line_writer);
    let total = data.len();

    let (pipeline, action) = Pipeline::start(title, line_writer);
    let _ = deliver(action, writer);
    let (pipeline, action) = pipeline.step(line_writer, Event::Sent);
    let mut pipeline = pipeline;

    let mut position: usize = 0;
    proof {
        crate::line_writer::lemma_lines_text_unfold(origin, data@.take(0), width);
        assert(writer@ =~= start + lines_text(origin, data@.take(0), width));
        assert(advance(origin, 0) == origin);
    }
    while position < total
        invariant
            position <= total == data@.len(),
            pipeline.stage() == Stage::Reading,
            line_writer.width() == width,
            valid_bytes_per_line(width),
            chunk_size >= width,
            chunk_size as int % (width as int) == 0,
            position % chunk_size == 0 || position == total,
            line_writer.offset() == advance(origin, position as nat),
            writer@ == start + lines_text(origin, data@.take(position as int), width),
        decreases total - position,
    {
        let available = total - position;
        let count = if available < chunk_size {
            available
        } else {
            chunk_size
        };
        let chunk = vstd::slice::slice_subrange(data, position, position + count);
        let (next, action) = pipeline.step(line_writer, Event::Chunk(chunk));
        let buffer = deliver(action, writer);
        let (next, action) = next.step(line_writer, Event::Sent);
        let (next, action) = next.step(line_writer, Event::Recycled(buffer));
        pipeline = next;

        proof {
            lemma_chunk_appended(
                origin,
                data@,
                width,
                chunk_size as nat,
                position as nat,
                count as nat,
            );
            assert(writer@ =~= start + lines_text(
                origin,
                data@.take(position + count),
                width,
            ));
        }
        position += count;
    }
    let (pipeline, action) = pipeline.step(
        line_writer,
        Event::Chunk(vstd::slice::slice_subrange(data, total, total)),
    );
    let _ = deliver(action, writer);
    let (pipeline, action) = pipeline.step(line_writer, Event::Sent);
    let (pipeline, action) = pipeline.step(line_writer, Event::Joined(Ok(())));
    proof {
        assert(data@.take(total as int) =~= data@);
        assert(writer@ =~= old(writer)@ + dump_text(title@, data@, width));
    }
    match action {
        Action::Finish(result) => result,
        _ => vstd::pervasive::unreached(),
    }
}

/// The lines of a chunk that begins at a multiple of the chunk size go on
/// from the lines of the data before it.
proof fn lemma_chunk_appended(
    origin: u32,
    data: Seq<u8>,
    width: nat,
    chunk_size: nat,
    position: nat,
    count: nat,
)
    requires
        width > 0,
        chunk_size > 0,
        chunk_size % width == 0,
        position % chunk_size == 0,
        position + count <= data.len(),
        count == chunk_size || position + count == data.len(),
    ensures
        lines_text(origin, data.take(position as int), width) + lines_text(
            advance(origin, position),
            data.subrange(position as int, (position + count) as int),
            width,
        ) == lines_text(origin, data.take((position + count) as int), width),
        advance(advance(origin, position), count) == advance(origin, position + count),
        (position + count) % chunk_size == 0 || position + count == data.len(),
{
    let seen = data.take((position + count) as int);
    assert(seen.take(position as int) =~= data.take(position as int));
    assert(seen.skip(position as int) =~= data.subrange(position as int, (position + count) as int));
    lemma_multiple_of_multiple(position as int, chunk_size as int, width as int);
    lemma_lines_text_split(origin, seen, width, position);
    lemma_advance_twice(origin, position, count);
    if count == chunk_size {
        vstd::arithmetic::div_mod::lemma_mod_add_multiples_vanish(
            position as int,
            chunk_size as int,
        );
    }
}

/// A multiple of a multiple of `c` is a multiple of `c`.
proof fn lemma_multiple_of_multiple(a: int, b: int, c: int)
    requires
        b > 0,
        c > 0,
        a >= 0,
        a % b == 0,
        b % c == 0,
    ensures
        a % c == 0,
{
    vstd::arithmetic::div_mod::lemma_fundamental_div_mod(a, b);
    vstd::arithmetic::div_mod::lemma_fundamental_div_mod(b, c);
    let q = a / b;
    let r = b / c;
    assert(a == c * (r * q)) by (nonlinear_arith)
        requires
            a == b * q,
            b == c * r,
    ;
    vstd::arithmetic::div_mod::lemma_mod_multiples_basic(r * q, c);
    assert(c * (r * q) == (r * q) * c) by (nonlinear_arith);
}

/// Appends to `writer` the dump of the bytes from 0 to 255.
pub fn demo(line_writer: &mut LineWriter, writer: &mut Vec<u8>) -> (result: Result<
    (),
    HexlerError,
>)
    ensures
        result is Ok,
        final(writer)@ == old(writer)@ + dump_text(
            "demo, 256 bytes, 0 to 255"@,
            demo_bytes(),
            old(line_writer).width() as nat,
        ),
        final(line_writer).offset() == advance(0, 256),
        final(line_writer).width() == old(line_writer).width(),
{
    let mut arr = [0u8; 256];
    let mut i: usize = 0;
    while i < 256
        invariant
            i <= 256,
            forall|j: int| 0 <= j < i ==> arr[j] == j as u8,
        decreases 256 - i,
    {
        arr[i] = i as u8;
        i += 1;
    }
    assert(arr@ =~= demo_bytes());
    dump("demo, 256 bytes, 0 to 255", arr.as_slice(), line_writer, writer)
}

} // verus!
