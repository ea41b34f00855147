use crate::border_writer::footer_text;
use crate::border_writer::header_text;
use crate::error::HexlerError;
use crate::error::IoErrorKind;
use crate::error::IoFailure;
use crate::line_writer::advance;
use crate::line_writer::lines_text;
use crate::line_writer::Border;
use crate::line_writer::LineWriter;
use vstd::prelude::*;

verus! {

/// Where the producer of a dump stands. It renders into one buffer while the
/// writer has the other, and it waits after each step for what the step has
/// asked for.
#[derive(Clone, Copy, Debug, PartialEq, Eq, Structural)]
pub enum Stage {
    /// The header is on its way to the writer.
    SendingHeader,
    /// A chunk of the source is being read.
    Reading,
    /// The lines of a chunk are on their way to the writer.
    SendingLines,
    /// The producer waits for the buffer that the writer gives back.
    Recycling,
    /// The footer is on its way to the writer.
    SendingFooter,
    /// The producer waits for the writer to end.
    Joining,
    /// The dump has ended.
    Done,
}

/// What happened outside since the last step.
pub enum Event<'a> {
    /// The writer has taken the buffer.
    Sent,
    /// The writer is gone: it takes no buffer and gives none back.
    Disconnected,
    /// The source has given these bytes; none at its end.
    Chunk(&'a [u8]),
    /// The source has failed.
    ReadFailed(IoFailure),
    /// The writer has given back this buffer.
    Recycled(Vec<u8>),
    /// The writer has ended, with the failure of the sink if there was one.
    Joined(Result<(), IoFailure>),
}

/// What is to be done outside before the next step.
pub enum Action {
    /// Hand this buffer to the writer.
    Send(Vec<u8>),
    /// Read the next chunk from the source: `Pipeline::chunk_size` bytes,
    /// and fewer only at the end of the source.
    Read,
    /// Wait for the buffer that the writer gives back.
    Recycle,
    /// Close the way to the writer and wait for it to end.
    Join,
    /// Stop. This is how the dump has ended.
    Finish(Result<(), HexlerError>),
}

/// The producer's side of a dump.
pub struct Pipeline {
    stage: Stage,
    buffer: Vec<u8>,
}

/// The largest number of bytes that is read at once.
pub const MAX_READ_BUFFER_SIZE: usize = 65536;

/// The number of bytes that are read at once: as many whole lines as
/// `MAX_READ_BUFFER_SIZE` bytes hold, and one line where it holds none.
pub open spec fn chunk_size_for(bytes_per_line: nat) -> nat {
    if bytes_per_line > MAX_READ_BUFFER_SIZE {
        bytes_per_line
    } else {
        (MAX_READ_BUFFER_SIZE as nat / bytes_per_line) * bytes_per_line
    }
}

/// A chunk holds whole lines, and at least one.
pub proof fn lemma_chunk_size(bytes_per_line: nat)
    requires
        bytes_per_line > 0,
    ensures
        chunk_size_for(bytes_per_line) >= bytes_per_line,
        chunk_size_for(bytes_per_line) % bytes_per_line == 0,
        bytes_per_line <= MAX_READ_BUFFER_SIZE ==> chunk_size_for(bytes_per_line)
            <= MAX_READ_BUFFER_SIZE,
{
    let d = bytes_per_line as int;
    if bytes_per_line <= MAX_READ_BUFFER_SIZE {
        let q = 65536int / d;
        vstd::arithmetic::div_mod::lemma_fundamental_div_mod(65536, d);
        vstd::arithmetic::div_mod::lemma_mod_multiples_basic(q, d);
        assert(q >= 1) by {
            vstd::arithmetic::div_mod::lemma_div_is_ordered(d, 65536, d);
            vstd::arithmetic::div_mod::lemma_div_basics(d);
        }
        assert(q * d >= d) by (nonlinear_arith)
            requires
                q >= 1,
                d > 0,
        ;
        assert(q * d == d * q) by (nonlinear_arith);
    } else {
        vstd::arithmetic::div_mod::lemma_mod_self_0(d);
    }
}

/// The text of the failure that is reported when the writer is gone.
pub open spec fn disconnected_text() -> Seq<char> {
    "Writer thread disconnected"@
}

/// Whether `event` can follow the action that led to `stage`.
pub open spec fn accepts(stage: Stage, event: Event) -> bool {
    match stage {
        Stage::SendingHeader | Stage::SendingLines | Stage::SendingFooter => event is Sent
            || event is Disconnected,
        Stage::Reading => event is Chunk || event is ReadFailed,
        Stage::Recycling => event is Recycled || event is Disconnected,
        Stage::Joining => event is Joined,
        Stage::Done => false,
    }
}

/// The stage that follows `stage` on `event`.
pub open spec fn next_stage(stage: Stage, event: Event) -> Stage {
    match (stage, event) {
        (Stage::SendingHeader, Event::Sent) => Stage::Reading,
        (Stage::Reading, Event::Chunk(data)) => if data@.len() > 0 {
            Stage::SendingLines
        } else {
            Stage::SendingFooter
        },
        (Stage::SendingLines, Event::Sent) => Stage::Recycling,
        (Stage::Recycling, Event::Recycled(_)) => Stage::Reading,
        (Stage::SendingFooter, Event::Sent) => Stage::Joining,
        _ => Stage::Done,
    }
}

/// Whether `action` is what the producer asks for when `event` reaches it
/// in `stage`, with a line writer that stands at `offset` and shows
/// `bytes_per_line` bytes in a line.
pub open spec fn answers(
    stage: Stage,
    event: Event,
    offset: u32,
    bytes_per_line: nat,
    action: Action,
) -> bool {
    match (stage, event) {
        (Stage::SendingHeader, Event::Sent) => action is Read,
        (Stage::Reading, Event::Chunk(data)) => action matches Action::Send(buffer) && buffer@
            == if data@.len() > 0 {
            lines_text(offset, data@, bytes_per_line)
        } else {
            footer_text(Seq::empty(), bytes_per_line)
        },
        (Stage::Reading, Event::ReadFailed(failure)) => action matches Action::Finish(
            Err(HexlerError::Io(reported)),
        ) && reported == failure,
        (Stage::SendingLines, Event::Sent) => action is Recycle,
        (Stage::Recycling, Event::Recycled(_)) => action is Read,
        (Stage::SendingFooter, Event::Sent) => action is Join,
        (Stage::Joining, Event::Joined(Ok(_))) => action matches Action::Finish(Ok(_)),
        (Stage::Joining, Event::Joined(Err(failure))) => action matches Action::Finish(
            Err(HexlerError::Io(reported)),
        ) && reported == failure,
        _ => action matches Action::Finish(Err(HexlerError::Io(reported))) && reported.kind
            == IoErrorKind::BrokenPipe && reported.message@ == disconnected_text(),
    }
}

/// The number of bytes that `event` has brought from the source.
pub open spec fn bytes_read(event: Event) -> nat {
    match event {
        Event::Chunk(data) => data@.len(),
        _ => 0,
    }
}

impl Pipeline {
    #[verifier::type_invariant]
    spec fn well_formed(self) -> bool {
        self.buffer@.len() == 0
    }

    /// Where the producer stands.
    pub closed spec fn stage(&self) -> Stage {
        self.stage
    }

    /// The number of bytes to read at once for `line_writer`: whole lines,
    /// so that only the last line of the source can be short.
    pub fn chunk_size(line_writer: &LineWriter) -> (size: usize)
        ensures
            size == chunk_size_for(line_writer.width() as nat),
            size >= line_writer.width() >= 8,
            size % line_writer.width() == 0,
            line_writer.width() % 8 == 0,
    {
        let bytes_per_line = line_writer.bytes_per_line();
        proof {
            lemma_chunk_size(bytes_per_line as nat);
        }
        if bytes_per_line > MAX_READ_BUFFER_SIZE {
            bytes_per_line
        } else {
            (MAX_READ_BUFFER_SIZE / bytes_per_line) * bytes_per_line
        }
    }

    /// Begins a dump: the line writer goes back to the offset 0, and the
    /// first buffer, which holds the header, is to be sent.
    pub fn start(title: &str, line_writer: &mut LineWriter) -> (started: (Pipeline, Action))
        ensures
            started.0.stage() == Stage::SendingHeader,
            started.1 matches Action::Send(buffer) && buffer@ == header_text(
                title@,
                old(line_writer).width() as nat,
            ),
            final(line_writer).offset() == 0,
            final(line_writer).width() == old(line_writer).width(),
    {
        line_writer.rewind();
        let mut header: Vec<u8> = Vec::new();
        let _ = line_writer.write_border(&mut header, Border::Header, title);
        assert(header@ =~= header_text(title@, old(line_writer).width() as nat));
        (Pipeline { stage: Stage::SendingHeader, buffer: Vec::new() }, Action::Send(header))
    }

    /// Whether `event` can follow the action that the producer has asked
    /// for.
    pub fn expects(&self, event: &Event) -> (answer: bool)
        ensures
            answer == accepts(self.stage(), *event),
    {
        match self.stage {
            Stage::SendingHeader | Stage::SendingLines | Stage::SendingFooter => match event {
                Event::Sent | Event::Disconnected => true,
                _ => false,
            },
            Stage::Reading => match event {
                Event::Chunk(_) | Event::ReadFailed(_) => true,
                _ => false,
            },
            Stage::Recycling => match event {
                Event::Recycled(_) | Event::Disconnected => true,
                _ => false,
            },
            Stage::Joining => match event {
                Event::Joined(_) => true,
                _ => false,
            },
            Stage::Done => false,
        }
    }

    /// One step of the producer: takes what has happened and says what is to
    /// be done next. The lines of a chunk are rendered into the buffer that
    /// the producer holds, and the line writer moves on by the chunk; the
    /// footer follows an empty chunk. A writer that is gone ends the dump
    /// with the failure of a broken pipe, a failed read and a failed sink
    /// end it with their own failure.
    pub fn step(self, line_writer: &mut LineWriter, event: Event) -> (next: (Pipeline, Action))
        requires
            accepts(self.stage(), event),
        ensures
            next.0.stage() == next_stage(self.stage(), event),
            answers(
                self.stage(),
                event,
                old(line_writer).offset(),
                old(line_writer).width() as nat,
                next.1,
            ),
            final(line_writer).width() == old(line_writer).width(),
            final(line_writer).offset() == if self.stage() == Stage::Reading {
                advance(old(line_writer).offset(), bytes_read(event))
            } else {
                old(line_writer).offset()
            },
    {
        proof {
            use_type_invariant(&self);
            assert(advance(line_writer.offset(), 0) == line_writer.offset());
        }
        let Pipeline { stage, buffer } = self;
        match (stage, event) {
            (Stage::SendingHeader, Event::Sent) => (
                Pipeline { stage: Stage::Reading, buffer },
                Action::Read,
            ),
            (Stage::Reading, Event::Chunk(data)) => {
                let mut buffer = buffer;
                if data.len() > 0 {
                    line_writer.write_lines(&mut buffer, data);
                    assert(buffer@ =~= lines_text(
                        old(line_writer).offset(),
                        data@,
                        old(line_writer).width() as nat,
                    ));
                    (
                        Pipeline { stage: Stage::SendingLines, buffer: Vec::new() },
                        Action::Send(buffer),
                    )
                } else {
                    let _ = line_writer.write_border(&mut buffer, Border::Footer, "");
                    proof {
                        reveal_strlit("");
                        assert(""@ =~= Seq::<char>::empty());
                        assert(buffer@ =~= footer_text(
                            Seq::empty(),
                            old(line_writer).width() as nat,
                        ));
                    }
                    (
                        Pipeline { stage: Stage::SendingFooter, buffer: Vec::new() },
                        Action::Send(buffer),
                    )
                }
            },
            (Stage::Reading, Event::ReadFailed(failure)) => (
                Pipeline { stage: Stage::Done, buffer },
                Action::Finish(Err(HexlerError::Io(failure))),
            ),
            (Stage::SendingLines, Event::Sent) => (
                Pipeline { stage: Stage::Recycling, buffer },
                Action::Recycle,
            ),
            (Stage::Recycling, Event::Recycled(returned)) => {
                let mut returned = returned;
                returned.clear();
                (Pipeline { stage: Stage::Reading, buffer: returned }, Action::Read)
            },
            (Stage::SendingFooter, Event::Sent) => (
                Pipeline { stage: Stage::Joining, buffer },
                Action::Join,
            ),
            (Stage::Joining, Event::Joined(Ok(_))) => (
                Pipeline { stage: Stage::Done, buffer },
                Action::Finish(Ok(())),
            ),
            (Stage::Joining, Event::Joined(Err(failure))) => (
                Pipeline { stage: Stage::Done, buffer },
                Action::Finish(Err(HexlerError::Io(failure))),
            ),
            _ => (
                Pipeline { stage: Stage::Done, buffer },
                Action::Finish(
                    Err(HexlerError::Io(IoFailure::broken_pipe("Writer thread disconnected"))),
                ),
            ),
        }
    }
}

} // verus!
