use vstd::prelude::*;
use vstd::string::StringExecFns;

verus! {

/// What the library keeps of a failed read or write: whether the other side
/// of a pipe went away, and the text that describes the failure.
#[derive(Debug, Clone, Copy, PartialEq, Eq, Structural)]
pub enum IoErrorKind {
    /// The sink was closed while output was still on its way to it.
    BrokenPipe,
    /// Any other failure.
    Other,
}

/// A failed read or write.
#[derive(Debug)]
pub struct IoFailure {
    pub kind: IoErrorKind,
    pub message: String,
}

/// What can go wrong while a dump is set up or runs.
#[derive(Debug)]
pub enum HexlerError {
    /// The number of bytes per line is not a multiple of 8 that is at least
    /// 8. It holds the number that was refused.
    InvalidBytesPerLine(usize),
    /// A read or a write failed.
    Io(IoFailure),
    /// The size of the terminal is not known.
    TerminalSizeError,
}

pub type Result<T> = std::result::Result<T, HexlerError>;

#[verifier::external_type_specification]
#[verifier::external_body]
pub struct ExIoError(std::io::Error);

/// The decimal digit that stands for `n`, where `0 <= n < 10`.
pub open spec fn decimal_digit(n: nat) -> char {
    (0x30 + n) as char
}

/// `n` in decimal notation, without leading zeros.
pub open spec fn decimal_text(n: nat) -> Seq<char>
    decreases n,
{
    if n < 10 {
        seq![decimal_digit(n)]
    } else {
        decimal_text(n / 10).push(decimal_digit(n % 10))
    }
}

/// The text of an error.
pub open spec fn error_text(error: HexlerError) -> Seq<char> {
    match error {
        HexlerError::InvalidBytesPerLine(n) => {
            "bytes per line must be a multiple of 8 with a minimum of 8, got "@ + decimal_text(
                n as nat,
            )
        },
        HexlerError::Io(failure) => "IO error: "@ + failure.message@,
        HexlerError::TerminalSizeError => "failed to determine terminal width"@,
    }
}

/// The digit `n` as a string.
fn digit_str(n: usize) -> (text: &'static str)
    requires
        n < 10,
    ensures
        text@ == seq![decimal_digit(n as nat)],
{
    proof {
        reveal_strlit("0");
        reveal_strlit("1");
        reveal_strlit("2");
        reveal_strlit("3");
        reveal_strlit("4");
        reveal_strlit("5");
        reveal_strlit("6");
        reveal_strlit("7");
        reveal_strlit("8");
        reveal_strlit("9");
    }
    let text = match n {
        0 => "0",
        1 => "1",
        2 => "2",
        3 => "3",
        4 => "4",
        5 => "5",
        6 => "6",
        7 => "7",
        8 => "8",
        _ => "9",
    };
    assert(text@ =~= seq![decimal_digit(n as nat)]);
    text
}

/// `n` in decimal notation.
pub fn decimal(n: usize) -> (text: String)
    ensures
        text@ == decimal_text(n as nat),
    decreases n,
{
    if n < 10 {
        String::from_str(digit_str(n))
    } else {
        let mut text = decimal(n / 10);
        text.append(digit_str(n % 10));
        text
    }
}

/// Which of the library's two kinds the kind of a failure of std falls
/// under: what `std::io::Error::kind` says of it, a broken pipe told from
/// everything else.
pub uninterp spec fn io_kind(error: std::io::Error) -> IoErrorKind;

/// `std::io::Error::kind`, of which the library tells a broken pipe from
/// everything else: the answer is the kind of `error`, which depends on
/// nothing but the failure itself.
#[verifier::external_body]
fn io_error_kind(error: &std::io::Error) -> (kind: IoErrorKind)
    ensures
        kind == io_kind(*error),
{
    match error.kind() {
        std::io::ErrorKind::BrokenPipe => IoErrorKind::BrokenPipe,
        _ => IoErrorKind::Other,
    }
}

/// Whether `failure` is what the library keeps of `error`: its kind, and as
/// its message the text that `error` displays.
pub open spec fn keeps(failure: IoFailure, error: std::io::Error) -> bool {
    failure.kind == io_kind(error) && vstd::string::to_string_from_display_ensures::<
        std::io::Error,
    >(&error, failure.message)
}

impl IoFailure {
    /// What the library keeps of a failure of std.
    pub fn of(error: &std::io::Error) -> (failure: IoFailure)
        ensures
            keeps(failure, *error),
    {
        let kind = io_error_kind(error);
        let message = error.to_string();
        IoFailure { kind, message }
    }

    /// The failure that stands for a sink that went away.
    pub fn broken_pipe(message: &str) -> (failure: IoFailure)
        ensures
            failure.kind == IoErrorKind::BrokenPipe,
            failure.message@ == message@,
    {
        IoFailure { kind: IoErrorKind::BrokenPipe, message: String::from_str(message) }
    }
}

impl HexlerError {
    /// The text of this error.
    pub fn to_string(&self) -> (text: String)
        ensures
            text@ == error_text(*self),
    {
        match self {
            HexlerError::InvalidBytesPerLine(n) => {
                let mut text = String::from_str(
                    "bytes per line must be a multiple of 8 with a minimum of 8, got ",
                );
                let number = decimal(*n);
                text.append(number.as_str());
                text
            },
            HexlerError::Io(failure) => {
                let mut text = String::from_str("IO error: ");
                text.append(failure.message.as_str());
                text
            },
            HexlerError::TerminalSizeError => String::from_str(
                "failed to determine terminal width",
            ),
        }
    }

    /// Whether this is the failure of a sink that went away.
    pub fn is_broken_pipe(&self) -> (answer: bool)
        ensures
            answer <==> (*self matches HexlerError::Io(failure) && failure.kind
                == IoErrorKind::BrokenPipe),
    {
        match self {
            HexlerError::Io(failure) => failure.kind == IoErrorKind::BrokenPipe,
            _ => false,
        }
    }
}

impl From<std::io::Error> for HexlerError {
    fn from(error: std::io::Error) -> (result: HexlerError)
        ensures
            result matches HexlerError::Io(failure) && keeps(failure, error),
    {
        HexlerError::Io(IoFailure::of(&error))
    }
}

impl vstd::std_specs::convert::FromSpecImpl<std::io::Error> for HexlerError {
    open spec fn obeys_from_spec() -> bool {
        false
    }

    open spec fn from_spec(error: std::io::Error) -> HexlerError {
        arbitrary()
    }
}

} // verus!
