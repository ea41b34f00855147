use hexler::error::decimal;
use hexler::error::HexlerError;
use hexler::error::IoErrorKind;
use hexler::error::IoFailure;
use hexler::error::Result;

fn returns_result() -> Result<i32> {
    Ok(42)
}

fn returns_error() -> Result<i32> {
    Err(HexlerError::TerminalSizeError)
}

#[test]
fn test_invalid_bytes_per_line_error_message() {
    let error = HexlerError::InvalidBytesPerLine(5);
    let message = error.to_string();
    assert!(message.contains("bytes per line must be a multiple of 8"));
    assert!(message.contains("got 5"));
}

#[test]
fn test_terminal_size_error_message() {
    let error = HexlerError::TerminalSizeError;
    let message = error.to_string();
    assert!(message.contains("failed to determine terminal width"));
}

#[test]
fn test_io_error_conversion() {
    let io_error = std::io::Error::new(std::io::ErrorKind::NotFound, "file not found");
    let hexler_error: HexlerError = io_error.into();

    let message = hexler_error.to_string();
    assert!(message.contains("IO error"));
    assert!(message.contains("file not found"));
}

#[test]
fn test_error_debug_formatting() {
    let error = HexlerError::InvalidBytesPerLine(12);
    let debug_str = format!("{:?}", error);
    assert!(debug_str.contains("InvalidBytesPerLine"));
    assert!(debug_str.contains("12"));
}

#[test]
fn test_result_type_alias() {
    let result = returns_result();
    assert!(result.is_ok());
    assert_eq!(result.unwrap(), 42);
}

#[test]
fn test_result_with_error() {
    let result = returns_error();
    assert!(result.is_err());
}

#[test]
fn error_messages_in_full() {
    assert_eq!(
        HexlerError::InvalidBytesPerLine(12).to_string(),
        "bytes per line must be a multiple of 8 with a minimum of 8, got 12"
    );
    assert_eq!(
        HexlerError::TerminalSizeError.to_string(),
        "failed to determine terminal width"
    );
    let failure = IoFailure {
        kind: IoErrorKind::Other,
        message: String::from("disk on fire"),
    };
    assert_eq!(HexlerError::Io(failure).to_string(), "IO error: disk on fire");
}

#[test]
fn decimal_agrees_with_std() {
    for n in [0usize, 1, 9, 10, 11, 99, 100, 101, 12345, 1_000_000, usize::MAX] {
        assert_eq!(decimal(n), format!("{}", n));
    }
}

#[test]
fn broken_pipe_is_told_from_other_failures() {
    let broken: HexlerError =
        std::io::Error::new(std::io::ErrorKind::BrokenPipe, "gone").into();
    assert!(broken.is_broken_pipe());
    let other: HexlerError = std::io::Error::new(std::io::ErrorKind::NotFound, "gone").into();
    assert!(!other.is_broken_pipe());
    assert!(!HexlerError::TerminalSizeError.is_broken_pipe());
    assert!(!HexlerError::InvalidBytesPerLine(3).is_broken_pipe());
    let made = HexlerError::Io(IoFailure::broken_pipe("Writer thread disconnected"));
    assert!(made.is_broken_pipe());
    assert_eq!(made.to_string(), "IO error: Writer thread disconnected");
}

#[test]
fn failure_keeps_kind_and_text_of_the_failure_of_std() {
    let broken = std::io::Error::new(std::io::ErrorKind::BrokenPipe, "reader left");
    let failure = IoFailure::of(&broken);
    assert_eq!(failure.kind, IoErrorKind::BrokenPipe);
    assert_eq!(failure.message, broken.to_string());
    assert_eq!(failure.message, "reader left");

    let denied = std::io::Error::new(std::io::ErrorKind::PermissionDenied, "no entry");
    let failure = IoFailure::of(&denied);
    assert_eq!(failure.kind, IoErrorKind::Other);
    assert_eq!(failure.message, "no entry");

    match HexlerError::from(std::io::Error::new(std::io::ErrorKind::BrokenPipe, "x")) {
        HexlerError::Io(failure) => {
            assert_eq!(failure.kind, IoErrorKind::BrokenPipe);
            assert_eq!(failure.message, "x");
        }
        _ => panic!("a failure of std was to become an `Io`"),
    }
}
