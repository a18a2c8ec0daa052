use vstd::prelude::*;
use crate::memory::UnmanagedVector;

verus! {

/// The status that the other side reports for a successful call.
pub const STATUS_OK: i32 = 0;

/// The other side panicked while it served the call.
pub const STATUS_PANIC: i32 = -1;

/// The call violated a precondition of the other side.
pub const STATUS_BAD_ARGUMENT: i32 = -2;

/// The call ran out of gas on the other side.
pub const STATUS_OUT_OF_GAS: i32 = -3;

/// Any other failure on the other side; a message buffer may describe it.
pub const STATUS_OTHER: i32 = -4;

/// The decoded form of a status code. The raw integer stops here.
#[derive(Clone, Copy, Debug, PartialEq, Eq, Structural)]
pub enum GoError {
    Success,
    Panic,
    BadArgument,
    OutOfGas,
    Other,
    /// A code outside the known set; it never counts as success.
    Unexpected,
}

/// The kind of a failure reported to the caller.
#[derive(Clone, Copy, Debug, PartialEq, Eq, Structural)]
pub enum ErrorKind {
    ForeignPanic,
    BadArgument,
    OutOfGas,
    Unknown,
}

/// A failed call: its kind and a human-readable message.
#[derive(Debug)]
pub struct BackendError {
    pub kind: ErrorKind,
    pub msg: String,
}

impl View for BackendError {
    type V = (ErrorKind, Seq<char>);

    open spec fn view(&self) -> (ErrorKind, Seq<char>) {
        (self.kind, self.msg@)
    }
}

/// The gas that a call across the boundary has cost.
#[derive(Clone, Copy, Debug, PartialEq, Eq, Structural)]
pub struct GasInfo {
    /// Gas spent on this side and not yet charged; this bridge spends none.
    pub cost: u64,
    /// Gas that the other side reported for the call.
    pub externally_used: u64,
}

/// The gas of a call for which the other side reported `amount`.
pub open spec fn external_gas(amount: u64) -> GasInfo {
    GasInfo { cost: 0, externally_used: amount }
}

impl GasInfo {
    pub fn with_externally_used(amount: u64) -> (r: GasInfo)
        ensures
            r == external_gas(amount),
    {
        GasInfo { cost: 0, externally_used: amount }
    }

    pub fn free() -> (r: GasInfo)
        ensures
            r == external_gas(0),
    {
        GasInfo { cost: 0, externally_used: 0 }
    }
}

pub open spec fn decode_status(code: i32) -> GoError {
    if code == STATUS_OK {
        GoError::Success
    } else if code == STATUS_PANIC {
        GoError::Panic
    } else if code == STATUS_BAD_ARGUMENT {
        GoError::BadArgument
    } else if code == STATUS_OUT_OF_GAS {
        GoError::OutOfGas
    } else if code == STATUS_OTHER {
        GoError::Other
    } else {
        GoError::Unexpected
    }
}

/// What `String::from_utf8` makes of a byte sequence: its text, or `None`
/// where the bytes are not UTF-8.
pub uninterp spec fn utf8_text(b: Seq<u8>) -> Option<Seq<char>>;

/// What `String::from_utf8_lossy` makes of a byte sequence.
pub uninterp spec fn utf8_lossy(b: Seq<u8>) -> Seq<char>;

/// Relies on `String::from_utf8`: the text of the bytes where they are UTF-8.
#[verifier::external_body]
fn decode_utf8(b: Vec<u8>) -> (r: Option<String>)
    ensures
        match r {
            Some(s) => utf8_text(b@) == Some(s@),
            None => utf8_text(b@).is_none(),
        },
{
    String::from_utf8(b).ok()
}

/// Relies on `String::from_utf8_lossy`: the bytes as text, with each invalid
/// sequence replaced.
#[verifier::external_body]
pub(crate) fn lossy_text(b: &[u8]) -> (r: String)
    ensures
        r@ == utf8_lossy(b@),
{
    String::from_utf8_lossy(b).into_owned()
}

/// What `format!("{:?}", s)` makes of a string: it quoted, with escapes.
pub uninterp spec fn debug_quoted(s: Seq<char>) -> Seq<char>;

/// Relies on `<str as Debug>::fmt`: the string in quotes, with its special
/// characters escaped.
#[verifier::external_body]
pub(crate) fn debug_text(s: &str) -> (r: String)
    ensures
        r@ == debug_quoted(s@),
{
    format!("{:?}", s)
}

/// The message of a code outside the known set.
pub open spec fn unexpected_code_text() -> Seq<char> {
    "unexpected return code from the other side of the call"@
}

/// The message carried by an "other" failure: the text of the message buffer
/// where it is present, non-empty and UTF-8, else the default.
pub open spec fn message_or(buf: Option<Seq<u8>>, default: Seq<char>) -> Seq<char> {
    match buf {
        Some(b) => if b.len() > 0 && utf8_text(b).is_some() {
            utf8_text(b).unwrap()
        } else {
            default
        },
        None => default,
    }
}

/// The error that a failed status becomes, given the message buffer and the
/// caller's default message.
pub open spec fn failure_of(status: GoError, buf: Option<Seq<u8>>, default: Seq<char>) -> (
    ErrorKind,
    Seq<char>,
) {
    match status {
        GoError::Panic => (ErrorKind::ForeignPanic, default),
        GoError::BadArgument => (ErrorKind::BadArgument, default),
        GoError::OutOfGas => (ErrorKind::OutOfGas, default),
        GoError::Other => (ErrorKind::Unknown, message_or(buf, default)),
        _ => (ErrorKind::Unknown, unexpected_code_text()),
    }
}

/// The outcome of a call with status code `code`, as a mathematical value.
pub open spec fn status_result(code: i32, buf: Option<Seq<u8>>, default: Seq<char>) -> Result<
    (),
    (ErrorKind, Seq<char>),
> {
    if decode_status(code) == GoError::Success {
        Ok(())
    } else {
        Err(failure_of(decode_status(code), buf, default))
    }
}

/// The kind of error that a failed status becomes.
pub open spec fn kind_of(status: GoError) -> ErrorKind {
    match status {
        GoError::Panic => ErrorKind::ForeignPanic,
        GoError::BadArgument => ErrorKind::BadArgument,
        GoError::OutOfGas => ErrorKind::OutOfGas,
        _ => ErrorKind::Unknown,
    }
}

/// The outcome of a call that reports no message of its own: every failure,
/// whatever its code, carries the caller's message.
pub open spec fn context_result(code: i32, message: Seq<char>) -> Result<(), (ErrorKind, Seq<char>)> {
    if decode_status(code) == GoError::Success {
        Ok(())
    } else {
        Err((kind_of(decode_status(code)), message))
    }
}

/// The view of a `Result` whose error is a `BackendError`, with its value left out.
pub open spec fn unit_view<T>(r: Result<T, BackendError>) -> Result<(), (ErrorKind, Seq<char>)> {
    match r {
        Ok(_) => Ok(()),
        Err(e) => Err(e@),
    }
}

impl GoError {
    /// Decodes an untrusted status code. Only `STATUS_OK` means success.
    pub fn from_code(code: i32) -> (r: GoError)
        ensures
            r == decode_status(code),
    {
        if code == STATUS_OK {
            GoError::Success
        } else if code == STATUS_PANIC {
            GoError::Panic
        } else if code == STATUS_BAD_ARGUMENT {
            GoError::BadArgument
        } else if code == STATUS_OUT_OF_GAS {
            GoError::OutOfGas
        } else if code == STATUS_OTHER {
            GoError::Other
        } else {
            GoError::Unexpected
        }
    }

    /// The kind of error that this status becomes.
    pub fn kind(self) -> (r: ErrorKind)
        ensures
            r == kind_of(self),
    {
        match self {
            GoError::Panic => ErrorKind::ForeignPanic,
            GoError::BadArgument => ErrorKind::BadArgument,
            GoError::OutOfGas => ErrorKind::OutOfGas,
            _ => ErrorKind::Unknown,
        }
    }

    /// Turns the decoded status into a result. The message buffer is consumed
    /// whatever the status; only an "other" failure reads it.
    pub fn into_ffi_result(self, error_msg: UnmanagedVector, default: String) -> (r: Result<
        (),
        BackendError,
    >)
        ensures
            r.is_ok() <==> self == GoError::Success,
            r matches Err(e) ==> e@ == failure_of(self, error_msg@, default@),
    {
        let buf = error_msg.consume();
        match self {
            GoError::Success => Ok(()),
            GoError::Panic => Err(BackendError { kind: ErrorKind::ForeignPanic, msg: default }),
            GoError::BadArgument => Err(BackendError { kind: ErrorKind::BadArgument, msg: default }),
            GoError::OutOfGas => Err(BackendError { kind: ErrorKind::OutOfGas, msg: default }),
            GoError::Other => {
                let msg = match buf {
                    Some(b) => {
                        if b.len() > 0 {
                            match decode_utf8(b) {
                                Some(s) => s,
                                None => default,
                            }
                        } else {
                            default
                        }
                    },
                    None => default,
                };
                Err(BackendError { kind: ErrorKind::Unknown, msg })
            },
            GoError::Unexpected => Err(
                BackendError {
                    kind: ErrorKind::Unknown,
                    msg: String::from_str("unexpected return code from the other side of the call"),
                },
            ),
        }
    }
}

/// A code outside the known set is a failure whatever message buffer comes
/// with it; it never counts as success.
pub proof fn lemma_unknown_code_fails(code: i32, buf: Option<Seq<u8>>, default: Seq<char>)
    requires
        code != STATUS_OK,
        code != STATUS_PANIC,
        code != STATUS_BAD_ARGUMENT,
        code != STATUS_OUT_OF_GAS,
        code != STATUS_OTHER,
    ensures
        status_result(code, buf, default) == Err::<(), (ErrorKind, Seq<char>)>(
            (ErrorKind::Unknown, unexpected_code_text()),
        ),
{
}

/// Decodes `code` and turns it into a result whose error, on any failure,
/// carries `message`, which names what the call was about.
pub fn check_status_in_context(code: i32, message: String) -> (r: Result<(), BackendError>)
    ensures
        unit_view(r) == context_result(code, message@),
{
    let status = GoError::from_code(code);
    if status == GoError::Success {
        Ok(())
    } else {
        Err(BackendError { kind: status.kind(), msg: message })
    }
}

/// A call that reports no message of its own and returns a code outside the
/// known set fails, and its error still carries the caller's message.
pub proof fn lemma_unknown_code_keeps_context(code: i32, message: Seq<char>)
    requires
        code != STATUS_OK,
        code != STATUS_PANIC,
        code != STATUS_BAD_ARGUMENT,
        code != STATUS_OUT_OF_GAS,
        code != STATUS_OTHER,
    ensures
        context_result(code, message) == Err::<(), (ErrorKind, Seq<char>)>(
            (ErrorKind::Unknown, message),
        ),
{
}

/// Decodes `code` and turns it into a result in one step.
pub fn check_status(code: i32, error_msg: UnmanagedVector, default: String) -> (r: Result<
    (),
    BackendError,
>)
    ensures
        unit_view(r) == status_result(code, error_msg@, default@),
{
    GoError::from_code(code).into_ffi_result(error_msg, default)
}

} // verus!
