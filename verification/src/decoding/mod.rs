//! Per-command body decoders.  Each decoder consumes the buffer after its
//! prefix has been matched and reports one of four outcomes: a decoded
//! frame with the number of body bytes to consume, a fatal error for this
//! frame, a request for more bytes, or a hand-off to the next prefix.

use vstd::prelude::*;

pub mod connect;
pub mod err;
pub mod hmsg;
pub mod hpub;
pub mod info;
pub mod msg;
pub mod ok;
pub mod ping;
pub mod pong;
pub mod publish;
pub mod sub;
pub mod unsub;

verus! {

/// Outcome of one body decoder on the bytes after its prefix.
pub enum CommandDecoderResult<T, E> {
    /// Frame decoded; the dispatcher must consume this many body bytes on
    /// top of the prefix.
    Advance((T, usize)),
    /// The frame is well delimited but invalid; the dispatcher skips past
    /// the next CRLF and reports the error.
    FatalError(E),
    /// The buffer holds only part of the frame; the optional hint asks for
    /// a minimum additional reservation.
    FrameTooShort(Option<usize>),
    /// The body shows this is a different command; the dispatcher tries
    /// the next prefix.
    WrongDecoder,
}

/// The mathematical counterpart of [`CommandDecoderResult`].
pub enum BodyStep<F, E> {
    Advance(F, int),
    Fatal(E),
    NeedMore,
    Wrong,
}

/// Whether the buffer starts with an empty CRLF-terminated line.
pub enum LineCheck {
    NeedMore,
    Empty,
    NotEmpty,
}

/// Commands with an empty body are exactly a CRLF; anything before the
/// delimiter proves a different command.
pub open spec fn first_line_empty(b: Seq<u8>) -> LineCheck {
    match crate::scan::first_crlf(b) {
        None => LineCheck::NeedMore,
        Some(i) => if i == 0 {
            LineCheck::Empty
        } else {
            LineCheck::NotEmpty
        },
    }
}

/// Test for an empty first line.
pub fn check_empty_line(buffer: &[u8]) -> (r: LineCheck)
    ensures
        r == first_line_empty(buffer@),
{
    let n = buffer.len();
    proof {
        assert(buffer@.take(n as int) =~= buffer@);
    }
    match crate::scan::find_crlf(buffer, n) {
        None => LineCheck::NeedMore,
        Some(i) => if i == 0 {
            LineCheck::Empty
        } else {
            LineCheck::NotEmpty
        },
    }
}

/// An executable decoder outcome realizes the specified one.
pub open spec fn body_matches<T: View, E>(
    s: BodyStep<T::V, E>,
    r: CommandDecoderResult<T, E>,
) -> bool {
    match r {
        CommandDecoderResult::Advance((f, n)) => s == BodyStep::<T::V, E>::Advance(
            f@,
            n as int,
        ),
        CommandDecoderResult::FatalError(e) => s == BodyStep::<T::V, E>::Fatal(e),
        CommandDecoderResult::FrameTooShort(_) => s is NeedMore,
        CommandDecoderResult::WrongDecoder => s is Wrong,
    }
}

} // verus!
