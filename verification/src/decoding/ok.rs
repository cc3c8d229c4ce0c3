//! `+OK` has an empty body: a bare CRLF after the prefix.

use vstd::prelude::*;

use super::{body_matches, check_empty_line, BodyStep, CommandDecoderResult, LineCheck};
use crate::commands::{ServerCommand, ServerCommandV, ServerDecodeError};

verus! {

pub struct Decoder;

pub open spec fn ok_step(b: Seq<u8>) -> BodyStep<ServerCommandV, ServerDecodeError> {
    match super::first_line_empty(b) {
        LineCheck::NeedMore => BodyStep::NeedMore,
        LineCheck::Empty => BodyStep::Advance(ServerCommandV::Okay, 2),
        LineCheck::NotEmpty => BodyStep::Wrong,
    }
}

impl Decoder {
    pub fn decode_body(&self, buffer: &[u8]) -> (r: CommandDecoderResult<
        ServerCommand,
        ServerDecodeError,
    >)
        ensures
            body_matches(ok_step(buffer@), r),
    {
        match check_empty_line(buffer) {
            LineCheck::NeedMore => CommandDecoderResult::FrameTooShort(None),
            LineCheck::Empty => CommandDecoderResult::Advance((ServerCommand::Okay, 2)),
            LineCheck::NotEmpty => CommandDecoderResult::WrongDecoder,
        }
    }
}

} // verus!
