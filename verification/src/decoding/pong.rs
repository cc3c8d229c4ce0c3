//! `PONG` has an empty body: a bare CRLF after the prefix.

use vstd::prelude::*;

use super::{body_matches, check_empty_line, BodyStep, CommandDecoderResult, LineCheck};
use crate::commands::{
    ClientCommand, ClientCommandV, ClientDecodeError, ServerCommand, ServerCommandV,
    ServerDecodeError,
};

verus! {

pub struct Decoder;

pub open spec fn pong_server_step(b: Seq<u8>) -> BodyStep<ServerCommandV, ServerDecodeError> {
    match super::first_line_empty(b) {
        LineCheck::NeedMore => BodyStep::NeedMore,
        LineCheck::Empty => BodyStep::Advance(ServerCommandV::Pong, 2),
        LineCheck::NotEmpty => BodyStep::Wrong,
    }
}

pub open spec fn pong_client_step(b: Seq<u8>) -> BodyStep<ClientCommandV, ClientDecodeError> {
    match super::first_line_empty(b) {
        LineCheck::NeedMore => BodyStep::NeedMore,
        LineCheck::Empty => BodyStep::Advance(ClientCommandV::Pong, 2),
        LineCheck::NotEmpty => BodyStep::Wrong,
    }
}

impl Decoder {
    pub fn decode_server_body(&self, buffer: &[u8]) -> (r: CommandDecoderResult<
        ServerCommand,
        ServerDecodeError,
    >)
        ensures
            body_matches(pong_server_step(buffer@), r),
    {
        match check_empty_line(buffer) {
            LineCheck::NeedMore => CommandDecoderResult::FrameTooShort(None),
            LineCheck::Empty => CommandDecoderResult::Advance((ServerCommand::Pong, 2)),
            LineCheck::NotEmpty => CommandDecoderResult::WrongDecoder,
        }
    }

    pub fn decode_client_body(&self, buffer: &[u8]) -> (r: CommandDecoderResult<
        ClientCommand,
        ClientDecodeError,
    >)
        ensures
            body_matches(pong_client_step(buffer@), r),
    {
        match check_empty_line(buffer) {
            LineCheck::NeedMore => CommandDecoderResult::FrameTooShort(None),
            LineCheck::Empty => CommandDecoderResult::Advance((ClientCommand::Pong, 2)),
            LineCheck::NotEmpty => CommandDecoderResult::WrongDecoder,
        }
    }
}

} // verus!
