//! `INFO` carries a text-encoded server descriptor on a single
//! CRLF-terminated line.

use vstd::prelude::*;

use super::{body_matches, BodyStep, CommandDecoderResult};
use crate::commands::{ServerCommand, ServerCommandV, ServerDecodeError};
use crate::json::{json_of, parse_json};
use crate::objects::{info_from_json, info_of_json};
use crate::scan::{find_crlf, first_crlf, lemma_first_crlf_props};

verus! {

pub struct Decoder;

pub open spec fn info_step(b: Seq<u8>) -> BodyStep<ServerCommandV, ServerDecodeError> {
    match first_crlf(b) {
        None => BodyStep::NeedMore,
        Some(i) => {
            let line = b.take(i);
            match json_of(line) {
                None => BodyStep::Fatal(ServerDecodeError::BadInfo),
                Some(j) => match info_of_json(j) {
                    None => BodyStep::Fatal(ServerDecodeError::BadInfo),
                    Some(iv) => BodyStep::Advance(ServerCommandV::Info(iv), i + 2),
                },
            }
        },
    }
}

impl Decoder {
    pub fn decode_body(&self, buffer: &[u8]) -> (r: CommandDecoderResult<
        ServerCommand,
        ServerDecodeError,
    >)
        ensures
            body_matches(info_step(buffer@), r),
    {
        let n = buffer.len();
        proof {
            assert(buffer@.take(n as int) =~= buffer@);
        }
        let end = match find_crlf(buffer, n) {
            None => {
                return CommandDecoderResult::FrameTooShort(None);
            },
            Some(i) => i,
        };
        proof {
            lemma_first_crlf_props(buffer@);
        }
        let line = vstd::slice::slice_subrange(buffer, 0, end);
        proof {
            assert(line@ =~= buffer@.take(end as int));
        }
        let parsed = match parse_json(line) {
            None => {
                return CommandDecoderResult::FatalError(ServerDecodeError::BadInfo);
            },
            Some(j) => j,
        };
        match info_from_json(&parsed) {
            None => CommandDecoderResult::FatalError(ServerDecodeError::BadInfo),
            Some(info) => CommandDecoderResult::Advance(
                (ServerCommand::Info(Box::new(info)), end + 2),
            ),
        }
    }
}

} // verus!
