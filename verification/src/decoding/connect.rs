//! `CONNECT` carries a text-encoded options object on a single
//! CRLF-terminated line.

use vstd::prelude::*;

use super::{body_matches, BodyStep, CommandDecoderResult};
use crate::commands::{ClientCommand, ClientCommandV, ClientDecodeError};
use crate::json::{json_of, parse_json};
use crate::objects::{connect_from_json, connect_of_json};
use crate::scan::{find_crlf, first_crlf, lemma_first_crlf_props};

verus! {

pub struct ConnectDecoder;

pub open spec fn connect_step(b: Seq<u8>) -> BodyStep<ClientCommandV, ClientDecodeError> {
    match first_crlf(b) {
        None => BodyStep::NeedMore,
        Some(i) => {
            let line = b.take(i);
            match json_of(line) {
                None => BodyStep::Fatal(ClientDecodeError::BadConnect),
                Some(j) => match connect_of_json(j) {
                    None => BodyStep::Fatal(ClientDecodeError::BadConnect),
                    Some(cv) => BodyStep::Advance(ClientCommandV::Connect(cv), i + 2),
                },
            }
        },
    }
}

impl ConnectDecoder {
    pub fn decode_body(&self, buffer: &[u8]) -> (r: CommandDecoderResult<
        ClientCommand,
        ClientDecodeError,
    >)
        ensures
            body_matches(connect_step(buffer@), r),
    {
        let n = buffer.len();
        proof {
            assert(buffer@.take(n as int) =~= buffer@);
        }
        let end = match find_crlf(buffer, n) {
            None => {
                return CommandDecoderResult::FrameTooShort(None);
            },
            Some(i) => i,
        };
        proof {
            lemma_first_crlf_props(buffer@);
        }
        let line = vstd::slice::slice_subrange(buffer, 0, end);
        proof {
            assert(line@ =~= buffer@.take(end as int));
        }
        let parsed = match parse_json(line) {
            None => {
                return CommandDecoderResult::FatalError(ClientDecodeError::BadConnect);
            },
            Some(j) => j,
        };
        match connect_from_json(&parsed) {
            None => CommandDecoderResult::FatalError(ClientDecodeError::BadConnect),
            Some(c) => CommandDecoderResult::Advance(
                (ClientCommand::Connect(c), end + 2),
            ),
        }
    }
}

} // verus!
