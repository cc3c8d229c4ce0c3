//! `-ERR` carries a single-quoted message, CRLF-terminated.

use vstd::prelude::*;

use super::{body_matches, BodyStep, CommandDecoderResult};
use crate::commands::{ServerCommand, ServerCommandV, ServerDecodeError};
use crate::scan::{find_crlf, first_crlf, lemma_first_crlf_props};
use crate::strings::bytes_to_string;
use vstd::utf8::{decode_utf8, valid_utf8};

verus! {

pub struct ErrDecoder;

pub open spec fn err_step(b: Seq<u8>) -> BodyStep<ServerCommandV, ServerDecodeError> {
    match first_crlf(b) {
        None => BodyStep::NeedMore,
        Some(i) => {
            let msg = b.take(i);
            if !(msg.len() >= 2 && msg[0] == 39 && msg[msg.len() - 1] == 39) {
                BodyStep::Fatal(ServerDecodeError::BadErr)
            } else {
                let mid = msg.subrange(1, msg.len() - 1);
                if valid_utf8(mid) {
                    BodyStep::Advance(ServerCommandV::Error(decode_utf8(mid)), i + 2)
                } else {
                    BodyStep::Fatal(ServerDecodeError::BadErr)
                }
            }
        },
    }
}

impl ErrDecoder {
    pub fn decode_body(&self, buffer: &[u8]) -> (r: CommandDecoderResult<
        ServerCommand,
        ServerDecodeError,
    >)
        ensures
            body_matches(err_step(buffer@), r),
    {
        let n = buffer.len();
        proof {
            assert(buffer@.take(n as int) =~= buffer@);
        }
        let end = match find_crlf(buffer, n) {
            None => {
                return CommandDecoderResult::FrameTooShort(None);
            },
            Some(i) => i,
        };
        proof {
            lemma_first_crlf_props(buffer@);
        }
        let ghost msg = buffer@.take(end as int);
        if !(end >= 2 && buffer[0] == 39 && buffer[end - 1] == 39) {
            proof {
                assert(msg.len() == end);
                if end >= 1 {
                    assert(msg[0] == buffer@[0]);
                    assert(msg[msg.len() - 1] == buffer@[end - 1]);
                }
            }
            return CommandDecoderResult::FatalError(ServerDecodeError::BadErr);
        }
        proof {
            assert(msg[0] == buffer@[0]);
            assert(msg[msg.len() - 1] == buffer@[end - 1]);
        }
        let mid_bytes = vstd::slice::slice_to_vec(
            vstd::slice::slice_subrange(buffer, 1, end - 1),
        );
        proof {
            assert(mid_bytes@ =~= msg.subrange(1, msg.len() - 1));
        }
        match bytes_to_string(mid_bytes) {
            None => CommandDecoderResult::FatalError(ServerDecodeError::BadErr),
            Some(s) => CommandDecoderResult::Advance((ServerCommand::Error(s), end + 2)),
        }
    }
}

} // verus!
