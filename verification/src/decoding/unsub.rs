//! `UNSUB` carries a metadata line `sid [max-msgs]`, CRLF-terminated;
//! `max-msgs`, when present, must parse as a strictly positive number.

use vstd::prelude::*;

use super::{body_matches, BodyStep, CommandDecoderResult};
use crate::commands::{ClientCommand, ClientCommandV, ClientDecodeError, Unsubscribe,
    UnsubscribeV};
use crate::num::{dec_parses, dec_value, parse_usize};
use crate::scan::{find_crlf, first_crlf, lemma_first_crlf_props, split_by, split_tokens};
use crate::strings::bytes_to_string;
use vstd::utf8::{decode_utf8, valid_utf8};

verus! {

pub struct UnsubDecoder;

pub open spec fn unsub_step(b: Seq<u8>) -> BodyStep<ClientCommandV, ClientDecodeError> {
    match first_crlf(b) {
        None => BodyStep::NeedMore,
        Some(i) => if !(0 <= i && i + 2 <= b.len()) {
            BodyStep::NeedMore
        } else {
            let toks = split_by(b.take(i), 32);
            if toks.len() == 1 || toks.len() == 2 {
                if toks.len() == 2 && !(dec_parses(toks[1]) && dec_value(toks[1]) > 0) {
                    BodyStep::Fatal(ClientDecodeError::BadUnsub)
                } else if valid_utf8(toks[0]) {
                    BodyStep::Advance(
                        ClientCommandV::Unsubscribe(
                            UnsubscribeV {
                                sid: decode_utf8(toks[0]),
                                max_msgs: if toks.len() == 2 {
                                    Some(dec_value(toks[1]) as usize)
                                } else {
                                    None
                                },
                            },
                        ),
                        i + 2,
                    )
                } else {
                    BodyStep::Fatal(ClientDecodeError::BadUnsub)
                }
            } else {
                BodyStep::Fatal(ClientDecodeError::BadUnsub)
            }
        },
    }
}

impl UnsubDecoder {
    pub fn decode_body(&self, buffer: &[u8]) -> (r: CommandDecoderResult<
        ClientCommand,
        ClientDecodeError,
    >)
        ensures
            body_matches(unsub_step(buffer@), r),
    {
        let blen = buffer.len();
        proof {
            assert(buffer@.take(blen as int) =~= buffer@);
        }
        let end = match find_crlf(buffer, blen) {
            None => {
                return CommandDecoderResult::FrameTooShort(None);
            },
            Some(i) => i,
        };
        proof {
            lemma_first_crlf_props(buffer@);
        }
        let meta = vstd::slice::slice_subrange(buffer, 0, end);
        proof {
            assert(meta@ =~= buffer@.take(end as int));
        }
        let mut toks = split_tokens(meta, 32);
        let ghost stoks = split_by(buffer@.take(end as int), 32);
        proof {
            assert(toks.deep_view() == stoks);
        }
        let ntoks = toks.len();
        if !(ntoks == 1 || ntoks == 2) {
            return CommandDecoderResult::FatalError(ClientDecodeError::BadUnsub);
        }
        proof {
            assert(stoks[0] == toks@[0]@);
            if ntoks == 2 {
                assert(stoks[1] == toks@[1]@);
            }
        }
        let max_msgs = if ntoks == 2 {
            match parse_usize(toks[1].as_slice()) {
                None => {
                    return CommandDecoderResult::FatalError(ClientDecodeError::BadUnsub);
                },
                Some(v) => {
                    if v == 0 {
                        return CommandDecoderResult::FatalError(
                            ClientDecodeError::BadUnsub,
                        );
                    }
                    Some(v)
                },
            }
        } else {
            None
        };
        let t_sid = toks.remove(0);
        let sid = match bytes_to_string(t_sid) {
            None => {
                return CommandDecoderResult::FatalError(ClientDecodeError::BadUnsub);
            },
            Some(s) => s,
        };
        let u = Unsubscribe { sid, max_msgs };
        CommandDecoderResult::Advance((ClientCommand::Unsubscribe(u), end + 2))
    }
}

} // verus!
