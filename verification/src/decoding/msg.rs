//! `MSG` carries a metadata line `subject sid [reply-to] payload-bytes`,
//! then exactly `payload-bytes` bytes of payload, then a closing CRLF.

use vstd::prelude::*;

use super::{body_matches, BodyStep, CommandDecoderResult};
use crate::commands::{Msg, MsgV, ServerCommand, ServerCommandV, ServerDecodeError};
use crate::num::{dec_parses, dec_value, parse_usize};
use crate::scan::{find_crlf, first_crlf, lemma_first_crlf_props, split_by, split_tokens, CR, LF};
use crate::strings::bytes_to_string;
use vstd::utf8::{decode_utf8, valid_utf8};

verus! {

pub struct Decoder;

pub open spec fn msg_step(b: Seq<u8>) -> BodyStep<ServerCommandV, ServerDecodeError> {
    match first_crlf(b) {
        None => BodyStep::NeedMore,
        Some(i) => if !(0 <= i && i + 2 <= b.len()) {
            BodyStep::NeedMore
        } else {
            let toks = split_by(b.take(i), 32);
            if toks.len() == 3 || toks.len() == 4 {
                let cnt = toks.last();
                if !dec_parses(cnt) {
                    BodyStep::Fatal(ServerDecodeError::BadMsg)
                } else {
                    let n = dec_value(cnt);
                    if b.len() < i + 2 + n + 2 {
                        BodyStep::NeedMore
                    } else if !(b[i + 2 + n] == CR && b[i + 2 + n + 1] == LF) {
                        BodyStep::Fatal(ServerDecodeError::BadMsg)
                    } else if valid_utf8(toks[0]) && valid_utf8(toks[1]) && (toks.len() == 3
                        || valid_utf8(toks[2])) {
                        BodyStep::Advance(
                            ServerCommandV::Msg(
                                MsgV {
                                    subject: decode_utf8(toks[0]),
                                    sid: decode_utf8(toks[1]),
                                    reply_to: if toks.len() == 4 {
                                        Some(decode_utf8(toks[2]))
                                    } else {
                                        None
                                    },
                                    bytes: n as usize,
                                    payload: b.subrange(i + 2, i + 2 + n),
                                },
                            ),
                            i + 2 + n + 2,
                        )
                    } else {
                        BodyStep::Fatal(ServerDecodeError::BadMsg)
                    }
                }
            } else {
                BodyStep::Fatal(ServerDecodeError::BadMsg)
            }
        },
    }
}

impl Decoder {
    pub fn decode_body(&self, buffer: &[u8]) -> (r: CommandDecoderResult<
        ServerCommand,
        ServerDecodeError,
    >)
        ensures
            body_matches(msg_step(buffer@), r),
    {
        let blen = buffer.len();
        proof {
            assert(buffer@.take(blen as int) =~= buffer@);
        }
        let end = match find_crlf(buffer, blen) {
            None => {
                return CommandDecoderResult::FrameTooShort(None);
            },
            Some(i) => i,
        };
        proof {
            lemma_first_crlf_props(buffer@);
        }
        let meta = vstd::slice::slice_subrange(buffer, 0, end);
        proof {
            assert(meta@ =~= buffer@.take(end as int));
        }
        let mut toks = split_tokens(meta, 32);
        let ghost stoks = split_by(buffer@.take(end as int), 32);
        proof {
            assert(toks.deep_view() == stoks);
        }
        let ntoks = toks.len();
        if !(ntoks == 3 || ntoks == 4) {
            return CommandDecoderResult::FatalError(ServerDecodeError::BadMsg);
        }
        proof {
            assert(stoks[ntoks - 1] == toks@[ntoks - 1]@);
            assert(stoks.last() == stoks[ntoks - 1]);
        }
        let n = match parse_usize(toks[ntoks - 1].as_slice()) {
            None => {
                return CommandDecoderResult::FatalError(ServerDecodeError::BadMsg);
            },
            Some(v) => v,
        };
        let remaining = blen - (end + 2);
        if remaining < 2 || n > remaining - 2 {
            return CommandDecoderResult::FrameTooShort(None);
        }
        if !(buffer[end + 2 + n] == CR && buffer[end + 2 + n + 1] == LF) {
            return CommandDecoderResult::FatalError(ServerDecodeError::BadMsg);
        }
        let payload = vstd::slice::slice_to_vec(
            vstd::slice::slice_subrange(buffer, end + 2, end + 2 + n),
        );
        proof {
            assert(payload@ =~= buffer@.subrange(end + 2, end + 2 + n));
            assert(stoks[0] == toks@[0]@);
            assert(stoks[1] == toks@[1]@);
            if ntoks == 4 {
                assert(stoks[2] == toks@[2]@);
            }
        }
        let t_subject = toks.remove(0);
        let t_sid = toks.remove(0);
        let subject = match bytes_to_string(t_subject) {
            None => {
                return CommandDecoderResult::FatalError(ServerDecodeError::BadMsg);
            },
            Some(s) => s,
        };
        let sid = match bytes_to_string(t_sid) {
            None => {
                return CommandDecoderResult::FatalError(ServerDecodeError::BadMsg);
            },
            Some(s) => s,
        };
        let reply_to = if ntoks == 4 {
            let t_reply = toks.remove(0);
            match bytes_to_string(t_reply) {
                None => {
                    return CommandDecoderResult::FatalError(ServerDecodeError::BadMsg);
                },
                Some(s) => Some(s),
            }
        } else {
            None
        };
        let msg = Msg { subject, sid, reply_to, bytes: n, payload };
        CommandDecoderResult::Advance((ServerCommand::Msg(msg), end + 2 + n + 2))
    }
}

} // verus!
