//! `HMSG` carries a metadata line `subject sid [reply-to] header-bytes
//! total-bytes`, then `header-bytes` of header block (whose terminating
//! blank line is included in the count), then `total-bytes - header-bytes`
//! of payload, then a closing CRLF.

use vstd::prelude::*;

use super::{body_matches, BodyStep, CommandDecoderResult};
use crate::commands::{HMsg, HMsgV, ServerCommand, ServerCommandV, ServerDecodeError};
use crate::headers::{parse_headers, parse_headers_spec};
use crate::num::{dec_parses, dec_value, parse_usize};
use crate::scan::{find_crlf, first_crlf, lemma_first_crlf_props, split_by, split_tokens, CR, LF};
use crate::strings::bytes_to_string;
use vstd::utf8::{decode_utf8, valid_utf8};

verus! {

pub struct Decoder;

pub open spec fn hmsg_step(b: Seq<u8>) -> BodyStep<ServerCommandV, ServerDecodeError> {
    match first_crlf(b) {
        None => BodyStep::NeedMore,
        Some(i) => if !(0 <= i && i + 2 <= b.len()) {
            BodyStep::NeedMore
        } else {
            let toks = split_by(b.take(i), 32);
            if toks.len() == 4 || toks.len() == 5 {
                let hb_tok = toks[toks.len() - 2];
                let tb_tok = toks.last();
                if !(dec_parses(hb_tok) && dec_parses(tb_tok)) {
                    BodyStep::Fatal(ServerDecodeError::BadHMsg)
                } else {
                    let hb = dec_value(hb_tok);
                    let tb = dec_value(tb_tok);
                    if tb < hb {
                        BodyStep::Fatal(ServerDecodeError::BadHMsg)
                    } else if b.len() < i + 2 + tb + 2 {
                        BodyStep::NeedMore
                    } else if !(b[i + 2 + tb] == CR && b[i + 2 + tb + 1] == LF) {
                        BodyStep::Fatal(ServerDecodeError::BadHMsg)
                    } else {
                        match parse_headers_spec(b.subrange(i + 2, i + 2 + hb), hb) {
                            Err(_) => BodyStep::Fatal(ServerDecodeError::BadHMsg),
                            Ok(m) => if valid_utf8(toks[0]) && valid_utf8(toks[1]) && (
                            toks.len() == 4 || valid_utf8(toks[2])) {
                                BodyStep::Advance(
                                    ServerCommandV::HMsg(
                                        HMsgV {
                                            subject: decode_utf8(toks[0]),
                                            sid: decode_utf8(toks[1]),
                                            reply_to: if toks.len() == 5 {
                                                Some(decode_utf8(toks[2]))
                                            } else {
                                                None
                                            },
                                            header_bytes: hb as usize,
                                            total_bytes: tb as usize,
                                            headers: m,
                                            payload: b.subrange(i + 2 + hb, i + 2 + tb),
                                        },
                                    ),
                                    i + 2 + tb + 2,
                                )
                            } else {
                                BodyStep::Fatal(ServerDecodeError::BadHMsg)
                            },
                        }
                    }
                }
            } else {
                BodyStep::Fatal(ServerDecodeError::BadHMsg)
            }
        },
    }
}

impl Decoder {
    pub fn decode_body(&self, buffer: &[u8]) -> (r: CommandDecoderResult<
        ServerCommand,
        ServerDecodeError,
    >)
        ensures
            body_matches(hmsg_step(buffer@), r),
    {
        let blen = buffer.len();
        proof {
            assert(buffer@.take(blen as int) =~= buffer@);
        }
        let end = match find_crlf(buffer, blen) {
            None => {
                return CommandDecoderResult::FrameTooShort(None);
            },
            Some(i) => i,
        };
        proof {
            lemma_first_crlf_props(buffer@);
        }
        let meta = vstd::slice::slice_subrange(buffer, 0, end);
        proof {
            assert(meta@ =~= buffer@.take(end as int));
        }
        let mut toks = split_tokens(meta, 32);
        let ghost stoks = split_by(buffer@.take(end as int), 32);
        proof {
            assert(toks.deep_view() == stoks);
        }
        let ntoks = toks.len();
        if !(ntoks == 4 || ntoks == 5) {
            return CommandDecoderResult::FatalError(ServerDecodeError::BadHMsg);
        }
        proof {
            assert(stoks[ntoks - 2] == toks@[ntoks - 2]@);
            assert(stoks[ntoks - 1] == toks@[ntoks - 1]@);
            assert(stoks.last() == stoks[ntoks - 1]);
        }
        let hb = match parse_usize(toks[ntoks - 2].as_slice()) {
            None => {
                return CommandDecoderResult::FatalError(ServerDecodeError::BadHMsg);
            },
            Some(v) => v,
        };
        let tb = match parse_usize(toks[ntoks - 1].as_slice()) {
            None => {
                return CommandDecoderResult::FatalError(ServerDecodeError::BadHMsg);
            },
            Some(v) => v,
        };
        if tb < hb {
            return CommandDecoderResult::FatalError(ServerDecodeError::BadHMsg);
        }
        let remaining = blen - (end + 2);
        if remaining < 2 || tb > remaining - 2 {
            return CommandDecoderResult::FrameTooShort(None);
        }
        if !(buffer[end + 2 + tb] == CR && buffer[end + 2 + tb + 1] == LF) {
            return CommandDecoderResult::FatalError(ServerDecodeError::BadHMsg);
        }
        let hdr_slice = vstd::slice::slice_subrange(buffer, end + 2, end + 2 + hb);
        proof {
            assert(hdr_slice@ =~= buffer@.subrange(end + 2, end + 2 + hb));
        }
        let headers = match parse_headers(hdr_slice, hb) {
            Err(_) => {
                return CommandDecoderResult::FatalError(ServerDecodeError::BadHMsg);
            },
            Ok(m) => m,
        };
        let payload = vstd::slice::slice_to_vec(
            vstd::slice::slice_subrange(buffer, end + 2 + hb, end + 2 + tb),
        );
        proof {
            assert(payload@ =~= buffer@.subrange(end + 2 + hb, end + 2 + tb));
            assert(stoks[0] == toks@[0]@);
            assert(stoks[1] == toks@[1]@);
            if ntoks == 5 {
                assert(stoks[2] == toks@[2]@);
            }
        }
        let t_subject = toks.remove(0);
        let t_sid = toks.remove(0);
        let subject = match bytes_to_string(t_subject) {
            None => {
                return CommandDecoderResult::FatalError(ServerDecodeError::BadHMsg);
            },
            Some(s) => s,
        };
        let sid = match bytes_to_string(t_sid) {
            None => {
                return CommandDecoderResult::FatalError(ServerDecodeError::BadHMsg);
            },
            Some(s) => s,
        };
        let reply_to = if ntoks == 5 {
            let t_reply = toks.remove(0);
            match bytes_to_string(t_reply) {
                None => {
                    return CommandDecoderResult::FatalError(ServerDecodeError::BadHMsg);
                },
                Some(s) => Some(s),
            }
        } else {
            None
        };
        let m = HMsg {
            subject,
            sid,
            reply_to,
            header_bytes: hb,
            total_bytes: tb,
            headers,
            payload,
        };
        CommandDecoderResult::Advance((ServerCommand::HMsg(m), end + 2 + tb + 2))
    }
}

} // verus!
