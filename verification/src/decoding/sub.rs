//! `SUB` carries a metadata line `subject [queue-group] sid`, CRLF-terminated.

use vstd::prelude::*;

use super::{body_matches, BodyStep, CommandDecoderResult};
use crate::commands::{ClientCommand, ClientCommandV, ClientDecodeError, Subscribe, SubscribeV};
use crate::scan::{find_crlf, first_crlf, lemma_first_crlf_props, split_by, split_tokens};
use crate::strings::bytes_to_string;
use vstd::utf8::{decode_utf8, valid_utf8};

verus! {

pub struct SubDecoder;

pub open spec fn sub_step(b: Seq<u8>) -> BodyStep<ClientCommandV, ClientDecodeError> {
    match first_crlf(b) {
        None => BodyStep::NeedMore,
        Some(i) => if !(0 <= i && i + 2 <= b.len()) {
            BodyStep::NeedMore
        } else {
            let toks = split_by(b.take(i), 32);
            if toks.len() == 2 || toks.len() == 3 {
                if valid_utf8(toks[0]) && valid_utf8(toks.last()) && (toks.len() == 2
                    || valid_utf8(toks[1])) {
                    BodyStep::Advance(
                        ClientCommandV::Subscribe(
                            SubscribeV {
                                subject: decode_utf8(toks[0]),
                                queue_group: if toks.len() == 3 {
                                    Some(decode_utf8(toks[1]))
                                } else {
                                    None
                                },
                                sid: decode_utf8(toks.last()),
                            },
                        ),
                        i + 2,
                    )
                } else {
                    BodyStep::Fatal(ClientDecodeError::BadSub)
                }
            } else {
                BodyStep::Fatal(ClientDecodeError::BadSub)
            }
        },
    }
}

impl SubDecoder {
    pub fn decode_body(&self, buffer: &[u8]) -> (r: CommandDecoderResult<
        ClientCommand,
        ClientDecodeError,
    >)
        ensures
            body_matches(sub_step(buffer@), r),
    {
        let blen = buffer.len();
        proof {
            assert(buffer@.take(blen as int) =~= buffer@);
        }
        let end = match find_crlf(buffer, blen) {
            None => {
                return CommandDecoderResult::FrameTooShort(None);
            },
            Some(i) => i,
        };
        proof {
            lemma_first_crlf_props(buffer@);
        }
        let meta = vstd::slice::slice_subrange(buffer, 0, end);
        proof {
            assert(meta@ =~= buffer@.take(end as int));
        }
        let mut toks = split_tokens(meta, 32);
        let ghost stoks = split_by(buffer@.take(end as int), 32);
        proof {
            assert(toks.deep_view() == stoks);
        }
        let ntoks = toks.len();
        if !(ntoks == 2 || ntoks == 3) {
            return CommandDecoderResult::FatalError(ClientDecodeError::BadSub);
        }
        proof {
            assert(stoks[0] == toks@[0]@);
            assert(stoks[ntoks - 1] == toks@[ntoks - 1]@);
            assert(stoks.last() == stoks[ntoks - 1]);
            if ntoks == 3 {
                assert(stoks[1] == toks@[1]@);
            }
        }
        let t_subject = toks.remove(0);
        let subject = match bytes_to_string(t_subject) {
            None => {
                return CommandDecoderResult::FatalError(ClientDecodeError::BadSub);
            },
            Some(s) => s,
        };
        let queue_group = if ntoks == 3 {
            let t_queue = toks.remove(0);
            match bytes_to_string(t_queue) {
                None => {
                    return CommandDecoderResult::FatalError(ClientDecodeError::BadSub);
                },
                Some(s) => Some(s),
            }
        } else {
            None
        };
        let t_sid = toks.remove(0);
        let sid = match bytes_to_string(t_sid) {
            None => {
                return CommandDecoderResult::FatalError(ClientDecodeError::BadSub);
            },
            Some(s) => s,
        };
        let s = Subscribe { subject, queue_group, sid };
        CommandDecoderResult::Advance((ClientCommand::Subscribe(s), end + 2))
    }
}

} // verus!
