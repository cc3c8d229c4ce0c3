//! The codec dispatcher.  Given a receive buffer it clamps the inspected
//! window to the soft byte budget, finds the frame delimiter, matches the
//! recognized command prefixes in declared order (first case-insensitive
//! match wins), and delegates to the matching body decoder.  On a decoded
//! frame the buffer advances past it; on a frame error the buffer advances
//! past the next CRLF and the stream continues.

use vstd::prelude::*;

use crate::commands::{
    ClientCommand, ClientCommandV, ClientDecodeError, ServerCommand, ServerCommandV,
    ServerDecodeError,
};
use crate::decoding::{BodyStep, CommandDecoderResult};
use crate::num::dec_parses;
use crate::decoding::connect::{connect_step, ConnectDecoder};
use crate::decoding::err::{err_step, ErrDecoder};
use crate::decoding::hmsg::hmsg_step;
use crate::decoding::hpub::hpub_step;
use crate::decoding::info::info_step;
use crate::decoding::msg::msg_step;
use crate::decoding::ok::ok_step;
use crate::decoding::ping::{ping_client_step, ping_server_step, PingDecoder};
use crate::decoding::pong::{pong_client_step, pong_server_step};
use crate::decoding::publish::pub_step;
use crate::decoding::sub::{sub_step, SubDecoder};
use crate::decoding::unsub::{unsub_step, UnsubDecoder};
use crate::scan::{
    ci_prefix, crlf_at, find_crlf, first_crlf, has_ci_prefix, lemma_first_crlf_props,
};
use crate::SOFT_LIMIT;

verus! {

/// One dispatcher step on a byte buffer: wait for more bytes, consume a
/// frame, or consume garbage and report an error.
pub enum Step<F, E> {
    NeedMore,
    Frame(F, int),
    Error(E, int),
}

/// The server-direction prefix table, in declared order.
pub open spec fn server_prefix(i: int) -> Seq<u8> {
    if i == 0 {
        seq![80u8, 73u8, 78u8, 71u8]  // PING
    } else if i == 1 {
        seq![80u8, 79u8, 78u8, 71u8]  // PONG
    } else if i == 2 {
        seq![72u8, 77u8, 83u8, 71u8, 32u8]  // HMSG and a space
    } else if i == 3 {
        seq![77u8, 83u8, 71u8, 32u8]  // MSG and a space
    } else if i == 4 {
        seq![43u8, 79u8, 75u8]  // +OK
    } else if i == 5 {
        seq![45u8, 69u8, 82u8, 82u8, 32u8]  // -ERR and a space
    } else {
        seq![73u8, 78u8, 70u8, 79u8, 32u8]  // INFO and a space
    }
}

/// The body decoder behind each server-direction prefix.
pub open spec fn server_body_step(i: int, body: Seq<u8>) -> BodyStep<
    ServerCommandV,
    ServerDecodeError,
> {
    if i == 0 {
        ping_server_step(body)
    } else if i == 1 {
        pong_server_step(body)
    } else if i == 2 {
        hmsg_step(body)
    } else if i == 3 {
        msg_step(body)
    } else if i == 4 {
        ok_step(body)
    } else if i == 5 {
        err_step(body)
    } else {
        info_step(body)
    }
}

/// Try the server prefixes from `i` on: too few bytes to compare waits, a
/// match delegates to the body decoder, a body hand-off or a mismatch goes
/// on to the next prefix, and no match at all skips the delimited garbage.
pub open spec fn server_dispatch(b: Seq<u8>, crlf: int, i: int) -> Step<
    ServerCommandV,
    ServerDecodeError,
>
    decreases 7 - i,
{
    if i >= 7 {
        Step::Error(ServerDecodeError::UnknownCommand, crlf + 2)
    } else {
        let p = server_prefix(i);
        if b.len() < p.len() {
            Step::NeedMore
        } else if ci_prefix(b, p) {
            match server_body_step(i, b.skip(p.len() as int)) {
                BodyStep::Advance(f, n) => Step::Frame(f, n + p.len()),
                BodyStep::Fatal(e) => Step::Error(e, crlf + 2),
                BodyStep::NeedMore => Step::NeedMore,
                BodyStep::Wrong => server_dispatch(b, crlf, i + 1),
            }
        } else {
            server_dispatch(b, crlf, i + 1)
        }
    }
}

/// One decode step of the server-direction codec on buffer `b`.
pub open spec fn server_step(b: Seq<u8>) -> Step<ServerCommandV, ServerDecodeError> {
    let w = if b.len() <= SOFT_LIMIT {
        b
    } else {
        b.take(SOFT_LIMIT as int)
    };
    match first_crlf(w) {
        Some(i) => server_dispatch(b, i, 0),
        None => if b.len() < SOFT_LIMIT {
            Step::NeedMore
        } else {
            match first_crlf(b) {
                Some(i) => Step::Error(ServerDecodeError::ExceedsSoftLength, i + 2),
                None => Step::Error(ServerDecodeError::ExceedsSoftLength, b.len() as int),
            }
        },
    }
}

/// The client-direction prefix table, in declared order.
pub open spec fn client_prefix(i: int) -> Seq<u8> {
    if i == 0 {
        seq![80u8, 73u8, 78u8, 71u8]  // PING
    } else if i == 1 {
        seq![80u8, 79u8, 78u8, 71u8]  // PONG
    } else if i == 2 {
        seq![72u8, 80u8, 85u8, 66u8, 32u8]  // HPUB and a space
    } else if i == 3 {
        seq![80u8, 85u8, 66u8, 32u8]  // PUB and a space
    } else if i == 4 {
        seq![83u8, 85u8, 66u8, 32u8]  // SUB and a space
    } else if i == 5 {
        seq![85u8, 78u8, 83u8, 85u8, 66u8, 32u8]  // UNSUB and a space
    } else {
        seq![67u8, 79u8, 78u8, 78u8, 69u8, 67u8, 84u8, 32u8]  // CONNECT and a space
    }
}

/// The body decoder behind each client-direction prefix.
pub open spec fn client_body_step(i: int, body: Seq<u8>) -> BodyStep<
    ClientCommandV,
    ClientDecodeError,
> {
    if i == 0 {
        ping_client_step(body)
    } else if i == 1 {
        pong_client_step(body)
    } else if i == 2 {
        hpub_step(body)
    } else if i == 3 {
        pub_step(body)
    } else if i == 4 {
        sub_step(body)
    } else if i == 5 {
        unsub_step(body)
    } else {
        connect_step(body)
    }
}

/// Try the client prefixes from `i` on.
pub open spec fn client_dispatch(b: Seq<u8>, crlf: int, i: int) -> Step<
    ClientCommandV,
    ClientDecodeError,
>
    decreases 7 - i,
{
    if i >= 7 {
        Step::Error(ClientDecodeError::UnknownCommand, crlf + 2)
    } else {
        let p = client_prefix(i);
        if b.len() < p.len() {
            Step::NeedMore
        } else if ci_prefix(b, p) {
            match client_body_step(i, b.skip(p.len() as int)) {
                BodyStep::Advance(f, n) => Step::Frame(f, n + p.len()),
                BodyStep::Fatal(e) => Step::Error(e, crlf + 2),
                BodyStep::NeedMore => Step::NeedMore,
                BodyStep::Wrong => client_dispatch(b, crlf, i + 1),
            }
        } else {
            client_dispatch(b, crlf, i + 1)
        }
    }
}

/// One decode step of the client-direction codec on buffer `b`.
pub open spec fn client_step(b: Seq<u8>) -> Step<ClientCommandV, ClientDecodeError> {
    let w = if b.len() <= SOFT_LIMIT {
        b
    } else {
        b.take(SOFT_LIMIT as int)
    };
    match first_crlf(w) {
        Some(i) => client_dispatch(b, i, 0),
        None => if b.len() < SOFT_LIMIT {
            Step::NeedMore
        } else {
            match first_crlf(b) {
                Some(i) => Step::Error(ClientDecodeError::ExceedsSoftLength, i + 2),
                None => Step::Error(ClientDecodeError::ExceedsSoftLength, b.len() as int),
            }
        },
    }
}

/// Drop the first `n` bytes of the buffer.
pub fn vec_advance(v: &mut Vec<u8>, n: usize)
    requires
        n <= old(v)@.len(),
    ensures
        final(v)@ == old(v)@.skip(n as int),
{
    let tail = vstd::slice::slice_to_vec(
        vstd::slice::slice_subrange(v.as_slice(), n, v.len()),
    );
    proof {
        assert(tail@ =~= old(v)@.skip(n as int));
    }
    *v = tail;
}

/// A decoded server body consumes at least the delimiter and at most the
/// buffer.
pub proof fn lemma_server_body_wf(i: int, body: Seq<u8>)
    ensures
        server_body_step(i, body) matches BodyStep::Advance(f, n) ==> 1 <= n <= body.len(),
{
    lemma_first_crlf_props(body);
    match first_crlf(body) {
        None => {}
        Some(k) => {
            assert(crlf_at(body, k));
            if i == 2 {
                let toks = crate::scan::split_by(body.take(k), 32);
                if (toks.len() == 4 || toks.len() == 5) && dec_parses(toks.last()) {
                    crate::num::lemma_dec_value_nonneg(toks.last());
                    if dec_parses(toks[toks.len() - 2]) {
                        crate::num::lemma_dec_value_nonneg(toks[toks.len() - 2]);
                    }
                }
            }
            if i == 3 {
                let toks = crate::scan::split_by(body.take(k), 32);
                if (toks.len() == 3 || toks.len() == 4) && dec_parses(toks.last()) {
                    crate::num::lemma_dec_value_nonneg(toks.last());
                }
            }
        }
    }
}

/// A decoded client body consumes at least the delimiter and at most the
/// buffer.
pub proof fn lemma_client_body_wf(i: int, body: Seq<u8>)
    ensures
        client_body_step(i, body) matches BodyStep::Advance(f, n) ==> 1 <= n <= body.len(),
{
    lemma_first_crlf_props(body);
    match first_crlf(body) {
        None => {}
        Some(k) => {
            assert(crlf_at(body, k));
            if i == 2 {
                let toks = crate::scan::split_by(body.take(k), 32);
                if (toks.len() == 3 || toks.len() == 4) && dec_parses(toks.last()) {
                    crate::num::lemma_dec_value_nonneg(toks.last());
                    if dec_parses(toks[toks.len() - 2]) {
                        crate::num::lemma_dec_value_nonneg(toks[toks.len() - 2]);
                    }
                }
            }
            if i == 3 {
                let toks = crate::scan::split_by(body.take(k), 32);
                if (toks.len() == 2 || toks.len() == 3) && dec_parses(toks.last()) {
                    crate::num::lemma_dec_value_nonneg(toks.last());
                }
            }
        }
    }
}

/// The streaming decoder for server-to-client traffic.
pub struct ServerCodec;

/// The streaming decoder and encoder for client-to-server traffic.
pub struct ClientCodec;

impl ServerCodec {
    /// One decode step on the receive buffer: a decoded server-to-client
    /// frame, `Ok(None)` when more bytes are needed, or a frame error with
    /// the offending bytes consumed.
    pub fn decode(&mut self, src: &mut Vec<u8>) -> (r: Result<Option<ServerCommand>, ServerDecodeError>)
        ensures
            match server_step(old(src)@) {
                Step::NeedMore => r matches Ok(ro) && ro is None && final(src)@ == old(
                    src,
                )@,
                Step::Frame(f, n) => r matches Ok(ro) && ro matches Some(c) && c@ == f
                    && final(src)@ == old(src)@.skip(n),
                Step::Error(e, n) => r matches Err(e2) && e2 == e && final(src)@ == old(
                    src,
                )@.skip(n),
            },
    {
        let ghost b = src@;
        let blen = src.len();
        let window_end = if blen < SOFT_LIMIT {
            blen
        } else {
            SOFT_LIMIT
        };
        let ghost w = if b.len() <= SOFT_LIMIT { b } else { b.take(SOFT_LIMIT as int) };
        proof {
            assert(b.take(window_end as int) =~= w);
        }
        let crlf = match find_crlf(src.as_slice(), window_end) {
            Some(i) => i,
            None => {
                if blen < SOFT_LIMIT {
                    return Ok(None);
                }
                proof {
                    assert(b.take(blen as int) =~= b);
                }
                match find_crlf(src.as_slice(), blen) {
                    Some(i) => {
                        proof {
                            lemma_first_crlf_props(b);
                        }
                        vec_advance(src, i + 2);
                        return Err(ServerDecodeError::ExceedsSoftLength);
                    },
                    None => {
                        src.clear();
                        proof {
                            assert(b.skip(b.len() as int) =~= Seq::<u8>::empty());
                        }
                        return Err(ServerDecodeError::ExceedsSoftLength);
                    },
                }
            },
        };
        proof {
            lemma_first_crlf_props(w);
            assert(crlf + 2 <= w.len());
            assert(w.len() <= blen);
        }
        // PING
        let p0: Vec<u8> = vec![80u8, 73u8, 78u8, 71u8];
        proof {
            assert(p0@ =~= server_prefix(0));
        }
        if blen < 4 {
            return Ok(None);
        }
        if has_ci_prefix(src.as_slice(), p0.as_slice()) {
            let body0 = vstd::slice::slice_subrange(src.as_slice(), 4, blen);
            proof {
                assert(body0@ =~= b.skip(4));
            }
            match PingDecoder.decode_server_body(body0) {
                CommandDecoderResult::Advance((cmd, n)) => {
                    proof {
                        lemma_server_body_wf(0, b.skip(4));
                    }
                    vec_advance(src, n + 4);
                    return Ok(Some(cmd));
                },
                CommandDecoderResult::FatalError(e) => {
                    vec_advance(src, crlf + 2);
                    return Err(e);
                },
                CommandDecoderResult::FrameTooShort(_) => {
                    return Ok(None);
                },
                CommandDecoderResult::WrongDecoder => {},
            }
        }
        proof {
            assert(server_dispatch(b, crlf as int, 0) == server_dispatch(b, crlf as int, 1));
        }

        // PONG
        let p1: Vec<u8> = vec![80u8, 79u8, 78u8, 71u8];
        proof {
            assert(p1@ =~= server_prefix(1));
        }
        if has_ci_prefix(src.as_slice(), p1.as_slice()) {
            let body1 = vstd::slice::slice_subrange(src.as_slice(), 4, blen);
            proof {
                assert(body1@ =~= b.skip(4));
            }
            match crate::decoding::pong::Decoder.decode_server_body(body1) {
                CommandDecoderResult::Advance((cmd, n)) => {
                    proof {
                        lemma_server_body_wf(1, b.skip(4));
                    }
                    vec_advance(src, n + 4);
                    return Ok(Some(cmd));
                },
                CommandDecoderResult::FatalError(e) => {
                    vec_advance(src, crlf + 2);
                    return Err(e);
                },
                CommandDecoderResult::FrameTooShort(_) => {
                    return Ok(None);
                },
                CommandDecoderResult::WrongDecoder => {},
            }
        }
        proof {
            assert(server_dispatch(b, crlf as int, 1) == server_dispatch(b, crlf as int, 2));
        }

        // HMSG and a space
        let p2: Vec<u8> = vec![72u8, 77u8, 83u8, 71u8, 32u8];
        proof {
            assert(p2@ =~= server_prefix(2));
        }
        if blen < 5 {
            return Ok(None);
        }
        if has_ci_prefix(src.as_slice(), p2.as_slice()) {
            let body2 = vstd::slice::slice_subrange(src.as_slice(), 5, blen);
            proof {
                assert(body2@ =~= b.skip(5));
            }
            match crate::decoding::hmsg::Decoder.decode_body(body2) {
                CommandDecoderResult::Advance((cmd, n)) => {
                    proof {
                        lemma_server_body_wf(2, b.skip(5));
                    }
                    vec_advance(src, n + 5);
                    return Ok(Some(cmd));
                },
                CommandDecoderResult::FatalError(e) => {
                    vec_advance(src, crlf + 2);
                    return Err(e);
                },
                CommandDecoderResult::FrameTooShort(_) => {
                    return Ok(None);
                },
                CommandDecoderResult::WrongDecoder => {},
            }
        }
        proof {
            assert(server_dispatch(b, crlf as int, 2) == server_dispatch(b, crlf as int, 3));
        }

        // MSG and a space
        let p3: Vec<u8> = vec![77u8, 83u8, 71u8, 32u8];
        proof {
            assert(p3@ =~= server_prefix(3));
        }
        if has_ci_prefix(src.as_slice(), p3.as_slice()) {
            let body3 = vstd::slice::slice_subrange(src.as_slice(), 4, blen);
            proof {
                assert(body3@ =~= b.skip(4));
            }
            match crate::decoding::msg::Decoder.decode_body(body3) {
                CommandDecoderResult::Advance((cmd, n)) => {
                    proof {
                        lemma_server_body_wf(3, b.skip(4));
                    }
                    vec_advance(src, n + 4);
                    return Ok(Some(cmd));
                },
                CommandDecoderResult::FatalError(e) => {
                    vec_advance(src, crlf + 2);
                    return Err(e);
                },
                CommandDecoderResult::FrameTooShort(_) => {
                    return Ok(None);
                },
                CommandDecoderResult::WrongDecoder => {},
            }
        }
        proof {
            assert(server_dispatch(b, crlf as int, 3) == server_dispatch(b, crlf as int, 4));
        }

        // +OK
        let p4: Vec<u8> = vec![43u8, 79u8, 75u8];
        proof {
            assert(p4@ =~= server_prefix(4));
        }
        if has_ci_prefix(src.as_slice(), p4.as_slice()) {
            let body4 = vstd::slice::slice_subrange(src.as_slice(), 3, blen);
            proof {
                assert(body4@ =~= b.skip(3));
            }
            match crate::decoding::ok::Decoder.decode_body(body4) {
                CommandDecoderResult::Advance((cmd, n)) => {
                    proof {
                        lemma_server_body_wf(4, b.skip(3));
                    }
                    vec_advance(src, n + 3);
                    return Ok(Some(cmd));
                },
                CommandDecoderResult::FatalError(e) => {
                    vec_advance(src, crlf + 2);
                    return Err(e);
                },
                CommandDecoderResult::FrameTooShort(_) => {
                    return Ok(None);
                },
                CommandDecoderResult::WrongDecoder => {},
            }
        }
        proof {
            assert(server_dispatch(b, crlf as int, 4) == server_dispatch(b, crlf as int, 5));
        }

        // -ERR and a space
        let p5: Vec<u8> = vec![45u8, 69u8, 82u8, 82u8, 32u8];
        proof {
            assert(p5@ =~= server_prefix(5));
        }
        if has_ci_prefix(src.as_slice(), p5.as_slice()) {
            let body5 = vstd::slice::slice_subrange(src.as_slice(), 5, blen);
            proof {
                assert(body5@ =~= b.skip(5));
            }
            match ErrDecoder.decode_body(body5) {
                CommandDecoderResult::Advance((cmd, n)) => {
                    proof {
                        lemma_server_body_wf(5, b.skip(5));
                    }
                    vec_advance(src, n + 5);
                    return Ok(Some(cmd));
                },
                CommandDecoderResult::FatalError(e) => {
                    vec_advance(src, crlf + 2);
                    return Err(e);
                },
                CommandDecoderResult::FrameTooShort(_) => {
                    return Ok(None);
                },
                CommandDecoderResult::WrongDecoder => {},
            }
        }
        proof {
            assert(server_dispatch(b, crlf as int, 5) == server_dispatch(b, crlf as int, 6));
        }

        // INFO and a space
        let p6: Vec<u8> = vec![73u8, 78u8, 70u8, 79u8, 32u8];
        proof {
            assert(p6@ =~= server_prefix(6));
        }
        if has_ci_prefix(src.as_slice(), p6.as_slice()) {
            let body6 = vstd::slice::slice_subrange(src.as_slice(), 5, blen);
            proof {
                assert(body6@ =~= b.skip(5));
            }
            match crate::decoding::info::Decoder.decode_body(body6) {
                CommandDecoderResult::Advance((cmd, n)) => {
                    proof {
                        lemma_server_body_wf(6, b.skip(5));
                    }
                    vec_advance(src, n + 5);
                    return Ok(Some(cmd));
                },
                CommandDecoderResult::FatalError(e) => {
                    vec_advance(src, crlf + 2);
                    return Err(e);
                },
                CommandDecoderResult::FrameTooShort(_) => {
                    return Ok(None);
                },
                CommandDecoderResult::WrongDecoder => {},
            }
        }
        proof {
            assert(server_dispatch(b, crlf as int, 6) == server_dispatch(b, crlf as int, 7));
        }

        vec_advance(src, crlf + 2);
        Err(ServerDecodeError::UnknownCommand)
    }
}

impl ClientCodec {
    /// One decode step on the receive buffer: a decoded client-to-server
    /// frame, `Ok(None)` when more bytes are needed, or a frame error with
    /// the offending bytes consumed.
    #[verifier::rlimit(80)]
    pub fn decode(&mut self, src: &mut Vec<u8>) -> (r: Result<Option<ClientCommand>, ClientDecodeError>)
        ensures
            match client_step(old(src)@) {
                Step::NeedMore => r matches Ok(ro) && ro is None && final(src)@ == old(
                    src,
                )@,
                Step::Frame(f, n) => r matches Ok(ro) && ro matches Some(c) && c@ == f
                    && final(src)@ == old(src)@.skip(n),
                Step::Error(e, n) => r matches Err(e2) && e2 == e && final(src)@ == old(
                    src,
                )@.skip(n),
            },
    {
        let ghost b = src@;
        let blen = src.len();
        let window_end = if blen < SOFT_LIMIT {
            blen
        } else {
            SOFT_LIMIT
        };
        let ghost w = if b.len() <= SOFT_LIMIT { b } else { b.take(SOFT_LIMIT as int) };
        proof {
            assert(b.take(window_end as int) =~= w);
        }
        let crlf = match find_crlf(src.as_slice(), window_end) {
            Some(i) => i,
            None => {
                if blen < SOFT_LIMIT {
                    return Ok(None);
                }
                proof {
                    assert(b.take(blen as int) =~= b);
                }
                match find_crlf(src.as_slice(), blen) {
                    Some(i) => {
                        proof {
                            lemma_first_crlf_props(b);
                        }
                        vec_advance(src, i + 2);
                        return Err(ClientDecodeError::ExceedsSoftLength);
                    },
                    None => {
                        src.clear();
                        proof {
                            assert(b.skip(b.len() as int) =~= Seq::<u8>::empty());
                        }
                        return Err(ClientDecodeError::ExceedsSoftLength);
                    },
                }
            },
        };
        proof {
            lemma_first_crlf_props(w);
            assert(crlf + 2 <= w.len());
            assert(w.len() <= blen);
        }
        // PING
        let p0: Vec<u8> = vec![80u8, 73u8, 78u8, 71u8];
        proof {
            assert(p0@ =~= client_prefix(0));
        }
        if blen < 4 {
            return Ok(None);
        }
        if has_ci_prefix(src.as_slice(), p0.as_slice()) {
            let body0 = vstd::slice::slice_subrange(src.as_slice(), 4, blen);
            proof {
                assert(body0@ =~= b.skip(4));
            }
            match PingDecoder.decode_client_body(body0) {
                CommandDecoderResult::Advance((cmd, n)) => {
                    proof {
                        lemma_client_body_wf(0, b.skip(4));
                    }
                    vec_advance(src, n + 4);
                    return Ok(Some(cmd));
                },
                CommandDecoderResult::FatalError(e) => {
                    vec_advance(src, crlf + 2);
                    return Err(e);
                },
                CommandDecoderResult::FrameTooShort(_) => {
                    return Ok(None);
                },
                CommandDecoderResult::WrongDecoder => {},
            }
        }
        proof {
            assert(client_dispatch(b, crlf as int, 0) == client_dispatch(b, crlf as int, 1));
        }

        // PONG
        let p1: Vec<u8> = vec![80u8, 79u8, 78u8, 71u8];
        proof {
            assert(p1@ =~= client_prefix(1));
        }
        if has_ci_prefix(src.as_slice(), p1.as_slice()) {
            let body1 = vstd::slice::slice_subrange(src.as_slice(), 4, blen);
            proof {
                assert(body1@ =~= b.skip(4));
            }
            match crate::decoding::pong::Decoder.decode_client_body(body1) {
                CommandDecoderResult::Advance((cmd, n)) => {
                    proof {
                        lemma_client_body_wf(1, b.skip(4));
                    }
                    vec_advance(src, n + 4);
                    return Ok(Some(cmd));
                },
                CommandDecoderResult::FatalError(e) => {
                    vec_advance(src, crlf + 2);
                    return Err(e);
                },
                CommandDecoderResult::FrameTooShort(_) => {
                    return Ok(None);
                },
                CommandDecoderResult::WrongDecoder => {},
            }
        }
        proof {
            assert(client_dispatch(b, crlf as int, 1) == client_dispatch(b, crlf as int, 2));
        }

        // HPUB and a space
        let p2: Vec<u8> = vec![72u8, 80u8, 85u8, 66u8, 32u8];
        proof {
            assert(p2@ =~= client_prefix(2));
        }
        if blen < 5 {
            return Ok(None);
        }
        if has_ci_prefix(src.as_slice(), p2.as_slice()) {
            let body2 = vstd::slice::slice_subrange(src.as_slice(), 5, blen);
            proof {
                assert(body2@ =~= b.skip(5));
            }
            match crate::decoding::hpub::Decoder.decode_body(body2) {
                CommandDecoderResult::Advance((cmd, n)) => {
                    proof {
                        lemma_client_body_wf(2, b.skip(5));
                    }
                    vec_advance(src, n + 5);
                    return Ok(Some(cmd));
                },
                CommandDecoderResult::FatalError(e) => {
                    vec_advance(src, crlf + 2);
                    return Err(e);
                },
                CommandDecoderResult::FrameTooShort(_) => {
                    return Ok(None);
                },
                CommandDecoderResult::WrongDecoder => {},
            }
        }
        proof {
            assert(client_dispatch(b, crlf as int, 2) == client_dispatch(b, crlf as int, 3));
        }

        // PUB and a space
        let p3: Vec<u8> = vec![80u8, 85u8, 66u8, 32u8];
        proof {
            assert(p3@ =~= client_prefix(3));
        }
        if has_ci_prefix(src.as_slice(), p3.as_slice()) {
            let body3 = vstd::slice::slice_subrange(src.as_slice(), 4, blen);
            proof {
                assert(body3@ =~= b.skip(4));
            }
            match crate::decoding::publish::Decoder.decode_body(body3) {
                CommandDecoderResult::Advance((cmd, n)) => {
                    proof {
                        lemma_client_body_wf(3, b.skip(4));
                    }
                    vec_advance(src, n + 4);
                    return Ok(Some(cmd));
                },
                CommandDecoderResult::FatalError(e) => {
                    vec_advance(src, crlf + 2);
                    return Err(e);
                },
                CommandDecoderResult::FrameTooShort(_) => {
                    return Ok(None);
                },
                CommandDecoderResult::WrongDecoder => {},
            }
        }
        proof {
            assert(client_dispatch(b, crlf as int, 3) == client_dispatch(b, crlf as int, 4));
        }

        // SUB and a space
        let p4: Vec<u8> = vec![83u8, 85u8, 66u8, 32u8];
        proof {
            assert(p4@ =~= client_prefix(4));
        }
        if has_ci_prefix(src.as_slice(), p4.as_slice()) {
            let body4 = vstd::slice::slice_subrange(src.as_slice(), 4, blen);
            proof {
                assert(body4@ =~= b.skip(4));
            }
            match SubDecoder.decode_body(body4) {
                CommandDecoderResult::Advance((cmd, n)) => {
                    proof {
                        lemma_client_body_wf(4, b.skip(4));
                    }
                    vec_advance(src, n + 4);
                    return Ok(Some(cmd));
                },
                CommandDecoderResult::FatalError(e) => {
                    vec_advance(src, crlf + 2);
                    return Err(e);
                },
                CommandDecoderResult::FrameTooShort(_) => {
                    return Ok(None);
                },
                CommandDecoderResult::WrongDecoder => {},
            }
        }
        proof {
            assert(client_dispatch(b, crlf as int, 4) == client_dispatch(b, crlf as int, 5));
        }

        // UNSUB and a space
        let p5: Vec<u8> = vec![85u8, 78u8, 83u8, 85u8, 66u8, 32u8];
        proof {
            assert(p5@ =~= client_prefix(5));
        }
        if blen < 6 {
            return Ok(None);
        }
        if has_ci_prefix(src.as_slice(), p5.as_slice()) {
            let body5 = vstd::slice::slice_subrange(src.as_slice(), 6, blen);
            proof {
                assert(body5@ =~= b.skip(6));
            }
            match UnsubDecoder.decode_body(body5) {
                CommandDecoderResult::Advance((cmd, n)) => {
                    proof {
                        lemma_client_body_wf(5, b.skip(6));
                    }
                    vec_advance(src, n + 6);
                    return Ok(Some(cmd));
                },
                CommandDecoderResult::FatalError(e) => {
                    vec_advance(src, crlf + 2);
                    return Err(e);
                },
                CommandDecoderResult::FrameTooShort(_) => {
                    return Ok(None);
                },
                CommandDecoderResult::WrongDecoder => {},
            }
        }
        proof {
            assert(client_dispatch(b, crlf as int, 5) == client_dispatch(b, crlf as int, 6));
        }

        // CONNECT and a space
        let p6: Vec<u8> = vec![67u8, 79u8, 78u8, 78u8, 69u8, 67u8, 84u8, 32u8];
        proof {
            assert(p6@ =~= client_prefix(6));
        }
        if blen < 8 {
            return Ok(None);
        }
        if has_ci_prefix(src.as_slice(), p6.as_slice()) {
            let body6 = vstd::slice::slice_subrange(src.as_slice(), 8, blen);
            proof {
                assert(body6@ =~= b.skip(8));
            }
            match ConnectDecoder.decode_body(body6) {
                CommandDecoderResult::Advance((cmd, n)) => {
                    proof {
                        lemma_client_body_wf(6, b.skip(8));
                    }
                    vec_advance(src, n + 8);
                    return Ok(Some(cmd));
                },
                CommandDecoderResult::FatalError(e) => {
                    vec_advance(src, crlf + 2);
                    return Err(e);
                },
                CommandDecoderResult::FrameTooShort(_) => {
                    return Ok(None);
                },
                CommandDecoderResult::WrongDecoder => {},
            }
        }
        proof {
            assert(client_dispatch(b, crlf as int, 6) == client_dispatch(b, crlf as int, 7));
        }

        vec_advance(src, crlf + 2);
        Err(ClientDecodeError::UnknownCommand)
    }
}

} // verus!
