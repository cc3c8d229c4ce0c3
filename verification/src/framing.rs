//! Framing laws of the streaming decoder, shown for the server-to-client
//! direction the client actually reads.  The central fact is that a decode
//! decision, once made, never changes when more bytes arrive; from it, a
//! buffer fed in two parts yields the same item sequence as the buffer fed
//! at once.

use vstd::prelude::*;

use crate::codec::{
    server_body_step, server_dispatch, server_prefix, server_step, Step,
};
use crate::commands::{ServerCommandV, ServerDecodeError};
use crate::decoding::BodyStep;
use crate::scan::{ci_prefix, crlf_at, first_crlf, lemma_first_crlf_prefix,
    lemma_first_crlf_props, split_by};
use crate::SOFT_LIMIT;

verus! {

/// `b` is an initial segment of `c`.
pub open spec fn is_prefix(b: Seq<u8>, c: Seq<u8>) -> bool {
    b.len() <= c.len() && b == c.take(b.len() as int)
}

/// The one decision that extra bytes can change: an oversized buffer with
/// no delimiter anywhere is discarded whole, and a later delimiter would
/// have bounded the discard instead.
pub open spec fn discards_all(b: Seq<u8>) -> bool {
    b.len() >= SOFT_LIMIT && first_crlf(b) is None
}

proof fn lemma_prefix_facts(b: Seq<u8>, c: Seq<u8>)
    requires
        is_prefix(b, c),
    ensures
        forall|i: int| 0 <= i < b.len() ==> c[i] == b[i],
        forall|i: int, j: int|
            0 <= i <= j <= b.len() ==> c.subrange(i, j) =~= b.subrange(i, j),
{
    assert forall|i: int| 0 <= i < b.len() implies c[i] == b[i] by {
        assert(c.take(b.len() as int)[i] == c[i]);
    }
}

/// A non-waiting body decision is stable under extension.
proof fn lemma_body_stable(i: int, b: Seq<u8>, c: Seq<u8>)
    requires
        is_prefix(b, c),
        !(server_body_step(i, b) is NeedMore),
    ensures
        server_body_step(i, c) == server_body_step(i, b),
{
    lemma_prefix_facts(b, c);
    lemma_first_crlf_props(b);
    match first_crlf(b) {
        None => {
            assert(server_body_step(i, b) is NeedMore);
        },
        Some(k) => {
            lemma_first_crlf_prefix(b, c);
            lemma_first_crlf_props(c);
            assert(c.take(k) =~= b.take(k));
            if i == 2 || i == 3 {
                let toks = split_by(b.take(k), 32);
                if i == 3 {
                    if (toks.len() == 3 || toks.len() == 4) && crate::num::dec_parses(
                        toks.last(),
                    ) {
                        let n = crate::num::dec_value(toks.last());
                        crate::num::lemma_dec_value_nonneg(toks.last());
                        if b.len() < k + 2 + n + 2 {
                            assert(server_body_step(i, b) is NeedMore);
                        } else {
                            assert(c[k + 2 + n] == b[k + 2 + n]);
                            assert(c[k + 2 + n + 1] == b[k + 2 + n + 1]);
                            assert(c.subrange(k + 2, k + 2 + n) =~= b.subrange(
                                k + 2,
                                k + 2 + n,
                            ));
                        }
                    }
                } else {
                    if (toks.len() == 4 || toks.len() == 5) && crate::num::dec_parses(
                        toks.last(),
                    ) && crate::num::dec_parses(toks[toks.len() - 2]) {
                        let tb = crate::num::dec_value(toks.last());
                        let hb = crate::num::dec_value(toks[toks.len() - 2]);
                        crate::num::lemma_dec_value_nonneg(toks.last());
                        crate::num::lemma_dec_value_nonneg(toks[toks.len() - 2]);
                        if !(tb < hb) {
                            if b.len() < k + 2 + tb + 2 {
                                assert(server_body_step(i, b) is NeedMore);
                            } else {
                                assert(c[k + 2 + tb] == b[k + 2 + tb]);
                                assert(c[k + 2 + tb + 1] == b[k + 2 + tb + 1]);
                                assert(c.subrange(k + 2, k + 2 + hb) =~= b.subrange(
                                    k + 2,
                                    k + 2 + hb,
                                ));
                                assert(c.subrange(k + 2 + hb, k + 2 + tb) =~= b.subrange(
                                    k + 2 + hb,
                                    k + 2 + tb,
                                ));
                            }
                        }
                    }
                }
            }
        },
    }
}

/// A non-waiting dispatch decision is stable under extension.
proof fn lemma_dispatch_stable(b: Seq<u8>, c: Seq<u8>, crlf: int, i: int)
    requires
        is_prefix(b, c),
        !(server_dispatch(b, crlf, i) is NeedMore),
    ensures
        server_dispatch(c, crlf, i) == server_dispatch(b, crlf, i),
    decreases 7 - i,
{
    lemma_prefix_facts(b, c);
    if i >= 7 {
    } else {
        let p = server_prefix(i);
        assert(b.len() >= p.len());
        assert(ci_prefix(b, p) == ci_prefix(c, p)) by {
            if ci_prefix(b, p) {
                assert forall|j: int| 0 <= j < p.len() implies crate::scan::lower(c[j])
                    == crate::scan::lower(p[j]) by {
                    assert(c[j] == b[j]);
                }
            }
            if ci_prefix(c, p) {
                assert forall|j: int| 0 <= j < p.len() implies crate::scan::lower(b[j])
                    == crate::scan::lower(p[j]) by {
                    assert(c[j] == b[j]);
                }
            }
        }
        if ci_prefix(b, p) {
            let body_b = b.skip(p.len() as int);
            let body_c = c.skip(p.len() as int);
            assert(is_prefix(body_b, body_c)) by {
                assert(body_b =~= c.take(b.len() as int).skip(p.len() as int));
                assert(body_b =~= body_c.take(body_b.len() as int));
            }
            match server_body_step(i, body_b) {
                BodyStep::NeedMore => {
                    assert(server_dispatch(b, crlf, i) is NeedMore);
                },
                BodyStep::Wrong => {
                    lemma_body_stable(i, body_b, body_c);
                    lemma_dispatch_stable(b, c, crlf, i + 1);
                },
                BodyStep::Advance(f, n) => {
                    lemma_body_stable(i, body_b, body_c);
                },
                BodyStep::Fatal(e) => {
                    lemma_body_stable(i, body_b, body_c);
                },
            }
        } else {
            lemma_dispatch_stable(b, c, crlf, i + 1);
        }
    }
}

/// A decode step that consumed bytes took a decision that later bytes
/// cannot change, except for the whole-buffer discard of an undelimited
/// oversized buffer.
pub proof fn lemma_step_stable(b: Seq<u8>, c: Seq<u8>)
    requires
        is_prefix(b, c),
        !(server_step(b) is NeedMore),
        !discards_all(b),
    ensures
        server_step(c) == server_step(b),
{
    lemma_prefix_facts(b, c);
    let wb = if b.len() <= SOFT_LIMIT {
        b
    } else {
        b.take(SOFT_LIMIT as int)
    };
    let wc = if c.len() <= SOFT_LIMIT {
        c
    } else {
        c.take(SOFT_LIMIT as int)
    };
    assert(is_prefix(wb, wc)) by {
        if b.len() <= SOFT_LIMIT {
            if c.len() <= SOFT_LIMIT {
                assert(wb =~= wc.take(wb.len() as int));
            } else {
                assert(wb =~= wc.take(wb.len() as int));
            }
        } else {
            assert(wb =~= wc.take(wb.len() as int));
        }
    }
    match first_crlf(wb) {
        Some(k) => {
            lemma_first_crlf_prefix(wb, wc);
            lemma_dispatch_stable(b, c, k, 0);
        },
        None => {
            assert(b.len() >= SOFT_LIMIT);
            match first_crlf(b) {
                None => {
                    assert(discards_all(b));
                },
                Some(k) => {
                    assert(b.len() >= SOFT_LIMIT);
                    assert(wb =~= b.take(SOFT_LIMIT as int));
                    assert(wc =~= wb);
                    lemma_first_crlf_prefix(b, c);
                },
            }
        },
    }
}

/// One decoded or skipped item of the inbound stream.
pub enum ServerItem {
    Cmd(ServerCommandV),
    Failed(ServerDecodeError),
}

/// A consuming step eats at least one byte and no more than the buffer.
pub proof fn lemma_dispatch_wf(b: Seq<u8>, crlf: int, i: int)
    requires
        0 <= crlf,
        crlf + 2 <= b.len(),
    ensures
        match server_dispatch(b, crlf, i) {
            Step::NeedMore => true,
            Step::Frame(f, n) => 1 <= n <= b.len(),
            Step::Error(e, n) => 1 <= n <= b.len(),
        },
    decreases 7 - i,
{
    if i >= 7 {
    } else {
        let p = server_prefix(i);
        if b.len() >= p.len() && ci_prefix(b, p) {
            crate::codec::lemma_server_body_wf(i, b.skip(p.len() as int));
            match server_body_step(i, b.skip(p.len() as int)) {
                BodyStep::Wrong => {
                    lemma_dispatch_wf(b, crlf, i + 1);
                },
                _ => {},
            }
        } else {
            lemma_dispatch_wf(b, crlf, i + 1);
        }
    }
}

pub proof fn lemma_step_wf(b: Seq<u8>)
    ensures
        match server_step(b) {
            Step::NeedMore => true,
            Step::Frame(f, n) => 1 <= n <= b.len(),
            Step::Error(e, n) => 1 <= n <= b.len(),
        },
{
    let w = if b.len() <= SOFT_LIMIT {
        b
    } else {
        b.take(SOFT_LIMIT as int)
    };
    lemma_first_crlf_props(w);
    match first_crlf(w) {
        Some(k) => {
            assert(crlf_at(w, k));
            assert(w.len() <= b.len());
            lemma_dispatch_wf(b, k, 0);
        },
        None => {
            if b.len() >= SOFT_LIMIT {
                lemma_first_crlf_props(b);
                match first_crlf(b) {
                    Some(k) => {
                        assert(crlf_at(b, k));
                    },
                    None => {
                        assert(b.len() >= SOFT_LIMIT >= 1);
                    },
                }
            }
        },
    }
}

/// The item sequence a buffer decodes to, reading frames and skipped
/// errors until the decoder waits for more bytes.
pub open spec fn server_items(b: Seq<u8>) -> Seq<ServerItem>
    decreases b.len(),
{
    match server_step(b) {
        Step::NeedMore => Seq::empty(),
        Step::Frame(f, n) => if 1 <= n <= b.len() {
            seq![ServerItem::Cmd(f)] + server_items(b.skip(n))
        } else {
            Seq::empty()
        },
        Step::Error(e, n) => if 1 <= n <= b.len() {
            seq![ServerItem::Failed(e)] + server_items(b.skip(n))
        } else {
            Seq::empty()
        },
    }
}

/// What remains buffered once a buffer has been drained.
pub open spec fn server_leftover(b: Seq<u8>) -> Seq<u8>
    decreases b.len(),
{
    match server_step(b) {
        Step::NeedMore => b,
        Step::Frame(f, n) => if 1 <= n <= b.len() {
            server_leftover(b.skip(n))
        } else {
            b
        },
        Step::Error(e, n) => if 1 <= n <= b.len() {
            server_leftover(b.skip(n))
        } else {
            b
        },
    }
}

/// No step of the drain discards an undelimited oversized buffer whole.
pub open spec fn drain_clean(b: Seq<u8>) -> bool
    decreases b.len(),
{
    match server_step(b) {
        Step::NeedMore => true,
        Step::Frame(f, n) => if 1 <= n <= b.len() {
            !discards_all(b) && drain_clean(b.skip(n))
        } else {
            true
        },
        Step::Error(e, n) => if 1 <= n <= b.len() {
            !discards_all(b) && drain_clean(b.skip(n))
        } else {
            true
        },
    }
}

/// Feeding a byte sequence in two parts yields the same item sequence as
/// feeding it at once: the items of the first part, then the items of its
/// unconsumed tail joined with the second part.  The one exclusion is a
/// first part that drains through an oversized buffer with no delimiter at
/// all, whose whole-buffer discard a delimiter in the second part would
/// have bounded.
pub proof fn law_partitioned_decode(b1: Seq<u8>, b2: Seq<u8>)
    requires
        drain_clean(b1),
    ensures
        server_items(b1 + b2) =~= server_items(b1) + server_items(
            server_leftover(b1) + b2,
        ),
    decreases b1.len(),
{
    lemma_step_wf(b1);
    match server_step(b1) {
        Step::NeedMore => {
            assert(server_items(b1) =~= Seq::<ServerItem>::empty());
            assert(server_leftover(b1) == b1);
        },
        Step::Frame(f, n) => {
            assert(is_prefix(b1, b1 + b2)) by {
                assert((b1 + b2).take(b1.len() as int) =~= b1);
            }
            lemma_step_stable(b1, b1 + b2);
            assert((b1 + b2).skip(n) =~= b1.skip(n) + b2);
            law_partitioned_decode(b1.skip(n), b2);
            assert(server_items(b1 + b2) =~= seq![ServerItem::Cmd(f)] + server_items(
                (b1 + b2).skip(n),
            ));
        },
        Step::Error(e, n) => {
            assert(is_prefix(b1, b1 + b2)) by {
                assert((b1 + b2).take(b1.len() as int) =~= b1);
            }
            lemma_step_stable(b1, b1 + b2);
            assert((b1 + b2).skip(n) =~= b1.skip(n) + b2);
            law_partitioned_decode(b1.skip(n), b2);
            assert(server_items(b1 + b2) =~= seq![ServerItem::Failed(e)] + server_items(
                (b1 + b2).skip(n),
            ));
        },
    }
}

/// A malformed but delimited frame is skipped and the frames after it are
/// still decoded: the item stream is the error followed by the items of
/// the rest.
pub proof fn law_malformed_then_valid(bad: Seq<u8>, rest: Seq<u8>, e: ServerDecodeError)
    requires
        server_step(bad + rest) == Step::<ServerCommandV, ServerDecodeError>::Error(
            e,
            bad.len() as int,
        ),
        bad.len() >= 1,
    ensures
        server_items(bad + rest) =~= seq![ServerItem::Failed(e)] + server_items(rest),
{
    assert((bad + rest).skip(bad.len() as int) =~= rest);
    assert(bad.len() <= (bad + rest).len());
}

/// An oversized buffer with no delimiter in the inspected window is never
/// buffered further: the decoder reports the overflow and skips past the
/// next delimiter, or discards the whole buffer when there is none.
pub proof fn law_oversize_reported(b: Seq<u8>)
    requires
        b.len() >= SOFT_LIMIT,
        first_crlf(b.take(SOFT_LIMIT as int)) is None,
    ensures
        server_step(b) == (match first_crlf(b) {
            Some(k) => Step::<ServerCommandV, ServerDecodeError>::Error(
                ServerDecodeError::ExceedsSoftLength,
                k + 2,
            ),
            None => Step::<ServerCommandV, ServerDecodeError>::Error(
                ServerDecodeError::ExceedsSoftLength,
                b.len() as int,
            ),
        }),
{
    let w = if b.len() <= SOFT_LIMIT {
        b
    } else {
        b.take(SOFT_LIMIT as int)
    };
    if b.len() <= SOFT_LIMIT {
        assert(w =~= b.take(SOFT_LIMIT as int));
    }
}

} // verus!
