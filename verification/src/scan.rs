//! Byte-scanning primitives for the line-oriented wire grammar: finding the
//! CRLF frame delimiter, splitting metadata lines on a separator byte,
//! case-insensitive prefix matching, and decimal numerals.

use vstd::prelude::*;

verus! {

pub const CR: u8 = 13;
pub const LF: u8 = 10;

/// A CRLF pair starts at index `i` of `b`.
pub open spec fn crlf_at(b: Seq<u8>, i: int) -> bool {
    0 <= i && i + 2 <= b.len() && b[i] == CR && b[i + 1] == LF
}

/// Index of the first CRLF pair in `b`, if any.
pub open spec fn first_crlf(b: Seq<u8>) -> Option<int>
    decreases b.len(),
{
    if b.len() < 2 {
        None
    } else if b[0] == CR && b[1] == LF {
        Some(0)
    } else {
        match first_crlf(b.skip(1)) {
            None => None,
            Some(i) => Some(i + 1),
        }
    }
}

pub proof fn lemma_first_crlf_props(b: Seq<u8>)
    ensures
        match first_crlf(b) {
            Some(i) => crlf_at(b, i) && (forall|j: int| 0 <= j < i ==> !crlf_at(b, j)),
            None => forall|j: int| !crlf_at(b, j),
        },
    decreases b.len(),
{
    if b.len() < 2 {
    } else if b[0] == CR && b[1] == LF {
    } else {
        lemma_first_crlf_props(b.skip(1));
        assert forall|j: int| crlf_at(b, j) implies j >= 1 && crlf_at(b.skip(1), j - 1) by {
            assert(b.skip(1)[j - 1] == b[j]);
            assert(b.skip(1)[j] == b[j + 1]);
        }
        match first_crlf(b.skip(1)) {
            None => {}
            Some(i) => {
                assert(b.skip(1)[i] == b[i + 1]);
                assert(b.skip(1)[i + 1] == b[i + 2]);
                assert(crlf_at(b, i + 1));
            }
        }
    }
}

pub proof fn lemma_first_crlf_some(b: Seq<u8>, i: int)
    requires
        crlf_at(b, i),
        forall|j: int| 0 <= j < i ==> !crlf_at(b, j),
    ensures
        first_crlf(b) == Some(i),
{
    lemma_first_crlf_props(b);
    match first_crlf(b) {
        None => {
            assert(crlf_at(b, i));
        }
        Some(k) => {
            if k < i {
                assert(!crlf_at(b, k));
            }
            if i < k {
                assert(!crlf_at(b, i));
            }
        }
    }
}

/// The first CRLF of a prefix is the first CRLF of any extension.
pub proof fn lemma_first_crlf_prefix(b: Seq<u8>, c: Seq<u8>)
    requires
        b.len() <= c.len(),
        b == c.take(b.len() as int),
        first_crlf(b) is Some,
    ensures
        first_crlf(c) == first_crlf(b),
{
    lemma_first_crlf_props(b);
    let i = first_crlf(b)->Some_0;
    assert(c[i] == b[i]);
    assert(c[i + 1] == b[i + 1]);
    assert forall|j: int| 0 <= j < i implies !crlf_at(c, j) by {
        assert(!crlf_at(b, j));
        assert(c[j] == b[j]);
        assert(c[j + 1] == b[j + 1]);
    }
    lemma_first_crlf_some(c, i);
}

/// First index in `[from, end)` of `b` where a CRLF pair fits entirely
/// within the first `end` bytes.
pub fn find_crlf(b: &[u8], end: usize) -> (r: Option<usize>)
    requires
        end <= b@.len(),
    ensures
        match r {
            Some(i) => first_crlf(b@.take(end as int)) == Some(i as int),
            None => first_crlf(b@.take(end as int)) is None,
        },
{
    let w = Ghost(b@.take(end as int));
    let mut i: usize = 0;
    loop
        invariant
            end <= b@.len(),
            i <= end,
            w@ == b@.take(end as int),
            forall|j: int| 0 <= j < i ==> !crlf_at(w@, j),
        decreases end - i,
    {
        if i >= end || end - i < 2 {
            proof {
                assert forall|j: int| !crlf_at(w@, j) by {
                    if 0 <= j < i {
                    }
                }
                lemma_first_crlf_props(w@);
            }
            return None;
        }
        if b[i] == CR && b[i + 1] == LF {
            proof {
                assert(w@[i as int] == b@[i as int]);
                assert(w@[i + 1] == b@[i + 1]);
                lemma_first_crlf_some(w@, i as int);
            }
            return Some(i);
        }
        proof {
            assert(w@[i as int] == b@[i as int]);
            assert(w@[i + 1] == b@[i + 1]);
        }
        i = i + 1;
    }
}

/// Index of the first occurrence of `sep` in `b`, if any.
pub open spec fn first_byte(b: Seq<u8>, sep: u8) -> Option<int>
    decreases b.len(),
{
    if b.len() == 0 {
        None
    } else if b[0] == sep {
        Some(0)
    } else {
        match first_byte(b.skip(1), sep) {
            None => None,
            Some(i) => Some(i + 1),
        }
    }
}

pub proof fn lemma_first_byte_props(b: Seq<u8>, sep: u8)
    ensures
        match first_byte(b, sep) {
            Some(i) => 0 <= i < b.len() && b[i] == sep && (forall|j: int|
                0 <= j < i ==> b[j] != sep),
            None => forall|j: int| 0 <= j < b.len() ==> b[j] != sep,
        },
    decreases b.len(),
{
    if b.len() == 0 {
    } else if b[0] == sep {
    } else {
        lemma_first_byte_props(b.skip(1), sep);
        assert(forall|j: int| 0 <= j < b.skip(1).len() ==> b.skip(1)[j] == b[j + 1]);
        match first_byte(b.skip(1), sep) {
            None => {
                assert forall|j: int| 0 <= j < b.len() implies b[j] != sep by {
                    if j >= 1 {
                        assert(b.skip(1)[j - 1] == b[j]);
                    }
                }
            }
            Some(i) => {
                assert(b.skip(1)[i] == b[i + 1]);
                assert forall|j: int| 0 <= j < i + 1 implies b[j] != sep by {
                    if j >= 1 {
                        assert(b.skip(1)[j - 1] == b[j]);
                    }
                }
            }
        }
    }
}

pub proof fn lemma_first_byte_some(b: Seq<u8>, sep: u8, i: int)
    requires
        0 <= i < b.len(),
        b[i] == sep,
        forall|j: int| 0 <= j < i ==> b[j] != sep,
    ensures
        first_byte(b, sep) == Some(i),
{
    lemma_first_byte_props(b, sep);
    match first_byte(b, sep) {
        None => {}
        Some(k) => {
            if k < i {
            } else if i < k {
            }
        }
    }
}

/// First index `>= from` of `sep` in `b`; the result is an absolute index.
pub fn find_byte(b: &[u8], from: usize, sep: u8) -> (r: Option<usize>)
    requires
        from <= b@.len(),
    ensures
        match r {
            Some(i) => from <= i && first_byte(b@.skip(from as int), sep) == Some(
                i - from,
            ),
            None => first_byte(b@.skip(from as int), sep) is None,
        },
{
    let s = Ghost(b@.skip(from as int));
    let mut i: usize = from;
    loop
        invariant
            from <= i <= b@.len(),
            s@ == b@.skip(from as int),
            forall|j: int| 0 <= j < i - from ==> s@[j] != sep,
        decreases b@.len() - i,
    {
        if i == b.len() {
            proof {
                lemma_first_byte_props(s@, sep);
            }
            return None;
        }
        if b[i] == sep {
            proof {
                assert(s@[i - from] == b@[i as int]);
                lemma_first_byte_some(s@, sep, i - from);
            }
            return Some(i);
        }
        proof {
            assert(s@[i - from] == b@[i as int]);
        }
        i = i + 1;
    }
}

/// Split `b` on every occurrence of `sep`; `n` separators yield `n + 1`
/// fields, empty fields included.
pub open spec fn split_by(b: Seq<u8>, sep: u8) -> Seq<Seq<u8>>
    decreases b.len(),
{
    if b.len() == 0 {
        seq![Seq::<u8>::empty()]
    } else if b[0] == sep {
        seq![Seq::<u8>::empty()] + split_by(b.skip(1), sep)
    } else {
        let rest = split_by(b.skip(1), sep);
        seq![seq![b[0]] + rest[0]] + rest.skip(1)
    }
}

pub proof fn lemma_split_by_len(b: Seq<u8>, sep: u8)
    ensures
        split_by(b, sep).len() >= 1,
    decreases b.len(),
{
    if b.len() == 0 {
    } else {
        lemma_split_by_len(b.skip(1), sep);
    }
}

/// Unrolls `split_by` at the first separator: the head field runs up to it,
/// and the rest of the split continues after it.
pub proof fn lemma_split_by_first(b: Seq<u8>, sep: u8)
    ensures
        match first_byte(b, sep) {
            Some(i) => split_by(b, sep) == seq![b.take(i)] + split_by(b.skip(i + 1), sep),
            None => split_by(b, sep) == seq![b],
        },
    decreases b.len(),
{
    lemma_first_byte_props(b, sep);
    if b.len() == 0 {
        assert(b =~= Seq::<u8>::empty());
        assert(split_by(b, sep) =~~= seq![b]);
    } else if b[0] == sep {
        assert(first_byte(b, sep) == Some(0int));
        assert(b.take(0) =~= Seq::<u8>::empty());
        assert(split_by(b, sep) =~~= seq![b.take(0)] + split_by(b.skip(1), sep));
    } else {
        lemma_split_by_first(b.skip(1), sep);
        let rest = split_by(b.skip(1), sep);
        lemma_split_by_len(b.skip(1), sep);
        match first_byte(b, sep) {
            None => {
                lemma_first_byte_props(b.skip(1), sep);
                match first_byte(b.skip(1), sep) {
                    None => {}
                    Some(k) => {
                        assert(b.skip(1)[k] == b[k + 1]);
                    }
                }
                assert(first_byte(b.skip(1), sep) is None);
                assert(rest =~~= seq![b.skip(1)]);
                assert(seq![b[0]] + b.skip(1) =~= b);
                assert(rest.skip(1) =~~= Seq::<Seq<u8>>::empty());
                assert(split_by(b, sep) =~~= seq![b]);
            }
            Some(i) => {
                assert(i >= 1);
                assert(first_byte(b.skip(1), sep) == Some(i - 1)) by {
                    assert(b.skip(1)[i - 1] == b[i]);
                    assert(forall|j: int|
                        0 <= j < i - 1 ==> b.skip(1)[j] == b[j + 1] && b[j + 1] != sep);
                    lemma_first_byte_some(b.skip(1), sep, i - 1);
                }
                assert(rest == seq![b.skip(1).take(i - 1)] + split_by(
                    b.skip(1).skip(i),
                    sep,
                ));
                assert(b.skip(1).skip(i) == b.skip(i + 1));
                assert(seq![b[0]] + rest[0] == b.take(i)) by {
                    assert(rest[0] == b.skip(1).take(i - 1));
                    assert((seq![b[0]] + b.skip(1).take(i - 1)) =~= b.take(i));
                }
                assert(rest.skip(1) =~= split_by(b.skip(i + 1), sep));
                assert(split_by(b, sep) =~= seq![b.take(i)] + split_by(b.skip(i + 1), sep));
            }
        }
    }
}

/// Split a metadata line into its space-separated (or otherwise-separated)
/// fields, as owned byte strings.
pub fn split_tokens(m: &[u8], sep: u8) -> (r: Vec<Vec<u8>>)
    ensures
        r.deep_view() == split_by(m@, sep),
{
    let mlen = m.len();
    let mut out: Vec<Vec<u8>> = Vec::new();
    let mut pos: usize = 0;
    proof {
        assert(m@.len() <= usize::MAX);
        assert(m@.skip(0) =~= m@);
        assert(split_by(m@, sep) =~~= out.deep_view() + split_by(m@.skip(0), sep));
    }
    loop
        invariant
            pos <= m@.len(),
            m@.len() <= usize::MAX,
            split_by(m@, sep) =~~= out.deep_view() + split_by(m@.skip(pos as int), sep),
        decreases m@.len() - pos,
    {
        let ghost suffix = m@.skip(pos as int);
        match find_byte(m, pos, sep) {
            Some(i) => {
                proof {
                    lemma_first_byte_props(suffix, sep);
                    lemma_split_by_first(suffix, sep);
                    assert(i - pos < suffix.len());
                    assert(i < m@.len());
                    assert(suffix.take(i - pos) =~= m@.subrange(pos as int, i as int));
                    assert(suffix.skip(i - pos + 1) =~= m@.skip(i + 1));
                }
                let tok = vstd::slice::slice_to_vec(vstd::slice::slice_subrange(m, pos, i));
                let ghost prev = out.deep_view();
                out.push(tok);
                proof {
                    assert(out.deep_view() =~~= prev + seq![m@.subrange(pos as int, i as int)]);
                    assert(split_by(suffix, sep) =~~= seq![suffix.take(i - pos)] + split_by(
                        suffix.skip(i - pos + 1),
                        sep,
                    ));
                    assert(split_by(m@, sep) =~~= out.deep_view() + split_by(
                        m@.skip(i + 1),
                        sep,
                    ));
                }
                pos = i + 1;
            }
            None => {
                proof {
                    lemma_split_by_first(suffix, sep);
                    assert(suffix =~= m@.subrange(pos as int, m@.len() as int));
                }
                let tok = vstd::slice::slice_to_vec(
                    vstd::slice::slice_subrange(m, pos, m.len()),
                );
                let ghost prev = out.deep_view();
                out.push(tok);
                proof {
                    assert(out.deep_view() =~~= prev + seq![suffix]);
                    assert(split_by(suffix, sep) =~~= seq![suffix]);
                    assert(out.deep_view() =~~= split_by(m@, sep));
                }
                return out;
            }
        }
    }
}

/// Exact equality of two byte strings.
pub fn bytes_eq(a: &[u8], b: &[u8]) -> (r: bool)
    ensures
        r == (a@ == b@),
{
    if a.len() != b.len() {
        proof {
            if a@ == b@ {
                assert(a@.len() == b@.len());
            }
        }
        return false;
    }
    let mut i: usize = 0;
    while i < a.len()
        invariant
            a@.len() == b@.len(),
            i <= a@.len(),
            forall|j: int| 0 <= j < i ==> a@[j] == b@[j],
        decreases a@.len() - i,
    {
        if a[i] != b[i] {
            proof {
                if a@ == b@ {
                    assert(a@[i as int] == b@[i as int]);
                }
            }
            return false;
        }
        i = i + 1;
    }
    proof {
        assert(a@ =~= b@);
    }
    true
}

/// ASCII lower-casing of one byte.
pub open spec fn lower(c: u8) -> u8 {
    if 65 <= c <= 90 {
        (c + 32) as u8
    } else {
        c
    }
}

/// `p` is a prefix of `b` up to ASCII case.
pub open spec fn ci_prefix(b: Seq<u8>, p: Seq<u8>) -> bool {
    p.len() <= b.len() && forall|i: int| 0 <= i < p.len() ==> lower(b[i]) == lower(p[i])
}

pub fn has_ci_prefix(b: &[u8], p: &[u8]) -> (r: bool)
    ensures
        r == ci_prefix(b@, p@),
{
    if p.len() > b.len() {
        return false;
    }
    let mut i: usize = 0;
    while i < p.len()
        invariant
            p@.len() <= b@.len(),
            i <= p@.len(),
            forall|j: int| 0 <= j < i ==> lower(b@[j]) == lower(p@[j]),
        decreases p@.len() - i,
    {
        let bc = b[i];
        let pc = p[i];
        let bl = if 65 <= bc && bc <= 90 {
            bc + 32
        } else {
            bc
        };
        let pl = if 65 <= pc && pc <= 90 {
            pc + 32
        } else {
            pc
        };
        if bl != pl {
            return false;
        }
        i = i + 1;
    }
    true
}

} // verus!
