//! The header block embedded in `HMSG` and `HPUB` frames: the literal
//! leader `NATS/1.0`, then `Name: Value` lines, then a terminating empty
//! line, all CRLF-separated.  Only the first colon of a line separates name
//! from value, so values may themselves contain colons; a single leading
//! and trailing space around the value is stripped.

use vstd::prelude::*;

use crate::commands::{map_insert_spec, HeaderDecodeError, HeaderMap, HeaderName, HeaderValue};
use crate::scan::{first_byte, first_crlf, lemma_first_byte_props, lemma_first_crlf_props};
use crate::strings::bytes_to_string;
use vstd::utf8::{decode_utf8, valid_utf8};

verus! {

/// The bytes of the literal leader line `NATS/1.0`.
pub open spec fn nats_version_bytes() -> Seq<u8> {
    seq![78u8, 65u8, 84u8, 83u8, 47u8, 49u8, 46u8, 48u8]
}

/// What one `Name: Value` line means: the name runs to the first colon and
/// must not be empty of meaning on the wire; the value follows it, with one
/// optional space of padding on each side.
pub open spec fn parse_header_spec(line: Seq<u8>) -> Result<
    (Seq<char>, Seq<char>),
    HeaderDecodeError,
> {
    match first_byte(line, 58) {
        None => Err(HeaderDecodeError::NoColon),
        Some(c) => {
            let name = line.take(c);
            let raw = line.skip(c + 1);
            let v1 = if raw.len() > 0 && raw.first() == 32 {
                raw.skip(1)
            } else {
                raw
            };
            let v2 = if v1.len() > 0 && v1.last() == 32 {
                v1.take(v1.len() - 1)
            } else {
                v1
            };
            if !valid_utf8(name) {
                Err(HeaderDecodeError::BadHeaderName)
            } else if !valid_utf8(v2) {
                Err(HeaderDecodeError::BadHeaderValue)
            } else {
                Ok((decode_utf8(name), decode_utf8(v2)))
            }
        },
    }
}

/// Meaning of the header lines that remain after `offset` bytes of `h` have
/// been consumed, folded into the map built so far.  The block is complete
/// exactly when an empty line ends at `total` consumed bytes.
pub open spec fn parse_lines_spec(
    rest: Seq<u8>,
    offset: int,
    total: int,
    acc: Seq<(Seq<char>, Seq<Seq<char>>)>,
) -> Result<Seq<(Seq<char>, Seq<Seq<char>>)>, HeaderDecodeError>
    decreases rest.len(),
{
    match first_crlf(rest) {
        None => Err(HeaderDecodeError::BadLength),
        Some(i) => if !(0 <= i && i + 2 <= rest.len()) {
            Err(HeaderDecodeError::BadLength)
        } else {
            let line = rest.take(i);
            let newoff = offset + i + 2;
            if line.len() == 0 && newoff == total {
                Ok(acc)
            } else if line.len() > 0 && newoff != total {
                match parse_header_spec(line) {
                    Err(e) => Err(e),
                    Ok((n, v)) => parse_lines_spec(
                        rest.skip(i + 2),
                        newoff,
                        total,
                        map_insert_spec(acc, n, v),
                    ),
                }
            } else {
                Err(HeaderDecodeError::BadLength)
            }
        },
    }
}

/// Meaning of a whole header block of claimed length `total`.
pub open spec fn parse_headers_spec(h: Seq<u8>, total: int) -> Result<
    Seq<(Seq<char>, Seq<Seq<char>>)>,
    HeaderDecodeError,
> {
    if total < 2 {
        Err(HeaderDecodeError::BadLength)
    } else {
        match first_crlf(h) {
            None => Err(HeaderDecodeError::MissingNatsVersion),
            Some(i) => if h.take(i) != nats_version_bytes() {
                Err(HeaderDecodeError::MissingNatsVersion)
            } else {
                parse_lines_spec(h.skip(i + 2), i + 2, total, Seq::empty())
            },
        }
    }
}

fn is_nats_version(b: &[u8]) -> (r: bool)
    ensures
        r == (b@ == nats_version_bytes()),
{
    let r = b.len() == 8 && b[0] == 78 && b[1] == 65 && b[2] == 84 && b[3] == 83 && b[4]
        == 47 && b[5] == 49 && b[6] == 46 && b[7] == 48;
    proof {
        if r {
            assert(b@ =~= nats_version_bytes());
        }
        if b@ == nats_version_bytes() {
            assert(b@.len() == 8);
            assert(b@[0] == 78);
            assert(b@[1] == 65);
            assert(b@[2] == 84);
            assert(b@[3] == 83);
            assert(b@[4] == 47);
            assert(b@[5] == 49);
            assert(b@[6] == 46);
            assert(b@[7] == 48);
        }
    }
    r
}

/// Parse one `Name: Value` line.
fn parse_header(line: &[u8]) -> (r: Result<(HeaderName, HeaderValue), HeaderDecodeError>)
    ensures
        match r {
            Ok((n, v)) => parse_header_spec(line@) == Ok::<_, HeaderDecodeError>(
                (n.0@, v.0@),
            ),
            Err(e) => parse_header_spec(line@) == Err::<(Seq<char>, Seq<char>), _>(e),
        },
{
    let llen = line.len();
    let colon = match crate::scan::find_byte(line, 0, 58) {
        None => {
            proof {
                assert(line@.skip(0) =~= line@);
            }
            return Err(HeaderDecodeError::NoColon);
        },
        Some(c) => c,
    };
    proof {
        assert(line@.skip(0) =~= line@);
        lemma_first_byte_props(line@, 58);
        assert(colon < llen);
    }
    let name_bytes = vstd::slice::slice_to_vec(vstd::slice::slice_subrange(line, 0, colon));
    proof {
        assert(name_bytes@ =~= line@.take(colon as int));
    }
    // Strip one leading and one trailing space around the raw value.
    let mut lo: usize = colon + 1;
    let mut hi: usize = line.len();
    let ghost raw = line@.skip(colon + 1);
    if lo < hi && line[lo] == 32 {
        lo = lo + 1;
    }
    if lo < hi && line[hi - 1] == 32 {
        hi = hi - 1;
    }
    let value_bytes = vstd::slice::slice_to_vec(vstd::slice::slice_subrange(line, lo, hi));
    proof {
        let v1 = if raw.len() > 0 && raw.first() == 32 {
            raw.skip(1)
        } else {
            raw
        };
        let v2 = if v1.len() > 0 && v1.last() == 32 {
            v1.take(v1.len() - 1)
        } else {
            v1
        };
        assert(value_bytes@ =~= v2);
    }
    let name = match bytes_to_string(name_bytes) {
        None => {
            return Err(HeaderDecodeError::BadHeaderName);
        },
        Some(s) => s,
    };
    let value = match bytes_to_string(value_bytes) {
        None => {
            return Err(HeaderDecodeError::BadHeaderValue);
        },
        Some(s) => s,
    };
    Ok((HeaderName(name), HeaderValue(value)))
}

/// Parse a header block of claimed length `headers_length`: the `NATS/1.0`
/// leader, then name/value lines, then the terminating empty line, which
/// must close the block at exactly `headers_length` consumed bytes.
pub fn parse_headers(header_buffer: &[u8], headers_length: usize) -> (r: Result<
    HeaderMap,
    HeaderDecodeError,
>)
    ensures
        match r {
            Ok(m) => parse_headers_spec(header_buffer@, headers_length as int) == Ok::<
                _,
                HeaderDecodeError,
            >(m@),
            Err(e) => parse_headers_spec(header_buffer@, headers_length as int) == Err::<
                Seq<(Seq<char>, Seq<Seq<char>>)>,
                _,
            >(e),
        },
{
    let h = header_buffer;
    let hlen = h.len();
    if headers_length < 2 {
        return Err(HeaderDecodeError::BadLength);
    }
    let leader_end = match crate::scan::find_crlf(h, hlen) {
        None => {
            proof {
                assert(h@.take(hlen as int) =~= h@);
            }
            return Err(HeaderDecodeError::MissingNatsVersion);
        },
        Some(i) => i,
    };
    proof {
        assert(h@.take(hlen as int) =~= h@);
        lemma_first_crlf_props(h@);
    }
    if !is_nats_version(vstd::slice::slice_subrange(h, 0, leader_end)) {
        proof {
            assert(h@.subrange(0, leader_end as int) =~= h@.take(leader_end as int));
        }
        return Err(HeaderDecodeError::MissingNatsVersion);
    }
    proof {
        assert(h@.subrange(0, leader_end as int) =~= h@.take(leader_end as int));
    }
    let mut pos: usize = leader_end + 2;
    let mut map = HeaderMap::new();
    proof {
        assert(map@ =~~= Seq::<(Seq<char>, Seq<Seq<char>>)>::empty());
    }
    loop
        invariant
            h@ == header_buffer@,
            pos <= h@.len(),
            hlen == h@.len(),
            parse_headers_spec(h@, headers_length as int) == parse_lines_spec(
                h@.skip(pos as int),
                pos as int,
                headers_length as int,
                map@,
            ),
        decreases h@.len() - pos,
    {
        let ghost rest = h@.skip(pos as int);
        let tail = vstd::slice::slice_subrange(h, pos, hlen);
        proof {
            assert(tail@ =~= rest);
        }
        let line_end_rel = match crate::scan::find_crlf(tail, hlen - pos) {
            None => {
                proof {
                    assert(tail@.take((hlen - pos) as int) =~= rest);
                }
                return Err(HeaderDecodeError::BadLength);
            },
            Some(i) => i,
        };
        proof {
            assert(tail@.take((hlen - pos) as int) =~= rest);
            lemma_first_crlf_props(rest);
        }
        let line_len = line_end_rel;
        let newoff = pos + line_end_rel + 2;
        let ghost line = rest.take(line_end_rel as int);
        proof {
            assert(line.len() == line_end_rel);
        }
        if line_len == 0 && newoff == headers_length {
            proof {
                assert(parse_lines_spec(
                    rest,
                    pos as int,
                    headers_length as int,
                    map@,
                ) == Ok::<_, HeaderDecodeError>(map@));
            }
            return Ok(map);
        }
        if !(line_len > 0 && newoff != headers_length) {
            proof {
                assert(parse_lines_spec(
                    rest,
                    pos as int,
                    headers_length as int,
                    map@,
                ) == Err::<Seq<(Seq<char>, Seq<Seq<char>>)>, _>(HeaderDecodeError::BadLength));
            }
            return Err(HeaderDecodeError::BadLength);
        }
        let line_slice = vstd::slice::slice_subrange(h, pos, pos + line_end_rel);
        proof {
            assert(line_slice@ =~= line);
        }
        let (n, v) = match parse_header(line_slice) {
            Err(e) => {
                return Err(e);
            },
            Ok(nv) => nv,
        };
        let ghost nv_name = n.0@;
        let ghost nv_value = v.0@;
        let ghost m0 = map@;
        map.insert(n, v);
        proof {
            assert(map@ =~~= map_insert_spec(m0, nv_name, nv_value));
            assert(parse_lines_spec(rest, pos as int, headers_length as int, m0)
                == parse_lines_spec(
                rest.skip(line_end_rel + 2),
                pos + line_end_rel + 2,
                headers_length as int,
                map@,
            ));
        }
        pos = newoff;
        proof {
            assert(h@.skip(pos as int) =~= rest.skip(line_end_rel + 2));
        }
    }
}

} // verus!
