//! Encoding of outbound client commands.  The formatting rules exactly
//! mirror the decoder grammar: every emitted frame ends with CRLF, the
//! header block of `HPUB` begins with `NATS/1.0` and ends with an empty
//! line, and the `CONNECT` options object is written as standard JSON in
//! field declaration order, with `null` for absent options.

use vstd::prelude::*;

use crate::commands::{
    ClientCommand, ClientCommandV, ClientEncodeError, ConnectV, HPublishV, PublishV,
    SubscribeV, UnsubscribeV,
};
use crate::num::dec_digits;
use crate::strings::push_str_bytes;
use vstd::utf8::encode_utf8;

verus! {

pub open spec fn crlf_bytes() -> Seq<u8> {
    seq![13u8, 10u8]
}

pub open spec fn space_byte() -> Seq<u8> {
    seq![32u8]
}

/// Lower-case hexadecimal digit for a value below sixteen.
pub open spec fn hex_digit(n: int) -> u8 {
    if n < 10 {
        (48 + n) as u8
    } else {
        (87 + n) as u8
    }
}

/// How one byte of a JSON string is written: quote and backslash escaped,
/// control bytes as a four-digit escape, everything else verbatim.
pub open spec fn json_escape_byte(c: u8) -> Seq<u8> {
    if c == 34 {
        seq![92u8, 34u8]
    } else if c == 92 {
        seq![92u8, 92u8]
    } else if c < 32 {
        seq![92u8, 117u8, 48u8, 48u8, hex_digit(c as int / 16), hex_digit(c as int % 16)]
    } else {
        seq![c]
    }
}

/// A byte string escaped for a JSON string literal.
pub open spec fn json_escape(s: Seq<u8>) -> Seq<u8>
    decreases s.len(),
{
    if s.len() == 0 {
        Seq::empty()
    } else {
        json_escape_byte(s[0]) + json_escape(s.skip(1))
    }
}

pub proof fn lemma_json_escape_snoc(s: Seq<u8>, c: u8)
    ensures
        json_escape(s.push(c)) == json_escape(s) + json_escape_byte(c),
    decreases s.len(),
{
    if s.len() == 0 {
        assert(s.push(c)[0] == c);
        assert(s.push(c).skip(1) =~= Seq::<u8>::empty());
        assert(json_escape(Seq::<u8>::empty()) =~= Seq::<u8>::empty());
        assert(json_escape(s.push(c)) =~= json_escape_byte(c));
        assert(json_escape(s) + json_escape_byte(c) =~= json_escape_byte(c));
    } else {
        assert(s.push(c)[0] == s[0]);
        assert(s.push(c).skip(1) =~= s.skip(1).push(c));
        lemma_json_escape_snoc(s.skip(1), c);
        assert(json_escape(s.push(c)) =~= json_escape(s) + json_escape_byte(c));
    }
}

/// A quoted JSON string literal.
pub open spec fn json_string(s: Seq<char>) -> Seq<u8> {
    seq![34u8] + json_escape(encode_utf8(s)) + seq![34u8]
}

pub open spec fn json_bool(b: bool) -> Seq<u8> {
    if b {
        encode_utf8("true"@)
    } else {
        encode_utf8("false"@)
    }
}

pub open spec fn json_opt_string(o: Option<Seq<char>>) -> Seq<u8> {
    match o {
        None => encode_utf8("null"@),
        Some(s) => json_string(s),
    }
}

pub open spec fn json_opt_bool(o: Option<bool>) -> Seq<u8> {
    match o {
        None => encode_utf8("null"@),
        Some(b) => json_bool(b),
    }
}

pub open spec fn json_opt_u8(o: Option<u8>) -> Seq<u8> {
    match o {
        None => encode_utf8("null"@),
        Some(n) => dec_digits(n as nat),
    }
}

/// The JSON object a connect-options value is written as.
pub open spec fn connect_json(c: ConnectV) -> Seq<u8> {
    encode_utf8("{\"verbose\":"@) + json_bool(c.verbose) + encode_utf8(",\"pedantic\":"@)
        + json_bool(c.pedantic) + encode_utf8(",\"tls_required\":"@) + json_bool(
        c.tls_required,
    ) + encode_utf8(",\"auth_token\":"@) + json_opt_string(c.auth_token) + encode_utf8(
        ",\"user\":"@,
    ) + json_opt_string(c.user) + encode_utf8(",\"pass\":"@) + json_opt_string(c.pass)
        + encode_utf8(",\"name\":"@) + json_opt_string(c.name) + encode_utf8(
        ",\"lang\":"@,
    ) + json_string(c.lang) + encode_utf8(",\"version\":"@) + json_string(c.version)
        + encode_utf8(",\"protocol\":"@) + json_opt_u8(c.protocol) + encode_utf8(
        ",\"echo\":"@,
    ) + json_opt_bool(c.echo) + encode_utf8(",\"sig\":"@) + json_opt_string(c.sig)
        + encode_utf8(",\"jwt\":"@) + json_opt_string(c.jwt) + encode_utf8(
        ",\"no_responders\":"@,
    ) + json_opt_bool(c.no_responders) + encode_utf8(",\"headers\":"@) + json_opt_bool(
        c.headers,
    ) + encode_utf8(",\"nkey\":"@) + json_opt_string(c.nkey) + encode_utf8("}"@)
}

/// One header entry written out: one `Name: Value` line per value.
pub open spec fn encode_header_entry(name: Seq<char>, vals: Seq<Seq<char>>) -> Seq<u8>
    decreases vals.len(),
{
    if vals.len() == 0 {
        Seq::empty()
    } else {
        encode_utf8(name) + seq![58u8, 32u8] + encode_utf8(vals[0]) + crlf_bytes()
            + encode_header_entry(name, vals.skip(1))
    }
}

/// A whole header map written out, entries in stored order.
pub open spec fn encode_headers(h: Seq<(Seq<char>, Seq<Seq<char>>)>) -> Seq<u8>
    decreases h.len(),
{
    if h.len() == 0 {
        Seq::empty()
    } else {
        encode_header_entry(h[0].0, h[0].1) + encode_headers(h.skip(1))
    }
}

/// The wire bytes of a `CONNECT` frame.
pub open spec fn encode_connect(c: ConnectV) -> Seq<u8> {
    encode_utf8("CONNECT "@) + connect_json(c) + crlf_bytes()
}

/// The wire bytes of a `PUB` frame; the length field is the command's
/// `bytes` field, as the caller set it.
pub open spec fn encode_publish(p: PublishV) -> Seq<u8> {
    encode_utf8("PUB "@) + encode_utf8(p.subject) + (match p.reply_to {
        Some(r) => space_byte() + encode_utf8(r),
        None => Seq::empty(),
    }) + space_byte() + dec_digits(p.bytes as nat) + crlf_bytes() + p.payload
        + crlf_bytes()
}

/// The wire bytes of an `HPUB` frame.
pub open spec fn encode_hpublish(p: HPublishV) -> Seq<u8> {
    encode_utf8("HPUB "@) + encode_utf8(p.subject) + space_byte() + (match p.reply_to {
        Some(r) => encode_utf8(r) + space_byte(),
        None => Seq::empty(),
    }) + dec_digits(p.header_bytes as nat) + space_byte() + dec_digits(
        p.total_bytes as nat,
    ) + crlf_bytes() + encode_utf8("NATS/1.0"@) + crlf_bytes() + encode_headers(p.headers)
        + crlf_bytes() + p.payload + crlf_bytes()
}

/// The wire bytes of a `SUB` frame.
pub open spec fn encode_subscribe(s: SubscribeV) -> Seq<u8> {
    encode_utf8("SUB "@) + encode_utf8(s.subject) + (match s.queue_group {
        Some(q) => space_byte() + encode_utf8(q),
        None => Seq::empty(),
    }) + space_byte() + encode_utf8(s.sid) + crlf_bytes()
}

/// The wire bytes of an `UNSUB` frame.
pub open spec fn encode_unsubscribe(u: UnsubscribeV) -> Seq<u8> {
    encode_utf8("UNSUB "@) + encode_utf8(u.sid) + (match u.max_msgs {
        Some(m) => space_byte() + dec_digits(m as nat),
        None => Seq::empty(),
    }) + crlf_bytes()
}

/// The wire bytes of any client command.
pub open spec fn encode_client_command(c: ClientCommandV) -> Seq<u8> {
    match c {
        ClientCommandV::Connect(x) => encode_connect(x),
        ClientCommandV::Publish(x) => encode_publish(x),
        ClientCommandV::HPublish(x) => encode_hpublish(x),
        ClientCommandV::Subscribe(x) => encode_subscribe(x),
        ClientCommandV::Unsubscribe(x) => encode_unsubscribe(x),
        ClientCommandV::Ping => encode_utf8("PING"@) + crlf_bytes(),
        ClientCommandV::Pong => encode_utf8("PONG"@) + crlf_bytes(),
    }
}

/// Append raw bytes.
fn push_bytes(out: &mut Vec<u8>, b: &[u8])
    ensures
        final(out)@ == old(out)@ + b@,
{
    let mut i: usize = 0;
    while i < b.len()
        invariant
            i <= b@.len(),
            out@ == old(out)@ + b@.take(i as int),
        decreases b@.len() - i,
    {
        out.push(b[i]);
        proof {
            assert(old(out)@ + b@.take(i + 1) =~= (old(out)@ + b@.take(i as int)).push(
                b@[i as int],
            ));
        }
        i = i + 1;
    }
    proof {
        assert(b@.take(b@.len() as int) =~= b@);
    }
}

/// Append the CRLF frame delimiter.
fn push_crlf(out: &mut Vec<u8>)
    ensures
        final(out)@ == old(out)@ + crlf_bytes(),
{
    out.push(13);
    out.push(10);
    proof {
        assert(final(out)@ =~= old(out)@ + crlf_bytes());
    }
}

/// Append a space.
fn push_space(out: &mut Vec<u8>)
    ensures
        final(out)@ == old(out)@ + space_byte(),
{
    out.push(32);
    proof {
        assert(final(out)@ =~= old(out)@ + space_byte());
    }
}

/// Append a decimal numeral.
fn push_dec(out: &mut Vec<u8>, n: usize)
    ensures
        final(out)@ == old(out)@ + dec_digits(n as nat),
{
    let d = crate::num::usize_to_dec(n);
    push_bytes(out, d.as_slice());
}

/// Append a quoted, escaped JSON string literal.
fn push_json_string(out: &mut Vec<u8>, s: &str)
    ensures
        final(out)@ == old(out)@ + json_string(s@),
{
    out.push(34);
    let b = s.as_bytes();
    let ghost sb = encode_utf8(s@);
    let mut i: usize = 0;
    while i < b.len()
        invariant
            i <= b@.len(),
            b@ == sb,
            out@ == old(out)@ + seq![34u8] + json_escape(sb.take(i as int)),
        decreases b@.len() - i,
    {
        let c = b[i];
        proof {
            assert(sb.take(i + 1) =~= sb.take(i as int).push(sb[i as int]));
            lemma_json_escape_snoc(sb.take(i as int), c);
        }
        if c == 34 {
            out.push(92);
            out.push(34);
        } else if c == 92 {
            out.push(92);
            out.push(92);
        } else if c < 32 {
            out.push(92);
            out.push(117);
            out.push(48);
            out.push(48);
            let hi = c / 16;
            let lo = c % 16;
            out.push(
                if hi < 10 {
                    48 + hi
                } else {
                    87 + hi
                },
            );
            out.push(
                if lo < 10 {
                    48 + lo
                } else {
                    87 + lo
                },
            );
        } else {
            out.push(c);
        }
        proof {
            assert(out@ =~= old(out)@ + seq![34u8] + json_escape(sb.take(i + 1)));
        }
        i = i + 1;
    }
    out.push(34);
    proof {
        assert(sb.take(sb.len() as int) =~= sb);
        assert(final(out)@ =~= old(out)@ + json_string(s@));
    }
}

/// Append a JSON string or `null`.
fn push_json_opt_string(out: &mut Vec<u8>, s: &Option<String>)
    ensures
        final(out)@ == old(out)@ + json_opt_string(crate::commands::opt_str_view(*s)),
{
    match s {
        None => push_str_bytes(out, "null"),
        Some(v) => push_json_string(out, v.as_str()),
    }
}

/// Append a JSON boolean.
fn push_json_bool(out: &mut Vec<u8>, b: bool)
    ensures
        final(out)@ == old(out)@ + json_bool(b),
{
    if b {
        push_str_bytes(out, "true");
    } else {
        push_str_bytes(out, "false");
    }
}

/// Append a JSON boolean or `null`.
fn push_json_opt_bool(out: &mut Vec<u8>, b: &Option<bool>)
    ensures
        final(out)@ == old(out)@ + json_opt_bool(*b),
{
    match b {
        None => push_str_bytes(out, "null"),
        Some(true) => push_str_bytes(out, "true"),
        Some(false) => push_str_bytes(out, "false"),
    }
}

/// Append a JSON number or `null`.
fn push_json_opt_u8(out: &mut Vec<u8>, n: &Option<u8>)
    ensures
        final(out)@ == old(out)@ + json_opt_u8(*n),
{
    match n {
        None => push_str_bytes(out, "null"),
        Some(v) => push_dec(out, *v as usize),
    }
}

} // verus!
verus! {

proof fn lemma_encode_entry_snoc(name: Seq<char>, vals: Seq<Seq<char>>, v: Seq<char>)
    ensures
        encode_header_entry(name, vals.push(v)) == encode_header_entry(name, vals) + (
        encode_utf8(name) + seq![58u8, 32u8] + encode_utf8(v) + crlf_bytes()),
    decreases vals.len(),
{
    if vals.len() == 0 {
        assert(vals.push(v)[0] == v);
        assert(vals.push(v).skip(1) =~= Seq::<Seq<char>>::empty());
        assert(encode_header_entry(name, Seq::<Seq<char>>::empty())
            =~= Seq::<u8>::empty());
        assert(encode_header_entry(name, vals.push(v)) =~= encode_header_entry(
            name,
            vals,
        ) + (encode_utf8(name) + seq![58u8, 32u8] + encode_utf8(v) + crlf_bytes()));
    } else {
        assert(vals.push(v)[0] == vals[0]);
        assert(vals.push(v).skip(1) =~= vals.skip(1).push(v));
        lemma_encode_entry_snoc(name, vals.skip(1), v);
        assert(encode_header_entry(name, vals.push(v)) =~= encode_header_entry(
            name,
            vals,
        ) + (encode_utf8(name) + seq![58u8, 32u8] + encode_utf8(v) + crlf_bytes()));
    }
}

proof fn lemma_encode_headers_snoc(
    h: Seq<(Seq<char>, Seq<Seq<char>>)>,
    e: (Seq<char>, Seq<Seq<char>>),
)
    ensures
        encode_headers(h.push(e)) == encode_headers(h) + encode_header_entry(e.0, e.1),
    decreases h.len(),
{
    if h.len() == 0 {
        assert(h.push(e)[0] == e);
        assert(h.push(e).skip(1) =~= Seq::<(Seq<char>, Seq<Seq<char>>)>::empty());
        assert(encode_headers(Seq::<(Seq<char>, Seq<Seq<char>>)>::empty())
            =~= Seq::<u8>::empty());
        assert(encode_headers(h.push(e)) =~= encode_headers(h) + encode_header_entry(
            e.0,
            e.1,
        ));
    } else {
        assert(h.push(e)[0] == h[0]);
        assert(h.push(e).skip(1) =~= h.skip(1).push(e));
        lemma_encode_headers_snoc(h.skip(1), e);
        assert(encode_headers(h.push(e)) =~= encode_headers(h) + encode_header_entry(
            e.0,
            e.1,
        ));
    }
}

/// Append one header entry's lines.
fn push_header_entry(out: &mut Vec<u8>, name: &crate::commands::HeaderName, vals: &Vec<
    crate::commands::HeaderValue,
>)
    ensures
        final(out)@ == old(out)@ + encode_header_entry(
            name.0@,
            Seq::new(vals@.len(), |j: int| vals@[j].0@),
        ),
{
    let ghost vv = Seq::new(vals@.len(), |j: int| vals@[j].0@);
    let mut j: usize = 0;
    proof {
        assert(vv.take(0) =~= Seq::<Seq<char>>::empty());
        assert(encode_header_entry(name.0@, vv.take(0)) =~= Seq::<u8>::empty());
        assert(out@ =~= out@ + encode_header_entry(name.0@, vv.take(0)));
    }
    while j < vals.len()
        invariant
            j <= vals@.len(),
            vv == Seq::new(vals@.len(), |j: int| vals@[j].0@),
            out@ == old(out)@ + encode_header_entry(name.0@, vv.take(j as int)),
        decreases vals@.len() - j,
    {
        push_str_bytes(out, name.0.as_str());
        out.push(58);
        out.push(32);
        push_str_bytes(out, vals[j].0.as_str());
        push_crlf(out);
        proof {
            assert(vv.take(j + 1) =~= vv.take(j as int).push(vv[j as int]));
            lemma_encode_entry_snoc(name.0@, vv.take(j as int), vv[j as int]);
            assert(vv[j as int] == vals@[j as int].0@);
            assert(out@ =~= old(out)@ + encode_header_entry(name.0@, vv.take(j + 1)));
        }
        j = j + 1;
    }
    proof {
        assert(vv.take(vv.len() as int) =~= vv);
    }
}

/// Append every entry of a header map, in stored order.
fn push_headers(out: &mut Vec<u8>, h: &crate::commands::HeaderMap)
    ensures
        final(out)@ == old(out)@ + encode_headers(h@),
{
    let mut i: usize = 0;
    proof {
        assert(h@.take(0) =~= Seq::<(Seq<char>, Seq<Seq<char>>)>::empty());
        assert(encode_headers(h@.take(0)) =~= Seq::<u8>::empty());
        assert(out@ =~= out@ + encode_headers(h@.take(0)));
    }
    while i < h.0.len()
        invariant
            i <= h.0@.len(),
            h@.len() == h.0@.len(),
            out@ == old(out)@ + encode_headers(h@.take(i as int)),
        decreases h.0@.len() - i,
    {
        let entry = &h.0[i];
        push_header_entry(out, &entry.0, &entry.1);
        proof {
            assert(h@.take(i + 1) =~= h@.take(i as int).push(h@[i as int]));
            lemma_encode_headers_snoc(h@.take(i as int), h@[i as int]);
            assert(h@[i as int] == crate::commands::header_entry_view(h.0@[i as int]));
            assert(out@ =~= old(out)@ + encode_headers(h@.take(i + 1)));
        }
        i = i + 1;
    }
    proof {
        assert(h@.take(h@.len() as int) =~= h@);
    }
}

pub proof fn lemma_seq_add_assoc<A>(a: Seq<A>, b: Seq<A>, c: Seq<A>)
    ensures
        (a + b) + c == a + (b + c),
{
    assert((a + b) + c =~= a + (b + c));
}

/// Write the JSON options object of a `CONNECT` frame.
#[verifier::rlimit(100)]
fn connect_body(c: &crate::commands::Connect, dst: &mut Vec<u8>)
    ensures
        final(dst)@ == old(dst)@ + connect_json(c@),
{
    push_str_bytes(dst, "{\"verbose\":");
    push_json_bool(dst, c.verbose);
    proof {
        lemma_seq_add_assoc::<u8>(old(dst)@, encode_utf8("{\"verbose\":"@), json_bool(c@.verbose));
        assert(dst@ == old(dst)@ + (encode_utf8("{\"verbose\":"@) + json_bool(c@.verbose)));
    }
    push_str_bytes(dst, ",\"pedantic\":");
    push_json_bool(dst, c.pedantic);
    proof {
        lemma_seq_add_assoc::<u8>(old(dst)@, encode_utf8("{\"verbose\":"@) + json_bool(c@.verbose), encode_utf8(",\"pedantic\":"@));
        lemma_seq_add_assoc::<u8>(old(dst)@, encode_utf8("{\"verbose\":"@) + json_bool(c@.verbose) + encode_utf8(",\"pedantic\":"@), json_bool(c@.pedantic));
        assert(dst@ == old(dst)@ + (encode_utf8("{\"verbose\":"@) + json_bool(c@.verbose) + encode_utf8(",\"pedantic\":"@) + json_bool(c@.pedantic)));
    }
    push_str_bytes(dst, ",\"tls_required\":");
    push_json_bool(dst, c.tls_required);
    proof {
        lemma_seq_add_assoc::<u8>(old(dst)@, encode_utf8("{\"verbose\":"@) + json_bool(c@.verbose) + encode_utf8(",\"pedantic\":"@) + json_bool(c@.pedantic), encode_utf8(",\"tls_required\":"@));
        lemma_seq_add_assoc::<u8>(old(dst)@, encode_utf8("{\"verbose\":"@) + json_bool(c@.verbose) + encode_utf8(",\"pedantic\":"@) + json_bool(c@.pedantic) + encode_utf8(",\"tls_required\":"@), json_bool(c@.tls_required));
        assert(dst@ == old(dst)@ + (encode_utf8("{\"verbose\":"@) + json_bool(c@.verbose) + encode_utf8(",\"pedantic\":"@) + json_bool(c@.pedantic) + encode_utf8(",\"tls_required\":"@) + json_bool(c@.tls_required)));
    }
    push_str_bytes(dst, ",\"auth_token\":");
    push_json_opt_string(dst, &c.auth_token);
    proof {
        lemma_seq_add_assoc::<u8>(old(dst)@, encode_utf8("{\"verbose\":"@) + json_bool(c@.verbose) + encode_utf8(",\"pedantic\":"@) + json_bool(c@.pedantic) + encode_utf8(",\"tls_required\":"@) + json_bool(c@.tls_required), encode_utf8(",\"auth_token\":"@));
        lemma_seq_add_assoc::<u8>(old(dst)@, encode_utf8("{\"verbose\":"@) + json_bool(c@.verbose) + encode_utf8(",\"pedantic\":"@) + json_bool(c@.pedantic) + encode_utf8(",\"tls_required\":"@) + json_bool(c@.tls_required) + encode_utf8(",\"auth_token\":"@), json_opt_string(c@.auth_token));
        assert(dst@ == old(dst)@ + (encode_utf8("{\"verbose\":"@) + json_bool(c@.verbose) + encode_utf8(",\"pedantic\":"@) + json_bool(c@.pedantic) + encode_utf8(",\"tls_required\":"@) + json_bool(c@.tls_required) + encode_utf8(",\"auth_token\":"@) + json_opt_string(c@.auth_token)));
    }
    push_str_bytes(dst, ",\"user\":");
    push_json_opt_string(dst, &c.user);
    proof {
        lemma_seq_add_assoc::<u8>(old(dst)@, encode_utf8("{\"verbose\":"@) + json_bool(c@.verbose) + encode_utf8(",\"pedantic\":"@) + json_bool(c@.pedantic) + encode_utf8(",\"tls_required\":"@) + json_bool(c@.tls_required) + encode_utf8(",\"auth_token\":"@) + json_opt_string(c@.auth_token), encode_utf8(",\"user\":"@));
        lemma_seq_add_assoc::<u8>(old(dst)@, encode_utf8("{\"verbose\":"@) + json_bool(c@.verbose) + encode_utf8(",\"pedantic\":"@) + json_bool(c@.pedantic) + encode_utf8(",\"tls_required\":"@) + json_bool(c@.tls_required) + encode_utf8(",\"auth_token\":"@) + json_opt_string(c@.auth_token) + encode_utf8(",\"user\":"@), json_opt_string(c@.user));
        assert(dst@ == old(dst)@ + (encode_utf8("{\"verbose\":"@) + json_bool(c@.verbose) + encode_utf8(",\"pedantic\":"@) + json_bool(c@.pedantic) + encode_utf8(",\"tls_required\":"@) + json_bool(c@.tls_required) + encode_utf8(",\"auth_token\":"@) + json_opt_string(c@.auth_token) + encode_utf8(",\"user\":"@) + json_opt_string(c@.user)));
    }
    push_str_bytes(dst, ",\"pass\":");
    push_json_opt_string(dst, &c.pass);
    proof {
        lemma_seq_add_assoc::<u8>(old(dst)@, encode_utf8("{\"verbose\":"@) + json_bool(c@.verbose) + encode_utf8(",\"pedantic\":"@) + json_bool(c@.pedantic) + encode_utf8(",\"tls_required\":"@) + json_bool(c@.tls_required) + encode_utf8(",\"auth_token\":"@) + json_opt_string(c@.auth_token) + encode_utf8(",\"user\":"@) + json_opt_string(c@.user), encode_utf8(",\"pass\":"@));
        lemma_seq_add_assoc::<u8>(old(dst)@, encode_utf8("{\"verbose\":"@) + json_bool(c@.verbose) + encode_utf8(",\"pedantic\":"@) + json_bool(c@.pedantic) + encode_utf8(",\"tls_required\":"@) + json_bool(c@.tls_required) + encode_utf8(",\"auth_token\":"@) + json_opt_string(c@.auth_token) + encode_utf8(",\"user\":"@) + json_opt_string(c@.user) + encode_utf8(",\"pass\":"@), json_opt_string(c@.pass));
        assert(dst@ == old(dst)@ + (encode_utf8("{\"verbose\":"@) + json_bool(c@.verbose) + encode_utf8(",\"pedantic\":"@) + json_bool(c@.pedantic) + encode_utf8(",\"tls_required\":"@) + json_bool(c@.tls_required) + encode_utf8(",\"auth_token\":"@) + json_opt_string(c@.auth_token) + encode_utf8(",\"user\":"@) + json_opt_string(c@.user) + encode_utf8(",\"pass\":"@) + json_opt_string(c@.pass)));
    }
    push_str_bytes(dst, ",\"name\":");
    push_json_opt_string(dst, &c.name);
    proof {
        lemma_seq_add_assoc::<u8>(old(dst)@, encode_utf8("{\"verbose\":"@) + json_bool(c@.verbose) + encode_utf8(",\"pedantic\":"@) + json_bool(c@.pedantic) + encode_utf8(",\"tls_required\":"@) + json_bool(c@.tls_required) + encode_utf8(",\"auth_token\":"@) + json_opt_string(c@.auth_token) + encode_utf8(",\"user\":"@) + json_opt_string(c@.user) + encode_utf8(",\"pass\":"@) + json_opt_string(c@.pass), encode_utf8(",\"name\":"@));
        lemma_seq_add_assoc::<u8>(old(dst)@, encode_utf8("{\"verbose\":"@) + json_bool(c@.verbose) + encode_utf8(",\"pedantic\":"@) + json_bool(c@.pedantic) + encode_utf8(",\"tls_required\":"@) + json_bool(c@.tls_required) + encode_utf8(",\"auth_token\":"@) + json_opt_string(c@.auth_token) + encode_utf8(",\"user\":"@) + json_opt_string(c@.user) + encode_utf8(",\"pass\":"@) + json_opt_string(c@.pass) + encode_utf8(",\"name\":"@), json_opt_string(c@.name));
        assert(dst@ == old(dst)@ + (encode_utf8("{\"verbose\":"@) + json_bool(c@.verbose) + encode_utf8(",\"pedantic\":"@) + json_bool(c@.pedantic) + encode_utf8(",\"tls_required\":"@) + json_bool(c@.tls_required) + encode_utf8(",\"auth_token\":"@) + json_opt_string(c@.auth_token) + encode_utf8(",\"user\":"@) + json_opt_string(c@.user) + encode_utf8(",\"pass\":"@) + json_opt_string(c@.pass) + encode_utf8(",\"name\":"@) + json_opt_string(c@.name)));
    }
    push_str_bytes(dst, ",\"lang\":");
    push_json_string(dst, c.lang.as_str());
    proof {
        lemma_seq_add_assoc::<u8>(old(dst)@, encode_utf8("{\"verbose\":"@) + json_bool(c@.verbose) + encode_utf8(",\"pedantic\":"@) + json_bool(c@.pedantic) + encode_utf8(",\"tls_required\":"@) + json_bool(c@.tls_required) + encode_utf8(",\"auth_token\":"@) + json_opt_string(c@.auth_token) + encode_utf8(",\"user\":"@) + json_opt_string(c@.user) + encode_utf8(",\"pass\":"@) + json_opt_string(c@.pass) + encode_utf8(",\"name\":"@) + json_opt_string(c@.name), encode_utf8(",\"lang\":"@));
        lemma_seq_add_assoc::<u8>(old(dst)@, encode_utf8("{\"verbose\":"@) + json_bool(c@.verbose) + encode_utf8(",\"pedantic\":"@) + json_bool(c@.pedantic) + encode_utf8(",\"tls_required\":"@) + json_bool(c@.tls_required) + encode_utf8(",\"auth_token\":"@) + json_opt_string(c@.auth_token) + encode_utf8(",\"user\":"@) + json_opt_string(c@.user) + encode_utf8(",\"pass\":"@) + json_opt_string(c@.pass) + encode_utf8(",\"name\":"@) + json_opt_string(c@.name) + encode_utf8(",\"lang\":"@), json_string(c@.lang));
        assert(dst@ == old(dst)@ + (encode_utf8("{\"verbose\":"@) + json_bool(c@.verbose) + encode_utf8(",\"pedantic\":"@) + json_bool(c@.pedantic) + encode_utf8(",\"tls_required\":"@) + json_bool(c@.tls_required) + encode_utf8(",\"auth_token\":"@) + json_opt_string(c@.auth_token) + encode_utf8(",\"user\":"@) + json_opt_string(c@.user) + encode_utf8(",\"pass\":"@) + json_opt_string(c@.pass) + encode_utf8(",\"name\":"@) + json_opt_string(c@.name) + encode_utf8(",\"lang\":"@) + json_string(c@.lang)));
    }
    push_str_bytes(dst, ",\"version\":");
    push_json_string(dst, c.version.as_str());
    proof {
        lemma_seq_add_assoc::<u8>(old(dst)@, encode_utf8("{\"verbose\":"@) + json_bool(c@.verbose) + encode_utf8(",\"pedantic\":"@) + json_bool(c@.pedantic) + encode_utf8(",\"tls_required\":"@) + json_bool(c@.tls_required) + encode_utf8(",\"auth_token\":"@) + json_opt_string(c@.auth_token) + encode_utf8(",\"user\":"@) + json_opt_string(c@.user) + encode_utf8(",\"pass\":"@) + json_opt_string(c@.pass) + encode_utf8(",\"name\":"@) + json_opt_string(c@.name) + encode_utf8(",\"lang\":"@) + json_string(c@.lang), encode_utf8(",\"version\":"@));
        lemma_seq_add_assoc::<u8>(old(dst)@, encode_utf8("{\"verbose\":"@) + json_bool(c@.verbose) + encode_utf8(",\"pedantic\":"@) + json_bool(c@.pedantic) + encode_utf8(",\"tls_required\":"@) + json_bool(c@.tls_required) + encode_utf8(",\"auth_token\":"@) + json_opt_string(c@.auth_token) + encode_utf8(",\"user\":"@) + json_opt_string(c@.user) + encode_utf8(",\"pass\":"@) + json_opt_string(c@.pass) + encode_utf8(",\"name\":"@) + json_opt_string(c@.name) + encode_utf8(",\"lang\":"@) + json_string(c@.lang) + encode_utf8(",\"version\":"@), json_string(c@.version));
        assert(dst@ == old(dst)@ + (encode_utf8("{\"verbose\":"@) + json_bool(c@.verbose) + encode_utf8(",\"pedantic\":"@) + json_bool(c@.pedantic) + encode_utf8(",\"tls_required\":"@) + json_bool(c@.tls_required) + encode_utf8(",\"auth_token\":"@) + json_opt_string(c@.auth_token) + encode_utf8(",\"user\":"@) + json_opt_string(c@.user) + encode_utf8(",\"pass\":"@) + json_opt_string(c@.pass) + encode_utf8(",\"name\":"@) + json_opt_string(c@.name) + encode_utf8(",\"lang\":"@) + json_string(c@.lang) + encode_utf8(",\"version\":"@) + json_string(c@.version)));
    }
    push_str_bytes(dst, ",\"protocol\":");
    push_json_opt_u8(dst, &c.protocol);
    proof {
        lemma_seq_add_assoc::<u8>(old(dst)@, encode_utf8("{\"verbose\":"@) + json_bool(c@.verbose) + encode_utf8(",\"pedantic\":"@) + json_bool(c@.pedantic) + encode_utf8(",\"tls_required\":"@) + json_bool(c@.tls_required) + encode_utf8(",\"auth_token\":"@) + json_opt_string(c@.auth_token) + encode_utf8(",\"user\":"@) + json_opt_string(c@.user) + encode_utf8(",\"pass\":"@) + json_opt_string(c@.pass) + encode_utf8(",\"name\":"@) + json_opt_string(c@.name) + encode_utf8(",\"lang\":"@) + json_string(c@.lang) + encode_utf8(",\"version\":"@) + json_string(c@.version), encode_utf8(",\"protocol\":"@));
        lemma_seq_add_assoc::<u8>(old(dst)@, encode_utf8("{\"verbose\":"@) + json_bool(c@.verbose) + encode_utf8(",\"pedantic\":"@) + json_bool(c@.pedantic) + encode_utf8(",\"tls_required\":"@) + json_bool(c@.tls_required) + encode_utf8(",\"auth_token\":"@) + json_opt_string(c@.auth_token) + encode_utf8(",\"user\":"@) + json_opt_string(c@.user) + encode_utf8(",\"pass\":"@) + json_opt_string(c@.pass) + encode_utf8(",\"name\":"@) + json_opt_string(c@.name) + encode_utf8(",\"lang\":"@) + json_string(c@.lang) + encode_utf8(",\"version\":"@) + json_string(c@.version) + encode_utf8(",\"protocol\":"@), json_opt_u8(c@.protocol));
        assert(dst@ == old(dst)@ + (encode_utf8("{\"verbose\":"@) + json_bool(c@.verbose) + encode_utf8(",\"pedantic\":"@) + json_bool(c@.pedantic) + encode_utf8(",\"tls_required\":"@) + json_bool(c@.tls_required) + encode_utf8(",\"auth_token\":"@) + json_opt_string(c@.auth_token) + encode_utf8(",\"user\":"@) + json_opt_string(c@.user) + encode_utf8(",\"pass\":"@) + json_opt_string(c@.pass) + encode_utf8(",\"name\":"@) + json_opt_string(c@.name) + encode_utf8(",\"lang\":"@) + json_string(c@.lang) + encode_utf8(",\"version\":"@) + json_string(c@.version) + encode_utf8(",\"protocol\":"@) + json_opt_u8(c@.protocol)));
    }
    push_str_bytes(dst, ",\"echo\":");
    push_json_opt_bool(dst, &c.echo);
    proof {
        lemma_seq_add_assoc::<u8>(old(dst)@, encode_utf8("{\"verbose\":"@) + json_bool(c@.verbose) + encode_utf8(",\"pedantic\":"@) + json_bool(c@.pedantic) + encode_utf8(",\"tls_required\":"@) + json_bool(c@.tls_required) + encode_utf8(",\"auth_token\":"@) + json_opt_string(c@.auth_token) + encode_utf8(",\"user\":"@) + json_opt_string(c@.user) + encode_utf8(",\"pass\":"@) + json_opt_string(c@.pass) + encode_utf8(",\"name\":"@) + json_opt_string(c@.name) + encode_utf8(",\"lang\":"@) + json_string(c@.lang) + encode_utf8(",\"version\":"@) + json_string(c@.version) + encode_utf8(",\"protocol\":"@) + json_opt_u8(c@.protocol), encode_utf8(",\"echo\":"@));
        lemma_seq_add_assoc::<u8>(old(dst)@, encode_utf8("{\"verbose\":"@) + json_bool(c@.verbose) + encode_utf8(",\"pedantic\":"@) + json_bool(c@.pedantic) + encode_utf8(",\"tls_required\":"@) + json_bool(c@.tls_required) + encode_utf8(",\"auth_token\":"@) + json_opt_string(c@.auth_token) + encode_utf8(",\"user\":"@) + json_opt_string(c@.user) + encode_utf8(",\"pass\":"@) + json_opt_string(c@.pass) + encode_utf8(",\"name\":"@) + json_opt_string(c@.name) + encode_utf8(",\"lang\":"@) + json_string(c@.lang) + encode_utf8(",\"version\":"@) + json_string(c@.version) + encode_utf8(",\"protocol\":"@) + json_opt_u8(c@.protocol) + encode_utf8(",\"echo\":"@), json_opt_bool(c@.echo));
        assert(dst@ == old(dst)@ + (encode_utf8("{\"verbose\":"@) + json_bool(c@.verbose) + encode_utf8(",\"pedantic\":"@) + json_bool(c@.pedantic) + encode_utf8(",\"tls_required\":"@) + json_bool(c@.tls_required) + encode_utf8(",\"auth_token\":"@) + json_opt_string(c@.auth_token) + encode_utf8(",\"user\":"@) + json_opt_string(c@.user) + encode_utf8(",\"pass\":"@) + json_opt_string(c@.pass) + encode_utf8(",\"name\":"@) + json_opt_string(c@.name) + encode_utf8(",\"lang\":"@) + json_string(c@.lang) + encode_utf8(",\"version\":"@) + json_string(c@.version) + encode_utf8(",\"protocol\":"@) + json_opt_u8(c@.protocol) + encode_utf8(",\"echo\":"@) + json_opt_bool(c@.echo)));
    }
    push_str_bytes(dst, ",\"sig\":");
    push_json_opt_string(dst, &c.sig);
    proof {
        lemma_seq_add_assoc::<u8>(old(dst)@, encode_utf8("{\"verbose\":"@) + json_bool(c@.verbose) + encode_utf8(",\"pedantic\":"@) + json_bool(c@.pedantic) + encode_utf8(",\"tls_required\":"@) + json_bool(c@.tls_required) + encode_utf8(",\"auth_token\":"@) + json_opt_string(c@.auth_token) + encode_utf8(",\"user\":"@) + json_opt_string(c@.user) + encode_utf8(",\"pass\":"@) + json_opt_string(c@.pass) + encode_utf8(",\"name\":"@) + json_opt_string(c@.name) + encode_utf8(",\"lang\":"@) + json_string(c@.lang) + encode_utf8(",\"version\":"@) + json_string(c@.version) + encode_utf8(",\"protocol\":"@) + json_opt_u8(c@.protocol) + encode_utf8(",\"echo\":"@) + json_opt_bool(c@.echo), encode_utf8(",\"sig\":"@));
        lemma_seq_add_assoc::<u8>(old(dst)@, encode_utf8("{\"verbose\":"@) + json_bool(c@.verbose) + encode_utf8(",\"pedantic\":"@) + json_bool(c@.pedantic) + encode_utf8(",\"tls_required\":"@) + json_bool(c@.tls_required) + encode_utf8(",\"auth_token\":"@) + json_opt_string(c@.auth_token) + encode_utf8(",\"user\":"@) + json_opt_string(c@.user) + encode_utf8(",\"pass\":"@) + json_opt_string(c@.pass) + encode_utf8(",\"name\":"@) + json_opt_string(c@.name) + encode_utf8(",\"lang\":"@) + json_string(c@.lang) + encode_utf8(",\"version\":"@) + json_string(c@.version) + encode_utf8(",\"protocol\":"@) + json_opt_u8(c@.protocol) + encode_utf8(",\"echo\":"@) + json_opt_bool(c@.echo) + encode_utf8(",\"sig\":"@), json_opt_string(c@.sig));
        assert(dst@ == old(dst)@ + (encode_utf8("{\"verbose\":"@) + json_bool(c@.verbose) + encode_utf8(",\"pedantic\":"@) + json_bool(c@.pedantic) + encode_utf8(",\"tls_required\":"@) + json_bool(c@.tls_required) + encode_utf8(",\"auth_token\":"@) + json_opt_string(c@.auth_token) + encode_utf8(",\"user\":"@) + json_opt_string(c@.user) + encode_utf8(",\"pass\":"@) + json_opt_string(c@.pass) + encode_utf8(",\"name\":"@) + json_opt_string(c@.name) + encode_utf8(",\"lang\":"@) + json_string(c@.lang) + encode_utf8(",\"version\":"@) + json_string(c@.version) + encode_utf8(",\"protocol\":"@) + json_opt_u8(c@.protocol) + encode_utf8(",\"echo\":"@) + json_opt_bool(c@.echo) + encode_utf8(",\"sig\":"@) + json_opt_string(c@.sig)));
    }
    push_str_bytes(dst, ",\"jwt\":");
    push_json_opt_string(dst, &c.jwt);
    proof {
        lemma_seq_add_assoc::<u8>(old(dst)@, encode_utf8("{\"verbose\":"@) + json_bool(c@.verbose) + encode_utf8(",\"pedantic\":"@) + json_bool(c@.pedantic) + encode_utf8(",\"tls_required\":"@) + json_bool(c@.tls_required) + encode_utf8(",\"auth_token\":"@) + json_opt_string(c@.auth_token) + encode_utf8(",\"user\":"@) + json_opt_string(c@.user) + encode_utf8(",\"pass\":"@) + json_opt_string(c@.pass) + encode_utf8(",\"name\":"@) + json_opt_string(c@.name) + encode_utf8(",\"lang\":"@) + json_string(c@.lang) + encode_utf8(",\"version\":"@) + json_string(c@.version) + encode_utf8(",\"protocol\":"@) + json_opt_u8(c@.protocol) + encode_utf8(",\"echo\":"@) + json_opt_bool(c@.echo) + encode_utf8(",\"sig\":"@) + json_opt_string(c@.sig), encode_utf8(",\"jwt\":"@));
        lemma_seq_add_assoc::<u8>(old(dst)@, encode_utf8("{\"verbose\":"@) + json_bool(c@.verbose) + encode_utf8(",\"pedantic\":"@) + json_bool(c@.pedantic) + encode_utf8(",\"tls_required\":"@) + json_bool(c@.tls_required) + encode_utf8(",\"auth_token\":"@) + json_opt_string(c@.auth_token) + encode_utf8(",\"user\":"@) + json_opt_string(c@.user) + encode_utf8(",\"pass\":"@) + json_opt_string(c@.pass) + encode_utf8(",\"name\":"@) + json_opt_string(c@.name) + encode_utf8(",\"lang\":"@) + json_string(c@.lang) + encode_utf8(",\"version\":"@) + json_string(c@.version) + encode_utf8(",\"protocol\":"@) + json_opt_u8(c@.protocol) + encode_utf8(",\"echo\":"@) + json_opt_bool(c@.echo) + encode_utf8(",\"sig\":"@) + json_opt_string(c@.sig) + encode_utf8(",\"jwt\":"@), json_opt_string(c@.jwt));
        assert(dst@ == old(dst)@ + (encode_utf8("{\"verbose\":"@) + json_bool(c@.verbose) + encode_utf8(",\"pedantic\":"@) + json_bool(c@.pedantic) + encode_utf8(",\"tls_required\":"@) + json_bool(c@.tls_required) + encode_utf8(",\"auth_token\":"@) + json_opt_string(c@.auth_token) + encode_utf8(",\"user\":"@) + json_opt_string(c@.user) + encode_utf8(",\"pass\":"@) + json_opt_string(c@.pass) + encode_utf8(",\"name\":"@) + json_opt_string(c@.name) + encode_utf8(",\"lang\":"@) + json_string(c@.lang) + encode_utf8(",\"version\":"@) + json_string(c@.version) + encode_utf8(",\"protocol\":"@) + json_opt_u8(c@.protocol) + encode_utf8(",\"echo\":"@) + json_opt_bool(c@.echo) + encode_utf8(",\"sig\":"@) + json_opt_string(c@.sig) + encode_utf8(",\"jwt\":"@) + json_opt_string(c@.jwt)));
    }
    push_str_bytes(dst, ",\"no_responders\":");
    push_json_opt_bool(dst, &c.no_responders);
    proof {
        lemma_seq_add_assoc::<u8>(old(dst)@, encode_utf8("{\"verbose\":"@) + json_bool(c@.verbose) + encode_utf8(",\"pedantic\":"@) + json_bool(c@.pedantic) + encode_utf8(",\"tls_required\":"@) + json_bool(c@.tls_required) + encode_utf8(",\"auth_token\":"@) + json_opt_string(c@.auth_token) + encode_utf8(",\"user\":"@) + json_opt_string(c@.user) + encode_utf8(",\"pass\":"@) + json_opt_string(c@.pass) + encode_utf8(",\"name\":"@) + json_opt_string(c@.name) + encode_utf8(",\"lang\":"@) + json_string(c@.lang) + encode_utf8(",\"version\":"@) + json_string(c@.version) + encode_utf8(",\"protocol\":"@) + json_opt_u8(c@.protocol) + encode_utf8(",\"echo\":"@) + json_opt_bool(c@.echo) + encode_utf8(",\"sig\":"@) + json_opt_string(c@.sig) + encode_utf8(",\"jwt\":"@) + json_opt_string(c@.jwt), encode_utf8(",\"no_responders\":"@));
        lemma_seq_add_assoc::<u8>(old(dst)@, encode_utf8("{\"verbose\":"@) + json_bool(c@.verbose) + encode_utf8(",\"pedantic\":"@) + json_bool(c@.pedantic) + encode_utf8(",\"tls_required\":"@) + json_bool(c@.tls_required) + encode_utf8(",\"auth_token\":"@) + json_opt_string(c@.auth_token) + encode_utf8(",\"user\":"@) + json_opt_string(c@.user) + encode_utf8(",\"pass\":"@) + json_opt_string(c@.pass) + encode_utf8(",\"name\":"@) + json_opt_string(c@.name) + encode_utf8(",\"lang\":"@) + json_string(c@.lang) + encode_utf8(",\"version\":"@) + json_string(c@.version) + encode_utf8(",\"protocol\":"@) + json_opt_u8(c@.protocol) + encode_utf8(",\"echo\":"@) + json_opt_bool(c@.echo) + encode_utf8(",\"sig\":"@) + json_opt_string(c@.sig) + encode_utf8(",\"jwt\":"@) + json_opt_string(c@.jwt) + encode_utf8(",\"no_responders\":"@), json_opt_bool(c@.no_responders));
        assert(dst@ == old(dst)@ + (encode_utf8("{\"verbose\":"@) + json_bool(c@.verbose) + encode_utf8(",\"pedantic\":"@) + json_bool(c@.pedantic) + encode_utf8(",\"tls_required\":"@) + json_bool(c@.tls_required) + encode_utf8(",\"auth_token\":"@) + json_opt_string(c@.auth_token) + encode_utf8(",\"user\":"@) + json_opt_string(c@.user) + encode_utf8(",\"pass\":"@) + json_opt_string(c@.pass) + encode_utf8(",\"name\":"@) + json_opt_string(c@.name) + encode_utf8(",\"lang\":"@) + json_string(c@.lang) + encode_utf8(",\"version\":"@) + json_string(c@.version) + encode_utf8(",\"protocol\":"@) + json_opt_u8(c@.protocol) + encode_utf8(",\"echo\":"@) + json_opt_bool(c@.echo) + encode_utf8(",\"sig\":"@) + json_opt_string(c@.sig) + encode_utf8(",\"jwt\":"@) + json_opt_string(c@.jwt) + encode_utf8(",\"no_responders\":"@) + json_opt_bool(c@.no_responders)));
    }
    push_str_bytes(dst, ",\"headers\":");
    push_json_opt_bool(dst, &c.headers);
    proof {
        lemma_seq_add_assoc::<u8>(old(dst)@, encode_utf8("{\"verbose\":"@) + json_bool(c@.verbose) + encode_utf8(",\"pedantic\":"@) + json_bool(c@.pedantic) + encode_utf8(",\"tls_required\":"@) + json_bool(c@.tls_required) + encode_utf8(",\"auth_token\":"@) + json_opt_string(c@.auth_token) + encode_utf8(",\"user\":"@) + json_opt_string(c@.user) + encode_utf8(",\"pass\":"@) + json_opt_string(c@.pass) + encode_utf8(",\"name\":"@) + json_opt_string(c@.name) + encode_utf8(",\"lang\":"@) + json_string(c@.lang) + encode_utf8(",\"version\":"@) + json_string(c@.version) + encode_utf8(",\"protocol\":"@) + json_opt_u8(c@.protocol) + encode_utf8(",\"echo\":"@) + json_opt_bool(c@.echo) + encode_utf8(",\"sig\":"@) + json_opt_string(c@.sig) + encode_utf8(",\"jwt\":"@) + json_opt_string(c@.jwt) + encode_utf8(",\"no_responders\":"@) + json_opt_bool(c@.no_responders), encode_utf8(",\"headers\":"@));
        lemma_seq_add_assoc::<u8>(old(dst)@, encode_utf8("{\"verbose\":"@) + json_bool(c@.verbose) + encode_utf8(",\"pedantic\":"@) + json_bool(c@.pedantic) + encode_utf8(",\"tls_required\":"@) + json_bool(c@.tls_required) + encode_utf8(",\"auth_token\":"@) + json_opt_string(c@.auth_token) + encode_utf8(",\"user\":"@) + json_opt_string(c@.user) + encode_utf8(",\"pass\":"@) + json_opt_string(c@.pass) + encode_utf8(",\"name\":"@) + json_opt_string(c@.name) + encode_utf8(",\"lang\":"@) + json_string(c@.lang) + encode_utf8(",\"version\":"@) + json_string(c@.version) + encode_utf8(",\"protocol\":"@) + json_opt_u8(c@.protocol) + encode_utf8(",\"echo\":"@) + json_opt_bool(c@.echo) + encode_utf8(",\"sig\":"@) + json_opt_string(c@.sig) + encode_utf8(",\"jwt\":"@) + json_opt_string(c@.jwt) + encode_utf8(",\"no_responders\":"@) + json_opt_bool(c@.no_responders) + encode_utf8(",\"headers\":"@), json_opt_bool(c@.headers));
        assert(dst@ == old(dst)@ + (encode_utf8("{\"verbose\":"@) + json_bool(c@.verbose) + encode_utf8(",\"pedantic\":"@) + json_bool(c@.pedantic) + encode_utf8(",\"tls_required\":"@) + json_bool(c@.tls_required) + encode_utf8(",\"auth_token\":"@) + json_opt_string(c@.auth_token) + encode_utf8(",\"user\":"@) + json_opt_string(c@.user) + encode_utf8(",\"pass\":"@) + json_opt_string(c@.pass) + encode_utf8(",\"name\":"@) + json_opt_string(c@.name) + encode_utf8(",\"lang\":"@) + json_string(c@.lang) + encode_utf8(",\"version\":"@) + json_string(c@.version) + encode_utf8(",\"protocol\":"@) + json_opt_u8(c@.protocol) + encode_utf8(",\"echo\":"@) + json_opt_bool(c@.echo) + encode_utf8(",\"sig\":"@) + json_opt_string(c@.sig) + encode_utf8(",\"jwt\":"@) + json_opt_string(c@.jwt) + encode_utf8(",\"no_responders\":"@) + json_opt_bool(c@.no_responders) + encode_utf8(",\"headers\":"@) + json_opt_bool(c@.headers)));
    }
    push_str_bytes(dst, ",\"nkey\":");
    push_json_opt_string(dst, &c.nkey);
    proof {
        lemma_seq_add_assoc::<u8>(old(dst)@, encode_utf8("{\"verbose\":"@) + json_bool(c@.verbose) + encode_utf8(",\"pedantic\":"@) + json_bool(c@.pedantic) + encode_utf8(",\"tls_required\":"@) + json_bool(c@.tls_required) + encode_utf8(",\"auth_token\":"@) + json_opt_string(c@.auth_token) + encode_utf8(",\"user\":"@) + json_opt_string(c@.user) + encode_utf8(",\"pass\":"@) + json_opt_string(c@.pass) + encode_utf8(",\"name\":"@) + json_opt_string(c@.name) + encode_utf8(",\"lang\":"@) + json_string(c@.lang) + encode_utf8(",\"version\":"@) + json_string(c@.version) + encode_utf8(",\"protocol\":"@) + json_opt_u8(c@.protocol) + encode_utf8(",\"echo\":"@) + json_opt_bool(c@.echo) + encode_utf8(",\"sig\":"@) + json_opt_string(c@.sig) + encode_utf8(",\"jwt\":"@) + json_opt_string(c@.jwt) + encode_utf8(",\"no_responders\":"@) + json_opt_bool(c@.no_responders) + encode_utf8(",\"headers\":"@) + json_opt_bool(c@.headers), encode_utf8(",\"nkey\":"@));
        lemma_seq_add_assoc::<u8>(old(dst)@, encode_utf8("{\"verbose\":"@) + json_bool(c@.verbose) + encode_utf8(",\"pedantic\":"@) + json_bool(c@.pedantic) + encode_utf8(",\"tls_required\":"@) + json_bool(c@.tls_required) + encode_utf8(",\"auth_token\":"@) + json_opt_string(c@.auth_token) + encode_utf8(",\"user\":"@) + json_opt_string(c@.user) + encode_utf8(",\"pass\":"@) + json_opt_string(c@.pass) + encode_utf8(",\"name\":"@) + json_opt_string(c@.name) + encode_utf8(",\"lang\":"@) + json_string(c@.lang) + encode_utf8(",\"version\":"@) + json_string(c@.version) + encode_utf8(",\"protocol\":"@) + json_opt_u8(c@.protocol) + encode_utf8(",\"echo\":"@) + json_opt_bool(c@.echo) + encode_utf8(",\"sig\":"@) + json_opt_string(c@.sig) + encode_utf8(",\"jwt\":"@) + json_opt_string(c@.jwt) + encode_utf8(",\"no_responders\":"@) + json_opt_bool(c@.no_responders) + encode_utf8(",\"headers\":"@) + json_opt_bool(c@.headers) + encode_utf8(",\"nkey\":"@), json_opt_string(c@.nkey));
        assert(dst@ == old(dst)@ + (encode_utf8("{\"verbose\":"@) + json_bool(c@.verbose) + encode_utf8(",\"pedantic\":"@) + json_bool(c@.pedantic) + encode_utf8(",\"tls_required\":"@) + json_bool(c@.tls_required) + encode_utf8(",\"auth_token\":"@) + json_opt_string(c@.auth_token) + encode_utf8(",\"user\":"@) + json_opt_string(c@.user) + encode_utf8(",\"pass\":"@) + json_opt_string(c@.pass) + encode_utf8(",\"name\":"@) + json_opt_string(c@.name) + encode_utf8(",\"lang\":"@) + json_string(c@.lang) + encode_utf8(",\"version\":"@) + json_string(c@.version) + encode_utf8(",\"protocol\":"@) + json_opt_u8(c@.protocol) + encode_utf8(",\"echo\":"@) + json_opt_bool(c@.echo) + encode_utf8(",\"sig\":"@) + json_opt_string(c@.sig) + encode_utf8(",\"jwt\":"@) + json_opt_string(c@.jwt) + encode_utf8(",\"no_responders\":"@) + json_opt_bool(c@.no_responders) + encode_utf8(",\"headers\":"@) + json_opt_bool(c@.headers) + encode_utf8(",\"nkey\":"@) + json_opt_string(c@.nkey)));
    }
    push_str_bytes(dst, "}");
    proof {
        lemma_seq_add_assoc::<u8>(old(dst)@, encode_utf8("{\"verbose\":"@) + json_bool(c@.verbose) + encode_utf8(",\"pedantic\":"@) + json_bool(c@.pedantic) + encode_utf8(",\"tls_required\":"@) + json_bool(c@.tls_required) + encode_utf8(",\"auth_token\":"@) + json_opt_string(c@.auth_token) + encode_utf8(",\"user\":"@) + json_opt_string(c@.user) + encode_utf8(",\"pass\":"@) + json_opt_string(c@.pass) + encode_utf8(",\"name\":"@) + json_opt_string(c@.name) + encode_utf8(",\"lang\":"@) + json_string(c@.lang) + encode_utf8(",\"version\":"@) + json_string(c@.version) + encode_utf8(",\"protocol\":"@) + json_opt_u8(c@.protocol) + encode_utf8(",\"echo\":"@) + json_opt_bool(c@.echo) + encode_utf8(",\"sig\":"@) + json_opt_string(c@.sig) + encode_utf8(",\"jwt\":"@) + json_opt_string(c@.jwt) + encode_utf8(",\"no_responders\":"@) + json_opt_bool(c@.no_responders) + encode_utf8(",\"headers\":"@) + json_opt_bool(c@.headers) + encode_utf8(",\"nkey\":"@) + json_opt_string(c@.nkey), encode_utf8("}"@));
        assert(dst@ == old(dst)@ + (encode_utf8("{\"verbose\":"@) + json_bool(c@.verbose) + encode_utf8(",\"pedantic\":"@) + json_bool(c@.pedantic) + encode_utf8(",\"tls_required\":"@) + json_bool(c@.tls_required) + encode_utf8(",\"auth_token\":"@) + json_opt_string(c@.auth_token) + encode_utf8(",\"user\":"@) + json_opt_string(c@.user) + encode_utf8(",\"pass\":"@) + json_opt_string(c@.pass) + encode_utf8(",\"name\":"@) + json_opt_string(c@.name) + encode_utf8(",\"lang\":"@) + json_string(c@.lang) + encode_utf8(",\"version\":"@) + json_string(c@.version) + encode_utf8(",\"protocol\":"@) + json_opt_u8(c@.protocol) + encode_utf8(",\"echo\":"@) + json_opt_bool(c@.echo) + encode_utf8(",\"sig\":"@) + json_opt_string(c@.sig) + encode_utf8(",\"jwt\":"@) + json_opt_string(c@.jwt) + encode_utf8(",\"no_responders\":"@) + json_opt_bool(c@.no_responders) + encode_utf8(",\"headers\":"@) + json_opt_bool(c@.headers) + encode_utf8(",\"nkey\":"@) + json_opt_string(c@.nkey) + encode_utf8("}"@)));
        assert(dst@ == old(dst)@ + connect_json(c@));
    }
}

/// Write a `CONNECT` frame.
pub fn connect(c: &crate::commands::Connect, dst: &mut Vec<u8>)
    ensures
        final(dst)@ == old(dst)@ + encode_connect(c@),
{
    push_str_bytes(dst, "CONNECT ");
    connect_body(c, dst);
    push_crlf(dst);
    proof {
        lemma_seq_add_assoc::<u8>(old(dst)@, encode_utf8("CONNECT "@), connect_json(c@));
        lemma_seq_add_assoc::<u8>(
            old(dst)@,
            encode_utf8("CONNECT "@) + connect_json(c@),
            crlf_bytes(),
        );
        assert(final(dst)@ == old(dst)@ + encode_connect(c@));
    }
}

/// Write a `PUB` frame.
pub fn publish(p: &crate::commands::Publish, dst: &mut Vec<u8>)
    ensures
        final(dst)@ == old(dst)@ + encode_publish(p@),
{
    push_str_bytes(dst, "PUB ");
    push_str_bytes(dst, p.subject.as_str());
    match &p.reply_to {
        Some(r) => {
            push_space(dst);
            push_str_bytes(dst, r.as_str());
        },
        None => {},
    }
    push_space(dst);
    push_dec(dst, p.bytes);
    push_crlf(dst);
    push_bytes(dst, p.payload.as_slice());
    push_crlf(dst);
    proof {
        assert(final(dst)@ =~= old(dst)@ + encode_publish(p@));
    }
}

/// Write an `HPUB` frame.
#[verifier::rlimit(100)]
pub fn hpublish(p: &crate::commands::HPublish, dst: &mut Vec<u8>)
    ensures
        final(dst)@ == old(dst)@ + encode_hpublish(p@),
{
    let ghost d0 = old(dst)@;
    push_str_bytes(dst, "HPUB ");
    push_str_bytes(dst, p.subject.as_str());
    proof {
        lemma_seq_add_assoc::<u8>(d0, encode_utf8("HPUB "@), encode_utf8(p@.subject));
    }
    let ghost a2 = encode_utf8("HPUB "@) + encode_utf8(p@.subject);
    proof {
        assert(dst@ == d0 + a2);
    }
    push_space(dst);
    proof {
        lemma_seq_add_assoc::<u8>(d0, a2, space_byte());
    }
    let ghost a3 = a2 + space_byte();
    let ghost rp = (match p@.reply_to {
        Some(r) => encode_utf8(r) + space_byte(),
        None => Seq::<u8>::empty(),
    });
    match &p.reply_to {
        Some(r) => {
            push_str_bytes(dst, r.as_str());
            push_space(dst);
            proof {
                lemma_seq_add_assoc::<u8>(d0, a3, encode_utf8(r@));
                lemma_seq_add_assoc::<u8>(d0, a3 + encode_utf8(r@), space_byte());
                lemma_seq_add_assoc::<u8>(a3, encode_utf8(r@), space_byte());
                assert(dst@ == d0 + (a3 + rp));
            }
        },
        None => {
            proof {
                assert(a3 + rp =~= a3);
                assert(dst@ == d0 + (a3 + rp));
            }
        },
    }
    let ghost a4 = a3 + rp;
    push_dec(dst, p.header_bytes);
    proof {
        lemma_seq_add_assoc::<u8>(d0, a4, dec_digits(p@.header_bytes as nat));
    }
    let ghost a5 = a4 + dec_digits(p@.header_bytes as nat);
    proof {
        assert(dst@ == d0 + a5);
    }
    push_space(dst);
    proof {
        lemma_seq_add_assoc::<u8>(d0, a5, space_byte());
    }
    let ghost a6 = a5 + space_byte();
    push_dec(dst, p.total_bytes);
    proof {
        lemma_seq_add_assoc::<u8>(d0, a6, dec_digits(p@.total_bytes as nat));
    }
    let ghost a7 = a6 + dec_digits(p@.total_bytes as nat);
    proof {
        assert(dst@ == d0 + a7);
    }
    push_crlf(dst);
    proof {
        lemma_seq_add_assoc::<u8>(d0, a7, crlf_bytes());
    }
    let ghost a8 = a7 + crlf_bytes();
    push_str_bytes(dst, "NATS/1.0");
    proof {
        lemma_seq_add_assoc::<u8>(d0, a8, encode_utf8("NATS/1.0"@));
    }
    let ghost a9 = a8 + encode_utf8("NATS/1.0"@);
    push_crlf(dst);
    proof {
        lemma_seq_add_assoc::<u8>(d0, a9, crlf_bytes());
    }
    let ghost a10 = a9 + crlf_bytes();
    proof {
        assert(dst@ == d0 + a10);
    }
    push_headers(dst, &p.headers);
    proof {
        lemma_seq_add_assoc::<u8>(d0, a10, encode_headers(p@.headers));
    }
    let ghost a11 = a10 + encode_headers(p@.headers);
    push_crlf(dst);
    proof {
        lemma_seq_add_assoc::<u8>(d0, a11, crlf_bytes());
    }
    let ghost a12 = a11 + crlf_bytes();
    proof {
        assert(dst@ == d0 + a12);
    }
    push_bytes(dst, p.payload.as_slice());
    proof {
        lemma_seq_add_assoc::<u8>(d0, a12, p@.payload);
    }
    let ghost a13 = a12 + p@.payload;
    push_crlf(dst);
    proof {
        lemma_seq_add_assoc::<u8>(d0, a13, crlf_bytes());
        assert(dst@ == d0 + (a13 + crlf_bytes()));
        assert(a13 + crlf_bytes() == encode_hpublish(p@));
    }
}

/// Write a `SUB` frame.
pub fn subscribe(s: &crate::commands::Subscribe, dst: &mut Vec<u8>)
    ensures
        final(dst)@ == old(dst)@ + encode_subscribe(s@),
{
    push_str_bytes(dst, "SUB ");
    push_str_bytes(dst, s.subject.as_str());
    match &s.queue_group {
        Some(q) => {
            push_space(dst);
            push_str_bytes(dst, q.as_str());
        },
        None => {},
    }
    push_space(dst);
    push_str_bytes(dst, s.sid.as_str());
    push_crlf(dst);
    proof {
        assert(final(dst)@ =~= old(dst)@ + encode_subscribe(s@));
    }
}

/// Write an `UNSUB` frame.
pub fn unsubscribe(u: &crate::commands::Unsubscribe, dst: &mut Vec<u8>)
    ensures
        final(dst)@ == old(dst)@ + encode_unsubscribe(u@),
{
    push_str_bytes(dst, "UNSUB ");
    push_str_bytes(dst, u.sid.as_str());
    match &u.max_msgs {
        Some(m) => {
            push_space(dst);
            push_dec(dst, *m);
        },
        None => {},
    }
    push_crlf(dst);
    proof {
        assert(final(dst)@ =~= old(dst)@ + encode_unsubscribe(u@));
    }
}

/// Write a `PING` frame.
pub fn ping(dst: &mut Vec<u8>)
    ensures
        final(dst)@ == old(dst)@ + encode_utf8("PING"@) + crlf_bytes(),
{
    push_str_bytes(dst, "PING");
    push_crlf(dst);
}

/// Write a `PONG` frame.
pub fn pong(dst: &mut Vec<u8>)
    ensures
        final(dst)@ == old(dst)@ + encode_utf8("PONG"@) + crlf_bytes(),
{
    push_str_bytes(dst, "PONG");
    push_crlf(dst);
}

impl crate::codec::ClientCodec {
    /// Append the wire form of one client command to the send buffer.
    /// Writing into a growable buffer cannot fail.
    pub fn encode(&mut self, item: ClientCommand, dst: &mut Vec<u8>) -> (r: Result<
        (),
        ClientEncodeError,
    >)
        ensures
            r is Ok,
            final(dst)@ == old(dst)@ + encode_client_command(item@),
    {
        match &item {
            ClientCommand::Connect(c) => connect(c, dst),
            ClientCommand::Publish(p) => publish(p, dst),
            ClientCommand::HPublish(p) => hpublish(p, dst),
            ClientCommand::Subscribe(s) => subscribe(s, dst),
            ClientCommand::Unsubscribe(u) => unsubscribe(u, dst),
            ClientCommand::Ping => ping(dst),
            ClientCommand::Pong => pong(dst),
        }
        proof {
            assert(final(dst)@ =~= old(dst)@ + encode_client_command(item@));
        }
        Ok(())
    }
}

} // verus!
