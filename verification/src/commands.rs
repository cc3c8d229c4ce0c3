//! The wire commands a NATS client exchanges with a broker, the header
//! multimap carried by header-bearing frames, and the decode errors.
//! Each executable type has a mathematical view over `Seq` and `int`
//! that the contracts of the codec and the connection machine speak of.

use vstd::prelude::*;

verus! {

/// View of an optional string as an optional character sequence.
pub open spec fn opt_str_view(o: Option<String>) -> Option<Seq<char>> {
    match o {
        Some(s) => Some(s@),
        None => None,
    }
}

/// View of an optional string list as optional character sequences.
pub open spec fn opt_str_list_view(o: Option<Vec<String>>) -> Option<Seq<Seq<char>>> {
    match o {
        Some(v) => Some(v.deep_view()),
        None => None,
    }
}

/// The server descriptor carried by an `INFO` frame.  Unknown fields of the
/// wire object are ignored on decode.
#[derive(Debug, Clone, PartialEq, Eq)]
pub struct Info {
    pub server_id: String,
    pub server_name: String,
    pub version: String,
    pub go: String,
    pub host: String,
    pub port: u32,
    pub headers: bool,
    pub max_payload: usize,
    pub proto: u8,
    pub client_id: Option<u64>,
    pub auth_required: Option<bool>,
    pub tls_required: Option<bool>,
    pub tls_verify: Option<bool>,
    pub tls_available: Option<bool>,
    pub connect_urls: Option<Vec<String>>,
    pub ws_connect_urls: Option<Vec<String>>,
    pub ldm: Option<bool>,
    pub git_commit: Option<String>,
    pub jetstream: Option<bool>,
    pub ip: Option<String>,
    pub client_ip: Option<String>,
    pub nonce: Option<String>,
    pub cluster: Option<String>,
    pub domain: Option<String>,
}

pub struct InfoV {
    pub server_id: Seq<char>,
    pub server_name: Seq<char>,
    pub version: Seq<char>,
    pub go: Seq<char>,
    pub host: Seq<char>,
    pub port: u32,
    pub headers: bool,
    pub max_payload: usize,
    pub proto: u8,
    pub client_id: Option<u64>,
    pub auth_required: Option<bool>,
    pub tls_required: Option<bool>,
    pub tls_verify: Option<bool>,
    pub tls_available: Option<bool>,
    pub connect_urls: Option<Seq<Seq<char>>>,
    pub ws_connect_urls: Option<Seq<Seq<char>>>,
    pub ldm: Option<bool>,
    pub git_commit: Option<Seq<char>>,
    pub jetstream: Option<bool>,
    pub ip: Option<Seq<char>>,
    pub client_ip: Option<Seq<char>>,
    pub nonce: Option<Seq<char>>,
    pub cluster: Option<Seq<char>>,
    pub domain: Option<Seq<char>>,
}

impl View for Info {
    type V = InfoV;

    open spec fn view(&self) -> InfoV {
        InfoV {
            server_id: self.server_id@,
            server_name: self.server_name@,
            version: self.version@,
            go: self.go@,
            host: self.host@,
            port: self.port,
            headers: self.headers,
            max_payload: self.max_payload,
            proto: self.proto,
            client_id: self.client_id,
            auth_required: self.auth_required,
            tls_required: self.tls_required,
            tls_verify: self.tls_verify,
            tls_available: self.tls_available,
            connect_urls: opt_str_list_view(self.connect_urls),
            ws_connect_urls: opt_str_list_view(self.ws_connect_urls),
            ldm: self.ldm,
            git_commit: opt_str_view(self.git_commit),
            jetstream: self.jetstream,
            ip: opt_str_view(self.ip),
            client_ip: opt_str_view(self.client_ip),
            nonce: opt_str_view(self.nonce),
            cluster: opt_str_view(self.cluster),
            domain: opt_str_view(self.domain),
        }
    }
}

/// The options object the client sends in its `CONNECT` frame.
#[derive(Debug, Clone, PartialEq, Eq)]
pub struct Connect {
    pub verbose: bool,
    pub pedantic: bool,
    pub tls_required: bool,
    pub auth_token: Option<String>,
    pub user: Option<String>,
    pub pass: Option<String>,
    pub name: Option<String>,
    pub lang: String,
    pub version: String,
    pub protocol: Option<u8>,
    pub echo: Option<bool>,
    pub sig: Option<String>,
    pub jwt: Option<String>,
    pub no_responders: Option<bool>,
    pub headers: Option<bool>,
    pub nkey: Option<String>,
}

pub struct ConnectV {
    pub verbose: bool,
    pub pedantic: bool,
    pub tls_required: bool,
    pub auth_token: Option<Seq<char>>,
    pub user: Option<Seq<char>>,
    pub pass: Option<Seq<char>>,
    pub name: Option<Seq<char>>,
    pub lang: Seq<char>,
    pub version: Seq<char>,
    pub protocol: Option<u8>,
    pub echo: Option<bool>,
    pub sig: Option<Seq<char>>,
    pub jwt: Option<Seq<char>>,
    pub no_responders: Option<bool>,
    pub headers: Option<bool>,
    pub nkey: Option<Seq<char>>,
}

impl View for Connect {
    type V = ConnectV;

    open spec fn view(&self) -> ConnectV {
        ConnectV {
            verbose: self.verbose,
            pedantic: self.pedantic,
            tls_required: self.tls_required,
            auth_token: opt_str_view(self.auth_token),
            user: opt_str_view(self.user),
            pass: opt_str_view(self.pass),
            name: opt_str_view(self.name),
            lang: self.lang@,
            version: self.version@,
            protocol: self.protocol,
            echo: self.echo,
            sig: opt_str_view(self.sig),
            jwt: opt_str_view(self.jwt),
            no_responders: self.no_responders,
            headers: self.headers,
            nkey: opt_str_view(self.nkey),
        }
    }
}

/// A header name; must not contain a colon.
#[derive(Debug, Clone, PartialEq, Eq, Hash)]
pub struct HeaderName(pub String);

/// A header value; single leading and trailing spaces are stripped on decode.
#[derive(Debug, Clone, PartialEq, Eq)]
pub struct HeaderValue(pub String);

/// One header line, as a name/value pair.
#[derive(Debug, Clone, PartialEq, Eq)]
pub struct Header {
    pub name: HeaderName,
    pub value: HeaderValue,
}

/// A multimap from header name to the ordered values seen for it, keyed in
/// order of first appearance.
#[derive(Debug, Clone, PartialEq, Eq)]
pub struct HeaderMap(pub Vec<(HeaderName, Vec<HeaderValue>)>);

/// View of one header entry: the name and its ordered values.
pub open spec fn header_entry_view(e: (HeaderName, Vec<HeaderValue>)) -> (
    Seq<char>,
    Seq<Seq<char>>,
) {
    (e.0.0@, Seq::new(e.1@.len(), |i: int| e.1@[i].0@))
}

impl View for HeaderMap {
    type V = Seq<(Seq<char>, Seq<Seq<char>>)>;

    open spec fn view(&self) -> Seq<(Seq<char>, Seq<Seq<char>>)> {
        Seq::new(self.0@.len(), |i: int| header_entry_view(self.0@[i]))
    }
}

impl HeaderMap {
    /// An empty header map.
    pub fn new() -> (r: HeaderMap)
        ensures
            r@ =~= Seq::<(Seq<char>, Seq<Seq<char>>)>::empty(),
    {
        HeaderMap(Vec::new())
    }

    /// Number of distinct header names.
    pub fn len(&self) -> (r: usize)
        ensures
            r == self@.len(),
    {
        self.0.len()
    }

    /// Append `value` under `name`: to the existing entry if the name is
    /// already present, else as a new entry at the end.
    pub fn insert(&mut self, name: HeaderName, value: HeaderValue)
        ensures
            final(self)@ =~~= map_insert_spec(old(self)@, name.0@, value.0@),
    {
        let ghost orig_rep = self.0@;
        let ghost orig = self@;
        let ghost nv = name.0@;
        let ghost vv = value.0@;
        let mut i: usize = 0;
        while i < self.0.len()
            invariant
                i <= self.0@.len(),
                self.0@ == orig_rep,
                orig == old(self)@,
                orig == Seq::new(orig_rep.len(), |k: int| header_entry_view(orig_rep[k])),
                nv == name.0@,
                vv == value.0@,
                forall|j: int| 0 <= j < i ==> header_entry_view(orig_rep[j]).0 != nv,
            decreases self.0@.len() - i,
        {
            if string_eq(&self.0[i].0.0, &name.0) {
                let (n, mut vs) = self.0.remove(i);
                let ghost vs0 = vs@;
                vs.push(value);
                self.0.insert(i, (n, vs));
                proof {
                    assert(self.0@ =~= orig_rep.update(i as int, self.0@[i as int]));
                    assert(self.0@[i as int].0 == orig_rep[i as int].0);
                    assert(self.0@[i as int].1@ =~= orig_rep[i as int].1@.push(
                        self.0@[i as int].1@.last(),
                    ));
                    let target = orig.update(i as int, (orig[i as int].0, orig[
                        i as int].1.push(vv)));
                    assert(self@ =~~= target) by {
                        assert forall|k: int| 0 <= k < self@.len() implies self@[k]
                            =~~= target[k] by {
                            if k == i {
                                assert(header_entry_view(self.0@[k]).1 =~= orig[
                                    k].1.push(vv));
                            } else {
                                assert(self.0@[k] == orig_rep[k]);
                            }
                        }
                    }
                    lemma_map_insert_found(orig, nv, vv, i as int);
                }
                return ;
            }
            i = i + 1;
        }
        let ghost before = self@;
        let ghost nv = name.0@;
        let ghost vv = value.0@;
        let mut vs: Vec<HeaderValue> = Vec::new();
        vs.push(value);
        self.0.push((name, vs));
        proof {
            assert(self@ =~~= before.push((nv, seq![vv]))) by {
                let entry = self.0@.last();
                assert(header_entry_view(entry).1 =~= seq![vv]);
            }
            lemma_map_insert_missing(before, nv, vv);
        }
    }
}

/// Where `insert` puts a value: appended to the first entry with the same
/// name, or as a fresh entry at the end.
pub open spec fn map_insert_spec(
    m: Seq<(Seq<char>, Seq<Seq<char>>)>,
    name: Seq<char>,
    value: Seq<char>,
) -> Seq<(Seq<char>, Seq<Seq<char>>)>
    decreases m.len(),
{
    if m.len() == 0 {
        seq![(name, seq![value])]
    } else if m[0].0 == name {
        seq![(m[0].0, m[0].1.push(value))] + m.skip(1)
    } else {
        seq![m[0]] + map_insert_spec(m.skip(1), name, value)
    }
}

proof fn lemma_map_insert_found(
    m: Seq<(Seq<char>, Seq<Seq<char>>)>,
    name: Seq<char>,
    value: Seq<char>,
    i: int,
)
    requires
        0 <= i < m.len(),
        m[i].0 == name,
        forall|j: int| 0 <= j < i ==> m[j].0 != name,
    ensures
        map_insert_spec(m, name, value) =~~= m.update(i, (m[i].0, m[i].1.push(value))),
    decreases i,
{
    if i == 0 {
        assert(map_insert_spec(m, name, value) =~~= seq![(m[0].0, m[0].1.push(value))]
            + m.skip(1));
    } else {
        assert(m.skip(1)[i - 1] == m[i]);
        assert(forall|j: int| 0 <= j < i - 1 ==> m.skip(1)[j] == m[j + 1]);
        lemma_map_insert_found(m.skip(1), name, value, i - 1);
        assert(map_insert_spec(m, name, value) =~~= seq![m[0]] + map_insert_spec(
            m.skip(1),
            name,
            value,
        ));
    }
}

proof fn lemma_map_insert_missing(
    m: Seq<(Seq<char>, Seq<Seq<char>>)>,
    name: Seq<char>,
    value: Seq<char>,
)
    requires
        forall|j: int| 0 <= j < m.len() ==> m[j].0 != name,
    ensures
        map_insert_spec(m, name, value) =~~= m.push((name, seq![value])),
    decreases m.len(),
{
    if m.len() == 0 {
    } else {
        assert(forall|j: int| 0 <= j < m.skip(1).len() ==> m.skip(1)[j] == m[j + 1]);
        lemma_map_insert_missing(m.skip(1), name, value);
    }
}

/// Byte-wise equality of two strings; equal bytes mean equal strings.
pub fn string_eq(a: &String, b: &String) -> (r: bool)
    ensures
        r == (a@ == b@),
{
    let x = a.as_str().as_bytes();
    let y = b.as_str().as_bytes();
    proof {
        vstd::utf8::encode_utf8_decode_utf8(a@);
        vstd::utf8::encode_utf8_decode_utf8(b@);
    }
    if x.len() != y.len() {
        return false;
    }
    let mut i: usize = 0;
    while i < x.len()
        invariant
            x@.len() == y@.len(),
            i <= x@.len(),
            x@ == vstd::utf8::encode_utf8(a@),
            y@ == vstd::utf8::encode_utf8(b@),
            vstd::utf8::decode_utf8(x@) == a@,
            vstd::utf8::decode_utf8(y@) == b@,
            forall|j: int| 0 <= j < i ==> x@[j] == y@[j],
        decreases x@.len() - i,
    {
        if x[i] != y[i] {
            proof {
                assert(x@[i as int] != y@[i as int]);
                assert(x@ != y@);
                if a@ == b@ {
                    assert(x@ == y@);
                }
            }
            return false;
        }
        i = i + 1;
    }
    proof {
        assert(x@ =~= y@);
    }
    true
}

/// A payload-bearing server message without headers.
#[derive(Debug, Clone, PartialEq, Eq)]
pub struct Msg {
    pub subject: String,
    pub sid: String,
    pub reply_to: Option<String>,
    pub bytes: usize,
    pub payload: Vec<u8>,
}

pub struct MsgV {
    pub subject: Seq<char>,
    pub sid: Seq<char>,
    pub reply_to: Option<Seq<char>>,
    pub bytes: usize,
    pub payload: Seq<u8>,
}

impl View for Msg {
    type V = MsgV;

    open spec fn view(&self) -> MsgV {
        MsgV {
            subject: self.subject@,
            sid: self.sid@,
            reply_to: opt_str_view(self.reply_to),
            bytes: self.bytes,
            payload: self.payload@,
        }
    }
}

/// A payload-bearing server message with a header block.
#[derive(Debug, Clone, PartialEq, Eq)]
pub struct HMsg {
    pub subject: String,
    pub sid: String,
    pub reply_to: Option<String>,
    pub header_bytes: usize,
    pub total_bytes: usize,
    pub headers: HeaderMap,
    pub payload: Vec<u8>,
}

pub struct HMsgV {
    pub subject: Seq<char>,
    pub sid: Seq<char>,
    pub reply_to: Option<Seq<char>>,
    pub header_bytes: usize,
    pub total_bytes: usize,
    pub headers: Seq<(Seq<char>, Seq<Seq<char>>)>,
    pub payload: Seq<u8>,
}

impl View for HMsg {
    type V = HMsgV;

    open spec fn view(&self) -> HMsgV {
        HMsgV {
            subject: self.subject@,
            sid: self.sid@,
            reply_to: opt_str_view(self.reply_to),
            header_bytes: self.header_bytes,
            total_bytes: self.total_bytes,
            headers: self.headers@,
            payload: self.payload@,
        }
    }
}

/// The application-facing normalization of `MSG` and `HMSG`.
#[derive(Debug, Clone, PartialEq, Eq)]
pub struct Message {
    pub subject: String,
    pub sid: String,
    pub reply_to: Option<String>,
    pub headers: HeaderMap,
    pub payload: Vec<u8>,
}

pub struct MessageV {
    pub subject: Seq<char>,
    pub sid: Seq<char>,
    pub reply_to: Option<Seq<char>>,
    pub headers: Seq<(Seq<char>, Seq<Seq<char>>)>,
    pub payload: Seq<u8>,
}

impl View for Message {
    type V = MessageV;

    open spec fn view(&self) -> MessageV {
        MessageV {
            subject: self.subject@,
            sid: self.sid@,
            reply_to: opt_str_view(self.reply_to),
            headers: self.headers@,
            payload: self.payload@,
        }
    }
}

impl Message {
    /// Normalize a headerless message; its header map is empty.
    pub fn from_msg(value: Msg) -> (r: Message)
        ensures
            r@.subject == value@.subject,
            r@.sid == value@.sid,
            r@.reply_to == value@.reply_to,
            r@.headers =~= Seq::<(Seq<char>, Seq<Seq<char>>)>::empty(),
            r@.payload == value@.payload,
    {
        Message {
            subject: value.subject,
            sid: value.sid,
            reply_to: value.reply_to,
            headers: HeaderMap::new(),
            payload: value.payload,
        }
    }

    /// Normalize a message with headers, carrying its header map over.
    pub fn from_hmsg(value: HMsg) -> (r: Message)
        ensures
            r@.subject == value@.subject,
            r@.sid == value@.sid,
            r@.reply_to == value@.reply_to,
            r@.headers == value@.headers,
            r@.payload == value@.payload,
    {
        Message {
            subject: value.subject,
            sid: value.sid,
            reply_to: value.reply_to,
            headers: value.headers,
            payload: value.payload,
        }
    }
}

/// Commands a server sends to a client.
#[derive(Debug, Clone, PartialEq, Eq)]
pub enum ServerCommand {
    Info(Box<Info>),
    Msg(Msg),
    HMsg(HMsg),
    Ping,
    Pong,
    Okay,
    Error(String),
}

pub enum ServerCommandV {
    Info(InfoV),
    Msg(MsgV),
    HMsg(HMsgV),
    Ping,
    Pong,
    Okay,
    Error(Seq<char>),
}

impl View for ServerCommand {
    type V = ServerCommandV;

    open spec fn view(&self) -> ServerCommandV {
        match self {
            ServerCommand::Info(i) => ServerCommandV::Info(i@),
            ServerCommand::Msg(m) => ServerCommandV::Msg(m@),
            ServerCommand::HMsg(m) => ServerCommandV::HMsg(m@),
            ServerCommand::Ping => ServerCommandV::Ping,
            ServerCommand::Pong => ServerCommandV::Pong,
            ServerCommand::Okay => ServerCommandV::Okay,
            ServerCommand::Error(e) => ServerCommandV::Error(e@),
        }
    }
}

/// A client publication without headers.
#[derive(Debug, Clone, PartialEq, Eq)]
pub struct Publish {
    pub subject: String,
    pub reply_to: Option<String>,
    pub bytes: usize,
    pub payload: Vec<u8>,
}

pub struct PublishV {
    pub subject: Seq<char>,
    pub reply_to: Option<Seq<char>>,
    pub bytes: usize,
    pub payload: Seq<u8>,
}

impl View for Publish {
    type V = PublishV;

    open spec fn view(&self) -> PublishV {
        PublishV {
            subject: self.subject@,
            reply_to: opt_str_view(self.reply_to),
            bytes: self.bytes,
            payload: self.payload@,
        }
    }
}

/// A client publication with a header block.
#[derive(Debug, Clone, PartialEq, Eq)]
pub struct HPublish {
    pub subject: String,
    pub reply_to: Option<String>,
    pub header_bytes: usize,
    pub total_bytes: usize,
    pub headers: HeaderMap,
    pub payload: Vec<u8>,
}

pub struct HPublishV {
    pub subject: Seq<char>,
    pub reply_to: Option<Seq<char>>,
    pub header_bytes: usize,
    pub total_bytes: usize,
    pub headers: Seq<(Seq<char>, Seq<Seq<char>>)>,
    pub payload: Seq<u8>,
}

impl View for HPublish {
    type V = HPublishV;

    open spec fn view(&self) -> HPublishV {
        HPublishV {
            subject: self.subject@,
            reply_to: opt_str_view(self.reply_to),
            header_bytes: self.header_bytes,
            total_bytes: self.total_bytes,
            headers: self.headers@,
            payload: self.payload@,
        }
    }
}

/// A client subscription request on the wire.
#[derive(Debug, Clone, PartialEq, Eq)]
pub struct Subscribe {
    pub subject: String,
    pub queue_group: Option<String>,
    pub sid: String,
}

pub struct SubscribeV {
    pub subject: Seq<char>,
    pub queue_group: Option<Seq<char>>,
    pub sid: Seq<char>,
}

impl View for Subscribe {
    type V = SubscribeV;

    open spec fn view(&self) -> SubscribeV {
        SubscribeV {
            subject: self.subject@,
            queue_group: opt_str_view(self.queue_group),
            sid: self.sid@,
        }
    }
}

/// A client unsubscription; `max_msgs`, when present, is strictly positive.
#[derive(Debug, Clone, PartialEq, Eq)]
pub struct Unsubscribe {
    pub sid: String,
    pub max_msgs: Option<usize>,
}

pub struct UnsubscribeV {
    pub sid: Seq<char>,
    pub max_msgs: Option<usize>,
}

impl View for Unsubscribe {
    type V = UnsubscribeV;

    open spec fn view(&self) -> UnsubscribeV {
        UnsubscribeV { sid: self.sid@, max_msgs: self.max_msgs }
    }
}

/// Commands a client sends to a server.
#[derive(Debug, Clone, PartialEq, Eq)]
pub enum ClientCommand {
    Connect(Connect),
    Publish(Publish),
    HPublish(HPublish),
    Subscribe(Subscribe),
    Unsubscribe(Unsubscribe),
    Ping,
    Pong,
}

pub enum ClientCommandV {
    Connect(ConnectV),
    Publish(PublishV),
    HPublish(HPublishV),
    Subscribe(SubscribeV),
    Unsubscribe(UnsubscribeV),
    Ping,
    Pong,
}

impl View for ClientCommand {
    type V = ClientCommandV;

    open spec fn view(&self) -> ClientCommandV {
        match self {
            ClientCommand::Connect(c) => ClientCommandV::Connect(c@),
            ClientCommand::Publish(p) => ClientCommandV::Publish(p@),
            ClientCommand::HPublish(p) => ClientCommandV::HPublish(p@),
            ClientCommand::Subscribe(s) => ClientCommandV::Subscribe(s@),
            ClientCommand::Unsubscribe(u) => ClientCommandV::Unsubscribe(u@),
            ClientCommand::Ping => ClientCommandV::Ping,
            ClientCommand::Pong => ClientCommandV::Pong,
        }
    }
}

/// Why a server-to-client frame failed to decode.
#[derive(Debug, Clone, Copy, PartialEq, Eq, Structural)]
pub enum ServerDecodeError {
    /// No frame delimiter within the soft length budget.
    ExceedsSoftLength,
    BadInfo,
    BadMsg,
    BadHMsg,
    BadPing,
    BadPong,
    BadOk,
    BadErr,
    BadHeaders,
    UnknownCommand,
}

/// Why a client-to-server frame failed to decode.
#[derive(Debug, Clone, Copy, PartialEq, Eq, Structural)]
pub enum ClientDecodeError {
    /// No frame delimiter within the soft length budget.
    ExceedsSoftLength,
    BadConnect,
    BadSub,
    BadUnsub,
    BadPub,
    BadHPub,
    BadHeaders,
    UnknownCommand,
}

/// Why a header block failed to parse.
#[derive(Debug, Clone, Copy, PartialEq, Eq, Structural)]
pub enum HeaderDecodeError {
    BadLength,
    MissingNatsVersion,
    BadHeaderName,
    BadHeaderValue,
    NoColon,
}

/// Why encoding a client command failed.  Writing into a growable buffer
/// cannot fail, so no value of this type is ever produced; the variant set
/// exists for API fidelity with drivers that write into fallible sinks.
#[derive(Debug, Clone, Copy, PartialEq, Eq, Structural)]
pub enum ClientEncodeError {
    WriteFailed,
}

} // verus!
