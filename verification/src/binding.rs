//! The sans-I/O connection state machine.  It ingests parsed server
//! commands and application requests, emits client commands through a
//! polled FIFO outbox, tracks subscriptions, and enforces the bidirectional
//! heartbeat through time-driven poll/handle pairs.  All time is a
//! millisecond reading of the driver's monotonic clock; the machine holds
//! no channels and performs no I/O.

use vstd::prelude::*;

use crate::commands::{
    ClientCommand, ClientCommandV, Connect, ConnectV, HMsgV, Message, MessageV, MsgV,
    ServerCommand, ServerCommandV, Subscribe, SubscribeV, Unsubscribe, UnsubscribeV,
    opt_str_view,
};
use crate::num::dec_chars;
use std::collections::VecDeque;

verus! {

/// The three configured heartbeat durations, in milliseconds.
#[derive(Clone, Copy, Debug, PartialEq, Eq, Structural)]
pub struct Timeouts {
    /// How often a `PING` is sent.
    pub ping_interval: u64,
    /// The longest the client may wait between receiving a `PING` and
    /// enqueueing its `PONG`.
    pub pong_delay: u64,
    /// The longest silence between server `PONG`s before the connection is
    /// declared lost; should exceed `ping_interval`.
    pub keep_alive: u64,
}

/// The heartbeat bookkeeping: when the client last sent a `PING`, and when
/// the server last sent a `PING` and a `PONG`.
#[derive(Clone, Copy, Debug, PartialEq, Eq, Structural)]
pub struct KeepAliveState {
    pub last_ping_sent_at: Option<u64>,
    pub last_ping_received_at: Option<u64>,
    pub last_pong_received_at: Option<u64>,
}

/// Options of an application subscription request.
#[derive(Clone, Debug, PartialEq, Eq)]
pub struct SubscriptionOptions {
    /// Cap on deliveries; strictly positive when present.
    pub max_msgs: Option<usize>,
    pub queue_group: Option<String>,
}

pub struct SubscriptionOptionsV {
    pub max_msgs: Option<usize>,
    pub queue_group: Option<Seq<char>>,
}

impl View for SubscriptionOptions {
    type V = SubscriptionOptionsV;

    open spec fn view(&self) -> SubscriptionOptionsV {
        SubscriptionOptionsV {
            max_msgs: self.max_msgs,
            queue_group: opt_str_view(self.queue_group),
        }
    }
}

impl Default for SubscriptionOptions {
    /// No delivery cap and no queue group.
    fn default() -> (r: SubscriptionOptions)
        ensures
            r@.max_msgs is None,
            r@.queue_group is None,
    {
        SubscriptionOptions { max_msgs: None, queue_group: None }
    }
}

/// What a subscriber learns once its request is handled: the allocated sid
/// and the cap it asked for.
#[derive(Clone, Debug, PartialEq, Eq)]
pub struct SubscribeResponse {
    pub sid: String,
    pub max_msgs: Option<usize>,
}

pub struct SubscribeResponseV {
    pub sid: Seq<char>,
    pub max_msgs: Option<usize>,
}

impl View for SubscribeResponse {
    type V = SubscribeResponseV;

    open spec fn view(&self) -> SubscribeResponseV {
        SubscribeResponseV { sid: self.sid@, max_msgs: self.max_msgs }
    }
}

/// An application request into the machine.
#[derive(Debug, Clone, PartialEq, Eq)]
pub enum ConnectionCommand {
    Subscribe { subject: String, options: SubscriptionOptions },
    Unsubscribe { sid: String, max_msgs: Option<usize> },
    Publish { subject: String, payload: Vec<u8> },
}

pub enum ConnectionCommandV {
    Subscribe { subject: Seq<char>, options: SubscriptionOptionsV },
    Unsubscribe { sid: Seq<char>, max_msgs: Option<usize> },
    Publish { subject: Seq<char>, payload: Seq<u8> },
}

impl View for ConnectionCommand {
    type V = ConnectionCommandV;

    open spec fn view(&self) -> ConnectionCommandV {
        match self {
            ConnectionCommand::Subscribe { subject, options } => {
                ConnectionCommandV::Subscribe { subject: subject@, options: options@ }
            },
            ConnectionCommand::Unsubscribe { sid, max_msgs } => {
                ConnectionCommandV::Unsubscribe { sid: sid@, max_msgs: *max_msgs }
            },
            ConnectionCommand::Publish { subject, payload } => {
                ConnectionCommandV::Publish { subject: subject@, payload: payload@ }
            },
        }
    }
}

/// Requests that arrived before the handshake completed, with their
/// arrival instants for diagnostics.
#[derive(Debug)]
pub struct AwaitingInfo {
    pub preliminary: Vec<(ConnectionCommand, u64)>,
}

/// The open-session state: the FIFO outbox, the heartbeat bookkeeping, the
/// monotonically increasing sid allocator, and the registered sids.
#[derive(Debug)]
pub struct InfoReceived {
    pub buffered_transmits: VecDeque<ClientCommand>,
    pub keep_alive: KeepAliveState,
    pub sid_counter: u64,
    pub subscribers: Vec<u64>,
}

/// The connection lifecycle.
#[derive(Debug)]
pub enum ConnState {
    /// The first server frame must be `INFO`.
    AwaitingInfo(AwaitingInfo),
    /// The handshake completed; the session is open.
    InfoReceived(InfoReceived),
    /// A frame other than `INFO` arrived first; terminal.
    NotInfoReceived,
    /// The server went silent past the keep-alive budget; terminal.
    ConnectionLost,
}

pub struct InfoReceivedV {
    pub outbox: Seq<ClientCommandV>,
    pub keep_alive: KeepAliveState,
    pub sid_counter: u64,
    pub subscribers: Seq<u64>,
}

pub enum ConnStateV {
    AwaitingInfo(Seq<(ConnectionCommandV, u64)>),
    InfoReceived(InfoReceivedV),
    NotInfoReceived,
    ConnectionLost,
}

impl View for InfoReceived {
    type V = InfoReceivedV;

    open spec fn view(&self) -> InfoReceivedV {
        InfoReceivedV {
            outbox: Seq::new(
                self.buffered_transmits@.len(),
                |i: int| self.buffered_transmits@[i]@,
            ),
            keep_alive: self.keep_alive,
            sid_counter: self.sid_counter,
            subscribers: self.subscribers@,
        }
    }
}

impl View for ConnState {
    type V = ConnStateV;

    open spec fn view(&self) -> ConnStateV {
        match self {
            ConnState::AwaitingInfo(a) => ConnStateV::AwaitingInfo(
                Seq::new(a.preliminary@.len(), |i: int| (a.preliminary@[i].0@, a.preliminary@[i].1)),
            ),
            ConnState::InfoReceived(s) => ConnStateV::InfoReceived(s@),
            ConnState::NotInfoReceived => ConnStateV::NotInfoReceived,
            ConnState::ConnectionLost => ConnStateV::ConnectionLost,
        }
    }
}

/// What a server frame makes the machine do besides changing state:
/// deliver a message to a registered subscriber, answer a subscription
/// request that had been buffered before the handshake, or surface a
/// server-reported error to the observer without ending the session.
#[derive(Debug)]
pub enum Effect {
    Deliver(Message),
    Opened(SubscribeResponse),
    ServerFault(String),
}

pub enum EffectV {
    Deliver(MessageV),
    Opened(SubscribeResponseV),
    ServerFault(Seq<char>),
}

impl View for Effect {
    type V = EffectV;

    open spec fn view(&self) -> EffectV {
        match self {
            Effect::Deliver(m) => EffectV::Deliver(m@),
            Effect::Opened(r) => EffectV::Opened(r@),
            Effect::ServerFault(e) => EffectV::ServerFault(e@),
        }
    }
}

/// The machine itself: lifecycle state plus the configured durations.
#[derive(Debug)]
pub struct NatsBinding {
    pub conn_state: ConnState,
    pub timeouts: Timeouts,
}

pub struct NatsBindingV {
    pub state: ConnStateV,
    pub timeouts: Timeouts,
}

impl View for NatsBinding {
    type V = NatsBindingV;

    open spec fn view(&self) -> NatsBindingV {
        NatsBindingV { state: self.conn_state@, timeouts: self.timeouts }
    }
}

/// The fixed options object sent in the one `CONNECT` of a session.
pub open spec fn connect_options() -> ConnectV {
    ConnectV {
        verbose: true,
        pedantic: true,
        tls_required: false,
        auth_token: None,
        user: None,
        pass: None,
        name: None,
        lang: "Rust"@,
        version: "1.0"@,
        protocol: None,
        echo: None,
        sig: None,
        jwt: None,
        no_responders: None,
        headers: Some(true),
        nkey: None,
    }
}

/// The `CONNECT` command itself.
pub open spec fn connect_command() -> ClientCommandV {
    ClientCommandV::Connect(connect_options())
}

/// `a + b`, clamped to the top of the clock.
pub open spec fn sat_add(a: u64, b: u64) -> u64 {
    if a + b > u64::MAX {
        u64::MAX
    } else {
        (a + b) as u64
    }
}

/// A sid string resolves against the registered counters by its decimal
/// digits.
pub open spec fn sid_known(subs: Seq<u64>, sid: Seq<char>) -> bool {
    exists|i: int| 0 <= i < subs.len() && dec_chars(subs[i] as nat) == sid
}

/// Remove the first registered sid whose digits match.
pub open spec fn remove_sid(subs: Seq<u64>, sid: Seq<char>) -> Seq<u64>
    decreases subs.len(),
{
    if subs.len() == 0 {
        subs
    } else if dec_chars(subs[0] as nat) == sid {
        subs.skip(1)
    } else {
        seq![subs[0]] + remove_sid(subs.skip(1), sid)
    }
}

/// One application request against an open session: what lands in the
/// outbox, how the allocator and the registry move, and the response owed
/// to a subscriber.
pub open spec fn client_step_open(s: InfoReceivedV, c: ConnectionCommandV) -> (
    InfoReceivedV,
    Option<SubscribeResponseV>,
) {
    match c {
        ConnectionCommandV::Subscribe { subject, options } => {
            let sid = s.sid_counter;
            let sidstr = dec_chars(sid as nat);
            let unsub = match options.max_msgs {
                Some(m) => seq![
                    ClientCommandV::Unsubscribe(
                        UnsubscribeV { sid: sidstr, max_msgs: Some(m) },
                    ),
                ],
                None => Seq::<ClientCommandV>::empty(),
            };
            let s2 = InfoReceivedV {
                outbox: s.outbox + seq![
                    ClientCommandV::Subscribe(
                        SubscribeV {
                            subject,
                            queue_group: options.queue_group,
                            sid: sidstr,
                        },
                    ),
                ] + unsub,
                keep_alive: s.keep_alive,
                sid_counter: if s.sid_counter < u64::MAX {
                    (s.sid_counter + 1) as u64
                } else {
                    s.sid_counter
                },
                subscribers: s.subscribers.push(sid),
            };
            (s2, Some(SubscribeResponseV { sid: sidstr, max_msgs: options.max_msgs }))
        },
        ConnectionCommandV::Unsubscribe { sid, max_msgs } => {
            let s2 = InfoReceivedV {
                outbox: s.outbox + seq![
                    ClientCommandV::Unsubscribe(UnsubscribeV { sid, max_msgs }),
                ],
                keep_alive: s.keep_alive,
                sid_counter: s.sid_counter,
                subscribers: remove_sid(s.subscribers, sid),
            };
            (s2, None)
        },
        ConnectionCommandV::Publish { subject, payload } => {
            let s2 = InfoReceivedV {
                outbox: s.outbox + seq![
                    ClientCommandV::Publish(
                        crate::commands::PublishV {
                            subject,
                            reply_to: None,
                            bytes: payload.len() as usize,
                            payload,
                        },
                    ),
                ],
                keep_alive: s.keep_alive,
                sid_counter: s.sid_counter,
                subscribers: s.subscribers,
            };
            (s2, None)
        },
    }
}

/// Replay the buffered requests, oldest first, collecting the responses
/// owed to buffered subscriptions.
pub open spec fn replay(
    s: InfoReceivedV,
    pre: Seq<(ConnectionCommandV, u64)>,
    acc: Seq<SubscribeResponseV>,
) -> (InfoReceivedV, Seq<SubscribeResponseV>)
    decreases pre.len(),
{
    if pre.len() == 0 {
        (s, acc)
    } else {
        let stepped = client_step_open(s, pre[0].0);
        let acc2 = match stepped.1 {
            Some(r) => acc.push(r),
            None => acc,
        };
        replay(stepped.0, pre.skip(1), acc2)
    }
}

/// The fresh open session built when `INFO` arrives: `CONNECT` first in
/// the outbox, heartbeat cleared, allocator at one, registry empty.
pub open spec fn fresh_session() -> InfoReceivedV {
    InfoReceivedV {
        outbox: seq![connect_command()],
        keep_alive: KeepAliveState {
            last_ping_sent_at: None,
            last_ping_received_at: None,
            last_pong_received_at: None,
        },
        sid_counter: 1,
        subscribers: Seq::empty(),
    }
}

/// The normalized message a `MSG` frame delivers.
pub open spec fn message_of_msg(m: MsgV) -> MessageV {
    MessageV {
        subject: m.subject,
        sid: m.sid,
        reply_to: m.reply_to,
        headers: Seq::empty(),
        payload: m.payload,
    }
}

/// The normalized message an `HMSG` frame delivers.
pub open spec fn message_of_hmsg(m: HMsgV) -> MessageV {
    MessageV {
        subject: m.subject,
        sid: m.sid,
        reply_to: m.reply_to,
        headers: m.headers,
        payload: m.payload,
    }
}

/// One server frame against the machine: the next state and the effects
/// handed to the driver.
pub open spec fn server_step_spec(b: NatsBindingV, cmd: ServerCommandV, now: u64) -> (
    NatsBindingV,
    Seq<EffectV>,
) {
    match b.state {
        ConnStateV::AwaitingInfo(pre) => match cmd {
            ServerCommandV::Info(_) => {
                let replayed = replay(fresh_session(), pre, Seq::empty());
                (
                    NatsBindingV {
                        state: ConnStateV::InfoReceived(replayed.0),
                        timeouts: b.timeouts,
                    },
                    Seq::new(replayed.1.len(), |i: int| EffectV::Opened(replayed.1[i])),
                )
            },
            _ => (
                NatsBindingV { state: ConnStateV::NotInfoReceived, timeouts: b.timeouts },
                Seq::empty(),
            ),
        },
        ConnStateV::InfoReceived(s) => match cmd {
            ServerCommandV::Info(_) => (b, Seq::empty()),
            ServerCommandV::Msg(m) => if sid_known(s.subscribers, m.sid) {
                (b, seq![EffectV::Deliver(message_of_msg(m))])
            } else {
                (b, Seq::empty())
            },
            ServerCommandV::HMsg(m) => if sid_known(s.subscribers, m.sid) {
                (b, seq![EffectV::Deliver(message_of_hmsg(m))])
            } else {
                (b, Seq::empty())
            },
            ServerCommandV::Ping => (
                NatsBindingV {
                    state: ConnStateV::InfoReceived(
                        InfoReceivedV {
                            keep_alive: KeepAliveState {
                                last_ping_received_at: Some(now),
                                ..s.keep_alive
                            },
                            ..s
                        },
                    ),
                    timeouts: b.timeouts,
                },
                Seq::empty(),
            ),
            ServerCommandV::Pong => (
                NatsBindingV {
                    state: ConnStateV::InfoReceived(
                        InfoReceivedV {
                            keep_alive: KeepAliveState {
                                last_pong_received_at: Some(now),
                                ..s.keep_alive
                            },
                            ..s
                        },
                    ),
                    timeouts: b.timeouts,
                },
                Seq::empty(),
            ),
            ServerCommandV::Okay => (b, Seq::empty()),
            ServerCommandV::Error(e) => (b, seq![EffectV::ServerFault(e)]),
        },
        _ => (b, Seq::empty()),
    }
}

/// One application request against the machine: buffered while awaiting
/// the handshake, handled in an open session, dropped after the end.
pub open spec fn client_step_spec(b: NatsBindingV, c: ConnectionCommandV, now: u64) -> (
    NatsBindingV,
    Option<SubscribeResponseV>,
) {
    match b.state {
        ConnStateV::AwaitingInfo(pre) => (
            NatsBindingV {
                state: ConnStateV::AwaitingInfo(pre.push((c, now))),
                timeouts: b.timeouts,
            },
            None,
        ),
        ConnStateV::InfoReceived(s) => {
            let stepped = client_step_open(s, c);
            (
                NatsBindingV {
                    state: ConnStateV::InfoReceived(stepped.0),
                    timeouts: b.timeouts,
                },
                stepped.1,
            )
        },
        _ => (b, None),
    }
}

} // verus!
verus! {

/// The decimal digits of a counter are ASCII, so they are one byte per
/// character both ways.
pub proof fn lemma_dec_chars_bytes(n: nat)
    ensures
        vstd::utf8::encode_utf8(dec_chars(n)) == crate::num::dec_digits(n),
        vstd::utf8::valid_utf8(crate::num::dec_digits(n)),
        vstd::utf8::decode_utf8(crate::num::dec_digits(n)) == dec_chars(n),
{
    let ds = crate::num::dec_digits(n);
    let cs = dec_chars(n);
    crate::num::lemma_dec_digits_all_digits(n);
    assert(cs.len() == ds.len());
    assert(vstd::utf8::is_ascii_chars(cs)) by {
        assert forall|i: int| 0 <= i < cs.len() implies (cs[i] as nat) < 128 by {
            assert(cs[i] == ds[i] as char);
            assert(crate::num::is_digit(ds[i]));
        }
    }
    vstd::utf8::is_ascii_chars_encode_utf8(cs);
    assert(vstd::utf8::encode_utf8(cs) =~= Seq::new(cs.len(), |i: int| cs[i] as u8));
    assert(vstd::utf8::encode_utf8(cs) =~= ds) by {
        assert forall|i: int| 0 <= i < ds.len() implies (cs[i] as u8) == ds[i] by {
            assert(cs[i] == ds[i] as char);
            assert(crate::num::is_digit(ds[i]));
        }
    }
    vstd::utf8::encode_utf8_valid_utf8(cs);
    vstd::utf8::encode_utf8_decode_utf8(cs);
}

/// Print a subscription counter as its decimal sid string.
pub fn dec_string(n: u64) -> (r: String)
    ensures
        r@ == dec_chars(n as nat),
{
    let bytes = crate::num::u64_to_dec(n);
    proof {
        lemma_dec_chars_bytes(n as nat);
    }
    match crate::strings::bytes_to_string(bytes) {
        Some(s) => s,
        None => {
            proof {
                assert(false);
            }
            String::new()
        },
    }
}

/// Whether a wire sid matches one of the registered counters.
fn find_sid(subs: &Vec<u64>, sid: &str) -> (r: bool)
    ensures
        r == sid_known(subs@, sid@),
{
    let sid_bytes = sid.as_bytes();
    proof {
        vstd::utf8::encode_utf8_decode_utf8(sid@);
    }
    let mut i: usize = 0;
    while i < subs.len()
        invariant
            i <= subs@.len(),
            sid_bytes@ == vstd::utf8::encode_utf8(sid@),
            forall|j: int| 0 <= j < i ==> dec_chars(subs@[j] as nat) != sid@,
        decreases subs@.len() - i,
    {
        let digits = crate::num::u64_to_dec(subs[i]);
        proof {
            lemma_dec_chars_bytes(subs@[i as int] as nat);
        }
        if crate::scan::bytes_eq(digits.as_slice(), sid_bytes) {
            proof {
                assert(vstd::utf8::encode_utf8(dec_chars(subs@[i as int] as nat))
                    == vstd::utf8::encode_utf8(sid@));
                vstd::utf8::encode_utf8_decode_utf8(dec_chars(subs@[i as int] as nat));
                vstd::utf8::encode_utf8_decode_utf8(sid@);
                assert(dec_chars(subs@[i as int] as nat) == sid@);
            }
            return true;
        }
        proof {
            if dec_chars(subs@[i as int] as nat) == sid@ {
                assert(digits@ == sid_bytes@);
            }
        }
        i = i + 1;
    }
    proof {
        if sid_known(subs@, sid@) {
            let w = choose|j: int| 0 <= j < subs@.len() && dec_chars(subs@[j] as nat)
                == sid@;
            assert(dec_chars(subs@[w] as nat) != sid@);
        }
    }
    false
}

proof fn lemma_remove_sid_at(subs: Seq<u64>, sid: Seq<char>, i: int)
    requires
        0 <= i < subs.len(),
        dec_chars(subs[i] as nat) == sid,
        forall|j: int| 0 <= j < i ==> dec_chars(subs[j] as nat) != sid,
    ensures
        remove_sid(subs, sid) == subs.subrange(0, i) + subs.skip(i + 1),
    decreases i,
{
    if i == 0 {
        assert(remove_sid(subs, sid) =~= subs.subrange(0, 0) + subs.skip(1));
    } else {
        assert(forall|j: int| 0 <= j < i - 1 ==> subs.skip(1)[j] == subs[j + 1]);
        assert(subs.skip(1)[i - 1] == subs[i]);
        lemma_remove_sid_at(subs.skip(1), sid, i - 1);
        assert(subs.skip(1).subrange(0, i - 1) =~= subs.subrange(1, i));
        assert(subs.skip(1).skip(i) =~= subs.skip(i + 1));
        assert(remove_sid(subs, sid) =~= subs.subrange(0, i) + subs.skip(i + 1));
    }
}

proof fn lemma_remove_sid_none(subs: Seq<u64>, sid: Seq<char>)
    requires
        forall|j: int| 0 <= j < subs.len() ==> dec_chars(subs[j] as nat) != sid,
    ensures
        remove_sid(subs, sid) == subs,
    decreases subs.len(),
{
    if subs.len() > 0 {
        assert(forall|j: int| 0 <= j < subs.skip(1).len() ==> subs.skip(1)[j] == subs[j
            + 1]);
        lemma_remove_sid_none(subs.skip(1), sid);
        assert(remove_sid(subs, sid) =~= subs);
    }
}

/// Drop the first registered counter whose digits match the sid, if any.
fn remove_sid_exec(subs: &mut Vec<u64>, sid: &str)
    ensures
        final(subs)@ == remove_sid(old(subs)@, sid@),
{
    let sid_bytes = sid.as_bytes();
    proof {
        vstd::utf8::encode_utf8_decode_utf8(sid@);
    }
    let mut i: usize = 0;
    while i < subs.len()
        invariant
            i <= subs@.len(),
            subs@ == old(subs)@,
            sid_bytes@ == vstd::utf8::encode_utf8(sid@),
            forall|j: int| 0 <= j < i ==> dec_chars(subs@[j] as nat) != sid@,
        decreases subs@.len() - i,
    {
        let digits = crate::num::u64_to_dec(subs[i]);
        proof {
            lemma_dec_chars_bytes(subs@[i as int] as nat);
        }
        if crate::scan::bytes_eq(digits.as_slice(), sid_bytes) {
            proof {
                vstd::utf8::encode_utf8_decode_utf8(dec_chars(subs@[i as int] as nat));
                vstd::utf8::encode_utf8_decode_utf8(sid@);
                assert(dec_chars(subs@[i as int] as nat) == sid@);
                lemma_remove_sid_at(subs@, sid@, i as int);
            }
            subs.remove(i);
            proof {
                assert(subs@ =~= old(subs)@.subrange(0, i as int) + old(subs)@.skip(
                    i + 1,
                ));
            }
            return ;
        }
        proof {
            if dec_chars(subs@[i as int] as nat) == sid@ {
                assert(digits@ == sid_bytes@);
            }
        }
        i = i + 1;
    }
    proof {
        lemma_remove_sid_none(subs@, sid@);
    }
}

/// View of a collected effect list.
pub open spec fn effects_view(v: Seq<Effect>) -> Seq<EffectV> {
    Seq::new(v.len(), |i: int| v[i]@)
}

/// View of an optional subscribe response.
pub open spec fn opt_resp_view(r: Option<SubscribeResponse>) -> Option<SubscribeResponseV> {
    match r {
        Some(x) => Some(x@),
        None => None,
    }
}

/// Apply one application request to an open session.
fn step_client_open(s: &mut InfoReceived, c: ConnectionCommand) -> (r: Option<
    SubscribeResponse,
>)
    ensures
        final(s)@ == client_step_open(old(s)@, c@).0,
        opt_resp_view(r) == client_step_open(old(s)@, c@).1,
{
    match c {
        ConnectionCommand::Subscribe { subject, options } => {
            let SubscriptionOptions { max_msgs, queue_group } = options;
            let sid = s.sid_counter;
            let sid_str = dec_string(sid);
            s.subscribers.push(sid);
            if s.sid_counter < u64::MAX {
                s.sid_counter = s.sid_counter + 1;
            }
            let ghost mid = s@;
            s.buffered_transmits.push_back(
                ClientCommand::Subscribe(
                    Subscribe { subject, queue_group, sid: sid_str.clone() },
                ),
            );
            proof {
                assert(s@.outbox =~= mid.outbox.push(
                    s.buffered_transmits@.last()@,
                ));
            }
            match max_msgs {
                Some(m) => {
                    let ghost mid2 = s@;
                    s.buffered_transmits.push_back(
                        ClientCommand::Unsubscribe(
                            Unsubscribe { sid: sid_str.clone(), max_msgs: Some(m) },
                        ),
                    );
                    proof {
                        assert(s@.outbox =~= mid2.outbox.push(
                            s.buffered_transmits@.last()@,
                        ));
                        assert(s@.outbox =~= client_step_open(old(s)@, c@).0.outbox);
                        assert(s@ == client_step_open(old(s)@, c@).0);
                    }
                    Some(SubscribeResponse { sid: sid_str, max_msgs: Some(m) })
                },
                None => {
                    proof {
                        assert(s@.outbox =~= client_step_open(old(s)@, c@).0.outbox);
                        assert(s@ == client_step_open(old(s)@, c@).0);
                    }
                    Some(SubscribeResponse { sid: sid_str, max_msgs: None })
                },
            }
        },
        ConnectionCommand::Unsubscribe { sid, max_msgs } => {
            remove_sid_exec(&mut s.subscribers, sid.as_str());
            let ghost mid = s@;
            s.buffered_transmits.push_back(
                ClientCommand::Unsubscribe(Unsubscribe { sid, max_msgs }),
            );
            proof {
                assert(s@.outbox =~= mid.outbox.push(s.buffered_transmits@.last()@));
                assert(s@.outbox =~= client_step_open(old(s)@, c@).0.outbox);
                assert(s@ == client_step_open(old(s)@, c@).0);
            }
            None
        },
        ConnectionCommand::Publish { subject, payload } => {
            let bytes = payload.len();
            let ghost mid = s@;
            s.buffered_transmits.push_back(
                ClientCommand::Publish(
                    crate::commands::Publish { subject, reply_to: None, bytes, payload },
                ),
            );
            proof {
                assert(s@.outbox =~= mid.outbox.push(s.buffered_transmits@.last()@));
                assert(s@.outbox =~= client_step_open(old(s)@, c@).0.outbox);
                assert(s@ == client_step_open(old(s)@, c@).0);
            }
            None
        },
    }
}

} // verus!
verus! {

/// Deadline computation for the heartbeat polls: the stamp plus the
/// configured duration, clamped to the top of the clock.
pub open spec fn poll_send_ping_spec(b: NatsBindingV, now: u64) -> Option<u64> {
    match b.state {
        ConnStateV::InfoReceived(s) => Some(
            match s.keep_alive.last_ping_sent_at {
                Some(t) => sat_add(t, b.timeouts.ping_interval),
                None => now,
            },
        ),
        _ => None,
    }
}

/// What firing the send-ping timer does: if no `PING` was ever sent or the
/// cadence elapsed, a `PING` joins the outbox and the send stamp resets.
pub open spec fn handle_send_ping_spec(b: NatsBindingV, now: u64) -> NatsBindingV {
    match b.state {
        ConnStateV::InfoReceived(s) => {
            let due = match s.keep_alive.last_ping_sent_at {
                Some(t) => now >= t + b.timeouts.ping_interval,
                None => true,
            };
            if due {
                NatsBindingV {
                    state: ConnStateV::InfoReceived(
                        InfoReceivedV {
                            outbox: s.outbox.push(ClientCommandV::Ping),
                            keep_alive: KeepAliveState {
                                last_ping_sent_at: Some(now),
                                ..s.keep_alive
                            },
                            ..s
                        },
                    ),
                    timeouts: b.timeouts,
                }
            } else {
                b
            }
        },
        _ => b,
    }
}

pub open spec fn poll_send_pong_spec(b: NatsBindingV) -> Option<u64> {
    match b.state {
        ConnStateV::InfoReceived(s) => match s.keep_alive.last_ping_received_at {
            Some(t) => Some(sat_add(t, b.timeouts.pong_delay)),
            None => None,
        },
        _ => None,
    }
}

/// What firing the send-pong timer does: if a server `PING` is pending and
/// its answer delay elapsed, a `PONG` joins the outbox and the pending
/// `PING` is cleared.
pub open spec fn handle_send_pong_spec(b: NatsBindingV, now: u64) -> NatsBindingV {
    match b.state {
        ConnStateV::InfoReceived(s) => {
            if s.keep_alive.last_ping_received_at matches Some(t) && now >= t
                + b.timeouts.pong_delay {
                NatsBindingV {
                    state: ConnStateV::InfoReceived(
                        InfoReceivedV {
                            outbox: s.outbox.push(ClientCommandV::Pong),
                            keep_alive: KeepAliveState {
                                last_ping_received_at: None,
                                ..s.keep_alive
                            },
                            ..s
                        },
                    ),
                    timeouts: b.timeouts,
                }
            } else {
                b
            }
        },
        _ => b,
    }
}

pub open spec fn poll_keep_alive_spec(b: NatsBindingV) -> Option<u64> {
    match b.state {
        ConnStateV::InfoReceived(s) => match s.keep_alive.last_pong_received_at {
            Some(t) => Some(sat_add(t, b.timeouts.keep_alive)),
            None => None,
        },
        _ => None,
    }
}

/// What firing the keep-alive timer does: if the server has been silent
/// past the budget since its last `PONG`, the connection is lost.
pub open spec fn handle_keep_alive_spec(b: NatsBindingV, now: u64) -> NatsBindingV {
    match b.state {
        ConnStateV::InfoReceived(s) => {
            if s.keep_alive.last_pong_received_at matches Some(t) && now >= t
                + b.timeouts.keep_alive {
                NatsBindingV { state: ConnStateV::ConnectionLost, timeouts: b.timeouts }
            } else {
                b
            }
        },
        _ => b,
    }
}

impl NatsBinding {
    /// A fresh machine, awaiting the server's `INFO`, with nothing
    /// buffered.
    pub fn new(timeouts: Timeouts) -> (r: NatsBinding)
        ensures
            r@.state matches ConnStateV::AwaitingInfo(p) && p.len() == 0,
            r@.timeouts == timeouts,
    {
        let r = NatsBinding {
            conn_state: ConnState::AwaitingInfo(AwaitingInfo { preliminary: Vec::new() }),
            timeouts,
        };
        proof {
            assert(r@.state matches ConnStateV::AwaitingInfo(p) && p =~= Seq::<(
                ConnectionCommandV,
                u64,
            )>::empty());
        }
        r
    }

    /// Pop the next outbound command, oldest first; none unless the
    /// session is open.
    pub fn poll_transmit(&mut self) -> (r: Option<ClientCommand>)
        ensures
            match old(self)@.state {
                ConnStateV::InfoReceived(s) => if s.outbox.len() > 0 {
                    r matches Some(c) && c@ == s.outbox[0] && final(self)@.state
                        == ConnStateV::InfoReceived(
                        InfoReceivedV { outbox: s.outbox.skip(1), ..s },
                    ) && final(self)@.timeouts == old(self)@.timeouts
                } else {
                    r is None && final(self)@ == old(self)@
                },
                _ => r is None && final(self)@ == old(self)@,
            },
    {
        match &mut self.conn_state {
            ConnState::InfoReceived(s) => {
                let ghost pre = s@;
                let r = s.buffered_transmits.pop_front();
                proof {
                    if pre.outbox.len() > 0 {
                        assert(s@.outbox =~= pre.outbox.skip(1));
                        assert(s@ == InfoReceivedV { outbox: pre.outbox.skip(1), ..pre });
                    } else {
                        assert(s@.outbox =~= pre.outbox);
                        assert(s@ == pre);
                    }
                }
                r
            },
            _ => None,
        }
    }

    /// Feed one application request; a subscription handled in an open
    /// session is answered immediately, one buffered before the handshake
    /// is answered when `INFO` arrives.
    pub fn handle_client_input(&mut self, command: ConnectionCommand, now: u64) -> (r:
        Option<SubscribeResponse>)
        ensures
            final(self)@ == client_step_spec(old(self)@, command@, now).0,
            opt_resp_view(r) == client_step_spec(old(self)@, command@, now).1,
    {
        let ghost pre = self@;
        let ghost cv = command@;
        match &mut self.conn_state {
            ConnState::AwaitingInfo(a) => {
                a.preliminary.push((command, now));
                proof {
                    let prelist = pre.state->AwaitingInfo_0;
                    assert(self@.state matches ConnStateV::AwaitingInfo(q) && q
                        =~= prelist.push((cv, now)));
                }
                None
            },
            ConnState::InfoReceived(s) => step_client_open(s, command),
            _ => None,
        }
    }

    /// Feed one parsed server frame.  The first frame must be `INFO`: it
    /// opens the session, enqueues the one `CONNECT`, replays the buffered
    /// requests in arrival order and answers their subscriptions.  In an
    /// open session, messages for a registered sid are delivered and the
    /// heartbeat stamps advance; anything after the end is dropped.
    pub fn handle_server_input(&mut self, command: ServerCommand, now: u64) -> (r: Vec<
        Effect,
    >)
        ensures
            final(self)@ == server_step_spec(old(self)@, command@, now).0,
            effects_view(r@) == server_step_spec(old(self)@, command@, now).1,
    {
        let ghost pre = self@;
        let ghost cmdv = command@;
        let mut taken = ConnState::NotInfoReceived;
        core::mem::swap(&mut taken, &mut self.conn_state);
        match taken {
            ConnState::AwaitingInfo(a) => {
                match command {
                    ServerCommand::Info(_) => {
                        let mut outbox: VecDeque<ClientCommand> = VecDeque::new();
                        outbox.push_back(
                            ClientCommand::Connect(
                                Connect {
                                    verbose: true,
                                    pedantic: true,
                                    tls_required: false,
                                    auth_token: None,
                                    user: None,
                                    pass: None,
                                    name: None,
                                    lang: "Rust".to_owned(),
                                    version: "1.0".to_owned(),
                                    protocol: None,
                                    echo: None,
                                    sig: None,
                                    jwt: None,
                                    no_responders: None,
                                    headers: Some(true),
                                    nkey: None,
                                },
                            ),
                        );
                        let mut session = InfoReceived {
                            buffered_transmits: outbox,
                            keep_alive: KeepAliveState {
                                last_ping_sent_at: None,
                                last_ping_received_at: None,
                                last_pong_received_at: None,
                            },
                            sid_counter: 1,
                            subscribers: Vec::new(),
                        };
                        proof {
                            assert(session@.outbox =~= seq![connect_command()]);
                            assert(session@.subscribers =~= Seq::<u64>::empty());
                            assert(session@ == fresh_session());
                        }
                        let ghost prelist = pre.state->AwaitingInfo_0;
                        let mut effects: Vec<Effect> = Vec::new();
                        let ghost mut acc: Seq<SubscribeResponseV> = Seq::empty();
                        let mut pre_cmds = a.preliminary;
                        let ghost mut rem = prelist;
                        proof {
                            assert(rem =~= Seq::new(
                                pre_cmds@.len(),
                                |k: int| (pre_cmds@[k].0@, pre_cmds@[k].1),
                            ));
                        }
                        while pre_cmds.len() > 0
                            invariant
                                rem == Seq::new(
                                    pre_cmds@.len(),
                                    |k: int| (pre_cmds@[k].0@, pre_cmds@[k].1),
                                ),
                                replay(fresh_session(), prelist, Seq::empty()) == replay(
                                    session@,
                                    rem,
                                    acc,
                                ),
                                effects_view(effects@) =~= Seq::new(
                                    acc.len(),
                                    |k: int| EffectV::Opened(acc[k]),
                                ),
                            decreases pre_cmds@.len(),
                        {
                            let ghost rem0 = rem;
                            let ghost cmds0 = pre_cmds@;
                            let (cmd, _when) = pre_cmds.remove(0);
                            proof {
                                assert(cmd@ == rem0[0].0);
                                rem = rem0.skip(1);
                                assert(rem =~= Seq::new(
                                    pre_cmds@.len(),
                                    |k: int| (pre_cmds@[k].0@, pre_cmds@[k].1),
                                )) by {
                                    assert(pre_cmds@ =~= cmds0.skip(1));
                                    assert forall|k: int| 0 <= k < pre_cmds@.len()
                                        implies rem[k] == (pre_cmds@[k].0@, pre_cmds@[k].1) by {
                                        assert(rem[k] == rem0[k + 1]);
                                        assert(pre_cmds@[k] == cmds0[k + 1]);
                                    }
                                }
                            }
                            let resp = step_client_open(&mut session, cmd);
                            match resp {
                                Some(rsp) => {
                                    let ghost rv = rsp@;
                                    let ghost e0 = effects@;
                                    let ghost acc0 = acc;
                                    effects.push(Effect::Opened(rsp));
                                    proof {
                                        assert(effects_view(e0) == Seq::new(
                                            acc0.len(),
                                            |k: int| EffectV::Opened(acc0[k]),
                                        ));
                                        assert(effects_view(e0).len() == e0.len());
                                        assert(Seq::new(
                                            acc0.len(),
                                            |k: int| EffectV::Opened(acc0[k]),
                                        ).len() == acc0.len());
                                        assert(acc0.len() == e0.len());
                                        acc = acc.push(rv);
                                        assert(acc.len() == effects@.len());
                                        assert(effects@.last()@ == EffectV::Opened(rv));
                                        assert(effects_view(effects@) =~= Seq::new(
                                            acc.len(),
                                            |k: int| EffectV::Opened(acc[k]),
                                        )) by {
                                            assert forall|k: int|
                                                0 <= k < effects@.len() implies effects@[k]@
                                                == EffectV::Opened(acc[k]) by {
                                                if k < e0.len() {
                                                    assert(effects@[k] == e0[k]);
                                                    assert(effects_view(e0)[k] == e0[k]@);
                                                    assert(effects_view(e0)[k]
                                                        == EffectV::Opened(acc0[k]));
                                                } else {
                                                    assert(effects@[k] == effects@.last());
                                                }
                                            }
                                        }
                                    }
                                },
                                None => {},
                            }
                        }
                        proof {
                            assert(rem =~= Seq::<(ConnectionCommandV, u64)>::empty());
                            assert(replay(fresh_session(), prelist, Seq::empty()) == (
                                session@,
                                acc,
                            ));
                        }
                        self.conn_state = ConnState::InfoReceived(session);
                        proof {
                            let stepped = server_step_spec(pre, cmdv, now);
                            assert(self@ == stepped.0);
                            assert(effects_view(effects@) =~= stepped.1);
                        }
                        effects
                    },
                    _ => {
                        // `taken` already left `NotInfoReceived` in place.
                        Vec::new()
                    },
                }
            },
            ConnState::InfoReceived(mut s) => {
                let r = match command {
                    ServerCommand::Info(_) => Vec::new(),
                    ServerCommand::Msg(m) => {
                        if find_sid(&s.subscribers, m.sid.as_str()) {
                            let mut v: Vec<Effect> = Vec::new();
                            v.push(Effect::Deliver(Message::from_msg(m)));
                            v
                        } else {
                            Vec::new()
                        }
                    },
                    ServerCommand::HMsg(m) => {
                        if find_sid(&s.subscribers, m.sid.as_str()) {
                            let mut v: Vec<Effect> = Vec::new();
                            v.push(Effect::Deliver(Message::from_hmsg(m)));
                            v
                        } else {
                            Vec::new()
                        }
                    },
                    ServerCommand::Ping => {
                        s.keep_alive.last_ping_received_at = Some(now);
                        Vec::new()
                    },
                    ServerCommand::Pong => {
                        s.keep_alive.last_pong_received_at = Some(now);
                        Vec::new()
                    },
                    ServerCommand::Okay => Vec::new(),
                    ServerCommand::Error(e) => {
                        let mut v: Vec<Effect> = Vec::new();
                        v.push(Effect::ServerFault(e));
                        v
                    },
                };
                self.conn_state = ConnState::InfoReceived(s);
                proof {
                    let stepped = server_step_spec(pre, cmdv, now);
                    assert(self@ == stepped.0);
                    assert(effects_view(r@) =~= stepped.1);
                }
                r
            },
            ConnState::NotInfoReceived => {
                Vec::new()
            },
            ConnState::ConnectionLost => {
                self.conn_state = ConnState::ConnectionLost;
                Vec::new()
            },
        }
    }

    /// When the send-ping timer should next fire: immediately if no `PING`
    /// was ever sent, else one cadence after the last one.
    pub fn poll_send_ping_timeout(&self, now: u64) -> (r: Option<u64>)
        ensures
            r == poll_send_ping_spec(self@, now),
    {
        match &self.conn_state {
            ConnState::InfoReceived(s) => Some(
                match s.keep_alive.last_ping_sent_at {
                    Some(t) => match t.checked_add(self.timeouts.ping_interval) {
                        Some(v) => v,
                        None => u64::MAX,
                    },
                    None => now,
                },
            ),
            _ => None,
        }
    }

    /// Fire the send-ping timer.
    pub fn handle_send_ping_timeout(&mut self, now: u64)
        ensures
            final(self)@ == handle_send_ping_spec(old(self)@, now),
    {
        match &mut self.conn_state {
            ConnState::InfoReceived(s) => {
                let due = match s.keep_alive.last_ping_sent_at {
                    Some(t) => now >= t && now - t >= self.timeouts.ping_interval,
                    None => true,
                };
                if due {
                    let ghost mid = s@;
                    s.buffered_transmits.push_back(ClientCommand::Ping);
                    s.keep_alive.last_ping_sent_at = Some(now);
                    proof {
                        assert(s@.outbox =~= mid.outbox.push(ClientCommandV::Ping));
                    }
                }
            },
            _ => {},
        }
    }

    /// When the send-pong timer should next fire: only while a server
    /// `PING` awaits its answer.
    pub fn poll_send_pong_timeout(&self) -> (r: Option<u64>)
        ensures
            r == poll_send_pong_spec(self@),
    {
        match &self.conn_state {
            ConnState::InfoReceived(s) => match s.keep_alive.last_ping_received_at {
                Some(t) => Some(
                    match t.checked_add(self.timeouts.pong_delay) {
                        Some(v) => v,
                        None => u64::MAX,
                    },
                ),
                None => None,
            },
            _ => None,
        }
    }

    /// Fire the send-pong timer.
    pub fn handle_send_pong_timeout(&mut self, now: u64)
        ensures
            final(self)@ == handle_send_pong_spec(old(self)@, now),
    {
        match &mut self.conn_state {
            ConnState::InfoReceived(s) => {
                let due = match s.keep_alive.last_ping_received_at {
                    Some(t) => now >= t && now - t >= self.timeouts.pong_delay,
                    None => false,
                };
                if due {
                    let ghost mid = s@;
                    s.buffered_transmits.push_back(ClientCommand::Pong);
                    s.keep_alive.last_ping_received_at = None;
                    proof {
                        assert(s@.outbox =~= mid.outbox.push(ClientCommandV::Pong));
                    }
                }
            },
            _ => {},
        }
    }

    /// When the keep-alive timer should next fire: only once a `PONG` has
    /// ever been received.
    pub fn poll_keep_alive_timeout(&self) -> (r: Option<u64>)
        ensures
            r == poll_keep_alive_spec(self@),
    {
        match &self.conn_state {
            ConnState::InfoReceived(s) => match s.keep_alive.last_pong_received_at {
                Some(t) => Some(
                    match t.checked_add(self.timeouts.keep_alive) {
                        Some(v) => v,
                        None => u64::MAX,
                    },
                ),
                None => None,
            },
            _ => None,
        }
    }

    /// Fire the keep-alive timer: past the budget, the connection is lost
    /// and the machine stops emitting.
    pub fn handle_keep_alive_timeout(&mut self, now: u64)
        ensures
            final(self)@ == handle_keep_alive_spec(old(self)@, now),
    {
        let lost = match &self.conn_state {
            ConnState::InfoReceived(s) => match s.keep_alive.last_pong_received_at {
                Some(t) => now >= t && now - t >= self.timeouts.keep_alive,
                None => false,
            },
            _ => false,
        };
        if lost {
            self.conn_state = ConnState::ConnectionLost;
        }
    }
}

} // verus!
