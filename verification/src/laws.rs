//! Laws of the connection machine, stated over runs: a run folds a
//! sequence of driver events (server frames, application requests, timer
//! firings and transmit polls) through the machine's transition functions,
//! collecting everything handed to the wire.

use vstd::prelude::*;

use crate::binding::{
    client_step_open, client_step_spec, connect_command, fresh_session,
    handle_keep_alive_spec, handle_send_ping_spec, handle_send_pong_spec, replay,
    server_step_spec, ConnStateV, ConnectionCommandV, InfoReceivedV, NatsBindingV,
    SubscriptionOptionsV,
};
use crate::commands::{ClientCommandV, ServerCommandV, SubscribeV, UnsubscribeV};
use crate::num::dec_chars;

verus! {

/// One thing the driver can do to the machine.
pub enum MachineEvent {
    FromServer(ServerCommandV, u64),
    FromClient(ConnectionCommandV, u64),
    SendPingTimeout(u64),
    SendPongTimeout(u64),
    KeepAliveTimeout(u64),
    Transmit,
}

/// Apply one driver event: the next machine state, and the commands this
/// event put on the wire (one for a successful transmit poll, else none).
pub open spec fn apply_event(b: NatsBindingV, e: MachineEvent) -> (
    NatsBindingV,
    Seq<ClientCommandV>,
) {
    match e {
        MachineEvent::FromServer(cmd, now) => (
            server_step_spec(b, cmd, now).0,
            Seq::empty(),
        ),
        MachineEvent::FromClient(cmd, now) => (
            client_step_spec(b, cmd, now).0,
            Seq::empty(),
        ),
        MachineEvent::SendPingTimeout(now) => (
            handle_send_ping_spec(b, now),
            Seq::empty(),
        ),
        MachineEvent::SendPongTimeout(now) => (
            handle_send_pong_spec(b, now),
            Seq::empty(),
        ),
        MachineEvent::KeepAliveTimeout(now) => (
            handle_keep_alive_spec(b, now),
            Seq::empty(),
        ),
        MachineEvent::Transmit => match b.state {
            ConnStateV::InfoReceived(s) => if s.outbox.len() > 0 {
                (
                    NatsBindingV {
                        state: ConnStateV::InfoReceived(
                            InfoReceivedV { outbox: s.outbox.skip(1), ..s },
                        ),
                        timeouts: b.timeouts,
                    },
                    seq![s.outbox[0]],
                )
            } else {
                (b, Seq::empty())
            },
            _ => (b, Seq::empty()),
        },
    }
}

/// Fold a whole event sequence, collecting the wire traffic in order.
pub open spec fn run(b: NatsBindingV, events: Seq<MachineEvent>) -> (
    NatsBindingV,
    Seq<ClientCommandV>,
)
    decreases events.len(),
{
    if events.len() == 0 {
        (b, Seq::empty())
    } else {
        let stepped = apply_event(b, events[0]);
        let rest = run(stepped.0, events.skip(1));
        (rest.0, stepped.1 + rest.1)
    }
}

/// The event carries the server's `INFO` frame.
pub open spec fn is_info_event(e: MachineEvent) -> bool {
    e matches MachineEvent::FromServer(ServerCommandV::Info(_), _)
}

/// Before `INFO` has been fed, nothing is ever transmitted: a machine
/// still awaiting the handshake (or dead from a protocol violation) stays
/// that way under any events that do not include `INFO`, and every
/// transmit poll comes back empty.
pub proof fn law_silent_until_info(b: NatsBindingV, events: Seq<MachineEvent>)
    requires
        b.state is AwaitingInfo || b.state is NotInfoReceived,
        forall|i: int| 0 <= i < events.len() ==> !is_info_event(events[i]),
    ensures
        run(b, events).1 =~= Seq::<ClientCommandV>::empty(),
        run(b, events).0.state is AwaitingInfo || run(b, events).0.state
            is NotInfoReceived,
    decreases events.len(),
{
    if events.len() > 0 {
        let stepped = apply_event(b, events[0]);
        assert(!is_info_event(events[0]));
        assert(stepped.0.state is AwaitingInfo || stepped.0.state is NotInfoReceived);
        assert(stepped.1 =~= Seq::<ClientCommandV>::empty());
        assert(forall|i: int|
            0 <= i < events.skip(1).len() ==> events.skip(1)[i] == events[i + 1]);
        law_silent_until_info(stepped.0, events.skip(1));
        assert(run(b, events).1 =~= stepped.1 + run(stepped.0, events.skip(1)).1);
    }
}

/// Once the connection is lost, it stays lost and nothing further is ever
/// transmitted.
pub proof fn law_lost_stays_silent(b: NatsBindingV, events: Seq<MachineEvent>)
    requires
        b.state is ConnectionLost,
    ensures
        run(b, events).1 =~= Seq::<ClientCommandV>::empty(),
        run(b, events).0.state is ConnectionLost,
    decreases events.len(),
{
    if events.len() > 0 {
        let stepped = apply_event(b, events[0]);
        assert(stepped.0.state is ConnectionLost);
        assert(stepped.1 =~= Seq::<ClientCommandV>::empty());
        law_lost_stays_silent(stepped.0, events.skip(1));
        assert(run(b, events).1 =~= stepped.1 + run(stepped.0, events.skip(1)).1);
    }
}

/// Firing the keep-alive timer when no `PONG` has arrived for the
/// configured budget moves the machine to the lost state, after which no
/// further outbound commands are ever produced.
pub proof fn law_keep_alive_expiry(
    b: NatsBindingV,
    s: InfoReceivedV,
    t: u64,
    now: u64,
    later: Seq<MachineEvent>,
)
    requires
        b.state == ConnStateV::InfoReceived(s),
        s.keep_alive.last_pong_received_at == Some(t),
        now >= t + b.timeouts.keep_alive,
    ensures
        handle_keep_alive_spec(b, now).state is ConnectionLost,
        run(handle_keep_alive_spec(b, now), later).1 =~= Seq::<ClientCommandV>::empty(),
{
    law_lost_stays_silent(handle_keep_alive_spec(b, now), later);
}

/// The wire commands one application request contributes.
pub open spec fn commands_of_request(c: ConnectionCommandV, sid: u64) -> Seq<
    ClientCommandV,
> {
    match c {
        ConnectionCommandV::Subscribe { subject, options } => {
            let sidstr = dec_chars(sid as nat);
            seq![
                ClientCommandV::Subscribe(
                    SubscribeV { subject, queue_group: options.queue_group, sid: sidstr },
                ),
            ] + (match options.max_msgs {
                Some(m) => seq![
                    ClientCommandV::Unsubscribe(
                        UnsubscribeV { sid: sidstr, max_msgs: Some(m) },
                    ),
                ],
                None => Seq::<ClientCommandV>::empty(),
            })
        },
        ConnectionCommandV::Unsubscribe { sid, max_msgs } => seq![
            ClientCommandV::Unsubscribe(UnsubscribeV { sid, max_msgs }),
        ],
        ConnectionCommandV::Publish { subject, payload } => seq![
            ClientCommandV::Publish(
                crate::commands::PublishV {
                    subject,
                    reply_to: None,
                    bytes: payload.len() as usize,
                    payload,
                },
            ),
        ],
    }
}

/// How one request moves the sid allocator.
pub open spec fn next_counter(c: ConnectionCommandV, sid: u64) -> u64 {
    match c {
        ConnectionCommandV::Subscribe { .. } => if sid < u64::MAX {
            (sid + 1) as u64
        } else {
            sid
        },
        _ => sid,
    }
}

/// The wire commands a whole request backlog contributes, oldest first,
/// with the sid allocator threaded through.
pub open spec fn commands_of_backlog(
    pre: Seq<(ConnectionCommandV, u64)>,
    sid: u64,
) -> Seq<ClientCommandV>
    decreases pre.len(),
{
    if pre.len() == 0 {
        Seq::empty()
    } else {
        commands_of_request(pre[0].0, sid) + commands_of_backlog(
            pre.skip(1),
            next_counter(pre[0].0, sid),
        )
    }
}

/// One open-session request appends exactly its commands to the outbox and
/// moves the allocator as `next_counter` says.
pub proof fn lemma_client_step_outbox(s: InfoReceivedV, c: ConnectionCommandV)
    ensures
        client_step_open(s, c).0.outbox =~= s.outbox + commands_of_request(
            c,
            s.sid_counter,
        ),
        client_step_open(s, c).0.sid_counter == next_counter(c, s.sid_counter),
{
}

/// Replaying a backlog appends exactly the backlog's commands, in arrival
/// order.
pub proof fn lemma_replay_outbox(
    s: InfoReceivedV,
    pre: Seq<(ConnectionCommandV, u64)>,
    acc: Seq<crate::binding::SubscribeResponseV>,
)
    ensures
        replay(s, pre, acc).0.outbox =~= s.outbox + commands_of_backlog(
            pre,
            s.sid_counter,
        ),
        replay(s, pre, acc).0.sid_counter == final_counter(pre, s.sid_counter),
    decreases pre.len(),
{
    if pre.len() == 0 {
        assert(commands_of_backlog(pre, s.sid_counter) =~= Seq::<ClientCommandV>::empty());
    } else {
        let stepped = client_step_open(s, pre[0].0);
        lemma_client_step_outbox(s, pre[0].0);
        let acc2 = match stepped.1 {
            Some(r) => acc.push(r),
            None => acc,
        };
        lemma_replay_outbox(stepped.0, pre.skip(1), acc2);
        assert(replay(s, pre, acc).0.outbox =~= (s.outbox + commands_of_request(
            pre[0].0,
            s.sid_counter,
        )) + commands_of_backlog(pre.skip(1), next_counter(pre[0].0, s.sid_counter)));
    }
}

/// When `INFO` arrives on a machine that buffered requests, the resulting
/// outbox is exactly `CONNECT` followed by the buffered requests' commands
/// in their original arrival order.
pub proof fn law_connect_then_backlog(
    b: NatsBindingV,
    pre: Seq<(ConnectionCommandV, u64)>,
    info: ServerCommandV,
    now: u64,
)
    requires
        b.state == ConnStateV::AwaitingInfo(pre),
        info is Info,
    ensures
        server_step_spec(b, info, now).0.state matches ConnStateV::InfoReceived(s)
            && s.outbox =~= seq![connect_command()] + commands_of_backlog(pre, 1),
{
    lemma_replay_outbox(fresh_session(), pre, Seq::empty());
    assert(fresh_session().outbox =~= seq![connect_command()]);
}

/// A subscription request with a delivery cap enqueues exactly one `SUB`
/// and exactly one `UNSUB` carrying that cap, in that order, both for the
/// sid the request was allocated.
pub proof fn law_subscribe_pairs_unsub(
    s: InfoReceivedV,
    subject: Seq<char>,
    options: SubscriptionOptionsV,
    n: usize,
)
    requires
        options.max_msgs == Some(n),
    ensures
        ({
            let stepped = client_step_open(
                s,
                ConnectionCommandV::Subscribe { subject, options },
            );
            let sidstr = dec_chars(s.sid_counter as nat);
            stepped.0.outbox =~= s.outbox + seq![
                ClientCommandV::Subscribe(
                    SubscribeV { subject, queue_group: options.queue_group, sid: sidstr },
                ),
                ClientCommandV::Unsubscribe(
                    UnsubscribeV { sid: sidstr, max_msgs: Some(n) },
                ),
            ] && (stepped.1 matches Some(r) && r.sid == sidstr && r.max_msgs == Some(n))
        }),
{
}

} // verus!
verus! {

/// Number of `CONNECT` commands in a list.
pub open spec fn connect_count(cmds: Seq<ClientCommandV>) -> int
    decreases cmds.len(),
{
    if cmds.len() == 0 {
        0
    } else {
        (if cmds[0] is Connect {
            1int
        } else {
            0int
        }) + connect_count(cmds.skip(1))
    }
}

proof fn lemma_connect_count_single(c: ClientCommandV)
    ensures
        connect_count(seq![c]) == if c is Connect { 1int } else { 0int },
{
    assert(seq![c].skip(1) =~= Seq::<ClientCommandV>::empty());
    assert(connect_count(Seq::<ClientCommandV>::empty()) == 0);
    assert(connect_count(seq![c].skip(1)) == 0);
}

proof fn lemma_connect_count_nonneg(cmds: Seq<ClientCommandV>)
    ensures
        connect_count(cmds) >= 0,
    decreases cmds.len(),
{
    if cmds.len() > 0 {
        lemma_connect_count_nonneg(cmds.skip(1));
    }
}

proof fn lemma_connect_count_concat(a: Seq<ClientCommandV>, b: Seq<ClientCommandV>)
    ensures
        connect_count(a + b) == connect_count(a) + connect_count(b),
    decreases a.len(),
{
    if a.len() == 0 {
        assert(a + b =~= b);
    } else {
        assert((a + b).skip(1) =~= a.skip(1) + b);
        assert((a + b)[0] == a[0]);
        lemma_connect_count_concat(a.skip(1), b);
    }
}

proof fn lemma_request_commands_no_connect(c: ConnectionCommandV, sid: u64)
    ensures
        connect_count(commands_of_request(c, sid)) == 0,
{
    let cmds = commands_of_request(c, sid);
    match c {
        ConnectionCommandV::Subscribe { subject, options } => {
            let sidstr = dec_chars(sid as nat);
            let sub = ClientCommandV::Subscribe(
                SubscribeV { subject, queue_group: options.queue_group, sid: sidstr },
            );
            lemma_connect_count_single(sub);
            match options.max_msgs {
                Some(m) => {
                    let uns = ClientCommandV::Unsubscribe(
                        UnsubscribeV { sid: sidstr, max_msgs: Some(m) },
                    );
                    lemma_connect_count_single(uns);
                    lemma_connect_count_concat(seq![sub], seq![uns]);
                },
                None => {
                    assert(cmds =~= seq![sub]);
                },
            }
        },
        ConnectionCommandV::Unsubscribe { sid: s2, max_msgs } => {
            lemma_connect_count_single(cmds[0]);
            assert(cmds =~= seq![cmds[0]]);
        },
        ConnectionCommandV::Publish { subject, payload } => {
            lemma_connect_count_single(cmds[0]);
            assert(cmds =~= seq![cmds[0]]);
        },
    }
}

proof fn lemma_backlog_no_connect(pre: Seq<(ConnectionCommandV, u64)>, sid: u64)
    ensures
        connect_count(commands_of_backlog(pre, sid)) == 0,
    decreases pre.len(),
{
    if pre.len() > 0 {
        lemma_request_commands_no_connect(pre[0].0, sid);
        lemma_backlog_no_connect(pre.skip(1), next_counter(pre[0].0, sid));
        lemma_connect_count_concat(
            commands_of_request(pre[0].0, sid),
            commands_of_backlog(pre.skip(1), next_counter(pre[0].0, sid)),
        );
    }
}

/// The budget of `CONNECT`s: none before the handshake, one split between
/// the wire and the outbox while the session is open, and at most the one
/// already on the wire after the end.
pub open spec fn connect_budget(b: NatsBindingV, sent: Seq<ClientCommandV>) -> bool {
    match b.state {
        ConnStateV::AwaitingInfo(_) => sent.len() == 0,
        ConnStateV::NotInfoReceived => sent.len() == 0,
        ConnStateV::InfoReceived(s) => connect_count(sent) + connect_count(s.outbox) == 1,
        ConnStateV::ConnectionLost => connect_count(sent) <= 1,
    }
}

proof fn lemma_connect_budget_step(
    b: NatsBindingV,
    sent: Seq<ClientCommandV>,
    e: MachineEvent,
)
    requires
        connect_budget(b, sent),
    ensures
        connect_budget(apply_event(b, e).0, sent + apply_event(b, e).1),
{
    let stepped = apply_event(b, e);
    match e {
        MachineEvent::FromServer(cmd, now) => {
            assert(sent + stepped.1 =~= sent);
            match b.state {
                ConnStateV::AwaitingInfo(pre) => {
                    if cmd is Info {
                        lemma_replay_outbox(fresh_session(), pre, Seq::empty());
                        lemma_backlog_no_connect(pre, 1);
                        let outbox2 = replay(fresh_session(), pre, Seq::empty()).0.outbox;
                        assert(outbox2 =~= seq![connect_command()] + commands_of_backlog(
                            pre,
                            1,
                        ));
                        lemma_connect_count_concat(
                            seq![connect_command()],
                            commands_of_backlog(pre, 1),
                        );
                        lemma_connect_count_single(connect_command());
                        assert(connect_count(sent) == 0) by {
                            assert(sent =~= Seq::<ClientCommandV>::empty());
                        }
                    }
                },
                _ => {},
            }
        },
        MachineEvent::FromClient(cmd, now) => {
            assert(sent + stepped.1 =~= sent);
            match b.state {
                ConnStateV::InfoReceived(s) => {
                    lemma_client_step_outbox(s, cmd);
                    lemma_request_commands_no_connect(cmd, s.sid_counter);
                    lemma_connect_count_concat(
                        s.outbox,
                        commands_of_request(cmd, s.sid_counter),
                    );
                },
                _ => {},
            }
        },
        MachineEvent::SendPingTimeout(now) => {
            assert(sent + stepped.1 =~= sent);
            match b.state {
                ConnStateV::InfoReceived(s) => {
                    let pushed = s.outbox.push(ClientCommandV::Ping);
                    assert(pushed =~= s.outbox + seq![ClientCommandV::Ping]);
                    lemma_connect_count_concat(s.outbox, seq![ClientCommandV::Ping]);
                    lemma_connect_count_single(ClientCommandV::Ping);
                },
                _ => {},
            }
        },
        MachineEvent::SendPongTimeout(now) => {
            assert(sent + stepped.1 =~= sent);
            match b.state {
                ConnStateV::InfoReceived(s) => {
                    let pushed = s.outbox.push(ClientCommandV::Pong);
                    assert(pushed =~= s.outbox + seq![ClientCommandV::Pong]);
                    lemma_connect_count_concat(s.outbox, seq![ClientCommandV::Pong]);
                    lemma_connect_count_single(ClientCommandV::Pong);
                },
                _ => {},
            }
        },
        MachineEvent::KeepAliveTimeout(now) => {
            assert(sent + stepped.1 =~= sent);
            match b.state {
                ConnStateV::InfoReceived(s) => {
                    lemma_connect_count_nonneg(s.outbox);
                    lemma_connect_count_nonneg(sent);
                },
                _ => {},
            }
        },
        MachineEvent::Transmit => {
            match b.state {
                ConnStateV::InfoReceived(s) => {
                    if s.outbox.len() > 0 {
                        assert(s.outbox =~= seq![s.outbox[0]] + s.outbox.skip(1));
                        lemma_connect_count_concat(seq![s.outbox[0]], s.outbox.skip(1));
                        lemma_connect_count_concat(sent, seq![s.outbox[0]]);
                        assert(sent + stepped.1 =~= sent + seq![s.outbox[0]]);
                    } else {
                        assert(sent + stepped.1 =~= sent);
                    }
                },
                _ => {
                    assert(sent + stepped.1 =~= sent);
                },
            }
        },
    }
}

proof fn lemma_connect_budget_run(
    b: NatsBindingV,
    sent: Seq<ClientCommandV>,
    events: Seq<MachineEvent>,
)
    requires
        connect_budget(b, sent),
    ensures
        connect_budget(run(b, events).0, sent + run(b, events).1),
    decreases events.len(),
{
    if events.len() == 0 {
        assert(sent + run(b, events).1 =~= sent);
    } else {
        let stepped = apply_event(b, events[0]);
        lemma_connect_budget_step(b, sent, events[0]);
        lemma_connect_budget_run(stepped.0, sent + stepped.1, events.skip(1));
        assert(sent + run(b, events).1 =~= (sent + stepped.1) + run(
            stepped.0,
            events.skip(1),
        ).1);
    }
}

/// At most one `CONNECT` is ever put on the wire, and while the session is
/// open the one `CONNECT` is either already on the wire or still in the
/// outbox — never both, never neither.
pub proof fn law_one_connect(b0: NatsBindingV, events: Seq<MachineEvent>)
    requires
        b0.state matches ConnStateV::AwaitingInfo(pre) && pre.len() == 0,
    ensures
        connect_count(run(b0, events).1) <= 1,
        run(b0, events).0.state matches ConnStateV::InfoReceived(s) ==> connect_count(
            run(b0, events).1,
        ) + connect_count(s.outbox) == 1,
{
    lemma_connect_budget_run(b0, Seq::empty(), events);
    assert(Seq::<ClientCommandV>::empty() + run(b0, events).1 =~= run(b0, events).1);
    match run(b0, events).0.state {
        ConnStateV::InfoReceived(s) => {
            lemma_connect_count_nonneg(s.outbox);
            lemma_connect_count_nonneg(run(b0, events).1);
        },
        ConnStateV::ConnectionLost => {},
        ConnStateV::AwaitingInfo(_) => {
            assert(connect_count(run(b0, events).1) == 0) by {
                assert(run(b0, events).1 =~= Seq::<ClientCommandV>::empty());
            }
        },
        ConnStateV::NotInfoReceived => {
            assert(connect_count(run(b0, events).1) == 0) by {
                assert(run(b0, events).1 =~= Seq::<ClientCommandV>::empty());
            }
        },
    }
}

} // verus!
verus! {

/// A decimal print parses back to the number itself.
pub proof fn lemma_dec_value_digits(n: nat)
    ensures
        crate::num::dec_value(crate::num::dec_digits(n)) == n,
    decreases n,
{
    let ds = crate::num::dec_digits(n);
    if n < 10 {
        assert(ds =~= seq![(48 + n) as u8]);
        assert(ds.drop_last() =~= Seq::<u8>::empty());
        assert(crate::num::dec_value(Seq::<u8>::empty()) == 0);
    } else {
        lemma_dec_value_digits(n / 10);
        let head = crate::num::dec_digits(n / 10);
        assert(ds == head.push((48 + n % 10) as u8));
        assert(ds.drop_last() =~= head);
        assert(ds.last() == (48 + n % 10) as u8);
        assert(crate::num::dec_value(ds) == crate::num::dec_value(head) * 10 + n % 10);
    }
}

/// Numeric reading of a sid string.
pub open spec fn sid_num(s: Seq<char>) -> int {
    crate::num::dec_value(vstd::utf8::encode_utf8(s))
}

/// A generated sid string reads back as its counter.
pub proof fn lemma_sid_num_of_counter(k: u64)
    ensures
        sid_num(dec_chars(k as nat)) == k,
{
    crate::binding::lemma_dec_chars_bytes(k as nat);
    lemma_dec_value_digits(k as nat);
}

/// The numeric sids of the `SUB` commands in a list, in order.
pub open spec fn sub_nums(cmds: Seq<ClientCommandV>) -> Seq<int>
    decreases cmds.len(),
{
    if cmds.len() == 0 {
        Seq::empty()
    } else {
        (match cmds[0] {
            ClientCommandV::Subscribe(s) => seq![sid_num(s.sid)],
            _ => Seq::<int>::empty(),
        }) + sub_nums(cmds.skip(1))
    }
}

proof fn lemma_sub_nums_concat(a: Seq<ClientCommandV>, b: Seq<ClientCommandV>)
    ensures
        sub_nums(a + b) =~= sub_nums(a) + sub_nums(b),
    decreases a.len(),
{
    if a.len() == 0 {
        assert(a + b =~= b);
        assert(sub_nums(a) =~= Seq::<int>::empty());
    } else {
        assert((a + b)[0] == a[0]);
        assert((a + b).skip(1) =~= a.skip(1) + b);
        lemma_sub_nums_concat(a.skip(1), b);
    }
}

proof fn lemma_sub_nums_single(c: ClientCommandV)
    ensures
        sub_nums(seq![c]) =~= (match c {
            ClientCommandV::Subscribe(s) => seq![sid_num(s.sid)],
            _ => Seq::<int>::empty(),
        }),
{
    assert(seq![c].skip(1) =~= Seq::<ClientCommandV>::empty());
    assert(sub_nums(Seq::<ClientCommandV>::empty()) =~= Seq::<int>::empty());
}

/// Every element is smaller than every later one.
pub open spec fn strictly_inc(l: Seq<int>) -> bool {
    forall|i: int, j: int| 0 <= i < j < l.len() ==> l[i] < l[j]
}

pub open spec fn all_below(l: Seq<int>, b: int) -> bool {
    forall|i: int| 0 <= i < l.len() ==> l[i] < b
}

pub open spec fn all_at_least(l: Seq<int>, b: int) -> bool {
    forall|i: int| 0 <= i < l.len() ==> l[i] >= b
}

proof fn lemma_inc_prefix(a: Seq<int>, b: Seq<int>)
    requires
        strictly_inc(a + b),
    ensures
        strictly_inc(a),
{
    assert forall|i: int, j: int| 0 <= i < j < a.len() implies a[i] < a[j] by {
        assert((a + b)[i] == a[i]);
        assert((a + b)[j] == a[j]);
    }
}

/// Count of subscription requests in a backlog.
pub open spec fn subs_in(pre: Seq<(ConnectionCommandV, u64)>) -> int
    decreases pre.len(),
{
    if pre.len() == 0 {
        0
    } else {
        (if pre[0].0 is Subscribe {
            1int
        } else {
            0int
        }) + subs_in(pre.skip(1))
    }
}

proof fn lemma_subs_in_nonneg(pre: Seq<(ConnectionCommandV, u64)>)
    ensures
        subs_in(pre) >= 0,
    decreases pre.len(),
{
    if pre.len() > 0 {
        lemma_subs_in_nonneg(pre.skip(1));
    }
}

/// The sid allocator after a whole backlog.
pub open spec fn final_counter(pre: Seq<(ConnectionCommandV, u64)>, sid: u64) -> u64
    decreases pre.len(),
{
    if pre.len() == 0 {
        sid
    } else {
        final_counter(pre.skip(1), next_counter(pre[0].0, sid))
    }
}

/// As long as the allocator cannot saturate, a backlog's `SUB` commands
/// carry strictly increasing sids, all in the allocated window.
proof fn lemma_backlog_subs(pre: Seq<(ConnectionCommandV, u64)>, sid: u64)
    requires
        sid as int + subs_in(pre) <= u64::MAX as int,
    ensures
        final_counter(pre, sid) as int == sid as int + subs_in(pre),
        strictly_inc(sub_nums(commands_of_backlog(pre, sid))),
        all_below(sub_nums(commands_of_backlog(pre, sid)), final_counter(pre, sid) as int),
        all_at_least(sub_nums(commands_of_backlog(pre, sid)), sid as int),
    decreases pre.len(),
{
    lemma_subs_in_nonneg(pre);
    if pre.len() == 0 {
        assert(sub_nums(commands_of_backlog(pre, sid)) =~= Seq::<int>::empty());
    } else {
        lemma_subs_in_nonneg(pre.skip(1));
        let c0 = pre[0].0;
        let sid2 = next_counter(c0, sid);
        lemma_backlog_subs(pre.skip(1), sid2);
        let head = commands_of_request(c0, sid);
        let tail = commands_of_backlog(pre.skip(1), sid2);
        lemma_sub_nums_concat(head, tail);
        let head_nums = sub_nums(head);
        match c0 {
            ConnectionCommandV::Subscribe { subject, options } => {
                let sidstr = dec_chars(sid as nat);
                let sub = ClientCommandV::Subscribe(
                    SubscribeV { subject, queue_group: options.queue_group, sid: sidstr },
                );
                lemma_sid_num_of_counter(sid);
                match options.max_msgs {
                    Some(m) => {
                        let uns = ClientCommandV::Unsubscribe(
                            UnsubscribeV { sid: sidstr, max_msgs: Some(m) },
                        );
                        assert(head =~= seq![sub] + seq![uns]);
                        lemma_sub_nums_concat(seq![sub], seq![uns]);
                        lemma_sub_nums_single(sub);
                        lemma_sub_nums_single(uns);
                        assert(head_nums =~= seq![sid as int]);
                    },
                    None => {
                        assert(head =~= seq![sub]);
                        lemma_sub_nums_single(sub);
                        assert(head_nums =~= seq![sid as int]);
                    },
                }
                assert(sid < u64::MAX);
                assert(sid2 == sid + 1);
                assert forall|i: int, j: int|
                    0 <= i < j < (head_nums + sub_nums(tail)).len() implies (head_nums
                    + sub_nums(tail))[i] < (head_nums + sub_nums(tail))[j] by {
                    if i == 0 {
                        assert((head_nums + sub_nums(tail))[j] == sub_nums(tail)[j - 1]);
                        assert(sub_nums(tail)[j - 1] >= sid2);
                    }
                }
            },
            ConnectionCommandV::Unsubscribe { sid: s2, max_msgs } => {
                lemma_sub_nums_single(head[0]);
                assert(head =~= seq![head[0]]);
                assert(head_nums =~= Seq::<int>::empty());
                assert(head_nums + sub_nums(tail) =~= sub_nums(tail));
            },
            ConnectionCommandV::Publish { subject, payload } => {
                lemma_sub_nums_single(head[0]);
                assert(head =~= seq![head[0]]);
                assert(head_nums =~= Seq::<int>::empty());
                assert(head_nums + sub_nums(tail) =~= sub_nums(tail));
            },
        }
    }
}

} // verus!
verus! {

/// Allocations the machine may still make: the `CONNECT`-time replay of
/// the backlog, or the live counter.
pub open spec fn pending_allocs(b: NatsBindingV) -> int {
    match b.state {
        ConnStateV::AwaitingInfo(pre) => 1 + subs_in(pre),
        ConnStateV::InfoReceived(s) => s.sid_counter as int,
        _ => 0,
    }
}

/// Count of subscription requests among the events.
pub open spec fn subs_in_events(events: Seq<MachineEvent>) -> int
    decreases events.len(),
{
    if events.len() == 0 {
        0
    } else {
        (match events[0] {
            MachineEvent::FromClient(ConnectionCommandV::Subscribe { .. }, _) => 1int,
            _ => 0int,
        }) + subs_in_events(events.skip(1))
    }
}

proof fn lemma_subs_in_events_nonneg(events: Seq<MachineEvent>)
    ensures
        subs_in_events(events) >= 0,
    decreases events.len(),
{
    if events.len() > 0 {
        lemma_subs_in_events_nonneg(events.skip(1));
    }
}

/// The sid ordering invariant: the `SUB` commands already on the wire,
/// followed by those still in the outbox, carry strictly increasing sids,
/// all below the live allocator.
pub open spec fn sid_order(b: NatsBindingV, sent: Seq<ClientCommandV>) -> bool {
    match b.state {
        ConnStateV::AwaitingInfo(_) => sent.len() == 0,
        ConnStateV::NotInfoReceived => sent.len() == 0,
        ConnStateV::InfoReceived(s) => strictly_inc(sub_nums(sent) + sub_nums(s.outbox))
            && all_below(sub_nums(sent) + sub_nums(s.outbox), s.sid_counter as int)
            && s.sid_counter >= 1,
        ConnStateV::ConnectionLost => strictly_inc(sub_nums(sent)),
    }
}

proof fn lemma_sid_order_step(b: NatsBindingV, sent: Seq<ClientCommandV>, e: MachineEvent)
    requires
        sid_order(b, sent),
        pending_allocs(b) + subs_in_events(seq![e]) <= u64::MAX as int,
    ensures
        sid_order(apply_event(b, e).0, sent + apply_event(b, e).1),
        pending_allocs(apply_event(b, e).0) <= pending_allocs(b) + subs_in_events(
            seq![e],
        ),
{
    let stepped = apply_event(b, e);
    assert(seq![e].skip(1) =~= Seq::<MachineEvent>::empty());
    assert(subs_in_events(Seq::<MachineEvent>::empty()) == 0);
    match e {
        MachineEvent::FromServer(cmd, now) => {
            assert(sent + stepped.1 =~= sent);
            match b.state {
                ConnStateV::AwaitingInfo(pre) => {
                    lemma_subs_in_nonneg(pre);
                    if cmd is Info {
                        lemma_replay_outbox(fresh_session(), pre, Seq::empty());
                        lemma_backlog_subs(pre, 1);
                        let s2 = replay(fresh_session(), pre, Seq::empty()).0;
                        assert(s2.outbox =~= seq![connect_command()] + commands_of_backlog(
                            pre,
                            1,
                        ));
                        lemma_sub_nums_concat(
                            seq![connect_command()],
                            commands_of_backlog(pre, 1),
                        );
                        lemma_sub_nums_single(connect_command());
                        assert(sub_nums(s2.outbox) =~= sub_nums(
                            commands_of_backlog(pre, 1),
                        ));
                        assert(sub_nums(sent) =~= Seq::<int>::empty()) by {
                            assert(sent =~= Seq::<ClientCommandV>::empty());
                        }
                        assert(sub_nums(sent) + sub_nums(s2.outbox) =~= sub_nums(
                            s2.outbox,
                        ));
                    }
                },
                _ => {},
            }
        },
        MachineEvent::FromClient(cmd, now) => {
            assert(sent + stepped.1 =~= sent);
            match b.state {
                ConnStateV::AwaitingInfo(pre) => {
                    assert(stepped.0.state matches ConnStateV::AwaitingInfo(p2) && p2
                        == pre.push((cmd, now)));
                    let p2 = pre.push((cmd, now));
                    assert(subs_in(p2) == subs_in(pre) + (match cmd {
                        ConnectionCommandV::Subscribe { .. } => 1int,
                        _ => 0int,
                    })) by {
                        lemma_subs_in_snoc(pre, (cmd, now));
                    }
                },
                ConnStateV::InfoReceived(s) => {
                    lemma_client_step_outbox(s, cmd);
                    let s2v = crate::binding::client_step_open(s, cmd).0;
                    lemma_sub_nums_concat(s.outbox, commands_of_request(cmd, s.sid_counter));
                    match cmd {
                        ConnectionCommandV::Subscribe { subject, options } => {
                            assert(s.sid_counter < u64::MAX);
                            let sidstr = dec_chars(s.sid_counter as nat);
                            let sub = ClientCommandV::Subscribe(
                                SubscribeV {
                                    subject,
                                    queue_group: options.queue_group,
                                    sid: sidstr,
                                },
                            );
                            lemma_sid_num_of_counter(s.sid_counter);
                            match options.max_msgs {
                                Some(m) => {
                                    let uns = ClientCommandV::Unsubscribe(
                                        UnsubscribeV { sid: sidstr, max_msgs: Some(m) },
                                    );
                                    assert(commands_of_request(cmd, s.sid_counter)
                                        =~= seq![sub] + seq![uns]);
                                    lemma_sub_nums_concat(seq![sub], seq![uns]);
                                    lemma_sub_nums_single(sub);
                                    lemma_sub_nums_single(uns);
                                },
                                None => {
                                    assert(commands_of_request(cmd, s.sid_counter)
                                        =~= seq![sub]);
                                    lemma_sub_nums_single(sub);
                                },
                            }
                            assert(sub_nums(commands_of_request(cmd, s.sid_counter))
                                =~= seq![s.sid_counter as int]);
                            let lold = sub_nums(sent) + sub_nums(s.outbox);
                            let lnew = sub_nums(sent) + sub_nums(s2v.outbox);
                            assert(lnew =~= lold + seq![s.sid_counter as int]);
                            assert forall|i: int, j: int|
                                0 <= i < j < lnew.len() implies lnew[i] < lnew[j] by {
                                if j < lold.len() {
                                    assert(lnew[i] == lold[i]);
                                    assert(lnew[j] == lold[j]);
                                } else {
                                    assert(lnew[j] == s.sid_counter as int);
                                    if i < lold.len() {
                                        assert(lnew[i] == lold[i]);
                                    }
                                }
                            }
                        },
                        ConnectionCommandV::Unsubscribe { sid, max_msgs } => {
                            lemma_sub_nums_single(
                                commands_of_request(cmd, s.sid_counter)[0],
                            );
                            assert(commands_of_request(cmd, s.sid_counter)
                                =~= seq![commands_of_request(cmd, s.sid_counter)[0]]);
                            assert(sub_nums(sent) + sub_nums(s2v.outbox) =~= sub_nums(
                                sent,
                            ) + sub_nums(s.outbox));
                        },
                        ConnectionCommandV::Publish { subject, payload } => {
                            lemma_sub_nums_single(
                                commands_of_request(cmd, s.sid_counter)[0],
                            );
                            assert(commands_of_request(cmd, s.sid_counter)
                                =~= seq![commands_of_request(cmd, s.sid_counter)[0]]);
                            assert(sub_nums(sent) + sub_nums(s2v.outbox) =~= sub_nums(
                                sent,
                            ) + sub_nums(s.outbox));
                        },
                    }
                },
                _ => {},
            }
        },
        MachineEvent::SendPingTimeout(now) => {
            assert(sent + stepped.1 =~= sent);
            match b.state {
                ConnStateV::InfoReceived(s) => {
                    let pushed = s.outbox.push(ClientCommandV::Ping);
                    assert(pushed =~= s.outbox + seq![ClientCommandV::Ping]);
                    lemma_sub_nums_concat(s.outbox, seq![ClientCommandV::Ping]);
                    lemma_sub_nums_single(ClientCommandV::Ping);
                    assert(sub_nums(pushed) =~= sub_nums(s.outbox));
                },
                _ => {},
            }
        },
        MachineEvent::SendPongTimeout(now) => {
            assert(sent + stepped.1 =~= sent);
            match b.state {
                ConnStateV::InfoReceived(s) => {
                    let pushed = s.outbox.push(ClientCommandV::Pong);
                    assert(pushed =~= s.outbox + seq![ClientCommandV::Pong]);
                    lemma_sub_nums_concat(s.outbox, seq![ClientCommandV::Pong]);
                    lemma_sub_nums_single(ClientCommandV::Pong);
                    assert(sub_nums(pushed) =~= sub_nums(s.outbox));
                },
                _ => {},
            }
        },
        MachineEvent::KeepAliveTimeout(now) => {
            assert(sent + stepped.1 =~= sent);
            match b.state {
                ConnStateV::InfoReceived(s) => {
                    if stepped.0.state is ConnectionLost {
                        lemma_inc_prefix(sub_nums(sent), sub_nums(s.outbox));
                    }
                },
                _ => {},
            }
        },
        MachineEvent::Transmit => {
            match b.state {
                ConnStateV::InfoReceived(s) => {
                    if s.outbox.len() > 0 {
                        assert(s.outbox =~= seq![s.outbox[0]] + s.outbox.skip(1));
                        lemma_sub_nums_concat(seq![s.outbox[0]], s.outbox.skip(1));
                        lemma_sub_nums_concat(sent, seq![s.outbox[0]]);
                        assert(sent + stepped.1 =~= sent + seq![s.outbox[0]]);
                        assert(sub_nums(sent + seq![s.outbox[0]]) + sub_nums(
                            s.outbox.skip(1),
                        ) =~= sub_nums(sent) + sub_nums(s.outbox));
                    } else {
                        assert(sent + stepped.1 =~= sent);
                    }
                },
                _ => {
                    assert(sent + stepped.1 =~= sent);
                },
            }
        },
    }
}

proof fn lemma_subs_in_snoc(pre: Seq<(ConnectionCommandV, u64)>, e: (ConnectionCommandV, u64))
    ensures
        subs_in(pre.push(e)) == subs_in(pre) + (match e.0 {
            ConnectionCommandV::Subscribe { .. } => 1int,
            _ => 0int,
        }),
    decreases pre.len(),
{
    if pre.len() == 0 {
        assert(pre.push(e)[0] == e);
        assert(pre.push(e).skip(1) =~= Seq::<(ConnectionCommandV, u64)>::empty());
        assert(subs_in(Seq::<(ConnectionCommandV, u64)>::empty()) == 0);
    } else {
        assert(pre.push(e)[0] == pre[0]);
        assert(pre.push(e).skip(1) =~= pre.skip(1).push(e));
        lemma_subs_in_snoc(pre.skip(1), e);
    }
}

proof fn lemma_sid_order_run(
    b: NatsBindingV,
    sent: Seq<ClientCommandV>,
    events: Seq<MachineEvent>,
)
    requires
        sid_order(b, sent),
        pending_allocs(b) + subs_in_events(events) <= u64::MAX as int,
    ensures
        sid_order(run(b, events).0, sent + run(b, events).1),
    decreases events.len(),
{
    if events.len() == 0 {
        assert(sent + run(b, events).1 =~= sent);
    } else {
        let stepped = apply_event(b, events[0]);
        assert(subs_in_events(events) == subs_in_events(seq![events[0]])
            + subs_in_events(events.skip(1))) by {
            assert(seq![events[0]].skip(1) =~= Seq::<MachineEvent>::empty());
            assert(subs_in_events(Seq::<MachineEvent>::empty()) == 0);
        }
        lemma_subs_in_events_nonneg(events.skip(1));
        lemma_sid_order_step(b, sent, events[0]);
        lemma_sid_order_run(stepped.0, sent + stepped.1, events.skip(1));
        assert(sent + run(b, events).1 =~= (sent + stepped.1) + run(
            stepped.0,
            events.skip(1),
        ).1);
    }
}

/// The sids of successive `SUB` commands on the wire are strictly
/// increasing, for any run of the machine from construction that does not
/// exhaust the 64-bit sid allocator.
pub proof fn law_sids_strictly_increase(b0: NatsBindingV, events: Seq<MachineEvent>)
    requires
        b0.state matches ConnStateV::AwaitingInfo(pre) && pre.len() == 0,
        1 + subs_in_events(events) <= u64::MAX as int,
    ensures
        strictly_inc(sub_nums(run(b0, events).1)),
{
    let pre = b0.state->AwaitingInfo_0;
    assert(subs_in(pre) == 0);
    lemma_sid_order_run(b0, Seq::empty(), events);
    let sent = run(b0, events).1;
    assert(Seq::<ClientCommandV>::empty() + sent =~= sent);
    match run(b0, events).0.state {
        ConnStateV::InfoReceived(s) => {
            lemma_inc_prefix(sub_nums(sent), sub_nums(s.outbox));
        },
        ConnStateV::ConnectionLost => {},
        ConnStateV::AwaitingInfo(_) => {
            assert(sent =~= Seq::<ClientCommandV>::empty());
            assert(sub_nums(sent) =~= Seq::<int>::empty());
        },
        ConnStateV::NotInfoReceived => {
            assert(sent =~= Seq::<ClientCommandV>::empty());
            assert(sub_nums(sent) =~= Seq::<int>::empty());
        },
    }
}

} // verus!
verus! {

/// Transmit polls put the outbox on the wire front to back, unchanged:
/// with the order `law_connect_then_backlog` gives the outbox, the wire
/// sees `CONNECT` first and then the buffered requests in arrival order.
pub proof fn law_transmit_in_order(b: NatsBindingV, s: InfoReceivedV, n: int)
    requires
        b.state == ConnStateV::InfoReceived(s),
        0 <= n <= s.outbox.len(),
    ensures
        run(b, Seq::new(n as nat, |i: int| MachineEvent::Transmit)).1 =~= s.outbox.take(n),
    decreases n,
{
    let events = Seq::new(n as nat, |i: int| MachineEvent::Transmit);
    if n == 0 {
        assert(s.outbox.take(0) =~= Seq::<ClientCommandV>::empty());
    } else {
        let stepped = apply_event(b, events[0]);
        let s2 = InfoReceivedV { outbox: s.outbox.skip(1), ..s };
        assert(stepped.0.state == ConnStateV::InfoReceived(s2));
        assert(stepped.1 =~= seq![s.outbox[0]]);
        assert(events.skip(1) =~= Seq::new((n - 1) as nat, |i: int| MachineEvent::Transmit));
        law_transmit_in_order(stepped.0, s2, n - 1);
        assert(run(b, events).1 =~= seq![s.outbox[0]] + s.outbox.skip(1).take(n - 1));
        assert(seq![s.outbox[0]] + s.outbox.skip(1).take(n - 1) =~= s.outbox.take(n));
    }
}

} // verus!
