//! The chat protocol client as a state machine.
//!
//! The client owns no connection: whoever runs it opens the transport, sends
//! the handshake lines that `handshake` returns, and then hands every event to
//! `step` (a keepalive tick, a frame that arrived, a text to post) and carries
//! out the actions that come back, in order. Every line to send is one
//! complete protocol message, so lines from different events never interleave.
use vstd::prelude::*;
use crate::irc::{parse_line, parse_message, LineModel};
use crate::text::{frame_lines, split_frame, strings_view, has_no_crlf, lemma_two_line_frame};

verus! {

/// Where the client is in the life of one connection.
#[derive(Debug, Clone, Copy, PartialEq, Eq, Structural)]
pub enum Phase {
    Connecting,
    Handshaking,
    Active,
}

/// The settings of the client.
#[derive(Debug)]
pub struct TwitchClientConfig {
    pub server_address: String,
    pub nick: String,
    pub token: String,
    pub channel: String,
    pub log_level: String,
    /// Seconds between two keepalive lines.
    pub anti_idle: i32,
}

impl Default for TwitchClientConfig {
    /// The anonymous settings used when none are stored.
    fn default() -> (r: Self)
        ensures
            r.server_address@ == "wss://irc-ws.chat.twitch.tv:443"@,
            r.nick@ == "justinfan123"@,
            r.token@ == "oauth:1234567890"@,
            r.channel@ == "icsboyx"@,
            r.log_level@ == "info"@,
            r.anti_idle == 180,
    {
        TwitchClientConfig {
            server_address: String::from_str("wss://irc-ws.chat.twitch.tv:443"),
            nick: String::from_str("justinfan123"),
            token: String::from_str("oauth:1234567890"),
            channel: String::from_str("icsboyx"),
            log_level: String::from_str("info"),
            anti_idle: 180,
        }
    }
}

/// Something for the runner of the client to do.
pub enum Action {
    /// Write this line to the connection.
    Send(String),
    /// Hand this item to the text generation consumer.
    Generate(String),
    /// Hand this text to the speech consumer.
    Speak(String),
    /// Record the name the server gave the bot and the channel it joined.
    Identify { name: String, channel: String },
}

/// An action, as text.
pub enum ActionModel {
    Send(Seq<char>),
    Generate(Seq<char>),
    Speak(Seq<char>),
    Identify(Seq<char>, Seq<char>),
}

impl Action {
    pub open spec fn view(&self) -> ActionModel {
        match self {
            Action::Send(s) => ActionModel::Send(s@),
            Action::Generate(s) => ActionModel::Generate(s@),
            Action::Speak(s) => ActionModel::Speak(s@),
            Action::Identify { name, channel } => ActionModel::Identify(name@, channel@),
        }
    }
}

/// The view of each action of `v`.
pub open spec fn actions_view(v: Seq<Action>) -> Seq<ActionModel> {
    v.map_values(|a: Action| a.view())
}

/// Something that happened to the client.
pub enum Event {
    /// The keepalive timer fired.
    Tick,
    /// A frame arrived from the transport.
    Frame(String),
    /// A consumer asked for this text to be posted in the channel.
    Outbound(String),
}

/// An event, as text.
pub enum EventModel {
    Tick,
    Frame(Seq<char>),
    Outbound(Seq<char>),
}

impl Event {
    pub open spec fn view(&self) -> EventModel {
        match self {
            Event::Tick => EventModel::Tick,
            Event::Frame(s) => EventModel::Frame(s@),
            Event::Outbound(s) => EventModel::Outbound(s@),
        }
    }
}

/// The lines that open a session, in the order they are sent.
pub open spec fn handshake_lines(token: Seq<char>, nick: Seq<char>, channel: Seq<char>) -> Seq<Seq<char>> {
    seq![
        "PASS oauth:"@ + token,
        "NICK "@ + nick,
        "JOIN #"@ + channel,
        "CAP REQ :twitch.tv/tags"@,
    ]
}

/// The line that the client sends on its own to keep the connection alive.
pub open spec fn keepalive_line() -> Seq<char> {
    "PING :tmi.twitch.tv"@
}

/// The reply to a server ping from `host`.
pub open spec fn pong_line(host: Seq<char>) -> Seq<char> {
    "PONG :"@ + host
}

/// The line that posts `text` in `channel`.
pub open spec fn chat_line(channel: Seq<char>, text: Seq<char>) -> Seq<char> {
    "PRIVMSG #"@ + channel + " :"@ + text
}

/// The item that the text generation consumer gets for a chat message.
pub open spec fn generation_item(sender: Seq<char>, payload: Seq<char>) -> Seq<char> {
    "["@ + sender + "]: "@ + payload
}

/// Whether a parsed line is the server's acceptance of the connection.
pub open spec fn is_accept(m: LineModel) -> bool {
    m.command == "001"@
}

/// What the client does for one inbound line, the bot's channel being `channel`.
pub open spec fn line_actions(line: Seq<char>, channel: Seq<char>) -> Seq<ActionModel> {
    let m = parse_line(line);
    if is_accept(m) {
        seq![ActionModel::Identify(m.destination, channel)]
    } else if m.command == "PRIVMSG"@ {
        seq![
            ActionModel::Generate(generation_item(m.sender, m.payload)),
            ActionModel::Speak(m.payload),
        ]
    } else if m.command == "PING"@ {
        seq![ActionModel::Send(pong_line(m.payload))]
    } else {
        Seq::empty()
    }
}

/// What the client does for a run of inbound lines: each line in turn.
pub open spec fn lines_actions(lines: Seq<Seq<char>>, channel: Seq<char>) -> Seq<ActionModel>
    decreases lines.len(),
{
    if lines.len() == 0 {
        Seq::empty()
    } else {
        lines_actions(lines.drop_last(), channel) + line_actions(lines.last(), channel)
    }
}

/// Whether some line of `lines` is the server's acceptance.
pub open spec fn any_accept(lines: Seq<Seq<char>>) -> bool {
    exists|i: int| 0 <= i < lines.len() && is_accept(parse_line(lines[i]))
}

/// What the client does for one event.
pub open spec fn event_actions(channel: Seq<char>, e: EventModel) -> Seq<ActionModel> {
    match e {
        EventModel::Tick => seq![ActionModel::Send(keepalive_line())],
        EventModel::Frame(f) => lines_actions(frame_lines(f), channel),
        EventModel::Outbound(t) => seq![ActionModel::Send(chat_line(channel, t))],
    }
}

/// The phase after one event: the server's acceptance makes the client active.
pub open spec fn event_phase(p: Phase, e: EventModel) -> Phase {
    match e {
        EventModel::Frame(f) => if any_accept(frame_lines(f)) {
            Phase::Active
        } else {
            p
        },
        _ => p,
    }
}

/// What the client does for a run of events, in order.
pub open spec fn events_actions(channel: Seq<char>, es: Seq<EventModel>) -> Seq<ActionModel>
    decreases es.len(),
{
    if es.len() == 0 {
        Seq::empty()
    } else {
        events_actions(channel, es.drop_last()) + event_actions(channel, es.last())
    }
}

/// A line to send, as an action.
pub open spec fn send_all(lines: Seq<Seq<char>>) -> Seq<ActionModel> {
    lines.map_values(|l: Seq<char>| ActionModel::Send(l))
}

/// The view of each event of `v`.
pub open spec fn events_view(v: Seq<Event>) -> Seq<EventModel> {
    v.map_values(|e: Event| e.view())
}

/// Everything a session does on a fresh connection: the handshake lines, then
/// the actions of each event in turn.
pub open spec fn session_actions(
    token: Seq<char>,
    nick: Seq<char>,
    channel: Seq<char>,
    es: Seq<EventModel>,
) -> Seq<ActionModel> {
    send_all(handshake_lines(token, nick, channel)) + events_actions(channel, es)
}

/// The phase after a run of events, starting from `p`.
pub open spec fn phase_after(p: Phase, es: Seq<EventModel>) -> Phase
    decreases es.len(),
{
    if es.len() == 0 {
        p
    } else {
        event_phase(phase_after(p, es.drop_last()), es.last())
    }
}

/// Whether an action records the bot's identity.
pub open spec fn is_identify(a: ActionModel) -> bool {
    a is Identify
}

/// Whether an event is a frame that carries the server's acceptance.
pub open spec fn event_accepts(e: EventModel) -> bool {
    match e {
        EventModel::Frame(f) => any_accept(frame_lines(f)),
        _ => false,
    }
}

/// Whether some frame among `es` carries the server's acceptance.
pub open spec fn any_accept_event(es: Seq<EventModel>) -> bool {
    exists|i: int| 0 <= i < es.len() && #[trigger] event_accepts(es[i])
}

/// A session starts with the four handshake lines, in their order, before any
/// keepalive line, reply or outbound chat line, whatever the events.
pub proof fn lemma_handshake_first(
    token: Seq<char>,
    nick: Seq<char>,
    channel: Seq<char>,
    es: Seq<EventModel>,
)
    ensures
        session_actions(token, nick, channel, es).len() >= 4,
        session_actions(token, nick, channel, es).take(4) == seq![
            ActionModel::Send("PASS oauth:"@ + token),
            ActionModel::Send("NICK "@ + nick),
            ActionModel::Send("JOIN #"@ + channel),
            ActionModel::Send("CAP REQ :twitch.tv/tags"@),
        ],
{
    let h = send_all(handshake_lines(token, nick, channel));
    assert(session_actions(token, nick, channel, es).take(4) =~= h);
    assert(h =~= seq![
        ActionModel::Send("PASS oauth:"@ + token),
        ActionModel::Send("NICK "@ + nick),
        ActionModel::Send("JOIN #"@ + channel),
        ActionModel::Send("CAP REQ :twitch.tv/tags"@),
    ]);
}

/// The lines of two runs, one after the other, are dispatched as the first
/// run and then the second.
pub proof fn lemma_lines_actions_append(a: Seq<Seq<char>>, b: Seq<Seq<char>>, channel: Seq<char>)
    ensures
        lines_actions(a + b, channel) == lines_actions(a, channel) + lines_actions(b, channel),
    decreases b.len(),
{
    if b.len() == 0 {
        assert(a + b =~= a);
        assert(lines_actions(b, channel) =~= Seq::<ActionModel>::empty());
        assert(lines_actions(a, channel) + lines_actions(b, channel) =~= lines_actions(a, channel));
    } else {
        lemma_lines_actions_append(a, b.drop_last(), channel);
        assert((a + b).drop_last() =~= a + b.drop_last());
        assert((a + b).last() == b.last());
        assert(lines_actions(a + b, channel) =~= lines_actions(a, channel) + lines_actions(b, channel));
    }
}

/// A line that does not parse does nothing, and does not keep the line after
/// it from being dispatched: dispatching the lines around it gives what the
/// lines without it give.
pub proof fn lemma_malformed_line_skipped(
    before: Seq<Seq<char>>,
    bad: Seq<char>,
    after: Seq<Seq<char>>,
    channel: Seq<char>,
)
    requires
        !crate::irc::parses(bad),
    ensures
        line_actions(bad, channel).len() == 0,
        lines_actions(before + seq![bad] + after, channel) == lines_actions(before, channel)
            + lines_actions(after, channel),
{
    reveal_strlit("001");
    reveal_strlit("PRIVMSG");
    reveal_strlit("PING");
    assert(parse_line(bad).command.len() == 0);
    assert(line_actions(bad, channel) =~= Seq::<ActionModel>::empty());
    lemma_lines_actions_append(before + seq![bad], after, channel);
    assert((before + seq![bad]).drop_last() =~= before);
    assert(lines_actions(before + seq![bad], channel) =~= lines_actions(before, channel));
}

/// One frame that carries two logical lines joined by a terminator has both
/// dispatched, in order, each on its own.
pub proof fn lemma_two_line_frame_dispatch(l1: Seq<char>, l2: Seq<char>, channel: Seq<char>)
    requires
        has_no_crlf(l1),
        has_no_crlf(l2),
        l2.len() > 0,
    ensures
        event_actions(channel, EventModel::Frame(l1 + seq!['\r', '\n'] + l2)) == line_actions(
            l1,
            channel,
        ) + line_actions(l2, channel),
{
    lemma_two_line_frame(l1, l2);
    let ls = seq![l1, l2];
    assert(ls.drop_last() =~= seq![l1]);
    assert(seq![l1].drop_last() =~= Seq::<Seq<char>>::empty());
    assert(lines_actions(seq![l1].drop_last(), channel) =~= Seq::<ActionModel>::empty());
    assert(lines_actions(seq![l1], channel) =~= line_actions(l1, channel));
}

/// Until a frame carrying the server's acceptance has been handled, no action
/// records an identity and a handshaking client stays handshaking.
pub proof fn lemma_no_identity_before_accept(channel: Seq<char>, es: Seq<EventModel>)
    requires
        !any_accept_event(es),
    ensures
        forall|k: int|
            0 <= k < events_actions(channel, es).len() ==> !is_identify(
                #[trigger] events_actions(channel, es)[k],
            ),
        phase_after(Phase::Handshaking, es) == Phase::Handshaking,
    decreases es.len(),
{
    if es.len() > 0 {
        let init = es.drop_last();
        assert forall|i: int| 0 <= i < init.len() implies !event_accepts(init[i]) by {
            assert(init[i] == es[i]);
        }
        lemma_no_identity_before_accept(channel, init);
        assert(!event_accepts(es[es.len() - 1]));
        match es.last() {
            EventModel::Frame(f) => lemma_lines_no_identity(frame_lines(f), channel),
            _ => {},
        }
        let a = events_actions(channel, init);
        let b = event_actions(channel, es.last());
        assert forall|k: int| 0 <= k < b.len() implies !is_identify(#[trigger] b[k]) by {
            match es.last() {
                EventModel::Frame(f) => {
                    assert(b[k] == lines_actions(frame_lines(f), channel)[k]);
                },
                _ => {},
            }
        }
        assert forall|k: int| 0 <= k < (a + b).len() implies !is_identify(#[trigger] (a + b)[k]) by {
            if k < a.len() {
                assert((a + b)[k] == a[k]);
            } else {
                assert((a + b)[k] == b[k - a.len()]);
            }
        }
    }
}

/// Dispatching lines none of which is the server's acceptance records no
/// identity.
pub proof fn lemma_lines_no_identity(lines: Seq<Seq<char>>, channel: Seq<char>)
    requires
        !any_accept(lines),
    ensures
        forall|k: int|
            0 <= k < lines_actions(lines, channel).len() ==> !is_identify(
                #[trigger] lines_actions(lines, channel)[k],
            ),
    decreases lines.len(),
{
    if lines.len() > 0 {
        let init = lines.drop_last();
        assert forall|i: int| 0 <= i < init.len() implies !is_accept(parse_line(init[i])) by {
            assert(init[i] == lines[i]);
        }
        lemma_lines_no_identity(init, channel);
        assert(!is_accept(parse_line(lines[lines.len() - 1])));
        let a = lines_actions(init, channel);
        let b = line_actions(lines.last(), channel);
        assert forall|k: int| 0 <= k < b.len() implies !is_identify(#[trigger] b[k]) by {}
        assert forall|k: int| 0 <= k < (a + b).len() implies !is_identify(#[trigger] (a + b)[k]) by {
            if k < a.len() {
                assert((a + b)[k] == a[k]);
            } else {
                assert((a + b)[k] == b[k - a.len()]);
            }
        }
    }
}

/// Carries out the dispatch of one inbound line: appends its actions to `out`
/// and tells whether it was the server's acceptance.
fn dispatch_line(line: &str, channel: &String, out: &mut Vec<Action>) -> (accepted: bool)
    ensures
        actions_view(final(out)@) == actions_view(old(out)@) + line_actions(line@, channel@),
        accepted == is_accept(parse_line(line@)),
{
    let m = parse_message(line);
    let ghost before = actions_view(out@);
    if m.context.command == String::from_str("001") {
        let a = Action::Identify { name: m.context.destination, channel: channel.clone() };
        out.push(a);
        proof {
            assert(actions_view(out@) =~= before + seq![a.view()]);
        }
        true
    } else if m.context.command == String::from_str("PRIVMSG") {
        let mut g = String::from_str("[");
        g.append(m.context.sender.as_str());
        g.append("]: ");
        g.append(m.payload.as_str());
        let a = Action::Generate(g);
        let b = Action::Speak(m.payload);
        out.push(a);
        out.push(b);
        proof {
            assert(actions_view(out@) =~= before + seq![a.view(), b.view()]);
        }
        false
    } else if m.context.command == String::from_str("PING") {
        let mut p = String::from_str("PONG :");
        p.append(m.payload.as_str());
        let a = Action::Send(p);
        out.push(a);
        proof {
            assert(actions_view(out@) =~= before + seq![a.view()]);
        }
        false
    } else {
        proof {
            assert(actions_view(out@) =~= before + Seq::<ActionModel>::empty());
        }
        false
    }
}

/// Dispatches each line of a frame in turn; tells whether one of them was the
/// server's acceptance.
fn dispatch_frame(frame: &str, channel: &String) -> (r: (Vec<Action>, bool))
    ensures
        actions_view(r.0@) == lines_actions(frame_lines(frame@), channel@),
        r.1 == any_accept(frame_lines(frame@)),
{
    let lines = split_frame(frame);
    let ghost ls = strings_view(lines@);
    let mut out: Vec<Action> = Vec::new();
    let mut accepted = false;
    let mut i: usize = 0;
    proof {
        assert(actions_view(out@) =~= Seq::<ActionModel>::empty());
        assert(ls.take(0) =~= Seq::<Seq<char>>::empty());
    }
    while i < lines.len()
        invariant
            i <= lines@.len(),
            ls == strings_view(lines@),
            actions_view(out@) == lines_actions(ls.take(i as int), channel@),
            accepted == any_accept(ls.take(i as int)),
        decreases lines@.len() - i,
    {
        let acc = dispatch_line(lines[i].as_str(), channel, &mut out);
        proof {
            let t = ls.take(i + 1);
            assert(t.drop_last() =~= ls.take(i as int));
            assert(t.last() == lines@[i as int]@);
            if acc {
                assert(is_accept(parse_line(t[i as int])));
            }
            if accepted {
                let j = choose|j: int| 0 <= j < i && is_accept(parse_line(ls.take(i as int)[j]));
                assert(is_accept(parse_line(t[j])));
            }
            if any_accept(t) {
                let j = choose|j: int| 0 <= j < t.len() && is_accept(parse_line(t[j]));
                if j < i {
                    assert(is_accept(parse_line(ls.take(i as int)[j])));
                }
            }
        }
        accepted = accepted || acc;
        i = i + 1;
    }
    proof {
        assert(ls.take(lines@.len() as int) =~= ls);
    }
    (out, accepted)
}

/// The client of one connection.
pub struct TwitchClient {
    config: TwitchClientConfig,
    phase: Phase,
}

impl TwitchClient {
    pub closed spec fn spec_config(&self) -> TwitchClientConfig {
        self.config
    }

    pub closed spec fn spec_phase(&self) -> Phase {
        self.phase
    }

    /// A client that has not opened its connection yet.
    pub fn new(config: TwitchClientConfig) -> (c: Self)
        ensures
            c.spec_config() == config,
            c.spec_phase() == Phase::Connecting,
    {
        TwitchClient { config, phase: Phase::Connecting }
    }

    /// The settings of the client.
    pub fn config(&self) -> (r: &TwitchClientConfig)
        ensures
            *r == self.spec_config(),
    {
        &self.config
    }

    /// Where the client is.
    pub fn phase(&self) -> (r: Phase)
        ensures
            r == self.spec_phase(),
    {
        self.phase
    }

    /// Starts the handshake on a freshly opened connection: returns the
    /// authentication, nickname, join and capability lines, in the order they
    /// must be sent.
    pub fn handshake(&mut self) -> (r: Vec<String>)
        ensures
            strings_view(r@) == handshake_lines(
                old(self).spec_config().token@,
                old(self).spec_config().nick@,
                old(self).spec_config().channel@,
            ),
            final(self).spec_phase() == Phase::Handshaking,
            final(self).spec_config() == old(self).spec_config(),
    {
        let mut pass = String::from_str("PASS oauth:");
        pass.append(self.config.token.as_str());
        let mut nick = String::from_str("NICK ");
        nick.append(self.config.nick.as_str());
        let mut join = String::from_str("JOIN #");
        join.append(self.config.channel.as_str());
        let cap = String::from_str("CAP REQ :twitch.tv/tags");
        let r = vec![pass, nick, join, cap];
        proof {
            assert(strings_view(r@) =~= handshake_lines(
                self.config.token@,
                self.config.nick@,
                self.config.channel@,
            ));
        }
        self.phase = Phase::Handshaking;
        r
    }

    /// Handles one event and returns what to do, in order: a keepalive line for
    /// a tick; for a frame, the actions of each of its lines in turn (a chat
    /// message goes to both consumers, a server ping is answered, the server's
    /// acceptance records the bot's identity and makes the client active, any
    /// other line, one that does not parse included, does nothing); a chat line
    /// to the configured channel for an outbound text.
    pub fn step(&mut self, event: &Event) -> (r: Vec<Action>)
        ensures
            actions_view(r@) == event_actions(old(self).spec_config().channel@, event.view()),
            final(self).spec_phase() == event_phase(old(self).spec_phase(), event.view()),
            final(self).spec_config() == old(self).spec_config(),
    {
        match event {
            Event::Tick => {
                let a = Action::Send(String::from_str("PING :tmi.twitch.tv"));
                let r = vec![a];
                proof {
                    assert(actions_view(r@) =~= seq![a.view()]);
                }
                r
            },
            Event::Outbound(text) => {
                let mut line = String::from_str("PRIVMSG #");
                line.append(self.config.channel.as_str());
                line.append(" :");
                line.append(text.as_str());
                let a = Action::Send(line);
                let r = vec![a];
                proof {
                    assert(actions_view(r@) =~= seq![a.view()]);
                }
                r
            },
            Event::Frame(frame) => {
                let (r, accepted) = dispatch_frame(frame.as_str(), &self.config.channel);
                if accepted {
                    self.phase = Phase::Active;
                }
                r
            },
        }
    }
}

/// Runs a fresh client over a recorded log of events, as if on a transport
/// that records what is written: returns the handshake lines as actions,
/// followed by the actions of each event in turn.
pub fn replay(config: TwitchClientConfig, events: &Vec<Event>) -> (r: Vec<Action>)
    ensures
        actions_view(r@) == session_actions(
            config.token@,
            config.nick@,
            config.channel@,
            events_view(events@),
        ),
{
    let ghost cfg = config;
    let mut client = TwitchClient::new(config);
    let lines = client.handshake();
    let mut out: Vec<Action> = Vec::new();
    let mut k: usize = 0;
    while k < lines.len()
        invariant
            k <= lines@.len(),
            actions_view(out@) == send_all(strings_view(lines@).take(k as int)),
        decreases lines@.len() - k,
    {
        let a = Action::Send(lines[k].clone());
        proof {
            assert(send_all(strings_view(lines@).take(k + 1)) =~= send_all(
                strings_view(lines@).take(k as int),
            ).push(a.view()));
            assert(actions_view(out@.push(a)) =~= actions_view(out@).push(a.view()));
        }
        out.push(a);
        k = k + 1;
    }
    proof {
        assert(strings_view(lines@).take(lines@.len() as int) =~= strings_view(lines@));
    }
    let ghost start = actions_view(out@);
    let mut i: usize = 0;
    while i < events.len()
        invariant
            i <= events@.len(),
            client.spec_config() == cfg,
            start == send_all(handshake_lines(cfg.token@, cfg.nick@, cfg.channel@)),
            actions_view(out@) == start + events_actions(
                cfg.channel@,
                events_view(events@).take(i as int),
            ),
        decreases events@.len() - i,
    {
        let mut more = client.step(&events[i]);
        proof {
            let t = events_view(events@).take(i + 1);
            assert(t.drop_last() =~= events_view(events@).take(i as int));
            assert(t.last() == events@[i as int].view());
            assert(actions_view(out@) + actions_view(more@) =~= start + events_actions(cfg.channel@, t));
        }
        let ghost prev = out@;
        let ghost added = more@;
        out.append(&mut more);
        proof {
            assert(actions_view(out@) =~= actions_view(prev) + actions_view(added));
        }
        i = i + 1;
    }
    proof {
        assert(events_view(events@).take(events@.len() as int) =~= events_view(events@));
    }
    out
}

} // verus!
