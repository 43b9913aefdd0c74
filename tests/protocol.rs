use twitch_bot::client::{replay, Action, Event, Phase, TwitchClient, TwitchClientConfig};
use twitch_bot::identity::BOTInfo;
use twitch_bot::irc::{parse_message, parse_tags};
use twitch_bot::text::{find_char, find_crlf, split_frame};

fn config() -> TwitchClientConfig {
    TwitchClientConfig {
        server_address: "wss://example.test:443".to_string(),
        nick: "botnick".to_string(),
        token: "abc123".to_string(),
        channel: "mychannel".to_string(),
        log_level: "info".to_string(),
        anti_idle: 180,
    }
}

fn show(a: &Action) -> (String, String) {
    match a {
        Action::Send(s) => ("send".to_string(), s.clone()),
        Action::Generate(s) => ("generate".to_string(), s.clone()),
        Action::Speak(s) => ("speak".to_string(), s.clone()),
        Action::Identify { name, channel } => ("identify".to_string(), format!("{name} {channel}")),
    }
}

fn shown(v: &[Action]) -> Vec<(String, String)> {
    v.iter().map(show).collect()
}

fn pair(k: &str, v: &str) -> (String, String) {
    (k.to_string(), v.to_string())
}

fn active_client() -> TwitchClient {
    let mut c = TwitchClient::new(config());
    c.handshake();
    c
}

#[test]
fn handshake_lines_come_first_in_order() {
    let events = vec![
        Event::Tick,
        Event::Outbound("hi".to_string()),
        Event::Frame("PING :tmi.twitch.tv\r\n".to_string()),
    ];
    let out = shown(&replay(config(), &events));
    assert_eq!(
        out,
        vec![
            pair("send", "PASS oauth:abc123"),
            pair("send", "NICK botnick"),
            pair("send", "JOIN #mychannel"),
            pair("send", "CAP REQ :twitch.tv/tags"),
            pair("send", "PING :tmi.twitch.tv"),
            pair("send", "PRIVMSG #mychannel :hi"),
            pair("send", "PONG :tmi.twitch.tv"),
        ]
    );
}

#[test]
fn handshake_moves_to_handshaking() {
    let mut c = TwitchClient::new(config());
    assert_eq!(c.phase(), Phase::Connecting);
    let lines = c.handshake();
    assert_eq!(lines.len(), 4);
    assert_eq!(c.phase(), Phase::Handshaking);
}

#[test]
fn identity_set_only_by_accept_line() {
    let mut c = active_client();
    let mut info = BOTInfo::new();
    let apply = |info: &mut BOTInfo, actions: &[Action]| {
        for a in actions {
            if let Action::Identify { name, channel } = a {
                info.set_name(name);
                info.set_main_channel(channel);
            }
        }
    };
    let first = c.step(&Event::Frame(":tmi.twitch.tv 002 botname :Your host\r\n".to_string()));
    apply(&mut info, &first);
    assert_eq!(info.get_name(), "");
    assert_eq!(info.get_main_channel(), "");
    assert_eq!(c.phase(), Phase::Handshaking);
    let second = c.step(&Event::Frame(":server 001 botname :Welcome".to_string()));
    assert_eq!(shown(&second), vec![pair("identify", "botname mychannel")]);
    apply(&mut info, &second);
    assert_eq!(info.get_name(), "botname");
    assert_eq!(info.get_main_channel(), "mychannel");
    assert_eq!(c.phase(), Phase::Active);
}

#[test]
fn two_lines_in_one_frame_are_both_dispatched() {
    let mut c = active_client();
    let frame = ":alice!alice@alice.tmi.twitch.tv PRIVMSG #mychannel :hello\r\nPING :tmi.twitch.tv";
    let out = shown(&c.step(&Event::Frame(frame.to_string())));
    assert_eq!(
        out,
        vec![
            pair("generate", "[alice]: hello"),
            pair("speak", "hello"),
            pair("send", "PONG :tmi.twitch.tv"),
        ]
    );
}

#[test]
fn ping_gets_one_pong_and_no_transition() {
    let mut c = active_client();
    let out = shown(&c.step(&Event::Frame("PING :tmi.twitch.tv".to_string())));
    assert_eq!(out, vec![pair("send", "PONG :tmi.twitch.tv")]);
    assert_eq!(c.phase(), Phase::Handshaking);
}

#[test]
fn chat_message_goes_to_both_consumers_once() {
    let mut c = active_client();
    let line = "@badge-info=;color=#FF0000 :alice!alice@alice.tmi.twitch.tv PRIVMSG #mychannel :hello";
    let out = shown(&c.step(&Event::Frame(line.to_string())));
    assert_eq!(out, vec![pair("generate", "[alice]: hello"), pair("speak", "hello")]);
}

#[test]
fn malformed_line_does_not_block_the_next() {
    let mut c = active_client();
    let frame = ":nospace\r\n@onlytags\r\n\r\nPING :host.example";
    let out = shown(&c.step(&Event::Frame(frame.to_string())));
    assert_eq!(out, vec![pair("send", "PONG :host.example")]);
}

#[test]
fn unhandled_command_does_nothing() {
    let mut c = active_client();
    let out = c.step(&Event::Frame(":tmi.twitch.tv CAP * ACK :twitch.tv/tags".to_string()));
    assert!(out.is_empty());
}

#[test]
fn keepalive_and_outbound_lines() {
    let mut c = active_client();
    assert_eq!(shown(&c.step(&Event::Tick)), vec![pair("send", "PING :tmi.twitch.tv")]);
    assert_eq!(
        shown(&c.step(&Event::Outbound("good day".to_string()))),
        vec![pair("send", "PRIVMSG #mychannel :good day")]
    );
}

#[test]
fn default_config_values() {
    let d = TwitchClientConfig::default();
    assert_eq!(d.server_address, "wss://irc-ws.chat.twitch.tv:443");
    assert_eq!(d.nick, "justinfan123");
    assert_eq!(d.token, "oauth:1234567890");
    assert_eq!(d.channel, "icsboyx");
    assert_eq!(d.log_level, "info");
    assert_eq!(d.anti_idle, 180);
}

#[test]
fn parse_full_line() {
    let m = parse_message("@id=1;mod=0;id=2 :bob!bob@host PRIVMSG #chan :hi there");
    assert_eq!(m.tags, vec![pair("id", "1"), pair("mod", "0")]);
    assert_eq!(m.context.command, "PRIVMSG");
    assert_eq!(m.context.sender, "bob");
    assert_eq!(m.context.destination, "#chan");
    assert_eq!(m.payload, "hi there");
}

#[test]
fn parse_accept_and_ping() {
    let m = parse_message(":server 001 botname :Welcome");
    assert_eq!(m.context.command, "001");
    assert_eq!(m.context.sender, "server");
    assert_eq!(m.context.destination, "botname");
    assert_eq!(m.payload, "Welcome");
    let p = parse_message("PING :tmi.twitch.tv");
    assert_eq!(p.context.command, "PING");
    assert_eq!(p.context.sender, "");
    assert_eq!(p.context.destination, "");
    assert_eq!(p.payload, "tmi.twitch.tv");
}

#[test]
fn parse_unparseable_keeps_line() {
    for line in [":prefixonly", "@tagsonly", ""] {
        let m = parse_message(line);
        assert_eq!(m.context.command, "");
        assert_eq!(m.payload, line);
        assert!(m.tags.is_empty());
    }
}

#[test]
fn parse_tags_values() {
    assert_eq!(parse_tags("a=1;b;c=x=y"), vec![pair("a", "1"), pair("b", ""), pair("c", "x=y")]);
}

#[test]
fn split_frame_cases() {
    assert_eq!(split_frame("a\r\nb\r\n"), vec!["a".to_string(), "b".to_string()]);
    assert_eq!(split_frame("a\r\n\r\n"), vec!["a".to_string()]);
    assert_eq!(split_frame("one"), vec!["one".to_string()]);
    assert_eq!(split_frame(""), vec!["".to_string()]);
    assert_eq!(split_frame("a\r\n\r\nb"), vec!["a".to_string(), "".to_string(), "b".to_string()]);
}

#[test]
fn search_functions() {
    assert_eq!(find_char("ab cd", ' '), 2);
    assert_eq!(find_char("abcd", ' '), 4);
    assert_eq!(find_crlf("x\r\ny"), 1);
    assert_eq!(find_crlf("x\ry"), 3);
}
