//! The client: commands, greeting and the interactive loop.

use wire_whisper::client::{greeting, hello, prompt, respond, show_frame, GreetingError, Input, Stop};
use wire_whisper::{parse_command, ClientFrame, Command, ServerFrame, PROTOCOL_VERSION};

#[test]
fn parses_send() {
    assert_eq!(
        parse_command("send hello world"),
        Command::Send("hello world".into())
    );
}

#[test]
fn parses_send_trims_trailing_whitespace() {
    assert_eq!(
        parse_command("send   spaced out   "),
        Command::Send("spaced out".into())
    );
}

#[test]
fn parses_leave() {
    assert_eq!(parse_command("leave"), Command::Leave);
    assert_eq!(parse_command("  leave  "), Command::Leave);
}

#[test]
fn leave_with_args_is_invalid() {
    assert!(matches!(parse_command("leave now"), Command::Invalid(_)));
    assert_eq!(
        parse_command("leave now"),
        Command::Invalid("usage: leave (takes no arguments)".into())
    );
}

#[test]
fn blank_lines() {
    assert_eq!(parse_command(""), Command::Blank);
    assert_eq!(parse_command("   \t  "), Command::Blank);
}

#[test]
fn send_without_body_is_invalid() {
    assert!(matches!(parse_command("send"), Command::Invalid(_)));
    assert!(matches!(parse_command("send   "), Command::Invalid(_)));
    assert_eq!(
        parse_command("send"),
        Command::Invalid("usage: send <msg>".into())
    );
}

#[test]
fn unknown_command() {
    assert_eq!(parse_command("quit"), Command::Unknown("quit".into()));
}

#[test]
fn unknown_command_drops_its_arguments() {
    assert_eq!(parse_command(" sendx a b "), Command::Unknown("sendx".into()));
    assert_eq!(parse_command("SEND a"), Command::Unknown("SEND".into()));
}

#[test]
fn text_beyond_ascii_is_kept() {
    assert_eq!(
        parse_command("send grüße, \u{1f600}  welt\u{3000}"),
        Command::Send("grüße, \u{1f600}  welt".into())
    );
    assert_eq!(
        parse_command("\u{2003}s\u{e9}nd x"),
        Command::Unknown("s\u{e9}nd".into())
    );
}

#[test]
fn words_end_at_white_space_and_nowhere_else() {
    let spaces = [
        '\u{9}', '\u{a}', '\u{b}', '\u{c}', '\u{d}', ' ', '\u{85}', '\u{a0}', '\u{1680}',
        '\u{2000}', '\u{2001}', '\u{2002}', '\u{2003}', '\u{2004}', '\u{2005}', '\u{2006}',
        '\u{2007}', '\u{2008}', '\u{2009}', '\u{200a}', '\u{2028}', '\u{2029}', '\u{202f}',
        '\u{205f}', '\u{3000}',
    ];
    for c in '\0'..=char::MAX {
        let parsed = parse_command(&format!("send{c}x"));
        if spaces.contains(&c) {
            assert_eq!(parsed, Command::Send("x".into()));
        } else {
            assert_eq!(parsed, Command::Unknown(format!("send{c}x")));
        }
    }
}

#[test]
fn outer_whitespace_makes_no_difference() {
    assert_eq!(parse_command("\t send  a  b \u{a0}"), parse_command("send  a  b"));
    assert_eq!(parse_command("send  a  b"), Command::Send("a  b".into()));
}

#[test]
fn hello_carries_version_and_name() {
    assert_eq!(
        hello("alice"),
        ClientFrame::Hello {
            version: PROTOCOL_VERSION,
            username: "alice".into()
        }
    );
    assert_eq!(prompt("alice"), "alice> ");
}

#[test]
fn greeting_shows_the_welcome() {
    let line = greeting(ServerFrame::Welcome {
        motd: "welcome, alice.".into(),
        occupancy: 4294967295,
    });
    assert_eq!(
        line,
        Ok("[server] welcome, alice. (room occupancy: 4294967295)".to_string())
    );
}

#[test]
fn greeting_fails_on_anything_else() {
    assert_eq!(
        greeting(ServerFrame::Rejected { reason: "no".into() }),
        Err(GreetingError::Rejected("no".into()))
    );
    assert_eq!(
        greeting(ServerFrame::Ping),
        Err(GreetingError::Unexpected(ServerFrame::Ping))
    );
}

#[test]
fn frames_are_shown() {
    let shown = |frame: ServerFrame| show_frame(&frame);
    assert_eq!(
        shown(ServerFrame::Message { from: "bob".into(), body: "hi".into() }),
        Some("<bob> hi".to_string())
    );
    assert_eq!(
        shown(ServerFrame::Joined { username: "bob".into() }),
        Some("[room] bob joined".to_string())
    );
    assert_eq!(
        shown(ServerFrame::Departed { username: "bob".into() }),
        Some("[room] bob left".to_string())
    );
    assert_eq!(
        shown(ServerFrame::Error { reason: "slow down".into() }),
        Some("[server-error] slow down".to_string())
    );
    assert_eq!(
        shown(ServerFrame::Rejected { reason: "no".into() }),
        Some("[server] rejected: no".to_string())
    );
    assert_eq!(
        shown(ServerFrame::Welcome { motd: "hi".into(), occupancy: 12 }),
        Some("[server] hi (room occupancy: 12)".to_string())
    );
    assert_eq!(shown(ServerFrame::Ping), None);
}

#[test]
fn typed_lines_are_answered() {
    let r = respond(Input::Line("send hi".into()));
    assert_eq!(r.send, Some(ClientFrame::Send { body: "hi".into() }));
    assert!(r.draw_prompt && r.stop.is_none() && r.lines.is_empty());

    let r = respond(Input::Line("leave".into()));
    assert_eq!(r.send, Some(ClientFrame::Leave));
    assert_eq!(r.stop, Some(Stop::Left));
    assert!(!r.draw_prompt);

    let r = respond(Input::Line("  ".into()));
    assert!(r.send.is_none() && r.draw_prompt && r.lines.is_empty() && r.stop.is_none());

    let r = respond(Input::Line("send".into()));
    assert_eq!(r.lines, vec!["[client] usage: send <msg>".to_string()]);
    assert!(r.send.is_none() && r.draw_prompt);

    let r = respond(Input::Line("quit now".into()));
    assert_eq!(
        r.lines,
        vec![
            "[client] unknown command: 'quit'".to_string(),
            "[client] available: send <msg>, leave".to_string()
        ]
    );
}

#[test]
fn heartbeat_is_invisible() {
    let r = respond(Input::Frame(ServerFrame::Ping));
    assert_eq!(r.send, Some(ClientFrame::Pong));
    assert!(!r.erase_prompt && !r.draw_prompt && r.lines.is_empty() && r.stop.is_none());
}

#[test]
fn frames_redraw_the_prompt() {
    let r = respond(Input::Frame(ServerFrame::Joined { username: "bob".into() }));
    assert!(r.erase_prompt && r.draw_prompt && r.stop.is_none() && r.send.is_none());
    assert_eq!(r.lines, vec!["[room] bob joined".to_string()]);

    let r = respond(Input::Frame(ServerFrame::Rejected { reason: "no".into() }));
    assert!(r.erase_prompt && r.draw_prompt);
    assert_eq!(r.stop, Some(Stop::Rejected));
}

#[test]
fn the_ends_of_both_streams_stop_the_client() {
    let r = respond(Input::EndOfInput);
    assert_eq!(r.notice.as_deref(), Some("\r[client] stdin closed; sending leave"));
    assert_eq!(r.send, Some(ClientFrame::Leave));
    assert_eq!(r.stop, Some(Stop::EndOfInput));

    let r = respond(Input::ServerClosed);
    assert_eq!(r.notice.as_deref(), Some("\r[client] server closed the connection"));
    assert!(r.send.is_none());
    assert_eq!(r.stop, Some(Stop::ServerClosed));
}
