//! What the interactive client decides: how to greet the server, and what to
//! print, send and do about each line and each frame.

use vstd::prelude::*;
use vstd::utf8;

use crate::command;
use crate::command::{Command, CommandView};
use crate::frame::{ClientFrame, ClientFrameView, ServerFrame, ServerFrameView};
use crate::limits::PROTOCOL_VERSION;
use crate::session;
use crate::session::{Event, SessionView};
use crate::text;

verus! {

// ---------------------------------------------------------------------------
// Lines
// ---------------------------------------------------------------------------

/// The line that shows a `Welcome`.
pub open spec fn welcome_line(motd: Seq<char>, occupancy: u32) -> Seq<char> {
    "[server] "@ + motd + " (room occupancy: "@ + text::decimal(occupancy as nat) + ")"@
}

/// The line that shows a frame, if it is one that is shown.
pub open spec fn frame_line(frame: ServerFrameView) -> Option<Seq<char>> {
    match frame {
        ServerFrameView::Welcome { motd, occupancy } => Some(welcome_line(motd, occupancy)),
        ServerFrameView::Rejected { reason } => Some("[server] rejected: "@ + reason),
        ServerFrameView::Joined { username } => Some("[room] "@ + username + " joined"@),
        ServerFrameView::Departed { username } => Some("[room] "@ + username + " left"@),
        ServerFrameView::Message { from, body } => Some("<"@ + from + "> "@ + body),
        ServerFrameView::Ping => None,
        ServerFrameView::Error { reason } => Some("[server-error] "@ + reason),
    }
}

/// Writes `before`, `middle` and `after` behind each other.
fn enclose(before: &str, middle: &str, after: &str) -> (r: String)
    ensures
        r@ == before@ + middle@ + after@,
{
    let mut out = before.to_owned();
    out.append(middle);
    out.append(after);
    out
}

/// Writes `before` and `after` behind each other.
fn prefix(before: &str, after: &str) -> (r: String)
    ensures
        r@ == before@ + after@,
{
    let mut out = before.to_owned();
    out.append(after);
    out
}

/// The line that shows a `Welcome`.
fn show_welcome(motd: &str, occupancy: u32) -> (r: String)
    ensures
        r@ == welcome_line(motd@, occupancy),
{
    let mut out = enclose("[server] ", motd, " (room occupancy: ");
    text::push_decimal(&mut out, occupancy as u64);
    out.append(")");
    out
}

/// The line that shows a frame, if it is one that is shown.
pub fn show_frame(frame: &ServerFrame) -> (r: Option<String>)
    ensures
        match r {
            Some(line) => frame_line(frame@) == Some(line@),
            None => frame_line(frame@) is None,
        },
{
    match frame {
        ServerFrame::Welcome { motd, occupancy } => Some(show_welcome(motd, *occupancy)),
        ServerFrame::Rejected { reason } => Some(prefix("[server] rejected: ", reason)),
        ServerFrame::Joined { username } => Some(enclose("[room] ", username, " joined")),
        ServerFrame::Departed { username } => Some(enclose("[room] ", username, " left")),
        ServerFrame::Message { from, body } => {
            let mut out = enclose("<", from, "> ");
            out.append(body);
            Some(out)
        },
        ServerFrame::Ping => None,
        ServerFrame::Error { reason } => Some(prefix("[server-error] ", reason)),
    }
}

/// The prompt of the user `username`.
pub fn prompt(username: &str) -> (r: String)
    ensures
        r@ == username@ + "> "@,
{
    prefix(username, "> ")
}

// ---------------------------------------------------------------------------
// Greeting
// ---------------------------------------------------------------------------

/// The frame that asks to be admitted as `username`.
pub fn hello(username: &str) -> (r: ClientFrame)
    ensures
        r@ == (ClientFrameView::Hello { version: PROTOCOL_VERSION, username: username@ }),
{
    ClientFrame::Hello { version: PROTOCOL_VERSION, username: username.to_owned() }
}

/// Why the client gives up on the server's answer to its `Hello`.
#[derive(Debug, PartialEq, Eq)]
pub enum GreetingError {
    /// The server rejected the handshake, for this reason.
    Rejected(String),
    /// The server sent a frame that answers no `Hello`.
    Unexpected(ServerFrame),
}

/// Reads the server's answer to a `Hello`: the line that shows the welcome, or
/// why there is none.
pub fn greeting(first: ServerFrame) -> (r: Result<String, GreetingError>)
    ensures
        match first@ {
            ServerFrameView::Welcome { motd, occupancy } => {
                &&& r matches Ok(line)
                &&& line@ == welcome_line(motd, occupancy)
            },
            ServerFrameView::Rejected { reason } => {
                &&& r matches Err(GreetingError::Rejected(why))
                &&& why@ == reason
            },
            other => {
                &&& r matches Err(GreetingError::Unexpected(frame))
                &&& frame@ == other
            },
        },
{
    match first {
        ServerFrame::Welcome { motd, occupancy } => Ok(show_welcome(&motd, occupancy)),
        ServerFrame::Rejected { reason } => Err(GreetingError::Rejected(reason)),
        other => Err(GreetingError::Unexpected(other)),
    }
}

// ---------------------------------------------------------------------------
// The interactive loop
// ---------------------------------------------------------------------------

/// What can happen while the client runs.
pub enum Input {
    /// The user typed a line.
    Line(String),
    /// The user closed the input.
    EndOfInput,
    /// The server sent a frame.
    Frame(ServerFrame),
    /// The server closed the connection.
    ServerClosed,
}

/// What the client does about it, in this order.
pub struct Response {
    /// Erase the prompt.
    pub erase_prompt: bool,
    /// Print these lines.
    pub lines: Vec<String>,
    /// Print this line as a diagnostic.
    pub notice: Option<String>,
    /// Send this frame.
    pub send: Option<ClientFrame>,
    /// Draw the prompt.
    pub draw_prompt: bool,
    /// Stop. A frame that could not be sent is then of no matter, unless the
    /// user asked for it.
    pub stop: Option<Stop>,
}

/// Why the client stops.
#[derive(Debug, Clone, Copy, PartialEq, Eq, Structural)]
pub enum Stop {
    /// The user left.
    Left,
    /// The user closed the input.
    EndOfInput,
    /// The server closed the connection.
    ServerClosed,
    /// The server rejected the client.
    Rejected,
}

/// A [`Response`] with its text and frames as views.
pub struct ResponseView {
    pub erase_prompt: bool,
    pub lines: Seq<Seq<char>>,
    pub notice: Option<Seq<char>>,
    pub send: Option<ClientFrameView>,
    pub draw_prompt: bool,
    pub stop: Option<Stop>,
}

impl View for Response {
    type V = ResponseView;

    open spec fn view(&self) -> ResponseView {
        ResponseView {
            erase_prompt: self.erase_prompt,
            lines: Seq::new(self.lines@.len(), |i: int| self.lines@[i]@),
            notice: match self.notice {
                Some(s) => Some(s@),
                None => None,
            },
            send: match self.send {
                Some(f) => Some(f@),
                None => None,
            },
            draw_prompt: self.draw_prompt,
            stop: self.stop,
        }
    }
}

/// Nothing to do.
pub open spec fn nothing() -> ResponseView {
    ResponseView {
        erase_prompt: false,
        lines: Seq::empty(),
        notice: None,
        send: None,
        draw_prompt: false,
        stop: None,
    }
}

/// What the client does about a command.
pub open spec fn on_command(c: CommandView) -> ResponseView {
    let go_on = ResponseView { draw_prompt: true, ..nothing() };
    match c {
        CommandView::Send(body) => ResponseView {
            send: Some(ClientFrameView::Send { body }),
            ..go_on
        },
        CommandView::Leave => ResponseView {
            send: Some(ClientFrameView::Leave),
            stop: Some(Stop::Left),
            ..nothing()
        },
        CommandView::Blank => go_on,
        CommandView::Invalid(help) => ResponseView { lines: seq!["[client] "@ + help], ..go_on },
        CommandView::Unknown(word) => ResponseView {
            lines: seq![
                "[client] unknown command: '"@ + word + "'"@,
                "[client] available: send <msg>, leave"@,
            ],
            ..go_on
        },
    }
}

/// What the client does about a frame of the server.
pub open spec fn on_server_frame(frame: ServerFrameView) -> ResponseView {
    match frame_line(frame) {
        None => ResponseView { send: Some(ClientFrameView::Pong), ..nothing() },
        Some(line) => ResponseView {
            erase_prompt: true,
            lines: seq![line],
            draw_prompt: true,
            stop: if frame is Rejected {
                Some(Stop::Rejected)
            } else {
                None
            },
            ..nothing()
        },
    }
}

/// What the client does about an input.
pub open spec fn on_input(input: Input) -> ResponseView {
    match input {
        Input::Line(line) => on_command(command::parsed(line@)),
        Input::EndOfInput => ResponseView {
            notice: Some("\r[client] stdin closed; sending leave"@),
            send: Some(ClientFrameView::Leave),
            stop: Some(Stop::EndOfInput),
            ..nothing()
        },
        Input::Frame(frame) => on_server_frame(frame@),
        Input::ServerClosed => ResponseView {
            notice: Some("\r[client] server closed the connection"@),
            stop: Some(Stop::ServerClosed),
            ..nothing()
        },
    }
}

/// A response that does nothing.
fn idle() -> (r: Response)
    ensures
        r@ == nothing(),
        r.lines@.len() == 0,
{
    let r = Response {
        erase_prompt: false,
        lines: Vec::new(),
        notice: None,
        send: None,
        draw_prompt: false,
        stop: None,
    };
    assert(r@.lines =~= Seq::empty());
    r
}

/// Decides what to do about an input.
pub fn respond(input: Input) -> (r: Response)
    ensures
        r@ == on_input(input),
{
    match input {
        Input::Line(line) => respond_to_command(command::parse_command(&line)),
        Input::EndOfInput => {
            let mut r = idle();
            r.notice = Some("\r[client] stdin closed; sending leave".to_owned());
            r.send = Some(ClientFrame::Leave);
            r.stop = Some(Stop::EndOfInput);
            r
        },
        Input::Frame(frame) => respond_to_frame(&frame),
        Input::ServerClosed => {
            let mut r = idle();
            r.notice = Some("\r[client] server closed the connection".to_owned());
            r.stop = Some(Stop::ServerClosed);
            r
        },
    }
}

/// Decides what to do about a command.
fn respond_to_command(c: Command) -> (r: Response)
    ensures
        r@ == on_command(c@),
{
    let mut r = idle();
    match c {
        Command::Send(body) => {
            r.send = Some(ClientFrame::Send { body });
            r.draw_prompt = true;
        },
        Command::Leave => {
            r.send = Some(ClientFrame::Leave);
            r.stop = Some(Stop::Left);
        },
        Command::Blank => {
            r.draw_prompt = true;
        },
        Command::Invalid(help) => {
            r.lines.push(prefix("[client] ", &help));
            r.draw_prompt = true;
        },
        Command::Unknown(word) => {
            r.lines.push(enclose("[client] unknown command: '", &word, "'"));
            r.lines.push("[client] available: send <msg>, leave".to_owned());
            r.draw_prompt = true;
        },
    }
    assert(r@.lines =~= on_command(c@).lines);
    r
}

/// Decides what to do about a frame of the server.
fn respond_to_frame(frame: &ServerFrame) -> (r: Response)
    ensures
        r@ == on_server_frame(frame@),
{
    let mut r = idle();
    match show_frame(frame) {
        None => {
            r.send = Some(ClientFrame::Pong);
        },
        Some(line) => {
            r.erase_prompt = true;
            r.lines.push(line);
            r.draw_prompt = true;
            if let ServerFrame::Rejected { .. } = frame {
                r.stop = Some(Stop::Rejected);
            }
        },
    }
    assert(r@.lines =~= on_server_frame(frame@).lines);
    r
}

// ---------------------------------------------------------------------------
// Laws
// ---------------------------------------------------------------------------

/// A `Ping` is answered with a `Pong`, and nothing on the screen changes; every
/// other frame is shown on a line of its own and answered with nothing.
pub proof fn law_heartbeat_is_invisible(frame: ServerFrame)
    ensures
        ({
            let r = on_input(Input::Frame(frame));
            if frame@ is Ping {
                &&& r == (ResponseView { send: Some(ClientFrameView::Pong), ..nothing() })
            } else {
                &&& r.send is None
                &&& r.lines.len() == 1
                &&& r.erase_prompt
                &&& r.draw_prompt
            }
        }),
{
}

/// While the client goes on, the prompt stands on the screen: it is drawn
/// again whenever it was erased or a line was typed.
pub proof fn law_prompt_is_redrawn(input: Input)
    ensures
        ({
            let r = on_input(input);
            r.stop is None && (r.erase_prompt || r.lines.len() > 0 || input is Line)
                ==> r.draw_prompt
        }),
{
}

/// The client stops when the user leaves or closes the input, and when the
/// server rejects it or closes the connection, and at no other time.
pub proof fn law_when_the_client_stops(input: Input)
    ensures
        on_input(input).stop is Some <==> {
            ||| input is EndOfInput
            ||| input is ServerClosed
            ||| input matches Input::Frame(frame) && frame@ is Rejected
            ||| input matches Input::Line(line) && command::parsed(line@) is Leave
        },
{
}

/// Every frame but a `Ping` is shown on one line, which says what the frame
/// says: who speaks and what, who came, who left, what is wrong, or how many
/// are in the room.
pub proof fn law_what_is_shown(frame: ServerFrame)
    ensures
        ({
            let lines = on_input(Input::Frame(frame)).lines;
            match frame@ {
                ServerFrameView::Welcome { motd, occupancy } => lines == seq![
                    "[server] "@ + motd + " (room occupancy: "@ + text::decimal(occupancy as nat)
                        + ")"@,
                ],
                ServerFrameView::Rejected { reason } => lines == seq![
                    "[server] rejected: "@ + reason,
                ],
                ServerFrameView::Joined { username } => lines == seq![
                    "[room] "@ + username + " joined"@,
                ],
                ServerFrameView::Departed { username } => lines == seq![
                    "[room] "@ + username + " left"@,
                ],
                ServerFrameView::Message { from, body } => lines == seq![
                    "<"@ + from + "> "@ + body,
                ],
                ServerFrameView::Ping => lines.len() == 0,
                ServerFrameView::Error { reason } => lines == seq!["[server-error] "@ + reason],
            }
        }),
        frame_line(frame@) is None <==> frame@ is Ping,
        frame_line(frame@) matches Some(line) ==> on_input(Input::Frame(frame)).lines == seq![line],
{
}

/// A frame of the server never prints a diagnostic, and stops the client only
/// where it is a rejection.
pub proof fn law_frames_stop_only_when_rejected(frame: ServerFrame)
    ensures
        ({
            let r = on_input(Input::Frame(frame));
            &&& r.notice is None
            &&& r.stop == if frame@ is Rejected {
                Some(Stop::Rejected)
            } else {
                None
            }
        }),
{
}

/// The line that shows a `Welcome` holds the banner and the count.
pub proof fn law_welcome_line(motd: Seq<char>, occupancy: u32)
    ensures
        welcome_line(motd, occupancy) == "[server] "@ + motd + " (room occupancy: "@
            + text::decimal(occupancy as nat) + ")"@,
{
}

/// A typed message, whatever its length, goes to the server as it was typed,
/// less the whitespace around it; nothing is printed, and the client goes on.
pub proof fn law_typed_message_is_sent(
    line: String,
    front: Seq<char>,
    gap: Seq<char>,
    message: Seq<char>,
    back: Seq<char>,
)
    requires
        line@ == front + "send"@ + gap + message + back,
        text::blank(front),
        text::blank(gap),
        gap.len() > 0,
        command::is_argument(message),
        text::blank(back),
    ensures
        on_input(Input::Line(line)) == (ResponseView {
            erase_prompt: false,
            lines: Seq::empty(),
            notice: None,
            send: Some(ClientFrameView::Send { body: message }),
            draw_prompt: true,
            stop: None,
        }),
{
    command::law_message_is_sent(front, gap, message, back);
}

/// What is typed is answered by its meaning: a message is sent; leaving says
/// goodbye to the server and stops; a command that is used wrongly, or is none,
/// is answered on the screen with what is wrong; and nothing is sent for these
/// or for a blank line. The prompt comes back unless the client stops.
pub proof fn law_typed_lines(line: String)
    ensures
        ({
            let r = on_input(Input::Line(line));
            &&& r.erase_prompt == false
            &&& r.notice is None
            &&& match command::parsed(line@) {
                CommandView::Send(body) => {
                    &&& r.send == Some(ClientFrameView::Send { body })
                    &&& r.lines.len() == 0
                    &&& r.draw_prompt
                    &&& r.stop is None
                },
                CommandView::Leave => {
                    &&& r.send == Some(ClientFrameView::Leave)
                    &&& r.lines.len() == 0
                    &&& !r.draw_prompt
                    &&& r.stop == Some(Stop::Left)
                },
                CommandView::Blank => {
                    &&& r.send is None
                    &&& r.lines.len() == 0
                    &&& r.draw_prompt
                    &&& r.stop is None
                },
                CommandView::Invalid(help) => {
                    &&& r.send is None
                    &&& r.lines == seq!["[client] "@ + help]
                    &&& r.draw_prompt
                    &&& r.stop is None
                },
                CommandView::Unknown(word) => {
                    &&& r.send is None
                    &&& r.lines == seq![
                        "[client] unknown command: '"@ + word + "'"@,
                        "[client] available: send <msg>, leave"@,
                    ]
                    &&& r.draw_prompt
                    &&& r.stop is None
                },
            }
        }),
{
}

/// Where the input or the connection ends, the client says which and stops;
/// only a server that is still there is told goodbye.
pub proof fn law_ends_of_the_streams(input: Input)
    requires
        input is EndOfInput || input is ServerClosed,
    ensures
        on_input(input) == if input is EndOfInput {
            ResponseView {
                erase_prompt: false,
                lines: Seq::empty(),
                notice: Some("\r[client] stdin closed; sending leave"@),
                send: Some(ClientFrameView::Leave),
                draw_prompt: false,
                stop: Some(Stop::EndOfInput),
            }
        } else {
            ResponseView {
                erase_prompt: false,
                lines: Seq::empty(),
                notice: Some("\r[client] server closed the connection"@),
                send: None,
                draw_prompt: false,
                stop: Some(Stop::ServerClosed),
            }
        },
{
}

/// The view of a response is the response, with its text and frames.
pub proof fn law_response_views(r: Response)
    ensures
        r@.erase_prompt == r.erase_prompt,
        r@.lines.len() == r.lines@.len(),
        forall|i: int| 0 <= i < r.lines@.len() ==> #[trigger] r@.lines[i] == r.lines@[i]@,
        r@.notice is Some <==> r.notice is Some,
        r.notice matches Some(notice) ==> r@.notice == Some(notice@),
        r@.send is Some <==> r.send is Some,
        r.send matches Some(frame) ==> r@.send == Some(frame@),
        r@.draw_prompt == r.draw_prompt,
        r@.stop == r.stop,
{
}

/// From one screen to another: a message of at most 4096 bytes that one user
/// types behind `send` is, once the rate limiter grants it, published by that
/// user's session; and whoever receives what was published sees a line with
/// the user's name and exactly that message.
pub proof fn law_typed_message_reaches_the_others(
    line: String,
    front: Seq<char>,
    gap: Seq<char>,
    message: Seq<char>,
    back: Seq<char>,
    speaker: SessionView,
    sent: ClientFrame,
    now: nat,
    later: nat,
    received: ServerFrame,
)
    requires
        line@ == front + "send"@ + gap + message + back,
        text::blank(front),
        text::blank(gap),
        gap.len() > 0,
        command::is_argument(message),
        utf8::encode_utf8(message).len() <= 4096,
        text::blank(back),
        on_input(Input::Line(line)).send == Some(sent@),
        speaker.on_event(Event::Frame(sent), now).next.on_event(Event::Token(true), later).published
            == Some(received@),
    ensures
        on_input(Input::Frame(received)).lines == seq!["<"@ + speaker.name + "> "@ + message],
{
    law_typed_message_is_sent(line, front, gap, message, back);
    session::law_message_waits_for_a_token(speaker, sent, message, now, later);
}

} // verus!
