//! The real-time gateway session: the handshake, the payloads the client
//! sends, and what each received frame means for the client.
use vstd::prelude::*;
use crate::text::{decimal, decimal_chars, append_chars, append_str, chars_of, string_of};
use crate::model::{Message, PartialMessage};
use crate::app::AppAction;

verus! {

/// The heartbeat interval (ms) used when the server's hello does not give one.
pub const DEFAULT_HEARTBEAT_MS: u64 = 41250;

/// Opcodes of the gateway protocol.
pub const OP_DISPATCH: u8 = 0;

pub const OP_HELLO: u8 = 10;

/// What the client reads of an event's `d` field.
#[derive(Debug, Clone)]
pub struct EventData {
    /// `d.heartbeat_interval`, when it is an unsigned integer.
    pub heartbeat_interval: Option<u64>,
    /// `d` read as a whole message, when it is one.
    pub as_message: Option<Message>,
    /// `d` read as a message edit, when it is one.
    pub as_partial: Option<PartialMessage>,
    /// `d.id`, when it is a string.
    pub id: Option<String>,
    /// `d.channel_id`, when it is a string.
    pub channel_id: Option<String>,
}

/// A gateway event: opcode, sequence number, event name and data.
#[derive(Debug, Clone)]
pub struct GatewayEvent {
    pub op: u8,
    pub s: Option<u64>,
    pub t: Option<String>,
    pub d: Option<EventData>,
}

/// The first frame read after connecting.
#[derive(Debug)]
pub enum FirstFrame {
    /// The stream ended or failed before any frame.
    Closed,
    /// A frame that is not text.
    NotText,
    /// A text frame, read as an event or not (with the reason).
    Text(Result<GatewayEvent, String>),
}

#[derive(Debug, Clone)]
pub enum GatewayError {
    ConnectionClosedBeforeHello,
    ExpectedTextMessage,
    ExpectedHello,
    Parse(String),
}

/// A frame received while the session runs.
#[derive(Debug, Clone)]
pub enum Frame {
    /// A text frame, read as an event when it is one.
    Text(Option<GatewayEvent>),
    Close,
    Error(String),
    Ended,
    Other,
}

#[derive(Debug)]
pub enum FrameOutcome {
    /// Keep listening, after handing over this event if any.
    Continue(Option<AppAction>),
    /// Stop listening.
    Stop,
}

/// The interval to send heartbeats at, from the server's hello.
pub open spec fn hello_interval(f: FirstFrame) -> Result<u64, GatewayError> {
    match f {
        FirstFrame::Closed => Err(GatewayError::ConnectionClosedBeforeHello),
        FirstFrame::NotText => Err(GatewayError::ExpectedTextMessage),
        FirstFrame::Text(Err(e)) => Err(GatewayError::Parse(e)),
        FirstFrame::Text(Ok(ev)) => if ev.op == OP_HELLO {
            match ev.d {
                Some(d) => Ok(
                    match d.heartbeat_interval {
                        Some(ms) => ms,
                        None => DEFAULT_HEARTBEAT_MS,
                    },
                ),
                None => Err(GatewayError::ExpectedHello),
            }
        } else {
            Err(GatewayError::ExpectedHello)
        },
    }
}

/// A hello without data: the handshake cannot read an interval from it.
pub open spec fn hello_without_data(f: FirstFrame) -> bool {
    match f {
        FirstFrame::Text(Ok(ev)) => ev.op == OP_HELLO && ev.d is None,
        _ => false,
    }
}

/// Reads the heartbeat interval from the first frame of a session.
pub fn heartbeat_interval(first: FirstFrame) -> (r: Result<u64, GatewayError>)
    requires
        !hello_without_data(first),
    ensures
        r == hello_interval(first),
{
    match first {
        FirstFrame::Closed => Err(GatewayError::ConnectionClosedBeforeHello),
        FirstFrame::NotText => Err(GatewayError::ExpectedTextMessage),
        FirstFrame::Text(Err(e)) => Err(GatewayError::Parse(e)),
        FirstFrame::Text(Ok(ev)) => {
            if ev.op == OP_HELLO {
                match ev.d {
                    Some(d) => Ok(
                        match d.heartbeat_interval {
                            Some(ms) => ms,
                            None => DEFAULT_HEARTBEAT_MS,
                        },
                    ),
                    None => Err(GatewayError::ExpectedHello),
                }
            } else {
                Err(GatewayError::ExpectedHello)
            }
        },
    }
}

/// A lowercase hexadecimal digit.
pub open spec fn hex_digit(d: nat) -> char {
    if d < 10 {
        crate::text::digit_char(d)
    } else if d == 10 {
        'a'
    } else if d == 11 {
        'b'
    } else if d == 12 {
        'c'
    } else if d == 13 {
        'd'
    } else if d == 14 {
        'e'
    } else {
        'f'
    }
}

/// How `serde_json` writes one character inside a string: `"` and `\` behind
/// a backslash; backspace, tab, line feed, form feed and carriage return as
/// `\b \t \n \f \r`; the other control characters below 0x20 as `\u00XX`
/// in lowercase hexadecimal; every other character as it is.
pub open spec fn json_char(c: char) -> Seq<char> {
    let v = c as u32;
    if c == '"' {
        seq!['\\', '"']
    } else if c == '\\' {
        seq!['\\', '\\']
    } else if v == 8 {
        seq!['\\', 'b']
    } else if v == 9 {
        seq!['\\', 't']
    } else if v == 10 {
        seq!['\\', 'n']
    } else if v == 12 {
        seq!['\\', 'f']
    } else if v == 13 {
        seq!['\\', 'r']
    } else if v < 0x20 {
        seq!['\\', 'u', '0', '0', hex_digit((v / 16) as nat), hex_digit((v % 16) as nat)]
    } else {
        seq![c]
    }
}

/// The characters of a string, each written as `json_char` writes it.
pub open spec fn json_escaped(s: Seq<char>) -> Seq<char>
    decreases s.len(),
{
    if s.len() == 0 {
        Seq::empty()
    } else {
        json_escaped(s.drop_last()) + json_char(s.last())
    }
}

/// JSON text of a string value, as `serde_json` writes it: the escaped
/// characters between double quotes.
pub open spec fn json_string(s: Seq<char>) -> Seq<char> {
    seq!['"'] + json_escaped(s) + seq!['"']
}

/// Calls `serde_json::to_string` on a string (which writes to memory and so
/// does not fail); it returns the quoted, escaped text that `json_string`
/// states.
#[verifier::external_body]
pub(crate) fn json_quote(s: &str) -> (r: String)
    ensures
        r@ == json_string(s@),
{
    match serde_json::to_string(s) {
        Ok(t) => t,
        Err(_) => String::new(),
    }
}

/// The identify payload around the token's JSON text: opcode 2 with the
/// token and the client's properties, keys in the order `serde_json` writes
/// an object's keys.
pub open spec fn identify_frame(token_json: Seq<char>) -> Seq<char> {
    "{\"d\":{\"properties\":{\"browser\":\"vimcord\",\"device\":\"vimcord\",\"os\":\"linux\"},\"token\":"@
        + token_json + "},\"op\":2}"@
}

/// The identify payload for a token.
pub open spec fn identify_text(token: Seq<char>) -> Seq<char> {
    identify_frame(json_string(token))
}

/// Builds the identify payload around the token's JSON text.
pub fn identify_with(token_json: &str) -> (r: String)
    ensures
        r@ == identify_frame(token_json@),
{
    let mut out: Vec<char> = Vec::new();
    append_str(
        &mut out,
        "{\"d\":{\"properties\":{\"browser\":\"vimcord\",\"device\":\"vimcord\",\"os\":\"linux\"},\"token\":",
    );
    append_str(&mut out, token_json);
    append_str(&mut out, "},\"op\":2}");
    string_of(&out)
}

/// The identify payload for a token.
pub fn identify_payload(token: &str) -> (r: String)
    ensures
        r@ == identify_text(token@),
{
    let q = json_quote(token);
    identify_with(q.as_str())
}

/// The heartbeat payload: opcode 1 with the last sequence number (or null).
pub open spec fn heartbeat_text(seq: Option<u64>) -> Seq<char> {
    "{\"op\":1,\"d\":"@ + match seq {
        Some(n) => decimal(n as nat),
        None => "null"@,
    } + "}"@
}

/// The heartbeat payload carrying a sequence number, if any.
pub fn heartbeat_payload(seq: Option<u64>) -> (r: String)
    ensures
        r@ == heartbeat_text(seq),
{
    let mut out: Vec<char> = Vec::new();
    append_str(&mut out, "{\"op\":1,\"d\":");
    match seq {
        Some(n) => {
            let d = decimal_chars(n);
            append_chars(&mut out, &d);
        },
        None => {
            append_str(&mut out, "null");
        },
    }
    append_str(&mut out, "}");
    string_of(&out)
}

/// The event a dispatch hands to the client: new, edited and deleted messages.
pub open spec fn dispatch_action(t: Seq<char>, d: EventData) -> Option<AppAction> {
    if t == "MESSAGE_CREATE"@ {
        match d.as_message {
            Some(m) => Some(AppAction::GatewayMessageCreate(m)),
            None => None,
        }
    } else if t == "MESSAGE_UPDATE"@ {
        match d.as_partial {
            Some(p) => Some(AppAction::GatewayMessageUpdate(p)),
            None => None,
        }
    } else if t == "MESSAGE_DELETE"@ {
        match (d.id, d.channel_id) {
            (Some(id), Some(c)) => Some(AppAction::GatewayMessageDelete(id, c)),
            _ => None,
        }
    } else {
        None
    }
}

fn text_is(s: &String, lit: &str) -> (r: bool)
    ensures
        r == (s@ == lit@),
{
    let a = chars_of(s.as_str());
    let b = chars_of(lit);
    crate::mentions::chars_eq(&a, &b)
}

/// The client event for a dispatch named `t` with data `d`.
pub fn handle_dispatch(t: &String, d: EventData) -> (r: Option<AppAction>)
    ensures
        r == dispatch_action(t@, d),
{
    if text_is(t, "MESSAGE_CREATE") {
        match d.as_message {
            Some(m) => Some(AppAction::GatewayMessageCreate(m)),
            None => None,
        }
    } else if text_is(t, "MESSAGE_UPDATE") {
        match d.as_partial {
            Some(p) => Some(AppAction::GatewayMessageUpdate(p)),
            None => None,
        }
    } else if text_is(t, "MESSAGE_DELETE") {
        match (d.id, d.channel_id) {
            (Some(id), Some(c)) => Some(AppAction::GatewayMessageDelete(id, c)),
            _ => None,
        }
    } else {
        None
    }
}

/// A gateway session: the token it identifies with, and the last sequence
/// number seen, which heartbeats carry.
#[derive(Debug, Clone)]
pub struct GatewayClient {
    pub token: String,
    pub sequence: Option<u64>,
}

/// A received frame: events update the sequence number and dispatches are
/// handed over; close, errors and the end of the stream stop the session.
pub open spec fn frame_handled(before: GatewayClient, f: Frame, after: GatewayClient, r: FrameOutcome) -> bool {
    match f {
        Frame::Text(None) => after == before && r == FrameOutcome::Continue(None),
        Frame::Text(Some(ev)) => {
            &&& after.token == before.token
            &&& after.sequence == match ev.s {
                Some(s) => Some(s),
                None => before.sequence,
            }
            &&& r == FrameOutcome::Continue(
                if ev.op == OP_DISPATCH {
                    match (ev.t, ev.d) {
                        (Some(t), Some(d)) => dispatch_action(t@, d),
                        _ => None,
                    }
                } else {
                    None
                },
            )
        },
        Frame::Other => after == before && r == FrameOutcome::Continue(None),
        _ => after == before && r == FrameOutcome::Stop,
    }
}

impl GatewayClient {
    /// A session that identifies with `token` and has seen no event yet.
    pub fn new(token: String) -> (r: GatewayClient)
        ensures
            r.token == token,
            r.sequence is None,
    {
        GatewayClient { token, sequence: None }
    }

    /// The identify payload sent once the hello has been read.
    pub fn identify(&self) -> (r: String)
        ensures
            r@ == identify_text(self.token@),
    {
        identify_payload(self.token.as_str())
    }

    /// Handles one received frame.
    pub fn on_frame(&mut self, f: Frame) -> (r: FrameOutcome)
        ensures
            frame_handled(*old(self), f, *final(self), r),
    {
        match f {
            Frame::Text(None) => FrameOutcome::Continue(None),
            Frame::Text(Some(ev)) => {
                if let Some(s) = ev.s {
                    self.sequence = Some(s);
                }
                if ev.op == OP_DISPATCH {
                    match (ev.t, ev.d) {
                        (Some(t), Some(d)) => FrameOutcome::Continue(handle_dispatch(&t, d)),
                        _ => FrameOutcome::Continue(None),
                    }
                } else {
                    FrameOutcome::Continue(None)
                }
            },
            Frame::Other => FrameOutcome::Continue(None),
            _ => FrameOutcome::Stop,
        }
    }

    /// The heartbeat payload, sent at the interval the hello gave.
    pub fn heartbeat(&self) -> (r: String)
        ensures
            r@ == heartbeat_text(self.sequence),
    {
        heartbeat_payload(self.sequence)
    }
}

} // verus!
