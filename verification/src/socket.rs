//! Frame types of the transport boundary: the logical messages an
//! application exchanges (`Message`) and the wire-level frames a duplex
//! transport produces and consumes (`RawMessage`), with the close codes
//! of the close handshake.

use vstd::prelude::*;

verus! {

/// Status code carried by a close frame.
#[derive(Clone, Copy, PartialEq, Eq, Structural, Debug)]
pub enum CloseCode {
    Normal,
    Away,
    Protocol,
    Unsupported,
    Status,
    Abnormal,
    Invalid,
    Policy,
    Size,
    Extension,
    Error,
    Restart,
    Again,
}

/// The numeric value a close code takes on the wire.
pub open spec fn close_code_value(c: CloseCode) -> int {
    match c {
        CloseCode::Normal => 1000,
        CloseCode::Away => 1001,
        CloseCode::Protocol => 1002,
        CloseCode::Unsupported => 1003,
        CloseCode::Status => 1005,
        CloseCode::Abnormal => 1006,
        CloseCode::Invalid => 1007,
        CloseCode::Policy => 1008,
        CloseCode::Size => 1009,
        CloseCode::Extension => 1010,
        CloseCode::Error => 1011,
        CloseCode::Restart => 1012,
        CloseCode::Again => 1013,
    }
}

impl CloseCode {
    /// Encodes the close code as its wire value.
    pub fn to_u16(&self) -> (v: u16)
        ensures
            v as int == close_code_value(*self),
    {
        match self {
            CloseCode::Normal => 1000,
            CloseCode::Away => 1001,
            CloseCode::Protocol => 1002,
            CloseCode::Unsupported => 1003,
            CloseCode::Status => 1005,
            CloseCode::Abnormal => 1006,
            CloseCode::Invalid => 1007,
            CloseCode::Policy => 1008,
            CloseCode::Size => 1009,
            CloseCode::Extension => 1010,
            CloseCode::Error => 1011,
            CloseCode::Restart => 1012,
            CloseCode::Again => 1013,
        }
    }

    /// Decodes a wire value into a close code; values outside the table
    /// are rejected.
    pub fn from_u16(v: u16) -> (r: Option<CloseCode>)
        ensures
            r is Some <==> (exists|c: CloseCode| close_code_value(c) == v as int),
            r is Some ==> close_code_value(r->Some_0) == v as int,
    {
        let r = match v {
            1000 => Some(CloseCode::Normal),
            1001 => Some(CloseCode::Away),
            1002 => Some(CloseCode::Protocol),
            1003 => Some(CloseCode::Unsupported),
            1005 => Some(CloseCode::Status),
            1006 => Some(CloseCode::Abnormal),
            1007 => Some(CloseCode::Invalid),
            1008 => Some(CloseCode::Policy),
            1009 => Some(CloseCode::Size),
            1010 => Some(CloseCode::Extension),
            1011 => Some(CloseCode::Error),
            1012 => Some(CloseCode::Restart),
            1013 => Some(CloseCode::Again),
            _ => None,
        };
        proof {
            if r is Some {
                assert(close_code_value(r->Some_0) == v as int);
            }
        }
        r
    }
}

/// Law: decoding the wire value of a close code gives back that code.
pub proof fn lemma_close_code_round_trip(c: CloseCode)
    ensures
        forall|d: CloseCode| close_code_value(d) == close_code_value(c) ==> d == c,
{
}

/// The payload of a close frame: a code and a human-readable reason.
#[derive(Clone, Debug, PartialEq)]
pub struct CloseFrame {
    pub code: CloseCode,
    pub reason: String,
}

/// A logical message as the application sees it.
#[derive(Clone, Debug, PartialEq)]
pub enum Message {
    Text(String),
    Binary(Vec<u8>),
    Close(Option<CloseFrame>),
}

/// A wire-level frame as a transport produces and consumes it.
#[derive(Clone, Debug, PartialEq)]
pub enum RawMessage {
    Text(String),
    Binary(Vec<u8>),
    Ping(Vec<u8>),
    Pong(Vec<u8>),
    Close(Option<CloseFrame>),
}

/// The frame that carries a given logical message on the wire.
pub open spec fn raw_of(m: Message) -> RawMessage {
    match m {
        Message::Text(s) => RawMessage::Text(s),
        Message::Binary(b) => RawMessage::Binary(b),
        Message::Close(c) => RawMessage::Close(c),
    }
}

impl Message {
    /// Turns a logical message into the frame written to the transport.
    pub fn into_raw(self) -> (r: RawMessage)
        ensures
            r == raw_of(self),
    {
        match self {
            Message::Text(s) => RawMessage::Text(s),
            Message::Binary(b) => RawMessage::Binary(b),
            Message::Close(c) => RawMessage::Close(c),
        }
    }
}

/// The logical message carried by a frame, if it carries one: ping and
/// pong frames belong to the transport layer and carry none.
pub open spec fn message_of(r: RawMessage) -> Option<Message> {
    match r {
        RawMessage::Text(s) => Some(Message::Text(s)),
        RawMessage::Binary(b) => Some(Message::Binary(b)),
        RawMessage::Ping(_) => None,
        RawMessage::Pong(_) => None,
        RawMessage::Close(c) => Some(Message::Close(c)),
    }
}

impl RawMessage {
    /// Extracts the logical message a frame carries, if any.
    pub fn into_message(self) -> (r: Option<Message>)
        ensures
            r == message_of(self),
    {
        match self {
            RawMessage::Text(s) => Some(Message::Text(s)),
            RawMessage::Binary(b) => Some(Message::Binary(b)),
            RawMessage::Ping(_) => None,
            RawMessage::Pong(_) => None,
            RawMessage::Close(c) => Some(Message::Close(c)),
        }
    }
}

/// Law: a logical message survives the trip onto the wire and back.
pub proof fn lemma_message_round_trip(m: Message)
    ensures
        message_of(raw_of(m)) == Some(m),
{
}

} // verus!
