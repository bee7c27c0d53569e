//! Wire protocol for the attach socket: length-prefixed frames of
//! `1 byte type || 4 bytes big-endian length || payload`.

use vstd::prelude::*;

use crate::types::Dimensions;
use vstd::string::StringSliceAdditionalSpecFns;

verus! {

/// Message type: PTY output (server to client).
pub const MSG_OUTPUT: u8 = 0x01;

/// Message type: PTY input (client to server).
pub const MSG_INPUT: u8 = 0x02;

/// Message type: terminal resize (client to server).
pub const MSG_RESIZE: u8 = 0x03;

/// Message type: session info (server to client, once at connect).
pub const MSG_INFO: u8 = 0x04;

/// Message type: session closing (either direction).
pub const MSG_CLOSE: u8 = 0x05;

/// Header size: 1 byte type plus 4 bytes length.
pub const HEADER_SIZE: usize = 5;

/// Maximum payload size: 16 MiB.
pub const MAX_PAYLOAD_SIZE: u32 = 16777216;

/// The most clients that may attach to one session's socket.
pub const MAX_ATTACH_CLIENTS: usize = 10;

/// Session info sent to a client on connect. Carried on the wire as JSON;
/// the protocol treats that JSON as opaque payload bytes.
#[derive(Debug, Clone)]
pub struct SessionInfoPayload {
    /// Session ID.
    pub session_id: String,
    /// Program running in the session.
    pub program: String,
    /// Program arguments.
    pub args: Vec<String>,
    /// Process ID.
    pub pid: Option<u32>,
    /// Terminal dimensions.
    pub dimensions: Dimensions,
    /// Current screen content.
    pub screen: String,
}

/// Messages sent over the socket. Info carries its payload already
/// serialized; producing and reading that serialization is the caller's
/// concern.
#[derive(Debug, Clone)]
pub enum Message {
    /// PTY output data (server to client).
    Output(Vec<u8>),
    /// PTY input data (client to server).
    Input(Vec<u8>),
    /// Terminal resize request (client to server).
    Resize { rows: u16, cols: u16 },
    /// Serialized session information (server to client on connect).
    Info(Vec<u8>),
    /// The session is closing, with an optional reason.
    Close(Option<String>),
}

/// Protocol error kinds.
#[derive(Debug, Clone, PartialEq, Eq)]
pub enum ProtocolError {
    /// An IO error, by message.
    Io(String),
    /// An unknown message type byte.
    UnknownType(u8),
    /// A payload longer than the protocol allows.
    PayloadTooLarge(u32),
    /// A payload that does not fit its message type.
    InvalidPayload(String),
    /// The connection closed mid-frame.
    ConnectionClosed,
}

/// The big-endian bytes of a 32-bit length.
pub open spec fn be32(n: u32) -> Seq<u8> {
    seq![
        (n / 0x1000000) as u8,
        ((n / 0x10000) % 0x100) as u8,
        ((n / 0x100) % 0x100) as u8,
        (n % 0x100) as u8,
    ]
}

/// The payload bytes of a message: the data itself for Output, Input and
/// Info; rows and cols as big-endian pairs for Resize; the UTF-8 of the
/// reason, or nothing, for Close.
pub open spec fn payload_spec(m: Message) -> Seq<u8> {
    match m {
        Message::Output(data) => data@,
        Message::Input(data) => data@,
        Message::Resize { rows, cols } => seq![
            (rows / 0x100) as u8,
            (rows % 0x100) as u8,
            (cols / 0x100) as u8,
            (cols % 0x100) as u8,
        ],
        Message::Info(data) => data@,
        Message::Close(reason) => match reason {
            Some(r) => vstd::utf8::encode_utf8(r@),
            None => Seq::empty(),
        },
    }
}

/// The type byte of a message.
pub open spec fn msg_type_spec(m: Message) -> u8 {
    match m {
        Message::Output(_) => MSG_OUTPUT,
        Message::Input(_) => MSG_INPUT,
        Message::Resize { .. } => MSG_RESIZE,
        Message::Info(_) => MSG_INFO,
        Message::Close(_) => MSG_CLOSE,
    }
}

impl Message {
    /// The type byte of this message.
    pub fn msg_type(&self) -> (r: u8)
        ensures
            r == msg_type_spec(*self),
    {
        match self {
            Message::Output(_) => MSG_OUTPUT,
            Message::Input(_) => MSG_INPUT,
            Message::Resize { .. } => MSG_RESIZE,
            Message::Info(_) => MSG_INFO,
            Message::Close(_) => MSG_CLOSE,
        }
    }

    /// Encode this message as a frame: the type byte, the payload length in
    /// big-endian, and the payload. Fails exactly when the payload exceeds
    /// the 16 MiB limit, naming the oversized length.
    pub fn encode(&self) -> (r: Result<Vec<u8>, ProtocolError>)
        ensures
            match r {
                Ok(v) => payload_spec(*self).len() <= MAX_PAYLOAD_SIZE && v@ == seq![
                    msg_type_spec(*self),
                ] + be32(payload_spec(*self).len() as u32) + payload_spec(*self),
                Err(e) => payload_spec(*self).len() > MAX_PAYLOAD_SIZE && e
                    == ProtocolError::PayloadTooLarge(payload_spec(*self).len() as u32),
            },
    {
        let payload: Vec<u8> = match self {
            Message::Output(data) => data.clone(),
            Message::Input(data) => data.clone(),
            Message::Resize { rows, cols } => {
                let r = *rows;
                let c = *cols;
                let v: Vec<u8> = vec![
                    (r / 0x100) as u8,
                    (r % 0x100) as u8,
                    (c / 0x100) as u8,
                    (c % 0x100) as u8,
                ];
                proof {
                    assert(v@ =~= payload_spec(*self));
                }
                v
            },
            Message::Info(data) => data.clone(),
            Message::Close(reason) => match reason {
                Some(r) => r.as_str().as_bytes_vec(),
                None => Vec::new(),
            },
        };
        proof {
            assert(payload@ == payload_spec(*self));
        }
        if payload.len() >= MAX_PAYLOAD_SIZE as usize + 1 {
            return Err(ProtocolError::PayloadTooLarge(payload.len() as u32));
        }
        let len = payload.len() as u32;
        let mut out: Vec<u8> = Vec::new();
        out.push(self.msg_type());
        out.push((len / 0x1000000) as u8);
        out.push(((len / 0x10000) % 0x100) as u8);
        out.push(((len / 0x100) % 0x100) as u8);
        out.push((len % 0x100) as u8);
        let mut body = payload;
        out.append(&mut body);
        proof {
            assert(out@ =~= seq![msg_type_spec(*self)] + be32(payload_spec(*self).len() as u32)
                + payload_spec(*self));
        }
        Ok(out)
    }

    /// Decode a message from its type byte and payload. Output, Input and
    /// Info take the payload as is; Resize requires exactly 4 bytes; Close
    /// takes an absent reason for an empty payload and otherwise requires
    /// valid UTF-8; any other type byte is unknown.
    pub fn decode(msg_type: u8, payload: Vec<u8>) -> (r: Result<Message, ProtocolError>)
        ensures
            msg_type == MSG_OUTPUT ==> (r matches Ok(m) && (m matches Message::Output(d) && d@
                == payload@)),
            msg_type == MSG_INPUT ==> (r matches Ok(m) && (m matches Message::Input(d) && d@
                == payload@)),
            msg_type == MSG_INFO ==> (r matches Ok(m) && (m matches Message::Info(d) && d@
                == payload@)),
            msg_type == MSG_RESIZE && payload@.len() == 4 ==> (r matches Ok(m) && (m matches
                Message::Resize { rows, cols } && rows == payload@[0] * 0x100 + payload@[1] && cols
                == payload@[2] * 0x100 + payload@[3])),
            msg_type == MSG_RESIZE && payload@.len() != 4 ==> (r matches Err(e) && e matches
                ProtocolError::InvalidPayload(_)),
            msg_type == MSG_CLOSE && payload@.len() == 0 ==> (r matches Ok(m) && m
                == Message::Close(None)),
            msg_type == MSG_CLOSE && payload@.len() > 0 && vstd::utf8::valid_utf8(payload@) ==> (r
                matches Ok(m) && (m matches Message::Close(reason) && (reason matches Some(s) && s@
                == vstd::utf8::decode_utf8(payload@)))),
            msg_type == MSG_CLOSE && payload@.len() > 0 && !vstd::utf8::valid_utf8(payload@) ==> (r
                matches Err(e) && e matches ProtocolError::InvalidPayload(_)),
            !(msg_type == MSG_OUTPUT || msg_type == MSG_INPUT || msg_type == MSG_RESIZE || msg_type
                == MSG_INFO || msg_type == MSG_CLOSE) ==> (r matches Err(e) && e
                == ProtocolError::UnknownType(msg_type)),
    {
        if msg_type == MSG_OUTPUT {
            Ok(Message::Output(payload))
        } else if msg_type == MSG_INPUT {
            Ok(Message::Input(payload))
        } else if msg_type == MSG_RESIZE {
            if payload.len() != 4 {
                return Err(
                    ProtocolError::InvalidPayload(resize_size_note()),
                );
            }
            let rows = payload[0] as u16 * 0x100 + payload[1] as u16;
            let cols = payload[2] as u16 * 0x100 + payload[3] as u16;
            Ok(Message::Resize { rows, cols })
        } else if msg_type == MSG_INFO {
            Ok(Message::Info(payload))
        } else if msg_type == MSG_CLOSE {
            if payload.len() == 0 {
                return Ok(Message::Close(None));
            }
            match crate::strutil::bytes_to_string(payload) {
                Some(reason) => Ok(Message::Close(Some(reason))),
                None => Err(ProtocolError::InvalidPayload(utf8_note())),
            }
        } else {
            Err(ProtocolError::UnknownType(msg_type))
        }
    }
}

/// The note attached to a mis-sized resize payload.
fn resize_size_note() -> String {
    "Resize payload must be 4 bytes".to_owned()
}

/// The note attached to a close payload that is not UTF-8.
fn utf8_note() -> String {
    "Close reason must be UTF-8".to_owned()
}

/// Framing round trip: a decoded frame carries the same data it was encoded
/// from, for the data-carrying message types.
pub proof fn lemma_frame_round_trip(m: Message)
    ensures
        payload_spec(m).len() <= MAX_PAYLOAD_SIZE ==> ({
            let frame = seq![msg_type_spec(m)] + be32(payload_spec(m).len() as u32) + payload_spec(
                m,
            );
            &&& frame.len() == 5 + payload_spec(m).len()
            &&& frame[0] == msg_type_spec(m)
            &&& frame.skip(5) == payload_spec(m)
            &&& frame[1] * 0x1000000 + frame[2] * 0x10000 + frame[3] * 0x100 + frame[4]
                == payload_spec(m).len()
        }),
{
    if payload_spec(m).len() <= MAX_PAYLOAD_SIZE {
        let n = payload_spec(m).len() as u32;
        let frame = seq![msg_type_spec(m)] + be32(n) + payload_spec(m);
        assert(frame.skip(5) =~= payload_spec(m));
        assert(n / 0x1000000 * 0x1000000 + (n / 0x10000) % 0x100 * 0x10000 + (n / 0x100) % 0x100
            * 0x100 + n % 0x100 == n) by (nonlinear_arith);
    }
}

} // verus!
