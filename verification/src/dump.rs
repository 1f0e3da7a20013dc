//! Reading captures of handshakes and encrypted frames back.

use crate::text::{
    byte_lower, decimal, decodes_to, hex_decode, hex_encode, hex_text, push_byte_lower,
    push_decimal, same_text, HexError,
};
use vstd::prelude::*;
use vstd::string::StringExecFns;
use vstd::utf8::encode_utf8;

verus! {

/// Where the session message type stands in a session datagram.
pub const SESSION_TYPE_OFFSET: usize = 36;

/// A record of the key log: its event, where it names one.
pub struct KeyLogRecord {
    /// The event.
    pub event: Option<String>,
}

/// Whether a record is that of a second handshake message being written.
pub open spec fn is_msg2_write(r: KeyLogRecord) -> bool {
    r.event is Some && r.event->0@ == "ik_msg2_write"@
}

/// The record to use: the last one of a second handshake message, or the first
/// one of all.
pub fn select_record(records: &Vec<KeyLogRecord>) -> (r: Option<usize>)
    ensures
        match r {
            Some(k) => {
                &&& k < records@.len()
                &&& if exists|j: int| 0 <= j < records@.len() && is_msg2_write(
                    #[trigger] records@[j],
                ) {
                    is_msg2_write(records@[k as int]) && forall|j: int|
                        k < j < records@.len() ==> !is_msg2_write(#[trigger] records@[j])
                } else {
                    k == 0
                }
            },
            None => records@.len() == 0,
        },
{
    if records.len() == 0 {
        return None;
    }
    let mut k: usize = records.len();
    while k > 0
        invariant
            k <= records.len(),
            forall|j: int| k <= j < records.len() ==> !is_msg2_write(#[trigger] records@[j]),
        decreases k,
    {
        k -= 1;
        if let Some(event) = &records[k].event {
            if same_text(event.as_str(), "ik_msg2_write") {
                return Some(k);
            }
        }
    }
    Some(0)
}

/// What a link payload tells of the session message inside it.
#[derive(Clone, Copy, Debug, PartialEq, Eq, Structural)]
pub enum SessionType {
    /// The payload is no session datagram.
    Absent,
    /// The datagram ends before the message type.
    Truncated,
    /// The message has this type.
    Known(u8),
}

/// The link message type of a payload; an empty one has none and counts as 0xff.
pub open spec fn link_type_of(payload: Seq<u8>) -> u8 {
    if payload.len() > 0 {
        payload[0]
    } else {
        0xff
    }
}

/// The link message type of a payload.
pub fn link_type(link_payload: &[u8]) -> (r: u8)
    ensures
        r == link_type_of(link_payload@),
{
    if link_payload.len() > 0 {
        link_payload[0]
    } else {
        0xff
    }
}

/// The session message type of a link payload.
pub fn session_type(link_payload: &[u8], datagram_type: u8) -> (r: SessionType)
    ensures
        r == session_type_of(link_payload@, datagram_type),
{
    if link_type(link_payload) != datagram_type {
        return SessionType::Absent;
    }
    if link_payload.len() > SESSION_TYPE_OFFSET {
        SessionType::Known(link_payload[SESSION_TYPE_OFFSET])
    } else {
        SessionType::Truncated
    }
}

/// Names the session message in a link payload.
pub fn session_name(t: SessionType, known: &Option<String>) -> (r: String)
    ensures
        r@ == session_text(t, *known),
{
    match t {
        SessionType::Absent => {
            let s = String::new();
            assert(s@ =~= seq![]);
            s
        },
        SessionType::Truncated => String::from_str("SessionDatagram(truncated)"),
        SessionType::Known(byte) => message_name(known, byte),
    }
}

/// The name of a message type: the one it is known by, or its number.
pub open spec fn type_text(known: Option<String>, byte: u8) -> Seq<char> {
    match known {
        Some(name) => name@,
        None => "Unknown(0x"@ + byte_lower(byte) + seq![')'],
    }
}

/// Names a message type.
pub fn message_name(known: &Option<String>, byte: u8) -> (r: String)
    ensures
        r@ == type_text(*known, byte),
{
    match known {
        Some(name) => String::from_str(name.as_str()),
        None => {
            let mut s = String::from_str("Unknown(0x");
            push_byte_lower(&mut s, byte);
            s.push(')');
            assert(s@ =~= "Unknown(0x"@ + byte_lower(byte) + seq![')']);
            s
        },
    }
}

/// A frame of a capture.
pub struct ExportedFrame {
    /// Number, where the capture has one.
    pub frame_number: Option<u64>,
    /// Time, where the capture has one.
    pub time_epoch: Option<String>,
    /// Payload in hexadecimal digits.
    pub payload_hex: String,
}

impl ExportedFrame {
    /// Decodes the payload.
    pub fn payload(&self) -> (r: Result<Vec<u8>, HexError>)
        ensures
            decodes_to(encode_utf8(self.payload_hex@), r),
    {
        hex_decode(self.payload_hex.as_str())
    }
}

/// What decrypting a frame gave.
pub enum Decrypted {
    /// The plaintext, with the time and the link payload of its inner header
    /// where it has one, and the known names of the message types in there.
    Plain {
        /// Plaintext.
        plaintext: Vec<u8>,
        /// Time and link payload.
        inner: Option<(u32, Vec<u8>)>,
        /// Name of the link message type.
        link_known: Option<String>,
        /// Name of the session message type.
        session_known: Option<String>,
    },
    /// An error.
    Failed(String),
}

/// An encrypted frame.
pub struct EncryptedFrame {
    /// Counter.
    pub counter: u64,
    /// Index of the receiver.
    pub receiver_idx: u32,
    /// What decrypting it gave.
    pub outcome: Decrypted,
}

/// A first handshake message.
pub struct Msg1Frame {
    /// Index of the sender.
    pub sender_idx: u32,
    /// The message.
    pub message: Vec<u8>,
}

/// A second handshake message.
pub struct Msg2Frame {
    /// Index of the sender.
    pub sender_idx: u32,
    /// Index of the receiver.
    pub receiver_idx: u32,
    /// The message.
    pub message: Vec<u8>,
}

/// What a frame is reported as.
pub enum Report {
    /// A line of output.
    Line(String),
    /// A line among the errors.
    Error(String),
    /// Nothing: the frame is of no known kind.
    Nothing,
}

/// The beginning of a frame's line: number and time, zero and nothing where the
/// capture has none.
pub open spec fn frame_prefix(f: ExportedFrame) -> Seq<char> {
    "frame="@ + decimal(
        match f.frame_number {
            Some(n) => n as nat,
            None => 0,
        },
    ) + " time="@ + match f.time_epoch {
        Some(t) => t@,
        None => seq![],
    }
}

/// The name of the session message in a link payload.
pub open spec fn session_text(t: SessionType, known: Option<String>) -> Seq<char> {
    match t {
        SessionType::Absent => seq![],
        SessionType::Truncated => "SessionDatagram(truncated)"@,
        SessionType::Known(byte) => type_text(known, byte),
    }
}

/// The session message type of a link payload.
pub open spec fn session_type_of(payload: Seq<u8>, datagram_type: u8) -> SessionType {
    if link_type_of(payload) != datagram_type {
        SessionType::Absent
    } else if payload.len() > SESSION_TYPE_OFFSET {
        SessionType::Known(payload[36])
    } else {
        SessionType::Truncated
    }
}

/// What the inner header adds to the line of a decrypted frame.
pub open spec fn inner_text(
    inner: Option<(u32, Vec<u8>)>,
    link_known: Option<String>,
    session_known: Option<String>,
    datagram_type: u8,
) -> Seq<char> {
    match inner {
        Some((timestamp, payload)) => " timestamp="@ + decimal(timestamp as nat) + " link_type="@
            + type_text(link_known, link_type_of(payload@)) + " session_type="@ + session_text(
            session_type_of(payload@, datagram_type),
            session_known,
        ),
        None => seq![],
    }
}

/// Whether a report is that of an encrypted frame.
pub open spec fn reports_encrypted(
    f: ExportedFrame,
    e: EncryptedFrame,
    datagram_type: u8,
    r: Report,
) -> bool {
    let head = frame_prefix(f) + " counter="@ + decimal(e.counter as nat);
    match e.outcome {
        Decrypted::Plain { plaintext, inner, link_known, session_known } => {
            r matches Report::Line(s) && s@ == head + " receiver_idx="@ + decimal(
                e.receiver_idx as nat,
            ) + inner_text(inner, link_known, session_known, datagram_type) + " plaintext_hex="@
                + hex_text(plaintext@)
        },
        Decrypted::Failed(m) => r matches Report::Error(s) && s@ == head + " decrypt_error="@ + m@,
    }
}

/// Starts the line of a frame.
fn start_line(f: &ExportedFrame) -> (r: String)
    ensures
        r@ == frame_prefix(*f),
{
    let mut s = String::from_str("frame=");
    push_decimal(
        &mut s,
        match f.frame_number {
            Some(n) => n,
            None => 0,
        },
    );
    s.append(" time=");
    if let Some(t) = &f.time_epoch {
        s.append(t.as_str());
    }
    assert(s@ =~= frame_prefix(*f));
    s
}

/// Reports an encrypted frame.
fn report_encrypted(f: &ExportedFrame, e: &EncryptedFrame, datagram_type: u8) -> (r: Report)
    ensures
        reports_encrypted(*f, *e, datagram_type, r),
{
    let mut s = start_line(f);
    s.append(" counter=");
    push_decimal(&mut s, e.counter);
    match &e.outcome {
        Decrypted::Plain { plaintext, inner, link_known, session_known } => {
            s.append(" receiver_idx=");
            push_decimal(&mut s, e.receiver_idx as u64);
            let ghost head = s@;
            if let Some((timestamp, payload)) = inner {
                s.append(" timestamp=");
                push_decimal(&mut s, *timestamp as u64);
                s.append(" link_type=");
                let link = message_name(link_known, link_type(payload.as_slice()));
                s.append(link.as_str());
                s.append(" session_type=");
                let session = session_name(
                    session_type(payload.as_slice(), datagram_type),
                    session_known,
                );
                s.append(session.as_str());
            }
            assert(s@ =~= head + inner_text(*inner, *link_known, *session_known, datagram_type));
            s.append(" plaintext_hex=");
            s.append(hex_encode(plaintext.as_slice()).as_str());
            Report::Line(s)
        },
        Decrypted::Failed(m) => {
            s.append(" decrypt_error=");
            s.append(m.as_str());
            Report::Error(s)
        },
    }
}

/// Reports a frame that can be read as an encrypted frame, as a first or as a
/// second handshake message; the first reading that fits counts.
pub fn report_frame(
    f: &ExportedFrame,
    encrypted: &Option<EncryptedFrame>,
    msg1: &Option<Msg1Frame>,
    msg2: &Option<Msg2Frame>,
    datagram_type: u8,
) -> (r: Report)
    ensures
        match (*encrypted, *msg1, *msg2) {
            (Some(e), _, _) => reports_encrypted(*f, e, datagram_type, r),
            (None, Some(m), _) => r matches Report::Line(s) && s@ == frame_prefix(*f)
                + " type=NoiseIKMsg1 sender_idx="@ + decimal(m.sender_idx as nat) + " msg_hex="@
                + hex_text(m.message@),
            (None, None, Some(m)) => r matches Report::Line(s) && s@ == frame_prefix(*f)
                + " type=NoiseIKMsg2 sender_idx="@ + decimal(m.sender_idx as nat)
                + " receiver_idx="@ + decimal(m.receiver_idx as nat) + " msg_hex="@ + hex_text(
                m.message@,
            ),
            (None, None, None) => r is Nothing,
        },
{
    if let Some(e) = encrypted {
        return report_encrypted(f, e, datagram_type);
    }
    let mut s = start_line(f);
    if let Some(m) = msg1 {
        s.append(" type=NoiseIKMsg1 sender_idx=");
        push_decimal(&mut s, m.sender_idx as u64);
        s.append(" msg_hex=");
        s.append(hex_encode(m.message.as_slice()).as_str());
        return Report::Line(s);
    }
    if let Some(m) = msg2 {
        s.append(" type=NoiseIKMsg2 sender_idx=");
        push_decimal(&mut s, m.sender_idx as u64);
        s.append(" receiver_idx=");
        push_decimal(&mut s, m.receiver_idx as u64);
        s.append(" msg_hex=");
        s.append(hex_encode(m.message.as_slice()).as_str());
        return Report::Line(s);
    }
    Report::Nothing
}

} // verus!
