//! Length-prefixed frames on a byte stream: two bytes of length, most
//! significant first, then the payload.

use crate::text::{decimal, push_decimal};
use crate::wire::{be_bytes, be_bytes_of_two, put_bytes};
use vstd::prelude::*;
use vstd::string::StringExecFns;

verus! {

/// Largest payload.
pub const MAX_FRAME_SIZE: usize = 2048;

/// Length of the prefix.
pub const LENGTH_PREFIX_SIZE: usize = 2;

/// `std::io::Error`, carried through as an opaque value.
#[verifier::external_type_specification]
#[verifier::external_body]
pub struct ExIoError(std::io::Error);

/// Errors of the framing layer.
#[derive(Debug)]
pub enum FramingError {
    /// The payload exceeds the largest size.
    PayloadTooLarge {
        /// Size of the payload.
        len: usize,
        /// Largest size.
        max: usize,
    },
    /// Reading or writing failed, or the stream ended.
    Io(std::io::Error),
}

impl FramingError {
    /// What is wrong with the size, for an error that is about it.
    pub fn size_message(&self) -> (r: Option<String>)
        ensures
            match *self {
                FramingError::PayloadTooLarge { len, max } => r matches Some(m) && m@
                    == "payload too large: "@ + decimal(len as nat) + " > max "@ + decimal(
                    max as nat,
                ),
                FramingError::Io(_) => r is None,
            },
    {
        match self {
            FramingError::PayloadTooLarge { len, max } => {
                let mut m = String::from_str("payload too large: ");
                push_decimal(&mut m, *len as u64);
                m.append(" > max ");
                push_decimal(&mut m, *max as u64);
                Some(m)
            },
            FramingError::Io(_) => None,
        }
    }
}

/// The frame of a payload.
pub open spec fn frame(payload: Seq<u8>) -> Seq<u8> {
    be_bytes(payload.len(), 2) + payload
}

/// Puts the length in front of a payload; a payload that is too large is
/// refused.
pub fn encode_packet(data: &[u8]) -> (r: Result<Vec<u8>, FramingError>)
    ensures
        if data@.len() > MAX_FRAME_SIZE {
            r matches Err(FramingError::PayloadTooLarge { len, max }) && len == data@.len() && max
                == MAX_FRAME_SIZE
        } else {
            r matches Ok(f) && f@ == frame(data@)
        },
{
    if data.len() > MAX_FRAME_SIZE {
        return Err(FramingError::PayloadTooLarge { len: data.len(), max: MAX_FRAME_SIZE });
    }
    let len: u16 = data.len() as u16;
    let mut buf: Vec<u8> = Vec::new();
    buf.push((len / 256) as u8);
    buf.push((len % 256) as u8);
    proof {
        be_bytes_of_two(len);
        assert(buf@ =~= be_bytes(len as nat, 2));
    }
    put_bytes(&mut buf, data);
    Ok(buf)
}

/// Number of bytes that follow a prefix; a length that is too large is refused.
pub fn frame_len(prefix: &[u8; 2]) -> (r: Result<usize, FramingError>)
    ensures
        ({
            let len = prefix@[0] as int * 256 + prefix@[1] as int;
            if len > MAX_FRAME_SIZE {
                r matches Err(FramingError::PayloadTooLarge { len: n, max }) && n == len && max
                    == MAX_FRAME_SIZE
            } else {
                r matches Ok(n) && n == len
            }
        }),
{
    let len: usize = prefix[0] as usize * 256 + prefix[1] as usize;
    if len > MAX_FRAME_SIZE {
        return Err(FramingError::PayloadTooLarge { len, max: MAX_FRAME_SIZE });
    }
    Ok(len)
}

/// The prefix of a frame announces the length of what follows.
pub proof fn prefix_announces_payload(payload: Seq<u8>)
    requires
        payload.len() <= MAX_FRAME_SIZE,
    ensures
        frame(payload).len() == payload.len() + 2,
        frame(payload)[0] as int * 256 + frame(payload)[1] as int == payload.len(),
        frame(payload).skip(2) == payload,
{
    be_bytes_of_two(payload.len() as u16);
    assert(frame(payload).skip(2) =~= payload);
}

} // verus!
