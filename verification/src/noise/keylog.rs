//! Key log lines for the analysis of captured traffic.
//!
//! One line for each completed handshake: a label, the two public keys, and the
//! two cipher keys in hexadecimal.

use crate::text::{hex_encode, hex_text};
use vstd::prelude::*;
use vstd::string::StringExecFns;

verus! {

/// The line of a completed handshake.
pub open spec fn key_text(
    label: Seq<char>,
    local: Seq<char>,
    peer: Seq<char>,
    send_key: Seq<u8>,
    recv_key: Seq<u8>,
) -> Seq<char> {
    label + seq![' '] + local + seq![' '] + peer + seq![' '] + hex_text(send_key) + seq![' ']
        + hex_text(recv_key) + seq!['\n']
}

/// Builds the line of a completed handshake.
fn key_line(
    label: &str,
    local_npub: &str,
    peer_npub: &str,
    send_key: &[u8; 32],
    recv_key: &[u8; 32],
) -> (r: String)
    ensures
        r@ == key_text(label@, local_npub@, peer_npub@, send_key@, recv_key@),
{
    let mut line = String::from_str(label);
    line.push(' ');
    line.append(local_npub);
    line.push(' ');
    line.append(peer_npub);
    line.push(' ');
    line.append(hex_encode(send_key.as_slice()).as_str());
    line.push(' ');
    line.append(hex_encode(recv_key.as_slice()).as_str());
    line.push('\n');
    assert(line@ =~= key_text(label@, local_npub@, peer_npub@, send_key@, recv_key@));
    line
}

/// The line of a link layer handshake, for appending to the key log.
pub fn log_link_keys(
    local_npub: &str,
    peer_npub: &str,
    send_key: &[u8; 32],
    recv_key: &[u8; 32],
) -> (r: String)
    ensures
        r@ == key_text("FIPS_LINK"@, local_npub@, peer_npub@, send_key@, recv_key@),
{
    key_line("FIPS_LINK", local_npub, peer_npub, send_key, recv_key)
}

/// The line of a session layer handshake, for appending to the key log.
pub fn log_session_keys(
    local_npub: &str,
    peer_npub: &str,
    send_key: &[u8; 32],
    recv_key: &[u8; 32],
) -> (r: String)
    ensures
        r@ == key_text("FIPS_SESSION"@, local_npub@, peer_npub@, send_key@, recv_key@),
{
    key_line("FIPS_SESSION", local_npub, peer_npub, send_key, recv_key)
}

} // verus!
