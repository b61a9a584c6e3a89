//! The handshake payload that announces a node's protocol capabilities.

use crate::bytes::{push_u32_le, push_u64_le, u32_le, u64_le};
use crate::envelope::{encode_message, message_of, EncodeError};
use crate::hashing::checksum_of;
use vstd::prelude::*;
use vstd::string::StringSliceAdditionalSpecFns;

verus! {

/// The protocol version that this node announces.
pub const PROTOCOL_VERSION: i32 = 70015;

/// Width of each peer-address placeholder.
pub const ADDRESS_LEN: usize = 26;

/// Longest identification string that its one-byte length prefix allows.
pub const MAX_USER_AGENT_LEN: usize = 255;

/// The identification string that this node announces.
pub const USER_AGENT: &'static str = "/rust-node:0.1/";

/// The command name of the handshake message.
pub const VERSION_COMMAND: &'static str = "version";

/// The fields of a handshake payload. The two peer addresses are all-zero
/// placeholders and are not stored.
#[derive(Debug)]
pub struct HandshakePayload {
    pub protocol_version: i32,
    pub services: u64,
    pub timestamp: i64,
    pub nonce: u64,
    pub user_agent: Vec<u8>,
    pub start_height: i32,
    pub relay: u8,
}

/// `n` zero bytes.
pub open spec fn zero_bytes(n: nat) -> Seq<u8> {
    Seq::new(n, |i: int| 0u8)
}

/// The payload's bytes: each integer little-endian, the addresses as zeros,
/// and the identification string after a one-byte length.
pub open spec fn handshake_bytes(
    protocol_version: i32,
    services: u64,
    timestamp: i64,
    nonce: u64,
    user_agent: Seq<u8>,
    start_height: i32,
    relay: u8,
) -> Seq<u8> {
    u32_le(protocol_version as u32) + u64_le(services) + u64_le(timestamp as u64) + zero_bytes(
        ADDRESS_LEN as nat,
    ) + zero_bytes(ADDRESS_LEN as nat) + u64_le(nonce) + seq![user_agent.len() as u8] + user_agent
        + u32_le(start_height as u32) + seq![relay]
}

/// The identification string's length byte stands right after the fixed
/// fields (version, services, time, both addresses, nonce), the string right
/// after it, and the payload is that long plus the fixed fields around it.
pub proof fn lemma_user_agent_position(
    protocol_version: i32,
    services: u64,
    timestamp: i64,
    nonce: u64,
    user_agent: Seq<u8>,
    start_height: i32,
    relay: u8,
)
    requires
        user_agent.len() <= MAX_USER_AGENT_LEN,
    ensures
        ({
            let b = handshake_bytes(
                protocol_version,
                services,
                timestamp,
                nonce,
                user_agent,
                start_height,
                relay,
            );
            &&& b.len() == 4 + 8 + 8 + 2 * ADDRESS_LEN + 8 + 1 + user_agent.len() + 4 + 1
            &&& b[4 + 8 + 8 + 2 * ADDRESS_LEN + 8] as nat == user_agent.len()
            &&& b.subrange(
                4 + 8 + 8 + 2 * ADDRESS_LEN + 8 + 1,
                4 + 8 + 8 + 2 * ADDRESS_LEN + 8 + 1 + user_agent.len(),
            ) == user_agent
        }),
{
    let b = handshake_bytes(
        protocol_version,
        services,
        timestamp,
        nonce,
        user_agent,
        start_height,
        relay,
    );
    let at = 4 + 8 + 8 + 2 * ADDRESS_LEN + 8;
    assert(b.subrange(at + 1, at + 1 + user_agent.len()) =~= user_agent);
}

impl HandshakePayload {
    /// The bytes that this payload is written as.
    pub open spec fn wire_bytes(&self) -> Seq<u8> {
        handshake_bytes(
            self.protocol_version,
            self.services,
            self.timestamp,
            self.nonce,
            self.user_agent@,
            self.start_height,
            self.relay,
        )
    }

    /// Writes the payload, or fails when the identification string is too
    /// long for its length prefix.
    pub fn to_bytes(&self) -> (r: Result<Vec<u8>, EncodeError>)
        ensures
            match r {
                Ok(b) => self.user_agent@.len() <= MAX_USER_AGENT_LEN && b@ == self.wire_bytes(),
                Err(e) => self.user_agent@.len() > MAX_USER_AGENT_LEN && e
                    == EncodeError::UserAgentTooLong,
            },
    {
        if self.user_agent.len() > MAX_USER_AGENT_LEN {
            return Err(EncodeError::UserAgentTooLong);
        }
        let mut out: Vec<u8> = Vec::new();
        push_u32_le(&mut out, self.protocol_version as u32);
        push_u64_le(&mut out, self.services);
        push_u64_le(&mut out, self.timestamp as u64);
        let zeros = vec![0u8; ADDRESS_LEN];
        out.extend_from_slice(zeros.as_slice());
        out.extend_from_slice(zeros.as_slice());
        push_u64_le(&mut out, self.nonce);
        out.push(self.user_agent.len() as u8);
        out.extend_from_slice(self.user_agent.as_slice());
        push_u32_le(&mut out, self.start_height as u32);
        out.push(self.relay);
        assert(zeros@ =~= zero_bytes(ADDRESS_LEN as nat));
        assert(out@ =~= self.wire_bytes());
        Ok(out)
    }
}

/// This node's handshake payload for a given time and nonce.
pub open spec fn version_payload(timestamp: i64, nonce: u64) -> Seq<u8> {
    handshake_bytes(PROTOCOL_VERSION, 0, timestamp, nonce, USER_AGENT.spec_bytes(), 0, 0)
}

proof fn lemma_literal_lengths()
    ensures
        USER_AGENT.spec_bytes().len() == 15,
        VERSION_COMMAND.spec_bytes().len() == 7,
{
    reveal_strlit("/rust-node:0.1/");
    reveal_strlit("version");
    assert(vstd::string::is_ascii(USER_AGENT));
    assert(vstd::string::is_ascii(VERSION_COMMAND));
}

/// Builds this node's handshake payload, stamped with `timestamp` (seconds
/// since the Unix epoch) and `nonce`.
pub fn create_version_message(timestamp: i64, nonce: u64) -> (r: Vec<u8>)
    ensures
        r@ == version_payload(timestamp, nonce),
{
    proof {
        lemma_literal_lengths();
    }
    let mut user_agent: Vec<u8> = Vec::new();
    user_agent.extend_from_slice(USER_AGENT.as_bytes());
    let payload = HandshakePayload {
        protocol_version: PROTOCOL_VERSION,
        services: 0,
        timestamp,
        nonce,
        user_agent,
        start_height: 0,
        relay: 0,
    };
    assert(payload.user_agent@ =~= USER_AGENT.spec_bytes());
    match payload.to_bytes() {
        Ok(b) => b,
        Err(_) => Vec::new(),
    }
}

/// Builds the full handshake message that opens a session with a peer: this
/// node's payload for `timestamp` and `nonce`, framed under the command
/// `version`.
pub fn create_version_packet(timestamp: i64, nonce: u64) -> (r: Vec<u8>)
    ensures
        ({
            let p = version_payload(timestamp, nonce);
            r@ == message_of(VERSION_COMMAND.spec_bytes(), p, checksum_of(p))
        }),
{
    let payload = create_version_message(timestamp, nonce);
    proof {
        lemma_literal_lengths();
    }
    match encode_message(payload.as_slice(), VERSION_COMMAND) {
        Ok(m) => m,
        Err(_) => Vec::new(),
    }
}

} // verus!
