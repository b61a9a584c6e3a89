//! The message envelope: a 24-byte header (network magic, command name,
//! payload length, checksum) followed by the payload.

use crate::bytes::{lemma_u32_le_round_trip, push_u32_le, read_u32_le, u32_from_le, u32_le};
use crate::hashing::{checksum, checksum_of};
use vstd::prelude::*;
use vstd::string::{StrSliceExecFns, StringSliceAdditionalSpecFns};
use vstd::utf8::{
    decode_utf8, encode_scalar, encode_utf8, encode_utf8_decode_utf8, encode_utf8_valid_utf8,
    leading_byte_width_1, valid_utf8,
};

verus! {

/// Width of the NUL-padded command field.
pub const COMMAND_WIDTH: usize = 12;

/// Length of a full header: magic, command, payload length and checksum.
pub const HEADER_LEN: usize = 24;

/// The magic that opens every message on the test network.
pub open spec fn magic() -> Seq<u8> {
    seq![0x0Bu8, 0x11u8, 0x09u8, 0x07u8]
}

/// Why a message or payload could not be encoded.
#[derive(Debug, Clone, Copy, PartialEq, Eq, Structural)]
pub enum EncodeError {
    /// The command name is longer than the command field.
    CommandTooLong,
    /// The payload length does not fit the 32-bit length field.
    PayloadTooLong,
    /// The identification string is longer than its one-byte length prefix allows.
    UserAgentTooLong,
}

/// The command field: `name` followed by NUL bytes up to the field's width.
pub open spec fn command_field(name: Seq<u8>) -> Seq<u8> {
    name + Seq::new((COMMAND_WIDTH - name.len()) as nat, |i: int| 0u8)
}

/// The full message for a command name (as bytes), a payload and a checksum.
pub open spec fn message_of(command: Seq<u8>, payload: Seq<u8>, checksum: Seq<u8>) -> Seq<u8> {
    magic() + command_field(command) + u32_le(payload.len() as u32) + checksum + payload
}

/// What framing gives: an error for an oversize field, else the message.
pub open spec fn frame_outcome(command: Seq<u8>, payload: Seq<u8>, checksum: Seq<u8>) -> Result<
    Seq<u8>,
    EncodeError,
> {
    if command.len() > COMMAND_WIDTH {
        Err(EncodeError::CommandTooLong)
    } else if payload.len() > u32::MAX {
        Err(EncodeError::PayloadTooLong)
    } else {
        Ok(message_of(command, payload, checksum))
    }
}

/// Relates an executable result to a result over sequences.
pub open spec fn same_outcome(r: Result<Vec<u8>, EncodeError>, s: Result<Seq<u8>, EncodeError>) -> bool {
    match r {
        Ok(m) => s == Ok::<Seq<u8>, EncodeError>(m@),
        Err(e) => s == Err::<Seq<u8>, EncodeError>(e),
    }
}

/// Builds the message for `command` and `payload` around a given checksum.
/// The checksum must be the payload's own (`checksum_of(payload@)`): a
/// message framed with any other is one that peers reject. Callers that do
/// not already hold it should use `encode_message`, which computes it.
pub fn frame_message(command: &str, payload: &[u8], checksum: &[u8; 4]) -> (r: Result<
    Vec<u8>,
    EncodeError,
>)
    ensures
        same_outcome(r, frame_outcome(command.spec_bytes(), payload@, checksum@)),
{
    let name = command.as_bytes();
    if name.len() > COMMAND_WIDTH {
        return Err(EncodeError::CommandTooLong);
    }
    if payload.len() > u32::MAX as usize {
        return Err(EncodeError::PayloadTooLong);
    }
    let ghost field = command_field(name@);
    let mut m: Vec<u8> = Vec::new();
    m.push(0x0B);
    m.push(0x11);
    m.push(0x09);
    m.push(0x07);
    assert(m@ =~= magic());
    let mut i: usize = 0;
    while i < COMMAND_WIDTH
        invariant
            i <= COMMAND_WIDTH,
            name@.len() <= COMMAND_WIDTH,
            field == command_field(name@),
            m@ =~= magic() + field.take(i as int),
        decreases COMMAND_WIDTH - i,
    {
        if i < name.len() {
            m.push(name[i]);
        } else {
            m.push(0);
        }
        assert(field.take(i + 1) =~= field.take(i as int).push(field[i as int]));
        i = i + 1;
    }
    assert(field.take(COMMAND_WIDTH as int) =~= field);
    push_u32_le(&mut m, payload.len() as u32);
    m.extend_from_slice(checksum.as_slice());
    m.extend_from_slice(payload);
    assert(m@ =~= message_of(name@, payload@, checksum@));
    Ok(m)
}

/// Builds the message for `command` and `payload`, with the payload's checksum.
pub fn encode_message(payload: &[u8], command: &str) -> (r: Result<Vec<u8>, EncodeError>)
    ensures
        same_outcome(r, frame_outcome(command.spec_bytes(), payload@, checksum_of(payload@))),
{
    let sum = checksum(payload);
    frame_message(command, payload, &sum)
}

/// `s` without its trailing NUL characters.
pub open spec fn trim_nul(s: Seq<char>) -> Seq<char>
    decreases s.len(),
{
    if s.len() > 0 && s.last() == '\0' {
        trim_nul(s.drop_last())
    } else {
        s
    }
}

/// The command name and declared payload length that a buffer's header
/// holds, or `None` when the buffer is too short, carries another magic, or
/// its command field is not valid UTF-8.
pub open spec fn parsed_header(data: Seq<u8>) -> Option<(Seq<char>, nat)> {
    if data.len() < HEADER_LEN || data.take(4) != magic() || !valid_utf8(data.subrange(4, 16)) {
        None
    } else {
        Some(
            (
                trim_nul(decode_utf8(data.subrange(4, 16))),
                u32_from_le(data.subrange(16, 20)) as nat,
            ),
        )
    }
}

/// Relies on `std::str::from_utf8`: it accepts exactly the valid UTF-8 byte
/// sequences, and the text it gives is the characters they encode.
#[verifier::external_body]
fn utf8_text(bytes: &[u8]) -> (r: Option<String>)
    ensures
        r is Some <==> valid_utf8(bytes@),
        r matches Some(s) ==> s@ == decode_utf8(bytes@),
{
    match std::str::from_utf8(bytes) {
        Ok(s) => Some(s.to_owned()),
        Err(_) => None,
    }
}

/// Copies `text` without its trailing NUL characters.
pub fn trim_trailing_nul(text: &str) -> (r: String)
    ensures
        r@ == trim_nul(text@),
{
    let mut k: usize = text.unicode_len();
    assert(text@.take(k as int) =~= text@);
    while k > 0 && text.get_char(k - 1) == '\0'
        invariant
            k <= text@.len(),
            trim_nul(text@) == trim_nul(text@.take(k as int)),
        decreases k,
    {
        assert(text@.take(k as int).drop_last() =~= text@.take(k - 1));
        k = k - 1;
    }
    text.substring_char(0, k).to_owned()
}

/// Reads the header at the start of `data`: the command name, without its
/// NUL padding, and the declared payload length. Neither the checksum nor the
/// presence of the payload is checked.
pub fn parse_message_header(data: &[u8]) -> (r: Option<(String, usize)>)
    ensures
        match r {
            Some((command, length)) => parsed_header(data@) == Some((command@, length as nat)),
            None => parsed_header(data@) is None,
        },
{
    if data.len() < HEADER_LEN {
        return None;
    }
    if data[0] != 0x0B || data[1] != 0x11 || data[2] != 0x09 || data[3] != 0x07 {
        assert(data@.take(4)[0] == data@[0] && data@.take(4)[1] == data@[1]);
        assert(data@.take(4)[2] == data@[2] && data@.take(4)[3] == data@[3]);
        assert(data@.take(4) != magic());
        return None;
    }
    assert(data@.take(4) =~= magic());
    let field = &data[4..16];
    assert(field@ =~= data@.subrange(4, 16));
    let text = match utf8_text(field) {
        Some(t) => t,
        None => {
            return None;
        },
    };
    let command = trim_trailing_nul(text.as_str());
    let length = read_u32_le(data, 16);
    Some((command, length as usize))
}

/// `n` NUL characters.
pub open spec fn nuls(n: nat) -> Seq<char> {
    Seq::new(n, |i: int| '\0')
}

proof fn lemma_encode_utf8_append(a: Seq<char>, b: Seq<char>)
    ensures
        encode_utf8(a + b) == encode_utf8(a) + encode_utf8(b),
    decreases a.len(),
{
    if a.len() == 0 {
        assert(a + b =~= b);
        assert(encode_utf8(a) + encode_utf8(b) =~= encode_utf8(b));
    } else {
        assert((a + b).drop_first() =~= a.drop_first() + b);
        lemma_encode_utf8_append(a.drop_first(), b);
        assert(encode_utf8(a + b) =~= encode_utf8(a) + encode_utf8(b));
    }
}

proof fn lemma_encode_utf8_nuls(n: nat)
    ensures
        encode_utf8(nuls(n)) =~= Seq::new(n, |i: int| 0u8),
    decreases n,
{
    if n > 0 {
        assert(nuls(n).drop_first() =~= nuls((n - 1) as nat));
        lemma_encode_utf8_nuls((n - 1) as nat);
        let z: u32 = 0;
        assert(leading_byte_width_1(z) == 0u8) by (bit_vector)
            requires
                z == 0,
        ;
        assert('\0' as u32 == 0);
        assert(encode_scalar('\0' as u32) =~= seq![0u8]);
    }
}

proof fn lemma_trim_nul_padding(s: Seq<char>, n: nat)
    requires
        s.len() == 0 || s.last() != '\0',
    ensures
        trim_nul(s + nuls(n)) == s,
    decreases n,
{
    if n > 0 {
        assert((s + nuls(n)).drop_last() =~= s + nuls((n - 1) as nat));
        lemma_trim_nul_padding(s, (n - 1) as nat);
    } else {
        assert(s + nuls(n) =~= s);
    }
}

/// Reading the header of an encoded message gives back the command name and
/// the payload's length, for every command name that fits the command field
/// and does not end in a NUL character.
pub proof fn lemma_header_round_trip(command: Seq<char>, payload: Seq<u8>)
    requires
        encode_utf8(command).len() <= COMMAND_WIDTH,
        payload.len() <= u32::MAX,
        command.len() == 0 || command.last() != '\0',
    ensures
        frame_outcome(encode_utf8(command), payload, checksum_of(payload)) == Ok::<
            Seq<u8>,
            EncodeError,
        >(message_of(encode_utf8(command), payload, checksum_of(payload))),
        parsed_header(message_of(encode_utf8(command), payload, checksum_of(payload))) == Some(
            (command, payload.len()),
        ),
{
    let name = encode_utf8(command);
    let m = message_of(name, payload, checksum_of(payload));
    let pad = (COMMAND_WIDTH - name.len()) as nat;
    lemma_encode_utf8_nuls(pad);
    lemma_encode_utf8_append(command, nuls(pad));
    let chars = command + nuls(pad);
    assert(m.subrange(4, 16) =~= encode_utf8(chars));
    encode_utf8_valid_utf8(chars);
    encode_utf8_decode_utf8(chars);
    lemma_trim_nul_padding(command, pad);
    assert(m.take(4) =~= magic());
    let len = payload.len() as u32;
    assert(m.subrange(16, 20) =~= u32_le(len));
    lemma_u32_le_round_trip(len);
}

/// A buffer that does not open with the network's magic has no header,
/// whatever else it holds.
pub proof fn lemma_foreign_magic_rejected(data: Seq<u8>)
    requires
        data.len() < 4 || data.take(4) != magic(),
    ensures
        parsed_header(data) is None,
{
}

/// A buffer shorter than a full header has no header.
pub proof fn lemma_short_buffer_rejected(data: Seq<u8>)
    requires
        data.len() < HEADER_LEN,
    ensures
        parsed_header(data) is None,
{
}

/// Encoding is a function of the command name and the payload: two encodings
/// of the same inputs agree.
pub proof fn lemma_encode_deterministic(
    command: Seq<u8>,
    payload: Seq<u8>,
    r1: Result<Vec<u8>, EncodeError>,
    r2: Result<Vec<u8>, EncodeError>,
)
    requires
        same_outcome(r1, frame_outcome(command, payload, checksum_of(payload))),
        same_outcome(r2, frame_outcome(command, payload, checksum_of(payload))),
    ensures
        r1 is Ok <==> r2 is Ok,
        r1 matches Ok(m1) ==> r2 matches Ok(m2) && m1@ == m2@,
        r1 matches Err(e1) ==> r2 matches Err(e2) && e1 == e2,
{
}

} // verus!
