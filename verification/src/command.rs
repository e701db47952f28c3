//! The request/response protocol spoken with the engine control unit.
//!
//! A request is one of four fixed byte sequences. A response is a frame:
//! a big-endian 16-bit length, a flag byte, `length - 1` payload bytes and a
//! four-byte trailer. The length counts the flag byte and the payload.

use crate::bigendian::{read_u16_be, u16_from_be, u16_to_be};
use vstd::prelude::*;
use vstd::slice::{slice_subrange, slice_to_vec};
use vstd::utf8::{decode_utf8, encode_utf8, encode_utf8_decode_utf8, valid_utf8};

verus! {

/// Flag of a response that answers a query.
pub const FLAG_OK: u8 = 0x00;

/// Flag of a response that carries one row of realtime data.
pub const FLAG_REALTIME_DATA: u8 = 0x01;

/// Number of bytes in every request.
pub const REQUEST_LEN: usize = 7;

/// Number of bytes in front of the payload: the length and the flag.
pub const HEAD_LEN: usize = 3;

/// Number of bytes that follow the payload.
pub const TRAILER_LEN: usize = 4;

/// The queries that the unit answers.
#[derive(Clone, Copy, Debug, PartialEq, Eq)]
pub enum Command {
    /// Asks for the firmware signature.
    Firmware,
    /// Asks for the signature of the serial protocol.
    Comms,
    /// Asks for the version of the monitor.
    Monitor,
    /// Asks for one row of realtime data.
    RealtimeData,
}

impl Command {
    /// The bytes that are sent for this command.
    pub open spec fn request_bytes(self) -> Seq<u8> {
        match self {
            Command::Firmware => seq![0x00u8, 0x01u8, 0x53u8, 0x20u8, 0x60u8, 0xEFu8, 0xC3u8],
            Command::Comms => seq![0x00u8, 0x01u8, 0x51u8, 0xCEu8, 0x6Eu8, 0x8Eu8, 0xEFu8],
            Command::Monitor => seq![0x00u8, 0x01u8, 0x4Du8, 0xDAu8, 0x6Fu8, 0xD2u8, 0xA0u8],
            Command::RealtimeData => seq![0x00u8, 0x01u8, 0x41u8, 0xD3u8, 0xD9u8, 0x9Eu8, 0x8Bu8],
        }
    }

    /// The flag that a response to this command must carry.
    pub open spec fn response_flag(self) -> u8 {
        match self {
            Command::RealtimeData => FLAG_REALTIME_DATA,
            _ => FLAG_OK,
        }
    }

    /// Returns the seven bytes that are sent for this command.
    pub fn request(self) -> (bytes: [u8; 7])
        ensures
            bytes@ == self.request_bytes(),
    {
        let bytes: [u8; 7] = match self {
            Command::Firmware => [0x00, 0x01, 0x53, 0x20, 0x60, 0xEF, 0xC3],
            Command::Comms => [0x00, 0x01, 0x51, 0xCE, 0x6E, 0x8E, 0xEF],
            Command::Monitor => [0x00, 0x01, 0x4D, 0xDA, 0x6F, 0xD2, 0xA0],
            Command::RealtimeData => [0x00, 0x01, 0x41, 0xD3, 0xD9, 0x9E, 0x8B],
        };
        bytes
    }

    /// Returns the flag that a response to this command must carry.
    pub fn expected_flag(self) -> (flag: u8)
        ensures
            flag == self.response_flag(),
    {
        match self {
            Command::RealtimeData => FLAG_REALTIME_DATA,
            _ => FLAG_OK,
        }
    }
}

/// Encodes a request: the fixed bytes of the command.
pub fn encode(command: Command) -> (bytes: Vec<u8>)
    ensures
        bytes@ == command.request_bytes(),
        bytes@.len() == REQUEST_LEN,
{
    let request = command.request();
    let mut bytes: Vec<u8> = Vec::new();
    bytes.extend_from_slice(request.as_slice());
    bytes
}

/// Why a response gave no result.
#[derive(Clone, Copy, Debug, PartialEq, Eq)]
pub enum CommandError {
    /// The link delivered fewer bytes than the frame needs.
    Link,
    /// The flag of the response is not the one that the command expects.
    Rejected,
    /// The frame declares a length of zero, which leaves no room for its flag.
    Malformed,
    /// The payload cannot be read as the value that was asked for.
    Payload,
}

/// A decoded response.
#[derive(Debug, PartialEq, Eq)]
pub struct Frame {
    /// The declared length: the flag byte and the payload.
    pub length: u16,
    /// The flag byte.
    pub flag: u8,
    /// The payload, `length - 1` bytes.
    pub payload: Vec<u8>,
    /// The four bytes behind the payload. They are handed on unchecked.
    pub trailer: [u8; 4],
}

impl Frame {
    /// A frame holds its flag, so its length is at least one, and the payload
    /// fills the rest of it.
    pub open spec fn wf(&self) -> bool {
        self.length >= 1 && self.payload@.len() == self.length - 1
    }

    /// The frame is the one that starts the stream.
    pub open spec fn starts(&self, stream: Seq<u8>) -> bool {
        &&& self.length == declared_length(stream)
        &&& self.flag == stream[2]
        &&& self.payload@ == frame_payload(stream)
        &&& self.trailer@ == frame_trailer(stream)
    }
}

/// The length that the first two bytes of a stream declare.
pub open spec fn declared_length(stream: Seq<u8>) -> int {
    u16_from_be(stream[0], stream[1]) as int
}

/// The number of bytes that the frame at the start of a stream occupies.
pub open spec fn frame_size(stream: Seq<u8>) -> int {
    HEAD_LEN + (declared_length(stream) - 1) + TRAILER_LEN
}

/// The payload of the frame at the start of a stream.
pub open spec fn frame_payload(stream: Seq<u8>) -> Seq<u8> {
    stream.subrange(HEAD_LEN as int, HEAD_LEN + declared_length(stream) - 1)
}

/// The trailer of the frame at the start of a stream.
pub open spec fn frame_trailer(stream: Seq<u8>) -> Seq<u8> {
    stream.subrange(frame_size(stream) - TRAILER_LEN, frame_size(stream))
}

/// What the first three bytes of a stream say against a frame, if anything.
/// The flag is looked at before the length.
pub open spec fn head_fault(stream: Seq<u8>, expected_flag: u8) -> Option<CommandError> {
    if stream.len() < HEAD_LEN {
        Some(CommandError::Link)
    } else if stream[2] != expected_flag {
        Some(CommandError::Rejected)
    } else if declared_length(stream) == 0 {
        Some(CommandError::Malformed)
    } else {
        None
    }
}

/// What a stream says against a frame at its start, if anything.
pub open spec fn frame_fault(stream: Seq<u8>, expected_flag: u8) -> Option<CommandError> {
    match head_fault(stream, expected_flag) {
        Some(fault) => Some(fault),
        None => if stream.len() < frame_size(stream) {
            Some(CommandError::Link)
        } else {
            None
        },
    }
}

/// The payload of the response, or what is wrong with its frame.
pub open spec fn payload_of(response: Seq<u8>, expected_flag: u8) -> Result<Seq<u8>, CommandError> {
    match frame_fault(response, expected_flag) {
        Some(fault) => Err(fault),
        None => Ok(frame_payload(response)),
    }
}

/// The text that a payload holds, if it is UTF-8.
pub open spec fn text_of(payload: Seq<u8>) -> Result<Seq<char>, CommandError> {
    if valid_utf8(payload) {
        Ok(decode_utf8(payload))
    } else {
        Err(CommandError::Payload)
    }
}

/// A payload without its control bytes, those below `0x20`.
pub open spec fn printable(payload: Seq<u8>) -> Seq<u8> {
    payload.filter(|byte: u8| byte >= 0x20)
}

/// The number that a payload starts with, if it has the two bytes of one.
pub open spec fn version_of(payload: Seq<u8>) -> Result<u16, CommandError> {
    if payload.len() >= 2 {
        Ok(u16_from_be(payload[0], payload[1]))
    } else {
        Err(CommandError::Payload)
    }
}

/// What a response to the firmware query says.
pub open spec fn firmware_signature_of(response: Seq<u8>) -> Result<Seq<char>, CommandError> {
    match payload_of(response, FLAG_OK) {
        Ok(payload) => text_of(payload),
        Err(fault) => Err(fault),
    }
}

/// What a response to the comms query says.
pub open spec fn comms_signature_of(response: Seq<u8>) -> Result<Seq<char>, CommandError> {
    match payload_of(response, FLAG_OK) {
        Ok(payload) => text_of(printable(payload)),
        Err(fault) => Err(fault),
    }
}

/// What a response to the monitor query says.
pub open spec fn monitor_version_of(response: Seq<u8>) -> Result<u16, CommandError> {
    match payload_of(response, FLAG_OK) {
        Ok(payload) => version_of(payload),
        Err(fault) => Err(fault),
    }
}

/// Calls `String::from_utf8`, which turns a byte vector into the string that
/// has those bytes, and fails exactly when the bytes are not UTF-8.
#[verifier::external_body]
fn string_from_utf8(bytes: Vec<u8>) -> (text: Option<String>)
    ensures
        text is Some <==> valid_utf8(bytes@),
        text matches Some(s) ==> encode_utf8(s@) == bytes@,
{
    match String::from_utf8(bytes) {
        Ok(s) => Some(s),
        Err(_) => None,
    }
}

/// Reads the head of a frame and returns the length that it declares.
fn read_head(stream: &[u8], expected_flag: u8) -> (r: Result<u16, CommandError>)
    ensures
        match head_fault(stream@, expected_flag) {
            Some(fault) => r == Err::<u16, CommandError>(fault),
            None => r == Ok::<u16, CommandError>(declared_length(stream@) as u16),
        },
{
    if stream.len() < HEAD_LEN {
        return Err(CommandError::Link);
    }
    if stream[2] != expected_flag {
        return Err(CommandError::Rejected);
    }
    let length = read_u16_be(stream);
    if length == 0 {
        return Err(CommandError::Malformed);
    }
    Ok(length)
}

/// Says how many bytes of a frame are still to be read once its first three
/// bytes are there: the payload and the trailer.
///
/// Fewer than three bytes are a link failure, a flag other than the expected
/// one is a rejection, and a declared length of zero is malformed.
pub fn remaining_len(stream: &[u8], expected_flag: u8) -> (r: Result<usize, CommandError>)
    ensures
        match head_fault(stream@, expected_flag) {
            Some(fault) => r == Err::<usize, CommandError>(fault),
            None => r == Ok::<usize, CommandError>(
                (frame_size(stream@) - HEAD_LEN) as usize,
            ),
        },
{
    match read_head(stream, expected_flag) {
        Err(fault) => Err(fault),
        Ok(length) => {
            let payload_len: usize = (length - 1) as usize;
            Ok(payload_len + TRAILER_LEN)
        },
    }
}

/// Decodes the frame at the start of a stream and says how many bytes of the
/// stream it occupies.
///
/// The steps are taken in this order. Three bytes are needed for the head; a
/// stream without them is a link failure. A flag other than the expected one
/// is a rejection, whatever follows it. A declared length of zero is
/// malformed. Then `length - 1` bytes of payload and four bytes of trailer are
/// needed, and a stream that ends before them is a link failure. The trailer
/// is returned as it came.
pub fn decode(stream: &[u8], expected_flag: u8) -> (r: Result<(Frame, usize), CommandError>)
    ensures
        match frame_fault(stream@, expected_flag) {
            Some(fault) => r matches Err(e) && e == fault,
            None => r matches Ok((frame, consumed)) && frame.wf() && frame.starts(stream@)
                && consumed == frame_size(stream@),
        },
        stream@.len() >= HEAD_LEN && stream@[2] != expected_flag ==> (r matches Err(e) && e
            == CommandError::Rejected),
        r matches Ok((frame, consumed)) ==> consumed == HEAD_LEN + (frame.length - 1) + TRAILER_LEN
            && consumed <= stream@.len(),
{
    let length = match read_head(stream, expected_flag) {
        Err(fault) => {
            return Err(fault);
        },
        Ok(length) => length,
    };
    let payload_len: usize = (length - 1) as usize;
    let trailer_at: usize = HEAD_LEN + payload_len;
    let size: usize = trailer_at + TRAILER_LEN;
    if stream.len() < size {
        return Err(CommandError::Link);
    }
    let payload = slice_to_vec(slice_subrange(stream, HEAD_LEN, trailer_at));
    let trailer: [u8; 4] = [
        stream[trailer_at],
        stream[trailer_at + 1],
        stream[trailer_at + 2],
        stream[trailer_at + 3],
    ];
    assert(trailer@ =~= frame_trailer(stream@));
    Ok((Frame { length, flag: expected_flag, payload, trailer }, size))
}

/// Decodes a response and hands out its payload.
fn payload(response: &[u8], expected_flag: u8) -> (r: Result<Vec<u8>, CommandError>)
    ensures
        match payload_of(response@, expected_flag) {
            Ok(bytes) => r matches Ok(v) && v@ == bytes,
            Err(fault) => r matches Err(e) && e == fault,
        },
{
    match decode(response, expected_flag) {
        Ok((frame, _)) => Ok(frame.payload),
        Err(fault) => Err(fault),
    }
}

/// Reads a payload as UTF-8 text.
fn text(payload: Vec<u8>) -> (r: Result<String, CommandError>)
    ensures
        match text_of(payload@) {
            Ok(chars) => r matches Ok(s) && s@ == chars,
            Err(fault) => r matches Err(e) && e == fault,
        },
{
    match string_from_utf8(payload) {
        Some(s) => {
            proof {
                encode_utf8_decode_utf8(s@);
            }
            Ok(s)
        },
        None => Err(CommandError::Payload),
    }
}

/// Copies a payload without its control bytes.
fn strip_control(payload: &Vec<u8>) -> (kept: Vec<u8>)
    ensures
        kept@ == printable(payload@),
{
    let mut kept: Vec<u8> = Vec::new();
    let mut i: usize = 0;
    while i < payload.len()
        invariant
            i <= payload.len(),
            kept@ == printable(payload@.take(i as int)),
        decreases payload.len() - i,
    {
        let byte = payload[i];
        proof {
            let seen = payload@.take(i as int);
            assert(payload@.take(i + 1) =~= seen.push(byte));
            seen.lemma_filter_push(byte, |byte: u8| byte >= 0x20);
        }
        if byte >= 0x20 {
            kept.push(byte);
        }
        i += 1;
    }
    proof {
        assert(payload@.take(i as int) =~= payload@);
    }
    kept
}

/// Reads the response to the firmware query: a frame with the flag
/// [`FLAG_OK`] whose payload is the signature as UTF-8 text.
///
/// The text is the whole payload: padding that the unit sends stays in it.
/// A payload that is not UTF-8 gives [`CommandError::Payload`].
pub fn signature_firmware(response: &[u8]) -> (r: Result<String, CommandError>)
    ensures
        match firmware_signature_of(response@) {
            Ok(chars) => r matches Ok(s) && s@ == chars,
            Err(fault) => r matches Err(e) && e == fault,
        },
{
    match payload(response, FLAG_OK) {
        Ok(bytes) => text(bytes),
        Err(fault) => Err(fault),
    }
}

/// Reads the response to the comms query: a frame with the flag [`FLAG_OK`]
/// whose payload, once the bytes below `0x20` are taken out, is the signature
/// as UTF-8 text.
pub fn signature_comms(response: &[u8]) -> (r: Result<String, CommandError>)
    ensures
        match comms_signature_of(response@) {
            Ok(chars) => r matches Ok(s) && s@ == chars,
            Err(fault) => r matches Err(e) && e == fault,
        },
{
    match payload(response, FLAG_OK) {
        Ok(bytes) => text(strip_control(&bytes)),
        Err(fault) => Err(fault),
    }
}

/// Reads the response to the monitor query: a frame with the flag
/// [`FLAG_OK`] whose payload starts with the version, a big-endian 16-bit
/// number. A payload of fewer than two bytes gives [`CommandError::Payload`].
pub fn monitor_version(response: &[u8]) -> (r: Result<u16, CommandError>)
    ensures
        r == monitor_version_of(response@),
{
    match payload(response, FLAG_OK) {
        Ok(bytes) => {
            if bytes.len() >= 2 {
                Ok(read_u16_be(bytes.as_slice()))
            } else {
                Err(CommandError::Payload)
            }
        },
        Err(fault) => Err(fault),
    }
}

/// Reads the response to the realtime query: a frame with the flag
/// [`FLAG_REALTIME_DATA`] whose payload is one row, returned as it came.
pub fn realtime_data(response: &[u8]) -> (r: Result<Vec<u8>, CommandError>)
    ensures
        match payload_of(response@, FLAG_REALTIME_DATA) {
            Ok(row) => r matches Ok(v) && v@ == row,
            Err(fault) => r matches Err(e) && e == fault,
        },
{
    payload(response, FLAG_REALTIME_DATA)
}

/// The bytes of a frame: the length, the flag, the payload and the trailer.
pub open spec fn frame_bytes(length: u16, flag: u8, payload: Seq<u8>, trailer: Seq<u8>) -> Seq<u8> {
    u16_to_be(length) + seq![flag] + payload + trailer
}

/// Decoding reads a frame as it was laid out, and no byte more. Take any
/// payload of fewer than 65535 bytes and any four trailer bytes, with the
/// length that counts the flag and the payload in front, and let anything
/// follow: the frame is accepted, it occupies the three head bytes, the
/// payload and the four trailer bytes, and the payload and trailer that come
/// out are the ones that went in, whatever they hold.
pub proof fn lemma_decode_frame(flag: u8, payload: Seq<u8>, trailer: Seq<u8>, rest: Seq<u8>)
    requires
        payload.len() < 0xFFFF,
        trailer.len() == TRAILER_LEN,
    ensures
        ({
            let stream = frame_bytes((payload.len() + 1) as u16, flag, payload, trailer) + rest;
            &&& frame_fault(stream, flag) is None
            &&& declared_length(stream) == payload.len() + 1
            &&& frame_size(stream) == HEAD_LEN + payload.len() + TRAILER_LEN
            &&& frame_payload(stream) == payload
            &&& frame_trailer(stream) == trailer
        }),
{
    let length = (payload.len() + 1) as u16;
    let stream = frame_bytes(length, flag, payload, trailer) + rest;
}

/// A frame is decoded from its own bytes alone: a stream that agrees with an
/// accepted one on the bytes of its frame is accepted as well and yields the
/// same frame.
pub proof fn lemma_decode_reads_frame_only(stream: Seq<u8>, other: Seq<u8>, expected_flag: u8)
    requires
        frame_fault(stream, expected_flag) is None,
        other.len() >= frame_size(stream),
        other.take(frame_size(stream)) == stream.take(frame_size(stream)),
    ensures
        frame_fault(other, expected_flag) is None,
        declared_length(other) == declared_length(stream),
        frame_size(other) == frame_size(stream),
        frame_payload(other) == frame_payload(stream),
        frame_trailer(other) == frame_trailer(stream),
{
    let size = frame_size(stream);
    assert forall|i: int| 0 <= i < size implies other[i] == stream[i] by {
        assert(other.take(size)[i] == stream.take(size)[i]);
    }
}

/// A response whose flag is not the expected one yields no payload: the frame
/// is rejected, whatever length it declares and whatever follows, and each
/// query reports the rejection.
pub proof fn lemma_flag_mismatch_rejects(stream: Seq<u8>, expected_flag: u8)
    requires
        stream.len() >= HEAD_LEN,
        stream[2] != expected_flag,
    ensures
        frame_fault(stream, expected_flag) == Some(CommandError::Rejected),
        payload_of(stream, expected_flag) == Err::<Seq<u8>, CommandError>(CommandError::Rejected),
        expected_flag == FLAG_OK ==> {
            &&& firmware_signature_of(stream) == Err::<Seq<char>, CommandError>(
                CommandError::Rejected,
            )
            &&& comms_signature_of(stream) == Err::<Seq<char>, CommandError>(CommandError::Rejected)
            &&& monitor_version_of(stream) == Err::<u16, CommandError>(CommandError::Rejected)
        },
{
}

/// Reading on as [`remaining_len`] says completes the frame: when the three
/// head bytes are accepted and as many bytes follow as the head asks for, the
/// whole is one frame with nothing left over.
pub proof fn lemma_remaining_completes(head: Seq<u8>, rest: Seq<u8>, expected_flag: u8)
    requires
        head.len() == HEAD_LEN,
        head_fault(head, expected_flag) is None,
        rest.len() == frame_size(head) - HEAD_LEN,
    ensures
        frame_fault(head + rest, expected_flag) is None,
        frame_size(head + rest) == (head + rest).len(),
{
    let stream = head + rest;
}

} // verus!
