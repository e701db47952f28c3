//! The binary log format and the naming of log files.
//!
//! A log file starts with a header of 81 bytes: eight bytes of magic and
//! version, the time of creation as a big-endian 32-bit count of seconds, the
//! firmware signature padded with spaces to 63 bytes, four bytes that give
//! the offset of the data (81) and the row size as a big-endian 16-bit
//! number. Rows of that size follow, and among them markers of five bytes.

use crate::bigendian::{
    lemma_u16_be_roundtrip, lemma_u32_be_roundtrip, read_u16_be, read_u32_be, u16_from_be,
    u16_to_be, u32_from_be, u32_to_be, write_u16_be, write_u32_be,
};
use vstd::prelude::*;
use vstd::slice::{slice_subrange, slice_to_vec};
use vstd::string::StringExecFns;
use vstd::utf8::{
    char_is_scalar, char_u32_cast, decode_utf8, encode_scalar, encode_utf8,
    encode_utf8_decode_utf8, encode_utf8_valid_utf8, valid_utf8,
};

verus! {

/// Number of bytes in the header of a log file.
pub const HEADER_LEN: usize = 81;

/// Number of bytes that the header keeps for the signature.
pub const SIGNATURE_LEN: usize = 63;

/// The byte that fills the signature field behind the signature: a space.
pub const PAD: u8 = 0x20;

/// The largest row size that the header can state.
pub const MAX_ROW_SIZE: usize = 0xFFFF;

/// Number of bytes in a marker.
pub const MARKER_LEN: usize = 5;

/// The first byte of a marker.
pub const MARKER_TAG: u8 = 0x02;

/// The form in which the time of creation goes into the name of a log file,
/// in the notation of `strftime`: year, month and day, an underscore, then
/// hour, minute and second.
pub const STAMP_FORMAT: &'static str = "%Y%m%d_%H%M%S";

/// Why no header can be built.
#[derive(Clone, Copy, Debug, PartialEq, Eq)]
pub enum FormatError {
    /// The signature has more than 63 bytes.
    SignatureTooLong,
    /// The row size does not fit in 16 bits.
    RowSizeTooLarge,
}

/// The fields that a header states.
#[derive(Debug, PartialEq, Eq)]
pub struct HeaderFields {
    /// The time of creation, in seconds.
    pub timestamp: u32,
    /// The signature, without the spaces that fill its field.
    pub signature: Vec<u8>,
    /// The number of bytes in a row.
    pub row_size: u16,
}

/// What is needed to start a log file: its name and its first bytes.
#[derive(Debug, PartialEq, Eq)]
pub struct LogStart {
    /// The name of the file to create.
    pub name: String,
    /// The header to write at its start.
    pub header: Vec<u8>,
}

/// What a log writer is set up with.
pub struct MLogView {
    /// The directory that the log files go to.
    pub path: Seq<char>,
    /// What the names of the log files start with.
    pub prefix: Seq<char>,
    /// The firmware signature that the headers carry.
    pub signature: Seq<char>,
    /// The number of bytes in a row.
    pub row_size: usize,
}

/// The settings that all log files of a run share.
pub struct MLog {
    path: String,
    prefix: String,
    signature: String,
    row_size: usize,
}

impl View for MLog {
    type V = MLogView;

    closed spec fn view(&self) -> MLogView {
        MLogView {
            path: self.path@,
            prefix: self.prefix@,
            signature: self.signature@,
            row_size: self.row_size,
        }
    }
}

/// The eight bytes that open a log file: the format's name and its version.
pub open spec fn magic() -> Seq<u8> {
    seq![0x46u8, 0x52u8, 0x44u8, 0x00u8, 0x00u8, 0x00u8, 0x00u8, 0x01u8]
}

/// The four bytes that give the offset of the data: 81, the header's length.
pub open spec fn data_index() -> Seq<u8> {
    seq![0x00u8, 0x00u8, 0x00u8, 0x51u8]
}

/// A signature filled up with spaces to the width of its field.
pub open spec fn padded(signature: Seq<u8>) -> Seq<u8> {
    signature + Seq::new((SIGNATURE_LEN - signature.len()) as nat, |i: int| PAD)
}

/// The header for a signature of at most 63 bytes.
pub open spec fn header_bytes(signature: Seq<u8>, timestamp: u32, row_size: u16) -> Seq<u8> {
    magic() + u32_to_be(timestamp) + padded(signature) + data_index() + u16_to_be(row_size)
}

/// What stands against a header for this signature and row size, if anything.
/// The signature is looked at first.
pub open spec fn header_fault(signature: Seq<u8>, row_size: usize) -> Option<FormatError> {
    if signature.len() > SIGNATURE_LEN {
        Some(FormatError::SignatureTooLong)
    } else if row_size > MAX_ROW_SIZE {
        Some(FormatError::RowSizeTooLarge)
    } else {
        None
    }
}

/// The marker for a time: the tag and the time as a big-endian number.
pub open spec fn marker_bytes(timestamp: u32) -> Seq<u8> {
    seq![MARKER_TAG] + u32_to_be(timestamp)
}

/// The seconds of a time since the epoch as the header stores them: cut to
/// their low 32 bits.
pub open spec fn truncated_seconds(seconds: i64) -> u32 {
    (seconds as int % 0x1_0000_0000) as u32
}

/// A signature field without the spaces at its end.
pub open spec fn trimmed(field: Seq<u8>) -> Seq<u8>
    decreases field.len(),
{
    if field.len() > 0 && field.last() == PAD {
        trimmed(field.drop_last())
    } else {
        field
    }
}

/// The bytes start with a header: they are long enough, and the magic and the
/// data offset are in their places.
pub open spec fn is_header(bytes: Seq<u8>) -> bool {
    &&& bytes.len() >= HEADER_LEN
    &&& bytes.subrange(0, 8) == magic()
    &&& bytes.subrange(75, 79) == data_index()
}

/// The time of creation that a header states.
pub open spec fn header_timestamp(bytes: Seq<u8>) -> u32 {
    u32_from_be(bytes[8], bytes[9], bytes[10], bytes[11])
}

/// The signature that a header states, without its padding.
pub open spec fn header_signature(bytes: Seq<u8>) -> Seq<u8> {
    trimmed(bytes.subrange(12, 75))
}

/// The row size that a header states.
pub open spec fn header_row_size(bytes: Seq<u8>) -> u16 {
    u16_from_be(bytes[79], bytes[80])
}

/// The character of a decimal digit.
pub open spec fn digit_char(digit: nat) -> char {
    if digit == 0 {
        '0'
    } else if digit == 1 {
        '1'
    } else if digit == 2 {
        '2'
    } else if digit == 3 {
        '3'
    } else if digit == 4 {
        '4'
    } else if digit == 5 {
        '5'
    } else if digit == 6 {
        '6'
    } else if digit == 7 {
        '7'
    } else if digit == 8 {
        '8'
    } else {
        '9'
    }
}

/// A number in decimal, without leading zeros.
pub open spec fn decimal(n: nat) -> Seq<char>
    decreases n,
{
    if n < 10 {
        seq![digit_char(n)]
    } else {
        decimal(n / 10).push(digit_char(n % 10))
    }
}

/// The name of the log file of one split: the directory, the prefix, the
/// time of creation as text, the session and the split.
pub open spec fn file_name_of(
    path: Seq<char>,
    prefix: Seq<char>,
    stamp: Seq<char>,
    session_id: u16,
    split_id: u16,
) -> Seq<char> {
    path + seq!['/'] + prefix + seq!['_'] + stamp + seq!['_', 's'] + decimal(session_id as nat)
        + seq!['_', 'r', 'u', 'n'] + decimal(split_id as nat) + seq!['.', 'f', 'r', 'd']
}

/// Builds the header of a log file.
///
/// The signature is stored as its UTF-8 bytes, filled up with spaces to 63
/// bytes. A signature of more than 63 bytes and a row size above 65535 are
/// refused; nothing is cut off.
pub fn build_header(signature: &str, timestamp: u32, row_size: usize) -> (r: Result<
    Vec<u8>,
    FormatError,
>)
    ensures
        match header_fault(encode_utf8(signature@), row_size) {
            Some(fault) => r matches Err(e) && e == fault,
            None => r matches Ok(header) && header@ == header_bytes(
                encode_utf8(signature@),
                timestamp,
                row_size as u16,
            ) && header@.len() == HEADER_LEN,
        },
{
    let text = signature.as_bytes();
    if text.len() > SIGNATURE_LEN {
        return Err(FormatError::SignatureTooLong);
    }
    if row_size > MAX_ROW_SIZE {
        return Err(FormatError::RowSizeTooLarge);
    }
    let mut header: Vec<u8> = Vec::with_capacity(HEADER_LEN);
    let opening: [u8; 8] = [0x46, 0x52, 0x44, 0x00, 0x00, 0x00, 0x00, 0x01];
    header.extend_from_slice(opening.as_slice());
    header.extend_from_slice(write_u32_be(timestamp).as_slice());
    header.extend_from_slice(text);
    let mut filled: usize = text.len();
    while filled < SIGNATURE_LEN
        invariant
            text@.len() <= filled <= SIGNATURE_LEN,
            header@ == magic() + u32_to_be(timestamp) + text@ + Seq::new(
                (filled - text@.len()) as nat,
                |i: int| PAD,
            ),
        decreases SIGNATURE_LEN - filled,
    {
        header.push(PAD);
        filled += 1;
    }
    let offset: [u8; 4] = [0x00, 0x00, 0x00, 0x51];
    header.extend_from_slice(offset.as_slice());
    header.extend_from_slice(write_u16_be(row_size as u16).as_slice());
    Ok(header)
}

/// Builds a marker: the record that notes an event at the given time among
/// the rows of a log file.
pub fn build_marker(timestamp: u32) -> (marker: Vec<u8>)
    ensures
        marker@ == marker_bytes(timestamp),
        marker@.len() == MARKER_LEN,
{
    let mut marker: Vec<u8> = Vec::with_capacity(MARKER_LEN);
    marker.push(MARKER_TAG);
    marker.extend_from_slice(write_u32_be(timestamp).as_slice());
    marker
}

/// Cuts a count of seconds since the epoch to its low 32 bits.
pub fn timestamp_of(seconds: i64) -> (timestamp: u32)
    ensures
        timestamp == truncated_seconds(seconds),
{
    if seconds >= 0 {
        (seconds % 0x1_0000_0000) as u32
    } else {
        let below: i64 = -(seconds + 1);
        (0xFFFF_FFFF - below % 0x1_0000_0000) as u32
    }
}

/// Reads the header at the start of a log file.
///
/// It gives nothing when there are fewer than 81 bytes, or when the magic or
/// the data offset is not the one of this format. Spaces at the end of the
/// signature field count as padding, so a signature that ended in spaces
/// comes back without them.
pub fn parse_header(bytes: &[u8]) -> (r: Option<HeaderFields>)
    ensures
        match r {
            Some(fields) => {
                &&& is_header(bytes@)
                &&& fields.timestamp == header_timestamp(bytes@)
                &&& fields.signature@ == header_signature(bytes@)
                &&& fields.row_size == header_row_size(bytes@)
            },
            None => !is_header(bytes@),
        },
{
    if bytes.len() < HEADER_LEN {
        return None;
    }
    let opening_fits = bytes[0] == 0x46 && bytes[1] == 0x52 && bytes[2] == 0x44 && bytes[3] == 0x00
        && bytes[4] == 0x00 && bytes[5] == 0x00 && bytes[6] == 0x00 && bytes[7] == 0x01;
    let offset_fits = bytes[75] == 0x00 && bytes[76] == 0x00 && bytes[77] == 0x00 && bytes[78]
        == 0x51;
    proof {
        let opening = bytes@.subrange(0, 8);
        let offset = bytes@.subrange(75, 79);
        if opening_fits {
            assert(opening =~= magic());
        } else {
            assert(opening[0] == bytes@[0] && opening[1] == bytes@[1] && opening[2] == bytes@[2]
                && opening[3] == bytes@[3] && opening[4] == bytes@[4] && opening[5] == bytes@[5]
                && opening[6] == bytes@[6] && opening[7] == bytes@[7]);
        }
        if offset_fits {
            assert(offset =~= data_index());
        } else {
            assert(offset[0] == bytes@[75] && offset[1] == bytes@[76] && offset[2] == bytes@[77]
                && offset[3] == bytes@[78]);
        }
    }
    if !opening_fits || !offset_fits {
        return None;
    }
    let timestamp = read_u32_be(slice_subrange(bytes, 8, 12));
    let row_size = read_u16_be(slice_subrange(bytes, 79, 81));
    let mut end: usize = 12 + SIGNATURE_LEN;
    while end > 12 && bytes[end - 1] == PAD
        invariant
            12 <= end <= 75,
            bytes@.len() >= HEADER_LEN,
            trimmed(bytes@.subrange(12, end as int)) == header_signature(bytes@),
        decreases end,
    {
        proof {
            let field = bytes@.subrange(12, end as int);
            assert(field.last() == bytes@[end - 1]);
            assert(field.drop_last() =~= bytes@.subrange(12, end - 1));
        }
        end -= 1;
    }
    proof {
        let field = bytes@.subrange(12, end as int);
        if end > 12 {
            assert(field.last() == bytes@[end - 1]);
        }
        assert(trimmed(field) == field);
    }
    let signature = slice_to_vec(slice_subrange(bytes, 12, end));
    Some(HeaderFields { timestamp, signature, row_size })
}

/// The text of one decimal digit.
fn digit_text(digit: u16) -> (text: &'static str)
    requires
        digit < 10,
    ensures
        text@ == seq![digit_char(digit as nat)],
{
    proof {
        reveal_strlit("0");
        reveal_strlit("1");
        reveal_strlit("2");
        reveal_strlit("3");
        reveal_strlit("4");
        reveal_strlit("5");
        reveal_strlit("6");
        reveal_strlit("7");
        reveal_strlit("8");
        reveal_strlit("9");
    }
    let text = match digit {
        0 => "0",
        1 => "1",
        2 => "2",
        3 => "3",
        4 => "4",
        5 => "5",
        6 => "6",
        7 => "7",
        8 => "8",
        _ => "9",
    };
    assert(text@ =~= seq![digit_char(digit as nat)]);
    text
}

/// Appends a number in decimal.
fn push_decimal(out: &mut String, n: u16)
    ensures
        final(out)@ == old(out)@ + decimal(n as nat),
    decreases n,
{
    if n >= 10 {
        push_decimal(out, n / 10);
    }
    out.append(digit_text(n % 10));
    assert(out@ =~= old(out)@ + decimal(n as nat));
}

impl MLog {
    /// Keeps the settings. Nothing is checked here: a signature or a row size
    /// that no header can hold is refused when a header is asked for.
    pub fn init(path: &String, prefix: &String, signature: &String, row_size: usize) -> (log: MLog)
        ensures
            log@ == (MLogView { path: path@, prefix: prefix@, signature: signature@, row_size }),
    {
        MLog {
            path: path.clone(),
            prefix: prefix.clone(),
            signature: signature.clone(),
            row_size,
        }
    }

    /// Says how to start the log file of the split `ids`, a session and a
    /// split in it, at the given time. The time comes twice: as the text that
    /// goes into the name, and as seconds since the epoch for the header.
    ///
    /// The file is not created here. It fails when no header can be built.
    pub fn open(&self, ids: (u16, u16), stamp: &str, seconds: i64) -> (r: Result<
        LogStart,
        FormatError,
    >)
        ensures
            match header_fault(encode_utf8(self@.signature), self@.row_size) {
                Some(fault) => r matches Err(e) && e == fault,
                None => r matches Ok(start) && start.name@ == file_name_of(
                    self@.path,
                    self@.prefix,
                    stamp@,
                    ids.0,
                    ids.1,
                ) && start.header@ == header_bytes(
                    encode_utf8(self@.signature),
                    truncated_seconds(seconds),
                    self@.row_size as u16,
                ),
            },
    {
        match self.create_frd_header(seconds) {
            Ok(header) => Ok(LogStart { name: self.file_name(ids, stamp), header }),
            Err(fault) => Err(fault),
        }
    }

    /// Builds the marker for an event at the given time.
    pub fn marker(timestamp: u32) -> (marker: Vec<u8>)
        ensures
            marker@ == marker_bytes(timestamp),
            marker@.len() == MARKER_LEN,
    {
        build_marker(timestamp)
    }

    /// Builds the header for a file created at the given time, in seconds
    /// since the epoch, of which the low 32 bits are stored.
    pub fn create_frd_header(&self, seconds: i64) -> (r: Result<Vec<u8>, FormatError>)
        ensures
            match header_fault(encode_utf8(self@.signature), self@.row_size) {
                Some(fault) => r matches Err(e) && e == fault,
                None => r matches Ok(header) && header@ == header_bytes(
                    encode_utf8(self@.signature),
                    truncated_seconds(seconds),
                    self@.row_size as u16,
                ) && header@.len() == HEADER_LEN,
            },
    {
        build_header(self.signature.as_str(), timestamp_of(seconds), self.row_size)
    }

    /// Builds the name of the log file of the split `ids`, created at the
    /// time that `stamp` says.
    pub fn file_name(&self, ids: (u16, u16), stamp: &str) -> (name: String)
        ensures
            name@ == file_name_of(self@.path, self@.prefix, stamp@, ids.0, ids.1),
    {
        proof {
            reveal_strlit("/");
            reveal_strlit("_");
            reveal_strlit("_s");
            reveal_strlit("_run");
            reveal_strlit(".frd");
        }
        let mut name = self.path.clone();
        name.append("/");
        name.append(self.prefix.as_str());
        name.append("_");
        name.append(stamp);
        name.append("_s");
        push_decimal(&mut name, ids.0);
        name.append("_run");
        push_decimal(&mut name, ids.1);
        name.append(".frd");
        assert(name@ =~= file_name_of(self@.path, self@.prefix, stamp@, ids.0, ids.1));
        name
    }
}

/// Spaces that are put behind a signature are taken off again with those
/// that the signature ended in.
proof fn lemma_trimmed_padding(signature: Seq<u8>, count: nat)
    ensures
        trimmed(signature + Seq::new(count, |i: int| PAD)) == trimmed(signature),
    decreases count,
{
    let field = signature + Seq::new(count, |i: int| PAD);
    if count == 0 {
        assert(field =~= signature);
    } else {
        let shorter = signature + Seq::new((count - 1) as nat, |i: int| PAD);
        assert(field.last() == PAD);
        assert(field.drop_last() =~= shorter);
        lemma_trimmed_padding(signature, (count - 1) as nat);
    }
}

/// A header gives back what it was built from. Whatever follows the header
/// in the file, reading it yields the timestamp and the row size as they
/// were given, and the signature without the spaces at its end; a signature
/// that does not end in a space comes back unchanged.
pub proof fn lemma_header_roundtrip(
    signature: Seq<u8>,
    timestamp: u32,
    row_size: u16,
    rest: Seq<u8>,
)
    requires
        signature.len() <= SIGNATURE_LEN,
    ensures
        header_bytes(signature, timestamp, row_size).len() == HEADER_LEN,
        is_header(header_bytes(signature, timestamp, row_size) + rest),
        header_timestamp(header_bytes(signature, timestamp, row_size) + rest) == timestamp,
        header_signature(header_bytes(signature, timestamp, row_size) + rest) == trimmed(signature),
        header_row_size(header_bytes(signature, timestamp, row_size) + rest) == row_size,
        signature.len() == 0 || signature.last() != PAD ==> trimmed(signature) == signature,
{
    let file = header_bytes(signature, timestamp, row_size) + rest;
    lemma_u32_be_roundtrip(timestamp);
    lemma_u16_be_roundtrip(row_size);
    assert(file.subrange(0, 8) =~= magic());
    assert(file.subrange(75, 79) =~= data_index());
    assert(file.subrange(12, 75) =~= padded(signature));
    lemma_trimmed_padding(signature, (SIGNATURE_LEN - signature.len()) as nat);
}

/// The encoding of a text ends in a space only where the text does.
proof fn lemma_encoding_ends_in_space(text: Seq<char>)
    requires
        text.len() > 0,
    ensures
        encode_utf8(text).len() > 0,
        encode_utf8(text).last() == PAD ==> text.last() == ' ',
    decreases text.len(),
{
    let first = text[0] as u32;
    let rest = text.drop_first();
    char_is_scalar(text[0]);
    if rest.len() == 0 {
        assert(encode_utf8(rest) =~= Seq::<u8>::empty());
        assert(encode_utf8(text) =~= encode_scalar(first));
        assert((first & 0x7F) as u8 == 0x20u8 && first <= 0x7F ==> first == 0x20) by (bit_vector);
        assert(0x80u8 | (first & 0x3F) as u8 != 0x20u8) by (bit_vector);
        if encode_utf8(text).last() == PAD {
            char_u32_cast(text[0], first);
            char_u32_cast(' ', 0x20u32);
        }
    } else {
        lemma_encoding_ends_in_space(rest);
        assert(encode_utf8(text).last() == encode_utf8(rest).last());
        assert(rest.last() == text.last());
    }
}

/// A header gives back the text of its signature. For a signature that fits
/// the field and does not end in a space, the signature that is read from the
/// header is UTF-8 and decodes to the text that the header was built from.
pub proof fn lemma_header_keeps_text(
    signature: Seq<char>,
    timestamp: u32,
    row_size: u16,
    rest: Seq<u8>,
)
    requires
        encode_utf8(signature).len() <= SIGNATURE_LEN,
        signature.len() == 0 || signature.last() != ' ',
    ensures
        header_signature(header_bytes(encode_utf8(signature), timestamp, row_size) + rest)
            == encode_utf8(signature),
        valid_utf8(
            header_signature(header_bytes(encode_utf8(signature), timestamp, row_size) + rest),
        ),
        decode_utf8(
            header_signature(header_bytes(encode_utf8(signature), timestamp, row_size) + rest),
        ) == signature,
{
    let bytes = encode_utf8(signature);
    if signature.len() > 0 {
        lemma_encoding_ends_in_space(signature);
    }
    lemma_header_roundtrip(bytes, timestamp, row_size, rest);
    encode_utf8_valid_utf8(signature);
    encode_utf8_decode_utf8(signature);
}

} // verus!
