//! The binary message framing of the AWS SSM Session Manager data channel.
//!
//! Every message is a 120-byte header followed by a payload:
//!
//! | offset | size | field |
//! |--------|------|-------|
//! | 0 | 4 | header length (116, not counting this field) |
//! | 4 | 32 | message type, UTF-8, NUL-padded |
//! | 36 | 4 | schema version (1) |
//! | 40 | 8 | creation time, milliseconds since the epoch |
//! | 48 | 8 | sequence number |
//! | 56 | 8 | flags |
//! | 64 | 16 | message id (UUID bytes) |
//! | 80 | 32 | SHA-256 digest of the payload |
//! | 112 | 4 | payload type |
//! | 116 | 4 | payload length |
//!
//! All integers are big-endian.
use sha2::Digest;
use vstd::prelude::*;
use vstd::string::*;
use vstd::utf8::*;

use crate::bytes::{lemma_read_be32, lemma_read_be64, lemma_read_be128, be128, be32, be64, push_be128, push_be32, push_be64, get_be32, get_be64, get_be128, read_be32, read_be64, read_be128};
use crate::ids::{id_text, new_id, uuid_text};
use crate::text::{chars_of, owned, str_eq, string_of, u64_decimal, decimal};

verus! {

/// Message type of keyboard input and resize requests.
pub const INPUT_STREAM_DATA: &'static str = "input_stream_data";
/// Message type of terminal output.
pub const OUTPUT_STREAM_DATA: &'static str = "output_stream_data";
/// Message type of acknowledgements.
pub const ACK: &'static str = "acknowledge";
/// Message type that resumes publication.
pub const START_PUBLICATION: &'static str = "start_publication";
/// Message type that pauses publication.
pub const PAUSE_PUBLICATION: &'static str = "pause_publication";
/// Message type by which the server closes the channel.
pub const CHANNEL_CLOSED: &'static str = "channel_closed";

/// Payload type of terminal data.
pub const PAYLOAD_OUTPUT: u32 = 1;
/// Payload type of error output.
pub const PAYLOAD_ERROR: u32 = 2;
/// Payload type of a terminal size.
pub const PAYLOAD_SIZE_DATA: u32 = 3;
/// Payload type of a handshake request.
pub const PAYLOAD_HANDSHAKE_REQUEST: u32 = 5;
/// Payload type of a completed handshake.
pub const PAYLOAD_HANDSHAKE_COMPLETE: u32 = 6;

/// Errors of SSM sessions.
#[derive(Debug)]
pub enum SsmError {
    AwsConfig(String),
    SsmApi(String),
    WebSocketConnection(String),
    WebSocket(String),
    Authentication(String),
    Protocol(String),
    SessionClosed(String),
    NotConnected,
    InstanceNotFound(String),
    Timeout(String),
}

/// The SHA-256 digest of a byte sequence.
pub uninterp spec fn sha256_of(data: Seq<u8>) -> Seq<u8>;

/// SHA-256 of `data` (`sha2::Sha256::digest`).  The contract names the digest
/// `sha256_of(data)` and states its documented size of 32 bytes.
#[verifier::external_body]
fn sha256(data: &[u8]) -> (d: Vec<u8>)
    ensures
        d@ == sha256_of(data@),
        d@.len() == 32,
{
    sha2::Sha256::digest(data).to_vec()
}

/// The text that `String::from_utf8_lossy` makes of a byte sequence that is not valid
/// UTF-8 (each invalid sequence replaced by U+FFFD).
pub uninterp spec fn lossy_text(bytes: Seq<u8>) -> Seq<char>;

/// The text `String::from_utf8_lossy` makes of bytes: valid UTF-8 decodes as is.
pub open spec fn lossy_decode(bytes: Seq<u8>) -> Seq<char> {
    if valid_utf8(bytes) { decode_utf8(bytes) } else { lossy_text(bytes) }
}

/// Decodes bytes as UTF-8, replacing invalid sequences (`String::from_utf8_lossy`).
/// Stated: valid UTF-8 decodes to its characters; the text made of other input is
/// named `lossy_text(bytes)`.
#[verifier::external_body]
fn utf8_lossy(bytes: &[u8]) -> (s: String)
    ensures
        s@ == (if valid_utf8(bytes@) { decode_utf8(bytes@) } else { lossy_text(bytes@) }),
{
    String::from_utf8_lossy(bytes).into_owned()
}

/// Milliseconds since the Unix epoch by the system clock (`SystemTime::now`); a clock
/// set before the epoch reads as 0.  Nothing is stated: the value is the machine's time.
#[verifier::external_body]
fn epoch_millis() -> (ms: u64) {
    std::time::SystemTime::now()
        .duration_since(std::time::UNIX_EPOCH)
        .map(|d| d.as_millis() as u64)
        .unwrap_or(0)
}

/// `n` zero bytes.
pub open spec fn zeros(n: nat) -> Seq<u8> {
    Seq::new(n, |i: int| 0u8)
}

/// The 32-byte message type field: the type's UTF-8 bytes, cut at 32, padded with NULs.
pub open spec fn type_field(t: Seq<char>) -> Seq<u8> {
    let b = encode_utf8(t);
    let n: nat = if b.len() < 32 { b.len() } else { 32 };
    b.take(n as int) + zeros((32 - n) as nat)
}

/// The complete encoding of a message.
pub open spec fn ssm_message(
    t: Seq<char>,
    sequence_number: i64,
    created: u64,
    message_id: u128,
    payload_type: u32,
    payload: Seq<u8>,
) -> Seq<u8> {
    be32(116) + type_field(t) + be32(1) + be64(created) + be64(sequence_number as u64) + be64(0)
        + be128(message_id) + sha256_of(payload) + be32(payload_type) + be32(payload.len() as u32)
        + payload
}

/// Encodes a message with the given creation time and message id.
pub fn encode_ssm_message(
    message_type: &str,
    sequence_number: i64,
    created: u64,
    message_id: u128,
    payload_type: u32,
    payload: &[u8],
) -> (m: Vec<u8>)
    ensures
        m@ == ssm_message(message_type@, sequence_number, created, message_id, payload_type, payload@),
        sha256_of(payload@).len() == 32,
        m@.len() == 120 + payload@.len(),
{
    let mut message: Vec<u8> = Vec::new();
    push_be32(&mut message, 116);
    let ghost m0 = message@;
    let msg_type_str = message_type.as_bytes();
    let copy_len = if msg_type_str.len() < 32 { msg_type_str.len() } else { 32 };
    let mut i: usize = 0;
    while i < 32
        invariant
            i <= 32,
            msg_type_str@ == encode_utf8(message_type@),
            copy_len == (if msg_type_str@.len() < 32 { msg_type_str@.len() } else { 32 }),
            message@ == m0 + (if i <= copy_len { msg_type_str@.take(i as int) } else {
                msg_type_str@.take(copy_len as int) + zeros((i - copy_len) as nat)
            }),
        decreases 32 - i,
    {
        if i < copy_len {
            message.push(msg_type_str[i]);
            assert(msg_type_str@.take(i + 1) == msg_type_str@.take(i as int).push(msg_type_str@[i as int]));
        } else {
            message.push(0u8);
            assert(zeros((i + 1 - copy_len) as nat) == zeros((i - copy_len) as nat).push(0u8));
            if i == copy_len {
                assert(msg_type_str@.take(i as int) + zeros(0) == msg_type_str@.take(i as int));
            }
        }
        i += 1;
    }
    assert(message@ == m0 + type_field(message_type@));
    push_be32(&mut message, 1);
    push_be64(&mut message, created);
    push_be64(&mut message, sequence_number as u64);
    push_be64(&mut message, 0);
    push_be128(&mut message, message_id);
    let digest = sha256(payload);
    let mut j: usize = 0;
    let ghost m1 = message@;
    while j < digest.len()
        invariant
            j <= digest.len(),
            message@ == m1 + digest@.take(j as int),
        decreases digest.len() - j,
    {
        message.push(digest[j]);
        assert(digest@.take(j + 1) == digest@.take(j as int).push(digest@[j as int]));
        j += 1;
    }
    assert(digest@.take(digest.len() as int) == digest@);
    push_be32(&mut message, payload_type);
    push_be32(&mut message, payload.len() as u32);
    let mut k: usize = 0;
    let ghost m2 = message@;
    while k < payload.len()
        invariant
            k <= payload.len(),
            message@ == m2 + payload@.take(k as int),
        decreases payload.len() - k,
    {
        message.push(payload[k]);
        assert(payload@.take(k + 1) == payload@.take(k as int).push(payload@[k as int]));
        k += 1;
    }
    assert(payload@.take(payload.len() as int) == payload@);
    message
}

/// Builds a message stamped with the current time and a fresh random message id.
pub fn build_ssm_message(message_type: &str, sequence_number: i64, payload_type: u32, payload: &[u8]) -> (m: Vec<u8>)
    ensures
        exists|created: u64, id: u128|
            m@ == ssm_message(message_type@, sequence_number, created, id, payload_type, payload@),
        sha256_of(payload@).len() == 32,
        m@.len() == 120 + payload@.len(),
{
    let now = epoch_millis();
    let msg_id = new_id();
    encode_ssm_message(message_type, sequence_number, now, msg_id, payload_type, payload)
}

/// Builds the acknowledgement of message `message_id`: its payload is the id's text.
pub fn build_ack_message(message_id: u128, sequence_number: i64) -> (m: Vec<u8>)
    ensures
        exists|created: u64, id: u128|
            m@ == ssm_message(ACK@, sequence_number, created, id, 0, encode_utf8(uuid_text(message_id))),
        sha256_of(encode_utf8(uuid_text(message_id))).len() == 32,
        m@.len() == 120 + encode_utf8(uuid_text(message_id)).len(),
{
    let payload = id_text(message_id);
    build_ssm_message(ACK, sequence_number, 0, payload.as_str().as_bytes())
}

/// The JSON text of a terminal size: `{"cols":N,"rows":M}`.
pub open spec fn size_payload(cols: u16, rows: u16) -> Seq<char> {
    "{\"cols\":"@ + decimal(cols as nat) + ",\"rows\":"@ + decimal(rows as nat) + "}"@
}

/// Builds a resize message.
pub fn build_size_message(sequence_number: i64, cols: u16, rows: u16) -> (m: Vec<u8>)
    ensures
        exists|created: u64, id: u128|
            m@ == ssm_message(INPUT_STREAM_DATA@, sequence_number, created, id, PAYLOAD_SIZE_DATA,
                encode_utf8(size_payload(cols, rows))),
        sha256_of(encode_utf8(size_payload(cols, rows))).len() == 32,
        m@.len() == 120 + encode_utf8(size_payload(cols, rows)).len(),
{
    let mut payload = owned("{\"cols\":");
    let c = u64_decimal(cols as u64);
    payload.append(c.as_str());
    payload.append(",\"rows\":");
    let r = u64_decimal(rows as u64);
    payload.append(r.as_str());
    payload.append("}");
    assert(payload@ == size_payload(cols, rows));
    let bytes = payload.as_str().as_bytes();
    assert(bytes@ == encode_utf8(size_payload(cols, rows)));
    build_ssm_message(INPUT_STREAM_DATA, sequence_number, PAYLOAD_SIZE_DATA, bytes)
}

/// Builds a keyboard input message.
pub fn build_input_message(sequence_number: i64, data: &[u8]) -> (m: Vec<u8>)
    ensures
        exists|created: u64, id: u128|
            m@ == ssm_message(INPUT_STREAM_DATA@, sequence_number, created, id, PAYLOAD_OUTPUT, data@),
        sha256_of(data@).len() == 32,
        m@.len() == 120 + data@.len(),
{
    build_ssm_message(INPUT_STREAM_DATA, sequence_number, PAYLOAD_OUTPUT, data)
}

} // verus!

verus! {

/// A text with its trailing NUL characters removed (`trim_end_matches('\0')`).
pub open spec fn trim_nul_end(s: Seq<char>) -> Seq<char>
    decreases s.len(),
{
    if s.len() > 0 && s.last() == '\0' {
        trim_nul_end(s.drop_last())
    } else {
        s
    }
}

/// Removes trailing NUL characters.
pub fn trim_trailing_nuls(s: &str) -> (r: String)
    ensures
        r@ == trim_nul_end(s@),
{
    let mut cs = chars_of(s);
    let mut n = cs.len();
    assert(cs@.take(n as int) == cs@);
    while n > 0 && cs[n - 1] == '\0'
        invariant
            n <= cs.len(),
            trim_nul_end(cs@.take(n as int)) == trim_nul_end(cs@),
        decreases n,
    {
        assert(cs@.take(n - 1) == cs@.take(n as int).drop_last());
        n -= 1;
    }
    assert(trim_nul_end(cs@.take(n as int)) == cs@.take(n as int));
    cs.truncate(n);
    string_of(cs.as_slice())
}

/// The fields of a message header.
#[derive(Debug)]
pub struct SsmMessageHeader {
    pub header_length: u32,
    pub message_type: String,
    pub schema_version: u32,
    pub created_date: u64,
    pub sequence_number: i64,
    pub flags: u64,
    pub message_id: u128,
    pub payload_digest: Vec<u8>,
    pub payload_type: u32,
    pub payload_length: u32,
}

/// The message type that a header's type field reads as.
pub open spec fn header_type(d: Seq<u8>) -> Seq<char> {
    trim_nul_end(lossy_decode(d.subrange(4, 36)))
}

/// Whether `h` holds the header fields read from `d`.
pub open spec fn header_read_from(h: SsmMessageHeader, d: Seq<u8>) -> bool {
    &&& h.header_length == read_be32(d, 0)
    &&& h.message_type@ == header_type(d)
    &&& h.schema_version == read_be32(d, 36)
    &&& h.created_date == read_be64(d, 40)
    &&& h.sequence_number == read_be64(d, 48) as i64
    &&& h.flags == read_be64(d, 56)
    &&& h.message_id == read_be128(d, 64)
    &&& h.payload_digest@ == d.subrange(80, 112)
    &&& h.payload_type == read_be32(d, 112)
    &&& h.payload_length == read_be32(d, 116)
}

/// Copies `s[from..to]`.
fn copy_range(s: &[u8], from: usize, to: usize) -> (r: Vec<u8>)
    requires
        from <= to <= s.len(),
    ensures
        r@ == s@.subrange(from as int, to as int),
{
    let mut r: Vec<u8> = Vec::new();
    let mut i = from;
    while i < to
        invariant
            from <= i <= to <= s.len(),
            r@ == s@.subrange(from as int, i as int),
        decreases to - i,
    {
        r.push(s[i]);
        assert(s@.subrange(from as int, i + 1) == s@.subrange(from as int, i as int).push(s@[i as int]));
        i += 1;
    }
    r
}

/// The error text of a message shorter than its header claims.
pub open spec fn too_short_text(len: nat, needed: nat) -> Seq<char> {
    "Message too short: "@ + decimal(len) + " < "@ + decimal(needed)
}

/// The bytes a message must have for its header: the header length field plus four.
pub open spec fn header_total(d: Seq<u8>) -> int {
    read_be32(d, 0) + 4
}

/// Parses the header of a message, returning it with the bytes after the header.  Data
/// too short for the length field, shorter than the length field plus four, or shorter
/// than a whole header (120 bytes) is a protocol error.
pub fn parse_header(data: &[u8]) -> (r: Result<(SsmMessageHeader, Vec<u8>), SsmError>)
    ensures
        r is Err <==> (data.len() < 4 || data.len() < header_total(data@) || data.len() < 120),
        data.len() < 4 ==> (r matches Err(SsmError::Protocol(t)) && t@ == "Message too short for header length"@),
        data.len() >= 4 && data.len() < header_total(data@) ==> (r matches Err(SsmError::Protocol(t))
            && t@ == too_short_text(data.len() as nat, header_total(data@) as nat)),
        data.len() >= 4 && data.len() >= header_total(data@) && data.len() < 120 ==> (r matches Err(
            SsmError::Protocol(t),
        ) && t@ == too_short_text(data.len() as nat, 120)),
        r matches Ok((h, p)) ==> header_read_from(h, data@) && p@ == data@.subrange(120, data.len() as int),
{
    if data.len() < 4 {
        return Err(SsmError::Protocol(owned("Message too short for header length")));
    }
    let header_length = get_be32(data, 0);
    let total_header_size: u64 = header_length as u64 + 4;
    if (data.len() as u64) < total_header_size || data.len() < 120 {
        let needed: u64 = if (data.len() as u64) < total_header_size { total_header_size } else { 120 };
        let mut t = owned("Message too short: ");
        let a = u64_decimal(data.len() as u64);
        t.append(a.as_str());
        t.append(" < ");
        let b = u64_decimal(needed);
        t.append(b.as_str());
        return Err(SsmError::Protocol(t));
    }
    let type_bytes = copy_range(data, 4, 36);
    let lossy = utf8_lossy(type_bytes.as_slice());
    let message_type = trim_trailing_nuls(lossy.as_str());
    let schema_version = get_be32(data, 36);
    let created_date = get_be64(data, 40);
    let sequence_number = get_be64(data, 48) as i64;
    let flags = get_be64(data, 56);
    let message_id = get_be128(data, 64);
    let payload_digest = copy_range(data, 80, 112);
    let payload_type = get_be32(data, 112);
    let payload_length = get_be32(data, 116);
    let payload = copy_range(data, 120, data.len());
    Ok((
        SsmMessageHeader {
            header_length,
            message_type,
            schema_version,
            created_date,
            sequence_number,
            flags,
            message_id,
            payload_digest,
            payload_type,
            payload_length,
        },
        payload,
    ))
}

/// What handling an incoming message comes to.
pub enum Handling {
    /// Nothing to display, nothing to acknowledge.
    Ignore,
    /// Terminal output to display, and the message to acknowledge (id, sequence number).
    Output(Seq<u8>, u128, i64),
    /// Only an acknowledgement is due.
    Ack(u128, i64),
    /// The header claims more bytes than the message has.
    TooShort,
    /// The server closed the channel.
    Closed,
}

/// How an incoming message is handled.  Output messages carry their payload
/// (the first `payload length` bytes after the header) when the payload type is
/// output or error data; other output messages are only acknowledged.
pub open spec fn handling(d: Seq<u8>) -> Handling {
    if d.len() < 120 {
        Handling::Ignore
    } else if d.len() < read_be32(d, 0) + 4 {
        Handling::TooShort
    } else {
        let t = header_type(d);
        let id = read_be128(d, 64);
        let sn = read_be64(d, 48) as i64;
        let pt = read_be32(d, 112);
        if t == OUTPUT_STREAM_DATA@ {
            if pt == PAYLOAD_OUTPUT || pt == PAYLOAD_ERROR {
                Handling::Output(d.subrange(120, 120 + read_be32(d, 116)), id, sn)
            } else {
                Handling::Ack(id, sn)
            }
        } else if t == CHANNEL_CLOSED@ {
            Handling::Closed
        } else {
            Handling::Ignore
        }
    }
}

/// The inputs on which handling a message does not fail by the runtime: an output
/// message's payload length does not exceed the bytes after the header.
pub open spec fn handle_accepts(d: Seq<u8>) -> bool {
    (d.len() >= 120 && d.len() >= read_be32(d, 0) + 4 && header_type(d) == OUTPUT_STREAM_DATA@)
        ==> 120 + read_be32(d, 116) <= d.len()
}

/// Whether the result of `handle_ssm_message` is the handling `h`.
pub open spec fn handled_as(
    r: Result<(Option<Vec<u8>>, Option<(u128, i64)>), SsmError>,
    h: Handling,
) -> bool {
    match h {
        Handling::Ignore => r matches Ok((None, None)),
        Handling::Output(p, id, sn) => r matches Ok((Some(out), Some(ack))) && out@ == p && ack == (id, sn),
        Handling::Ack(id, sn) => r matches Ok((None, Some(ack))) && ack == (id, sn),
        Handling::TooShort => r matches Err(SsmError::Protocol(_)),
        Handling::Closed => r matches Err(SsmError::SessionClosed(t)) && t@ == "Channel closed by server"@,
    }
}

/// Whether `handle_ssm_message` takes the data: an output message's payload length field
/// must not reach past the end of the data (where it does, the payload cannot be cut out).
pub fn ssm_message_accepted(data: &[u8]) -> (b: bool)
    ensures
        b == handle_accepts(data@),
{
    if data.len() < 120 {
        return true;
    }
    match parse_header(data) {
        Err(_) => true,
        Ok((header, _)) => {
            if str_eq(header.message_type.as_str(), OUTPUT_STREAM_DATA) {
                120 + (header.payload_length as u64) <= data.len() as u64
            } else {
                true
            }
        },
    }
}

/// Handles an incoming message: returns the terminal output it carries, if any, and
/// the id and sequence number to acknowledge, if any.  Messages shorter than a header
/// are ignored (keep-alives); a closed channel is an error.  An output message whose
/// payload length reaches past the data is not taken: test it with `ssm_message_accepted`.
pub fn handle_ssm_message(data: &[u8]) -> (r: Result<(Option<Vec<u8>>, Option<(u128, i64)>), SsmError>)
    requires
        handle_accepts(data@),
    ensures
        handled_as(r, handling(data@)),
{
    if data.len() < 120 {
        return Ok((None, None));
    }
    let (header, payload) = match parse_header(data) {
        Ok(x) => x,
        Err(e) => return Err(e),
    };
    let t = header.message_type.as_str();
    if str_eq(t, OUTPUT_STREAM_DATA) {
        let n = header.payload_length as usize;
        if header.payload_type == PAYLOAD_OUTPUT || header.payload_type == PAYLOAD_ERROR {
            let payload_data = copy_range(payload.as_slice(), 0, n);
            assert(payload_data@ == data@.subrange(120, 120 + read_be32(data@, 116)));
            Ok((Some(payload_data), Some((header.message_id, header.sequence_number))))
        } else {
            Ok((None, Some((header.message_id, header.sequence_number))))
        }
    } else if str_eq(t, CHANNEL_CLOSED) {
        Err(SsmError::SessionClosed(owned("Channel closed by server")))
    } else {
        // acknowledgements, start and pause of publication, and unknown types
        Ok((None, None))
    }
}

} // verus!

verus! {

/// `n` NUL characters.
pub open spec fn nuls(n: nat) -> Seq<char> {
    Seq::new(n, |i: int| '\0')
}

proof fn lemma_encode_utf8_concat(a: Seq<char>, b: Seq<char>)
    ensures
        encode_utf8(a + b) == encode_utf8(a) + encode_utf8(b),
    decreases a.len(),
{
    if a.len() == 0 {
        assert(a + b =~= b);
    } else {
        lemma_encode_utf8_concat(a.drop_first(), b);
        assert((a + b).drop_first() =~= a.drop_first() + b);
        assert((a + b)[0] == a[0]);
    }
}

proof fn lemma_encode_nuls(n: nat)
    ensures
        encode_utf8(nuls(n)) == zeros(n),
    decreases n,
{
    if n > 0 {
        lemma_encode_nuls((n - 1) as nat);
        assert(nuls(n).drop_first() =~= nuls((n - 1) as nat));
        assert((0u32 & 0x7Fu32) as u8 == 0u8) by (bit_vector);
        assert(('\0' as u32) == 0u32);
        assert(encode_scalar(0) =~= seq![0u8]);
        assert(zeros(n) =~= seq![0u8] + zeros((n - 1) as nat));
    } else {
        assert(nuls(n) =~= Seq::<char>::empty());
        assert(zeros(n) =~= Seq::<u8>::empty());
    }
}

proof fn lemma_trim_nuls(t: Seq<char>, n: nat)
    requires
        t.len() == 0 || t.last() != '\0',
    ensures
        trim_nul_end(t + nuls(n)) == t,
    decreases n,
{
    if n == 0 {
        assert(t + nuls(0) =~= t);
    } else {
        assert((t + nuls(n)).drop_last() =~= t + nuls((n - 1) as nat));
        lemma_trim_nuls(t, (n - 1) as nat);
    }
}

/// The type field of a type whose UTF-8 form fits in 32 bytes decodes back to the
/// type followed by NUL padding.
proof fn lemma_type_field(t: Seq<char>)
    requires
        encode_utf8(t).len() <= 32,
    ensures
        type_field(t) == encode_utf8(t + nuls((32 - encode_utf8(t).len()) as nat)),
        type_field(t).len() == 32,
{
    let n = (32 - encode_utf8(t).len()) as nat;
    lemma_encode_utf8_concat(t, nuls(n));
    lemma_encode_nuls(n);
    assert(encode_utf8(t).take(encode_utf8(t).len() as int) =~= encode_utf8(t));
}

/// The pieces of an encoded message, at their offsets.
#[verifier::spinoff_prover]
#[verifier::rlimit(40)]
proof fn lemma_message_layout(
    t: Seq<char>,
    sequence_number: i64,
    created: u64,
    message_id: u128,
    payload_type: u32,
    payload: Seq<u8>,
)
    requires
        encode_utf8(t).len() <= 32,
        sha256_of(payload).len() == 32,
    ensures
        ({
            let d = ssm_message(t, sequence_number, created, message_id, payload_type, payload);
            &&& d.len() == 120 + payload.len()
            &&& d.subrange(0, 4) == be32(116)
            &&& d.subrange(4, 36) == type_field(t)
            &&& d.subrange(36, 40) == be32(1)
            &&& d.subrange(40, 48) == be64(created)
            &&& d.subrange(48, 56) == be64(sequence_number as u64)
            &&& d.subrange(56, 64) == be64(0)
            &&& d.subrange(64, 80) == be128(message_id)
            &&& d.subrange(80, 112) == sha256_of(payload)
            &&& d.subrange(112, 116) == be32(payload_type)
            &&& d.subrange(116, 120) == be32(payload.len() as u32)
            &&& d.subrange(120, d.len() as int) == payload
        }),
{
    lemma_type_field(t);
    let a0 = be32(116);
    let a1 = a0 + type_field(t);
    let a2 = a1 + be32(1);
    let a3 = a2 + be64(created);
    let a4 = a3 + be64(sequence_number as u64);
    let a5 = a4 + be64(0);
    let a6 = a5 + be128(message_id);
    let a7 = a6 + sha256_of(payload);
    let a8 = a7 + be32(payload_type);
    let a9 = a8 + be32(payload.len() as u32);
    let d = a9 + payload;
    assert(d.subrange(0, 4) =~= a0);
    assert(d.subrange(4, 36) =~= type_field(t));
    assert(d.subrange(36, 40) =~= be32(1));
    assert(d.subrange(40, 48) =~= be64(created));
    assert(d.subrange(48, 56) =~= be64(sequence_number as u64));
    assert(d.subrange(56, 64) =~= be64(0));
    assert(d.subrange(64, 80) =~= be128(message_id));
    assert(d.subrange(80, 112) =~= sha256_of(payload));
    assert(d.subrange(112, 116) =~= be32(payload_type));
    assert(d.subrange(116, 120) =~= be32(payload.len() as u32));
    assert(d.subrange(120, d.len() as int) =~= payload);
}

/// The type field of an encoded message reads back as the type.
proof fn lemma_type_readback(t: Seq<char>)
    requires
        encode_utf8(t).len() <= 32,
        t.len() == 0 || t.last() != '\0',
    ensures
        trim_nul_end(lossy_decode(type_field(t))) == t,
{
    lemma_type_field(t);
    let n = (32 - encode_utf8(t).len()) as nat;
    encode_utf8_decode_utf8(t + nuls(n));
    encode_utf8_valid_utf8(t + nuls(n));
    lemma_trim_nuls(t, n);
}

/// Law: the header read back from an encoded message holds the values it was encoded
/// with, for a message type that fits the 32-byte field without trailing NULs and a
/// payload whose length fits the 32-bit length field.
pub proof fn lemma_message_roundtrip(
    t: Seq<char>,
    sequence_number: i64,
    created: u64,
    message_id: u128,
    payload_type: u32,
    payload: Seq<u8>,
)
    requires
        encode_utf8(t).len() <= 32,
        t.len() == 0 || t.last() != '\0',
        payload.len() <= u32::MAX,
        sha256_of(payload).len() == 32,
    ensures
        ({
            let d = ssm_message(t, sequence_number, created, message_id, payload_type, payload);
            &&& d.len() == 120 + payload.len()
            &&& read_be32(d, 0) == 116
            &&& header_type(d) == t
            &&& read_be32(d, 36) == 1
            &&& read_be64(d, 40) == created
            &&& read_be64(d, 48) as i64 == sequence_number
            &&& read_be64(d, 56) == 0
            &&& read_be128(d, 64) == message_id
            &&& d.subrange(80, 112) == sha256_of(payload)
            &&& read_be32(d, 112) == payload_type
            &&& read_be32(d, 116) == payload.len()
            &&& d.subrange(120, d.len() as int) == payload
        }),
{
    let d = ssm_message(t, sequence_number, created, message_id, payload_type, payload);
    lemma_message_layout(t, sequence_number, created, message_id, payload_type, payload);
    lemma_type_readback(t);
    lemma_read_be32(d, 0, 116);
    lemma_read_be32(d, 36, 1);
    lemma_read_be64(d, 40, created);
    lemma_read_be64(d, 48, sequence_number as u64);
    assert(((sequence_number as u64) as i64) == sequence_number) by (bit_vector);
    lemma_read_be64(d, 56, 0);
    lemma_read_be128(d, 64, message_id);
    lemma_read_be32(d, 112, payload_type);
    lemma_read_be32(d, 116, payload.len() as u32);
}

} // verus!

verus! {

/// Law: an output message as the server frames it (output payload type) is handled
/// as that output, to be acknowledged by its id and sequence number.
pub proof fn lemma_output_message_handled(
    sequence_number: i64,
    created: u64,
    message_id: u128,
    payload: Seq<u8>,
)
    requires
        payload.len() <= u32::MAX,
        sha256_of(payload).len() == 32,
    ensures
        ({
            let d = ssm_message(OUTPUT_STREAM_DATA@, sequence_number, created, message_id, PAYLOAD_OUTPUT, payload);
            &&& handle_accepts(d)
            &&& handling(d) == Handling::Output(payload, message_id, sequence_number)
            &&& forall|r: Result<(Option<Vec<u8>>, Option<(u128, i64)>), SsmError>| #[trigger] handled_as(r, handling(d))
                ==> (r matches Ok((Some(out), Some(ack))) && out@ == payload && ack == (message_id, sequence_number))
        }),
{
    reveal_strlit("output_stream_data");
    let t = OUTPUT_STREAM_DATA@;
    assert(is_ascii_chars(t));
    is_ascii_chars_encode_utf8(t);
    lemma_message_roundtrip(t, sequence_number, created, message_id, PAYLOAD_OUTPUT, payload);
    let d = ssm_message(t, sequence_number, created, message_id, PAYLOAD_OUTPUT, payload);
    assert(d.subrange(120, 120 + read_be32(d, 116)) =~= payload);
}

/// Law: a close message as the server frames it ends the session: whatever its sequence
/// number, time, id, payload type and payload, handling it gives the error
/// `SessionClosed("Channel closed by server")`, with no output and nothing to acknowledge.
pub proof fn lemma_close_message_handled(
    sequence_number: i64,
    created: u64,
    message_id: u128,
    payload_type: u32,
    payload: Seq<u8>,
)
    requires
        payload.len() <= u32::MAX,
        sha256_of(payload).len() == 32,
    ensures
        ({
            let d = ssm_message("channel_closed"@, sequence_number, created, message_id, payload_type, payload);
            &&& handle_accepts(d)
            &&& forall|r: Result<(Option<Vec<u8>>, Option<(u128, i64)>), SsmError>| #[trigger] handled_as(r, handling(d))
                ==> (r matches Err(SsmError::SessionClosed(t)) && t@ == "Channel closed by server"@)
        }),
{
    reveal_strlit("channel_closed");
    reveal_strlit("output_stream_data");
    let t = "channel_closed"@;
    assert(is_ascii_chars(t));
    is_ascii_chars_encode_utf8(t);
    lemma_message_roundtrip(t, sequence_number, created, message_id, payload_type, payload);
    assert(t != OUTPUT_STREAM_DATA@);
    assert(t == CHANNEL_CLOSED@);
}

/// Law: acknowledgements and the start and pause of publication, as the server frames
/// them, are taken and ignored: handling one gives no output and nothing to acknowledge.
pub proof fn lemma_control_message_ignored(
    t: Seq<char>,
    sequence_number: i64,
    created: u64,
    message_id: u128,
    payload_type: u32,
    payload: Seq<u8>,
)
    requires
        t == "acknowledge"@ || t == "start_publication"@ || t == "pause_publication"@,
        payload.len() <= u32::MAX,
        sha256_of(payload).len() == 32,
    ensures
        ({
            let d = ssm_message(t, sequence_number, created, message_id, payload_type, payload);
            &&& handle_accepts(d)
            &&& forall|r: Result<(Option<Vec<u8>>, Option<(u128, i64)>), SsmError>| #[trigger] handled_as(r, handling(d))
                ==> (r matches Ok((None, None)))
        }),
{
    reveal_strlit("acknowledge");
    reveal_strlit("start_publication");
    reveal_strlit("pause_publication");
    reveal_strlit("channel_closed");
    reveal_strlit("output_stream_data");
    assert(is_ascii_chars(t));
    is_ascii_chars_encode_utf8(t);
    lemma_message_roundtrip(t, sequence_number, created, message_id, payload_type, payload);
    assert(t != OUTPUT_STREAM_DATA@);
    assert(t != CHANNEL_CLOSED@);
}

/// A call made on a message builder.
pub enum BuilderCall {
    Input,
    Resize,
    Ack,
}

/// How many of the calls built an input or resize message, each of which takes a number.
pub open spec fn numbered_calls(calls: Seq<BuilderCall>) -> nat
    decreases calls.len(),
{
    if calls.len() == 0 {
        0
    } else {
        numbered_calls(calls.drop_last()) + if calls.last() is Ack { 0nat } else { 1nat }
    }
}

/// Builds the messages of a session, numbering input and resize messages in order:
/// numbers start at 0 and rise by one with each input or resize message, and the next
/// number is always how many of the calls so far built one.
pub struct SsmMessageBuilder {
    sequence_number: i64,
    calls: Ghost<Seq<BuilderCall>>,
}

impl SsmMessageBuilder {
    #[verifier::type_invariant]
    spec fn counts_calls(&self) -> bool {
        self.sequence_number == numbered_calls(self.calls@)
    }

    /// The sequence number the next message gets.
    pub closed spec fn next_number(&self) -> i64 {
        self.sequence_number
    }

    /// The calls made on the builder since it was made, in order.
    pub closed spec fn history(&self) -> Seq<BuilderCall> {
        self.calls@
    }

    /// A builder whose first message is number 0.
    pub fn new() -> (b: Self)
        ensures
            b.next_number() == 0,
            b.history() == Seq::<BuilderCall>::empty(),
            b.next_number() == numbered_calls(b.history()),
    {
        SsmMessageBuilder { sequence_number: 0, calls: Ghost(Seq::empty()) }
    }

    /// Takes the next sequence number for a numbered call.
    fn next_sequence(&mut self, call: Ghost<BuilderCall>) -> (seq: i64)
        requires
            old(self).next_number() < i64::MAX,
            !(call@ is Ack),
        ensures
            seq == old(self).next_number(),
            final(self).next_number() == old(self).next_number() + 1,
            final(self).history() == old(self).history().push(call@),
            final(self).next_number() == numbered_calls(final(self).history()),
    {
        proof {
            use_type_invariant(&*self);
        }
        let seq = self.sequence_number;
        let ghost calls = self.calls@.push(call@);
        assert(calls.drop_last() =~= self.calls@);
        *self = SsmMessageBuilder { sequence_number: seq + 1, calls: Ghost(calls) };
        seq
    }

    /// Builds an input message for keyboard data, numbered with the next number.
    pub fn build_input(&mut self, data: &[u8]) -> (m: Vec<u8>)
        requires
            old(self).next_number() < i64::MAX,
        ensures
            final(self).next_number() == old(self).next_number() + 1,
            final(self).history() == old(self).history().push(BuilderCall::Input),
            final(self).next_number() == numbered_calls(final(self).history()),
            exists|created: u64, id: u128|
                m@ == ssm_message(INPUT_STREAM_DATA@, old(self).next_number(), created, id, PAYLOAD_OUTPUT, data@),
            sha256_of(data@).len() == 32,
            m@.len() == 120 + data@.len(),
    {
        let seq = self.next_sequence(Ghost(BuilderCall::Input));
        build_input_message(seq, data)
    }

    /// Builds a resize message, numbered with the next number.
    pub fn build_resize(&mut self, cols: u16, rows: u16) -> (m: Vec<u8>)
        requires
            old(self).next_number() < i64::MAX,
        ensures
            final(self).next_number() == old(self).next_number() + 1,
            final(self).history() == old(self).history().push(BuilderCall::Resize),
            final(self).next_number() == numbered_calls(final(self).history()),
            exists|created: u64, id: u128|
                m@ == ssm_message(INPUT_STREAM_DATA@, old(self).next_number(), created, id, PAYLOAD_SIZE_DATA,
                    encode_utf8(size_payload(cols, rows))),
            sha256_of(encode_utf8(size_payload(cols, rows))).len() == 32,
            m@.len() == 120 + encode_utf8(size_payload(cols, rows)).len(),
    {
        let seq = self.next_sequence(Ghost(BuilderCall::Resize));
        build_size_message(seq, cols, rows)
    }

    /// Builds the acknowledgement of a received message (numbered as that message); it
    /// takes no number of its own.
    pub fn build_ack(&mut self, message_id: u128, sequence_number: i64) -> (m: Vec<u8>)
        ensures
            final(self).next_number() == old(self).next_number(),
            final(self).history() == old(self).history().push(BuilderCall::Ack),
            final(self).next_number() == numbered_calls(final(self).history()),
            exists|created: u64, id: u128|
                m@ == ssm_message(ACK@, sequence_number, created, id, 0, encode_utf8(uuid_text(message_id))),
            sha256_of(encode_utf8(uuid_text(message_id))).len() == 32,
            m@.len() == 120 + encode_utf8(uuid_text(message_id)).len(),
    {
        proof {
            use_type_invariant(&*self);
        }
        let ghost calls = self.calls@.push(BuilderCall::Ack);
        assert(calls.drop_last() =~= self.calls@);
        let seq = self.sequence_number;
        *self = SsmMessageBuilder { sequence_number: seq, calls: Ghost(calls) };
        build_ack_message(message_id, sequence_number)
    }
}

impl Default for SsmMessageBuilder {
    fn default() -> (b: Self)
        ensures
            b.next_number() == 0,
            b.history() == Seq::<BuilderCall>::empty(),
    {
        Self::new()
    }
}

} // verus!

verus! {

use crate::session::models::SsmSession;
use crate::terminal::grid::TerminalSize;
use crate::text::{contains_seq, str_contains};

/// The state of an SSM session.
#[derive(Debug, Clone, Copy, PartialEq, Eq, Structural)]
pub enum ConnectionState {
    Disconnected,
    Connecting,
    Authenticating,
    Handshaking,
    Connected,
    Disconnecting,
    Failed,
}

/// An SSM session's connection: its configuration, state, size and what `StartSession`
/// returned.
pub struct SsmBackend {
    config: SsmSession,
    state: ConnectionState,
    size: TerminalSize,
    sequence_number: i64,
    stream_url: Option<String>,
    token: Option<String>,
    session_id: Option<String>,
}

/// What happened while the WebSocket of a session was set up.
pub enum WsEvent {
    /// The WebSocket is open.
    Opened,
    /// Opening it took too long.
    OpenTimedOut,
    /// Opening it failed with this message.
    OpenFailed(String),
    /// The authentication message went out.
    AuthSent,
    /// Sending it failed with this message.
    AuthSendFailed(String),
    /// The server answered the authentication.
    AuthAnswered,
    /// No answer came in time.
    AuthTimedOut,
    /// The WebSocket closed before answering.
    AuthClosed,
    /// Reading the answer failed with this message.
    AuthFailed(String),
    /// The terminal size went out.
    SizeSent,
    /// Sending it failed with this message.
    SizeSendFailed(String),
}

/// What setting up the WebSocket does next.
pub enum WsAction {
    /// Send the authentication message with the token.
    SendAuth,
    /// Wait for the server's answer.
    AwaitAuth,
    /// Send this message, the initial terminal size.
    SendSize(Vec<u8>),
    /// The session is connected.
    Connected,
    /// Setting up ends with this error.
    Failed(SsmError),
}

/// Text of an optional string.
pub open spec fn opt_chars(o: Option<String>) -> Option<Seq<char>> {
    match o {
        Some(s) => Some(s@),
        None => None,
    }
}

/// The description of an SSM connection: `SSM:instance@region`, the region
/// `default-region` when none is set.
pub open spec fn ssm_description(c: SsmSession) -> Seq<char> {
    "SSM:"@ + c.instance_id@ + "@"@ + match c.region {
        Some(r) => r@,
        None => "default-region"@,
    }
}

impl SsmBackend {
    /// The configuration.
    pub closed spec fn spec_config(&self) -> SsmSession {
        self.config
    }

    /// The state.
    pub closed spec fn spec_state(&self) -> ConnectionState {
        self.state
    }

    /// The stream URL, once a session started.
    pub closed spec fn spec_stream_url(&self) -> Option<Seq<char>> {
        opt_chars(self.stream_url)
    }

    /// The token, once a session started.
    pub closed spec fn spec_token(&self) -> Option<Seq<char>> {
        opt_chars(self.token)
    }

    /// The session id `StartSession` gave, if any.
    pub closed spec fn spec_session_id(&self) -> Option<Seq<char>> {
        opt_chars(self.session_id)
    }

    /// The sequence number of the next message sent.
    pub closed spec fn spec_sequence(&self) -> i64 {
        self.sequence_number
    }

    /// A backend that has not connected, sized 80x24.
    pub fn new(config: SsmSession) -> (b: Self)
        ensures
            b.spec_config() == config,
            b.spec_state() == ConnectionState::Disconnected,
            b.spec_stream_url() is None,
            b.spec_token() is None,
            b.spec_session_id() is None,
            b.spec_sequence() == 0,
    {
        SsmBackend {
            config,
            state: ConnectionState::Disconnected,
            size: TerminalSize::new(80, 24),
            sequence_number: 0,
            stream_url: None,
            token: None,
            session_id: None,
        }
    }

    /// Records what `StartSession` returned: a stream URL and a token are required
    /// (`SsmApi` "No stream URL in response", then "No token in response").
    pub fn session_started(&mut self, stream_url: Option<String>, token: Option<String>, session_id: Option<String>)
        -> (r: Result<(), SsmError>)
        ensures
            stream_url is None ==> (r matches Err(SsmError::SsmApi(m)) && m@ == "No stream URL in response"@),
            stream_url is Some && token is None ==> (r matches Err(SsmError::SsmApi(m)) && m@ == "No token in response"@),
            r is Err ==> final(self).spec_stream_url() == old(self).spec_stream_url()
                && final(self).spec_token() == old(self).spec_token()
                && final(self).spec_session_id() == old(self).spec_session_id(),
            stream_url is Some && token is Some ==> r is Ok
                && final(self).spec_stream_url() == opt_chars(stream_url)
                && final(self).spec_token() == opt_chars(token)
                && final(self).spec_session_id() == opt_chars(session_id),
            final(self).spec_config() == old(self).spec_config(),
            final(self).spec_state() == old(self).spec_state(),
            final(self).spec_sequence() == old(self).spec_sequence(),
    {
        match stream_url {
            None => Err(SsmError::SsmApi(owned("No stream URL in response"))),
            Some(url) => match token {
                None => Err(SsmError::SsmApi(owned("No token in response"))),
                Some(t) => {
                    self.stream_url = Some(url);
                    self.token = Some(t);
                    self.session_id = session_id;
                    Ok(())
                },
            },
        }
    }

    /// Starts a session: the state becomes `Connecting`.
    pub fn begin_connect(&mut self)
        ensures
            final(self).spec_state() == ConnectionState::Connecting,
            final(self).spec_config() == old(self).spec_config(),
            final(self).spec_stream_url() == old(self).spec_stream_url(),
            final(self).spec_token() == old(self).spec_token(),
            final(self).spec_session_id() == old(self).spec_session_id(),
            final(self).spec_sequence() == old(self).spec_sequence(),
    {
        self.state = ConnectionState::Connecting;
    }

    /// The stream URL and token to open the WebSocket with; `NotConnected` before a session
    /// started.
    pub fn websocket_target(&self) -> (r: Result<(String, String), SsmError>)
        ensures
            match (self.spec_stream_url(), self.spec_token()) {
                (Some(u), Some(t)) => r matches Ok((url, token)) && url@ == u && token@ == t,
                _ => r matches Err(SsmError::NotConnected),
            },
    {
        match &self.stream_url {
            Some(url) => match &self.token {
                Some(t) => Ok((url.clone(), t.clone())),
                None => Err(SsmError::NotConnected),
            },
            None => Err(SsmError::NotConnected),
        }
    }

    /// The next step of setting up the WebSocket: once it is open, authenticate with the
    /// token (state `Authenticating`) and wait for the answer; once answered, send the
    /// initial 80x24 size under the next sequence number (state `Handshaking`); once sent,
    /// the session is connected. A failed step ends with its error and leaves the state.
    pub fn websocket_step(&mut self, event: WsEvent) -> (a: WsAction)
        requires
            old(self).spec_sequence() < i64::MAX,
        ensures
            final(self).spec_config() == old(self).spec_config(),
            final(self).spec_stream_url() == old(self).spec_stream_url(),
            final(self).spec_token() == old(self).spec_token(),
            final(self).spec_session_id() == old(self).spec_session_id(),
            match event {
                WsEvent::AuthAnswered => final(self).spec_sequence() == old(self).spec_sequence() + 1,
                _ => final(self).spec_sequence() == old(self).spec_sequence(),
            },
            match event {
                WsEvent::Opened => a is SendAuth && final(self).spec_state() == ConnectionState::Authenticating,
                WsEvent::AuthSent => a is AwaitAuth && final(self).spec_state() == old(self).spec_state(),
                WsEvent::AuthAnswered => final(self).spec_state() == ConnectionState::Handshaking
                    && (a matches WsAction::SendSize(m) && exists|created: u64, id: u128|
                        m@ == ssm_message(
                            INPUT_STREAM_DATA@,
                            old(self).spec_sequence(),
                            created,
                            id,
                            PAYLOAD_SIZE_DATA,
                            encode_utf8(size_payload(80, 24)),
                        )),
                WsEvent::SizeSent => a is Connected && final(self).spec_state() == ConnectionState::Connected,
                WsEvent::OpenTimedOut => (a matches WsAction::Failed(SsmError::Timeout(m))
                    && m@ == "WebSocket connection timed out"@) && final(self).spec_state()
                    == old(self).spec_state(),
                WsEvent::OpenFailed(e) => (a matches WsAction::Failed(SsmError::WebSocketConnection(m))
                    && m == e) && final(self).spec_state() == old(self).spec_state(),
                WsEvent::AuthSendFailed(e) => (a matches WsAction::Failed(SsmError::WebSocket(m)) && m@
                    == "Failed to send auth: "@ + e@) && final(self).spec_state() == old(self).spec_state(),
                WsEvent::AuthTimedOut => (a matches WsAction::Failed(SsmError::Timeout(m)) && m@
                    == "Authentication response timed out"@) && final(self).spec_state()
                    == old(self).spec_state(),
                WsEvent::AuthClosed => (a matches WsAction::Failed(SsmError::SessionClosed(m)) && m@
                    == "WebSocket closed during auth"@) && final(self).spec_state() == old(self).spec_state(),
                WsEvent::AuthFailed(e) => (a matches WsAction::Failed(SsmError::WebSocket(m)) && m@
                    == "Auth response error: "@ + e@) && final(self).spec_state() == old(self).spec_state(),
                WsEvent::SizeSendFailed(e) => (a matches WsAction::Failed(SsmError::WebSocket(m)) && m@
                    == "Failed to send size: "@ + e@) && final(self).spec_state() == old(self).spec_state(),
            },
    {
        match event {
            WsEvent::Opened => {
                self.state = ConnectionState::Authenticating;
                WsAction::SendAuth
            },
            WsEvent::AuthSent => WsAction::AwaitAuth,
            WsEvent::AuthAnswered => {
                self.state = ConnectionState::Handshaking;
                let seq = self.sequence_number;
                self.sequence_number = seq + 1;
                WsAction::SendSize(build_size_message(seq, 80, 24))
            },
            WsEvent::SizeSent => {
                self.state = ConnectionState::Connected;
                WsAction::Connected
            },
            WsEvent::OpenTimedOut => WsAction::Failed(SsmError::Timeout(owned("WebSocket connection timed out"))),
            WsEvent::OpenFailed(e) => WsAction::Failed(SsmError::WebSocketConnection(e)),
            WsEvent::AuthSendFailed(e) => {
                let mut m = owned("Failed to send auth: ");
                m.append(e.as_str());
                WsAction::Failed(SsmError::WebSocket(m))
            },
            WsEvent::AuthTimedOut => WsAction::Failed(SsmError::Timeout(owned("Authentication response timed out"))),
            WsEvent::AuthClosed => WsAction::Failed(SsmError::SessionClosed(owned("WebSocket closed during auth"))),
            WsEvent::AuthFailed(e) => {
                let mut m = owned("Auth response error: ");
                m.append(e.as_str());
                WsAction::Failed(SsmError::WebSocket(m))
            },
            WsEvent::SizeSendFailed(e) => {
                let mut m = owned("Failed to send size: ");
                m.append(e.as_str());
                WsAction::Failed(SsmError::WebSocket(m))
            },
        }
    }

    /// The stream URL for the WebSocket connection.
    pub fn stream_url(&self) -> (r: Option<&str>)
        ensures
            match r {
                Some(s) => self.spec_stream_url() == Some(s@),
                None => self.spec_stream_url() is None,
            },
    {
        match &self.stream_url {
            Some(s) => Some(s.as_str()),
            None => None,
        }
    }

    /// The authentication token.
    pub fn token(&self) -> (r: Option<&str>)
        ensures
            match r {
                Some(s) => self.spec_token() == Some(s@),
                None => self.spec_token() is None,
            },
    {
        match &self.token {
            Some(s) => Some(s.as_str()),
            None => None,
        }
    }

    /// The state.
    pub fn state(&self) -> (s: ConnectionState)
        ensures
            s == self.spec_state(),
    {
        self.state
    }

    /// Sets the state.
    pub fn set_state(&mut self, state: ConnectionState)
        ensures
            final(self).spec_state() == state,
            final(self).spec_config() == old(self).spec_config(),
            final(self).spec_stream_url() == old(self).spec_stream_url(),
            final(self).spec_token() == old(self).spec_token(),
            final(self).spec_session_id() == old(self).spec_session_id(),
            final(self).spec_sequence() == old(self).spec_sequence(),
    {
        self.state = state;
    }

    /// Whether the connection is up.
    pub fn is_alive(&self) -> (b: bool)
        ensures
            b == (self.spec_state() == ConnectionState::Connected),
    {
        self.state == ConnectionState::Connected
    }

    /// `SSM:instance@region`.
    pub fn description(&self) -> (d: String)
        ensures
            d@ == ssm_description(self.spec_config()),
    {
        let mut d = owned("SSM:");
        d.append(self.config.instance_id.as_str());
        d.append("@");
        match &self.config.region {
            Some(r) => d.append(r.as_str()),
            None => d.append("default-region"),
        }
        d
    }

    /// The configuration.
    pub fn config(&self) -> (c: &SsmSession)
        ensures
            *c == self.spec_config(),
    {
        &self.config
    }
}

/// The error a failed `StartSession` call gives, by its message: an instance that is
/// not connected or does not exist, denied access, or any other API error.
pub fn start_session_error(err_msg: &str, instance_id: &str) -> (e: SsmError)
    ensures
        contains_seq(err_msg@, "TargetNotConnected"@) || contains_seq(err_msg@, "InvalidInstanceId"@)
            ==> (e matches SsmError::InstanceNotFound(m)
                && m@ == "Instance "@ + instance_id@ + " is not connected to SSM or does not exist"@),
        !(contains_seq(err_msg@, "TargetNotConnected"@) || contains_seq(err_msg@, "InvalidInstanceId"@))
            && (contains_seq(err_msg@, "AccessDenied"@) || contains_seq(err_msg@, "UnauthorizedAccess"@))
            ==> (e matches SsmError::Authentication(m) && m@ == "Access denied: "@ + err_msg@),
        !(contains_seq(err_msg@, "TargetNotConnected"@) || contains_seq(err_msg@, "InvalidInstanceId"@))
            && !(contains_seq(err_msg@, "AccessDenied"@) || contains_seq(err_msg@, "UnauthorizedAccess"@))
            ==> (e matches SsmError::SsmApi(m) && m@ == err_msg@),
{
    if str_contains(err_msg, "TargetNotConnected") || str_contains(err_msg, "InvalidInstanceId") {
        let mut m = owned("Instance ");
        m.append(instance_id);
        m.append(" is not connected to SSM or does not exist");
        SsmError::InstanceNotFound(m)
    } else if str_contains(err_msg, "AccessDenied") || str_contains(err_msg, "UnauthorizedAccess") {
        let mut m = owned("Access denied: ");
        m.append(err_msg);
        SsmError::Authentication(m)
    } else {
        SsmError::SsmApi(owned(err_msg))
    }
}

} // verus!
