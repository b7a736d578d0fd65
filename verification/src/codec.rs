//! The wire codec: one canonical, self-delimited binary form of a `Message`.
//!
//! A message encodes, in order: the optional sender (one tag byte, then a
//! length-prefixed UTF-8 string when present), the timestamp (8 bytes,
//! little-endian), and the payload (a 4-byte little-endian variant tag
//! followed by the variant's fields, strings and byte blobs being prefixed by
//! their 8-byte little-endian length). On the wire a frame is a big-endian
//! 32-bit body length followed by the body in this form.

use crate::errors::MessageError;
use crate::messages::{
    AuthError, AuthMessage, AuthPayload, AuthPayloadView, AuthUser, AuthUserView, Message,
    MessagePayload, MessageView, PayloadView,
};
use crate::strutil::string_from_utf8;
use vstd::bytes::{
    lemma_auto_spec_u32_to_from_le_bytes, lemma_auto_spec_u64_to_from_le_bytes,
    spec_u32_from_le_bytes, spec_u32_to_le_bytes, spec_u64_from_le_bytes, spec_u64_to_le_bytes,
    u32_from_le_bytes, u32_to_le_bytes, u64_from_le_bytes, u64_to_le_bytes,
};
use vstd::prelude::*;
use vstd::utf8::{
    decode_utf8, decode_utf8_encode_utf8, encode_utf8, encode_utf8_decode_utf8,
    encode_utf8_valid_utf8, valid_utf8,
};

verus! {

// ---------------------------------------------------------------------------
// The encoded form, as spec functions over views.
// ---------------------------------------------------------------------------
/// A length-prefixed byte blob: 8-byte little-endian length, then the bytes.
pub open spec fn blob_bytes(b: Seq<u8>) -> Seq<u8> {
    spec_u64_to_le_bytes(b.len() as u64) + b
}

/// A length-prefixed string: the blob of its UTF-8 bytes.
pub open spec fn str_bytes(s: Seq<char>) -> Seq<u8> {
    blob_bytes(encode_utf8(s))
}

/// One tag byte: 0 for absent, 1 followed by the value for present.
pub open spec fn opt_str_bytes(s: Option<Seq<char>>) -> Seq<u8> {
    match s {
        None => seq![0u8],
        Some(v) => seq![1u8] + str_bytes(v),
    }
}

/// The variant tag of an `AuthMessage`.
pub open spec fn auth_message_tag(m: AuthMessage) -> u32 {
    match m {
        AuthMessage::LoginSuccessful => 0,
        AuthMessage::UserRegistered => 1,
    }
}

/// An optional `AuthMessage`: a tag byte, then the variant tag when present.
pub open spec fn opt_auth_message_bytes(m: Option<AuthMessage>) -> Seq<u8> {
    match m {
        None => seq![0u8],
        Some(v) => seq![1u8] + spec_u32_to_le_bytes(auth_message_tag(v)),
    }
}

/// An optional `AuthError`: a tag byte, then the variant tag when present.
pub open spec fn opt_auth_error_bytes(e: Option<AuthError>) -> Seq<u8> {
    match e {
        None => seq![0u8],
        Some(AuthError::IncorrectPassword) => seq![1u8] + spec_u32_to_le_bytes(0u32),
    }
}

/// The single byte encoding a boolean.
pub open spec fn bool_byte(b: bool) -> u8 {
    if b {
        1u8
    } else {
        0u8
    }
}

/// The encoded payload: a 4-byte variant tag, then the fields in order.
pub open spec fn payload_bytes(p: PayloadView) -> Seq<u8> {
    match p {
        PayloadView::Text(s) => spec_u32_to_le_bytes(0u32) + str_bytes(s),
        PayloadView::Image(b) => spec_u32_to_le_bytes(1u32) + blob_bytes(b),
        PayloadView::File(n, b) => spec_u32_to_le_bytes(2u32) + str_bytes(n) + blob_bytes(b),
        PayloadView::ServerInfo(s) => spec_u32_to_le_bytes(3u32) + str_bytes(s),
        PayloadView::Login(u) => spec_u32_to_le_bytes(4u32) + str_bytes(u.name) + str_bytes(
            u.password,
        ),
        PayloadView::LoginResponse(a) => spec_u32_to_le_bytes(5u32) + seq![bool_byte(a.is_ok)]
            + opt_auth_message_bytes(a.message) + opt_auth_error_bytes(a.err),
    }
}

/// The encoded message: sender, timestamp, payload.
pub open spec fn message_bytes(m: MessageView) -> Seq<u8> {
    opt_str_bytes(m.sender) + spec_u64_to_le_bytes(m.timestamp as i64 as u64) + payload_bytes(
        m.data,
    )
}

/// Whether a ghost message view stays within the machine bounds that every
/// value of the executable `Message` type satisfies.
pub open spec fn view_in_bounds(m: MessageView) -> bool {
    &&& i64::MIN <= m.timestamp <= i64::MAX
    &&& match m.data {
        PayloadView::Text(s) => encode_utf8(s).len() <= u64::MAX,
        PayloadView::Image(b) => b.len() <= u64::MAX,
        PayloadView::File(n, b) => encode_utf8(n).len() <= u64::MAX && b.len() <= u64::MAX,
        PayloadView::ServerInfo(s) => encode_utf8(s).len() <= u64::MAX,
        PayloadView::Login(u) => encode_utf8(u.name).len() <= u64::MAX && encode_utf8(
            u.password,
        ).len() <= u64::MAX,
        PayloadView::LoginResponse(_) => true,
    }
    &&& match m.sender {
        Some(s) => encode_utf8(s).len() <= u64::MAX,
        None => true,
    }
}

// ---------------------------------------------------------------------------
// The decoded form: a spec-level decoder, one step per component.
// ---------------------------------------------------------------------------
/// Decodes one byte at `pos`.
pub open spec fn dec_u8(b: Seq<u8>, pos: int) -> Option<(u8, int)> {
    if 0 <= pos && pos + 1 <= b.len() {
        Some((b[pos], pos + 1))
    } else {
        None
    }
}

/// Decodes a 4-byte little-endian integer at `pos`.
pub open spec fn dec_u32(b: Seq<u8>, pos: int) -> Option<(u32, int)> {
    if 0 <= pos && pos + 4 <= b.len() {
        Some((spec_u32_from_le_bytes(b.subrange(pos, pos + 4)), pos + 4))
    } else {
        None
    }
}

/// Decodes an 8-byte little-endian integer at `pos`.
pub open spec fn dec_u64(b: Seq<u8>, pos: int) -> Option<(u64, int)> {
    if 0 <= pos && pos + 8 <= b.len() {
        Some((spec_u64_from_le_bytes(b.subrange(pos, pos + 8)), pos + 8))
    } else {
        None
    }
}

/// Decodes a length-prefixed byte blob at `pos`.
pub open spec fn dec_blob(b: Seq<u8>, pos: int) -> Option<(Seq<u8>, int)> {
    match dec_u64(b, pos) {
        None => None,
        Some((n, p)) => if p + n <= b.len() {
            Some((b.subrange(p, p + n), p + n))
        } else {
            None
        },
    }
}

/// Decodes a length-prefixed UTF-8 string at `pos`.
pub open spec fn dec_str(b: Seq<u8>, pos: int) -> Option<(Seq<char>, int)> {
    match dec_blob(b, pos) {
        None => None,
        Some((bs, p)) => if valid_utf8(bs) {
            Some((decode_utf8(bs), p))
        } else {
            None
        },
    }
}

/// Decodes an optional string at `pos`.
pub open spec fn dec_opt_str(b: Seq<u8>, pos: int) -> Option<(Option<Seq<char>>, int)> {
    match dec_u8(b, pos) {
        None => None,
        Some((tag, p)) => if tag == 0 {
            Some((None, p))
        } else if tag == 1 {
            match dec_str(b, p) {
                None => None,
                Some((s, p2)) => Some((Some(s), p2)),
            }
        } else {
            None
        },
    }
}

/// Decodes a boolean at `pos`; only 0 and 1 are accepted.
pub open spec fn dec_bool(b: Seq<u8>, pos: int) -> Option<(bool, int)> {
    match dec_u8(b, pos) {
        None => None,
        Some((tag, p)) => if tag == 0 {
            Some((false, p))
        } else if tag == 1 {
            Some((true, p))
        } else {
            None
        },
    }
}

/// Decodes an `AuthMessage` variant tag at `pos`.
pub open spec fn dec_auth_message(b: Seq<u8>, pos: int) -> Option<(AuthMessage, int)> {
    match dec_u32(b, pos) {
        None => None,
        Some((tag, p)) => if tag == 0 {
            Some((AuthMessage::LoginSuccessful, p))
        } else if tag == 1 {
            Some((AuthMessage::UserRegistered, p))
        } else {
            None
        },
    }
}

/// Decodes an optional `AuthMessage` at `pos`.
pub open spec fn dec_opt_auth_message(b: Seq<u8>, pos: int) -> Option<
    (Option<AuthMessage>, int),
> {
    match dec_u8(b, pos) {
        None => None,
        Some((tag, p)) => if tag == 0 {
            Some((None, p))
        } else if tag == 1 {
            match dec_auth_message(b, p) {
                None => None,
                Some((m, p2)) => Some((Some(m), p2)),
            }
        } else {
            None
        },
    }
}

/// Decodes an optional `AuthError` at `pos`.
pub open spec fn dec_opt_auth_error(b: Seq<u8>, pos: int) -> Option<(Option<AuthError>, int)> {
    match dec_u8(b, pos) {
        None => None,
        Some((tag, p)) => if tag == 0 {
            Some((None, p))
        } else if tag == 1 {
            match dec_u32(b, p) {
                None => None,
                Some((v, p2)) => if v == 0 {
                    Some((Some(AuthError::IncorrectPassword), p2))
                } else {
                    None
                },
            }
        } else {
            None
        },
    }
}

/// Decodes a payload at `pos`: the variant tag, then the fields.
pub open spec fn dec_payload(b: Seq<u8>, pos: int) -> Option<(PayloadView, int)> {
    match dec_u32(b, pos) {
        None => None,
        Some((tag, p)) => if tag == 0 {
            match dec_str(b, p) {
                None => None,
                Some((s, p2)) => Some((PayloadView::Text(s), p2)),
            }
        } else if tag == 1 {
            match dec_blob(b, p) {
                None => None,
                Some((bs, p2)) => Some((PayloadView::Image(bs), p2)),
            }
        } else if tag == 2 {
            match dec_str(b, p) {
                None => None,
                Some((n, p2)) => match dec_blob(b, p2) {
                    None => None,
                    Some((bs, p3)) => Some((PayloadView::File(n, bs), p3)),
                },
            }
        } else if tag == 3 {
            match dec_str(b, p) {
                None => None,
                Some((s, p2)) => Some((PayloadView::ServerInfo(s), p2)),
            }
        } else if tag == 4 {
            match dec_str(b, p) {
                None => None,
                Some((name, p2)) => match dec_str(b, p2) {
                    None => None,
                    Some((password, p3)) => Some(
                        (PayloadView::Login(AuthUserView { name, password }), p3),
                    ),
                },
            }
        } else if tag == 5 {
            match dec_bool(b, p) {
                None => None,
                Some((is_ok, p2)) => match dec_opt_auth_message(b, p2) {
                    None => None,
                    Some((message, p3)) => match dec_opt_auth_error(b, p3) {
                        None => None,
                        Some((err, p4)) => Some(
                            (
                                PayloadView::LoginResponse(
                                    AuthPayloadView { is_ok, message, err },
                                ),
                                p4,
                            ),
                        ),
                    },
                },
            }
        } else {
            None
        },
    }
}

/// Decodes a whole message from the start of `b`. Trailing bytes after the
/// message are permitted; the second component is the position after the
/// message.
pub open spec fn dec_message(b: Seq<u8>) -> Option<(MessageView, int)> {
    match dec_opt_str(b, 0) {
        None => None,
        Some((sender, p)) => match dec_u64(b, p) {
            None => None,
            Some((t, p2)) => match dec_payload(b, p2) {
                None => None,
                Some((data, p3)) => Some(
                    (MessageView { sender, timestamp: t as i64 as int, data }, p3),
                ),
            },
        },
    }
}

// ---------------------------------------------------------------------------
// The encoder.
// ---------------------------------------------------------------------------
/// Appends the 4-byte little-endian form of `x`.
fn write_u32_le(out: &mut Vec<u8>, x: u32)
    ensures
        final(out)@ == old(out)@ + spec_u32_to_le_bytes(x),
{
    let mut b = u32_to_le_bytes(x);
    out.append(&mut b);
}

/// Appends the 8-byte little-endian form of `x`.
fn write_u64_le(out: &mut Vec<u8>, x: u64)
    ensures
        final(out)@ == old(out)@ + spec_u64_to_le_bytes(x),
{
    let mut b = u64_to_le_bytes(x);
    out.append(&mut b);
}

/// Appends a length-prefixed byte blob.
fn write_blob(out: &mut Vec<u8>, b: &[u8])
    ensures
        final(out)@ == old(out)@ + blob_bytes(b@),
        b@.len() <= u64::MAX,
{
    write_u64_le(out, b.len() as u64);
    out.extend_from_slice(b);
}

/// Appends a length-prefixed string.
fn write_str(out: &mut Vec<u8>, s: &str)
    ensures
        final(out)@ == old(out)@ + str_bytes(s@),
        encode_utf8(s@).len() <= u64::MAX,
{
    write_blob(out, s.as_bytes());
}

/// Encodes a message into its canonical binary form.
pub fn encode(message: &Message) -> (r: Vec<u8>)
    ensures
        r@ == message_bytes(message@),
        view_in_bounds(message@),
{
    let mut out: Vec<u8> = Vec::new();
    match &message.sender {
        None => out.push(0u8),
        Some(s) => {
            out.push(1u8);
            write_str(&mut out, s.as_str());
        },
    }
    proof {
        assert(out@ =~= opt_str_bytes(message@.sender));
    }
    write_u64_le(&mut out, message.timestamp as u64);
    let ghost head = out@;
    match &message.data {
        MessagePayload::Text(s) => {
            write_u32_le(&mut out, 0);
            write_str(&mut out, s.as_str());
        },
        MessagePayload::Image(b) => {
            write_u32_le(&mut out, 1);
            write_blob(&mut out, b.as_slice());
        },
        MessagePayload::File(n, b) => {
            write_u32_le(&mut out, 2);
            write_str(&mut out, n.as_str());
            write_blob(&mut out, b.as_slice());
        },
        MessagePayload::ServerInfo(s) => {
            write_u32_le(&mut out, 3);
            write_str(&mut out, s.as_str());
        },
        MessagePayload::Login(u) => {
            write_u32_le(&mut out, 4);
            write_str(&mut out, u.name.as_str());
            write_str(&mut out, u.password.as_str());
        },
        MessagePayload::LoginResponse(a) => {
            write_u32_le(&mut out, 5);
            let (is_ok, msg, err) = a.parts();
            out.push(if is_ok { 1u8 } else { 0u8 });
            match msg {
                None => out.push(0u8),
                Some(m) => {
                    out.push(1u8);
                    match m {
                        AuthMessage::LoginSuccessful => write_u32_le(&mut out, 0),
                        AuthMessage::UserRegistered => write_u32_le(&mut out, 1),
                    }
                },
            }
            match err {
                None => out.push(0u8),
                Some(AuthError::IncorrectPassword) => {
                    out.push(1u8);
                    write_u32_le(&mut out, 0);
                },
            }
        },
    }
    proof {
        assert(out@ =~= head + payload_bytes(message@.data));
        assert(out@ =~= message_bytes(message@));
    }
    out
}

// ---------------------------------------------------------------------------
// The decoder.
// ---------------------------------------------------------------------------
/// Reads one byte at `pos`.
fn read_u8(bytes: &[u8], pos: usize) -> (r: Result<(u8, usize), MessageError>)
    ensures
        match r {
            Ok((x, p)) => dec_u8(bytes@, pos as int) == Some((x, p as int)) && p <= bytes@.len(),
            Err(_) => dec_u8(bytes@, pos as int) is None,
        },
{
    if pos < bytes.len() {
        Ok((bytes[pos], pos + 1))
    } else {
        Err(MessageError::DeserializeError)
    }
}

/// Reads a 4-byte little-endian integer at `pos`.
fn read_u32(bytes: &[u8], pos: usize) -> (r: Result<(u32, usize), MessageError>)
    ensures
        match r {
            Ok((x, p)) => dec_u32(bytes@, pos as int) == Some((x, p as int)) && p <= bytes@.len(),
            Err(_) => dec_u32(bytes@, pos as int) is None,
        },
{
    if bytes.len() >= 4 && pos <= bytes.len() - 4 {
        let x = u32_from_le_bytes(&bytes[pos..pos + 4]);
        proof {
            lemma_auto_spec_u32_to_from_le_bytes();
        }
        Ok((x, pos + 4))
    } else {
        Err(MessageError::DeserializeError)
    }
}

/// Reads an 8-byte little-endian integer at `pos`.
fn read_u64(bytes: &[u8], pos: usize) -> (r: Result<(u64, usize), MessageError>)
    ensures
        match r {
            Ok((x, p)) => dec_u64(bytes@, pos as int) == Some((x, p as int)) && p <= bytes@.len(),
            Err(_) => dec_u64(bytes@, pos as int) is None,
        },
{
    if bytes.len() >= 8 && pos <= bytes.len() - 8 {
        let x = u64_from_le_bytes(&bytes[pos..pos + 8]);
        proof {
            lemma_auto_spec_u64_to_from_le_bytes();
        }
        Ok((x, pos + 8))
    } else {
        Err(MessageError::DeserializeError)
    }
}

/// Reads a length-prefixed byte blob at `pos`.
fn read_blob(bytes: &[u8], pos: usize) -> (r: Result<(Vec<u8>, usize), MessageError>)
    ensures
        match r {
            Ok((v, p)) => dec_blob(bytes@, pos as int) == Some((v@, p as int)) && p
                <= bytes@.len(),
            Err(_) => dec_blob(bytes@, pos as int) is None,
        },
{
    let (n, p) = read_u64(bytes, pos)?;
    if n <= (bytes.len() - p) as u64 {
        let end = p + (n as usize);
        let v = vstd::slice::slice_to_vec(&bytes[p..end]);
        Ok((v, end))
    } else {
        Err(MessageError::DeserializeError)
    }
}

/// Reads a length-prefixed UTF-8 string at `pos`.
fn read_str(bytes: &[u8], pos: usize) -> (r: Result<(String, usize), MessageError>)
    ensures
        match r {
            Ok((s, p)) => dec_str(bytes@, pos as int) == Some((s@, p as int)) && p
                <= bytes@.len(),
            Err(_) => dec_str(bytes@, pos as int) is None,
        },
{
    let (v, p) = read_blob(bytes, pos)?;
    match string_from_utf8(v) {
        Ok(s) => Ok((s, p)),
        Err(()) => Err(MessageError::DeserializeError),
    }
}

/// Decodes a message from a complete buffer. Trailing bytes after the encoded
/// message are ignored, as the canonical deserializer ignores them.
pub fn decode(bytes: &[u8]) -> (r: Result<Message, MessageError>)
    ensures
        match r {
            Ok(m) => dec_message(bytes@) matches Some((v, _)) && m@ == v,
            Err(_) => dec_message(bytes@) is None,
        },
{
    let (stag, p0) = read_u8(bytes, 0)?;
    let (sender, p) = if stag == 0 {
        (None, p0)
    } else if stag == 1 {
        let (s, p1) = read_str(bytes, p0)?;
        (Some(s), p1)
    } else {
        return Err(MessageError::DeserializeError);
    };
    let (t, p2) = read_u64(bytes, p)?;
    let timestamp = t as i64;
    let (tag, p3) = read_u32(bytes, p2)?;
    if tag == 0 {
        let (s, _) = read_str(bytes, p3)?;
        Ok(Message { sender, timestamp, data: MessagePayload::Text(s) })
    } else if tag == 1 {
        let (b, _) = read_blob(bytes, p3)?;
        Ok(Message { sender, timestamp, data: MessagePayload::Image(b) })
    } else if tag == 2 {
        let (n, p4) = read_str(bytes, p3)?;
        let (b, _) = read_blob(bytes, p4)?;
        Ok(Message { sender, timestamp, data: MessagePayload::File(n, b) })
    } else if tag == 3 {
        let (s, _) = read_str(bytes, p3)?;
        Ok(Message { sender, timestamp, data: MessagePayload::ServerInfo(s) })
    } else if tag == 4 {
        let (name, p4) = read_str(bytes, p3)?;
        let (password, _) = read_str(bytes, p4)?;
        Ok(
            Message {
                sender,
                timestamp,
                data: MessagePayload::Login(AuthUser { name, password }),
            },
        )
    } else if tag == 5 {
        let (btag, pb) = read_u8(bytes, p3)?;
        let (is_ok, p4) = if btag == 0 {
            (false, pb)
        } else if btag == 1 {
            (true, pb)
        } else {
            return Err(MessageError::DeserializeError);
        };
        let (mtag, pm) = read_u8(bytes, p4)?;
        let (message, p5) = if mtag == 0 {
            (None, pm)
        } else if mtag == 1 {
            let (v, p6) = read_u32(bytes, pm)?;
            if v == 0 {
                (Some(AuthMessage::LoginSuccessful), p6)
            } else if v == 1 {
                (Some(AuthMessage::UserRegistered), p6)
            } else {
                return Err(MessageError::DeserializeError);
            }
        } else {
            return Err(MessageError::DeserializeError);
        };
        let (etag, pe) = read_u8(bytes, p5)?;
        let (err, _) = if etag == 0 {
            (None, pe)
        } else if etag == 1 {
            let (v, p7) = read_u32(bytes, pe)?;
            if v == 0 {
                (Some(AuthError::IncorrectPassword), p7)
            } else {
                return Err(MessageError::DeserializeError);
            }
        } else {
            return Err(MessageError::DeserializeError);
        };
        Ok(
            Message {
                sender,
                timestamp,
                data: MessagePayload::LoginResponse(AuthPayload::from_parts(is_ok, message, err)),
            },
        )
    } else {
        Err(MessageError::DeserializeError)
    }
}

// ---------------------------------------------------------------------------
// The codec laws: decoding inverts encoding.
// ---------------------------------------------------------------------------
proof fn lemma_dec_u8_of(b: Seq<u8>, pre: Seq<u8>, x: u8, rest: Seq<u8>)
    requires
        b == pre + seq![x] + rest,
    ensures
        dec_u8(b, pre.len() as int) == Some((x, pre.len() + 1int)),
{
    assert(b[pre.len() as int] == x);
}

proof fn lemma_dec_u32_of(b: Seq<u8>, pre: Seq<u8>, x: u32, rest: Seq<u8>)
    requires
        b == pre + spec_u32_to_le_bytes(x) + rest,
    ensures
        dec_u32(b, pre.len() as int) == Some((x, pre.len() + 4int)),
{
    lemma_auto_spec_u32_to_from_le_bytes();
    let p = pre.len() as int;
    assert(b.subrange(p, p + 4) =~= spec_u32_to_le_bytes(x));
}

proof fn lemma_dec_u64_of(b: Seq<u8>, pre: Seq<u8>, x: u64, rest: Seq<u8>)
    requires
        b == pre + spec_u64_to_le_bytes(x) + rest,
    ensures
        dec_u64(b, pre.len() as int) == Some((x, pre.len() + 8int)),
{
    lemma_auto_spec_u64_to_from_le_bytes();
    let p = pre.len() as int;
    assert(b.subrange(p, p + 8) =~= spec_u64_to_le_bytes(x));
}

proof fn lemma_dec_blob_of(b: Seq<u8>, pre: Seq<u8>, d: Seq<u8>, rest: Seq<u8>)
    requires
        b == pre + blob_bytes(d) + rest,
        d.len() <= u64::MAX,
    ensures
        dec_blob(b, pre.len() as int) == Some((d, pre.len() + 8 + d.len() as int)),
{
    lemma_auto_spec_u64_to_from_le_bytes();
    let p = pre.len() as int;
    assert(b =~= pre + spec_u64_to_le_bytes(d.len() as u64) + (d + rest));
    lemma_dec_u64_of(b, pre, d.len() as u64, d + rest);
    assert(b.subrange(p + 8, p + 8 + d.len()) =~= d);
}

proof fn lemma_dec_str_of(b: Seq<u8>, pre: Seq<u8>, s: Seq<char>, rest: Seq<u8>)
    requires
        b == pre + str_bytes(s) + rest,
        encode_utf8(s).len() <= u64::MAX,
    ensures
        dec_str(b, pre.len() as int) == Some((s, pre.len() + str_bytes(s).len() as int)),
{
    lemma_auto_spec_u64_to_from_le_bytes();
    encode_utf8_valid_utf8(s);
    encode_utf8_decode_utf8(s);
    lemma_dec_blob_of(b, pre, encode_utf8(s), rest);
    assert(str_bytes(s).len() == 8 + encode_utf8(s).len());
}

#[verifier::rlimit(100)]
proof fn lemma_dec_payload_of(b: Seq<u8>, pre: Seq<u8>, p: PayloadView, rest: Seq<u8>)
    requires
        b == pre + payload_bytes(p) + rest,
        view_in_bounds(MessageView { sender: None, timestamp: 0, data: p }),
    ensures
        dec_payload(b, pre.len() as int) == Some((p, pre.len() + payload_bytes(p).len() as int)),
{
    lemma_auto_spec_u32_to_from_le_bytes();
    lemma_auto_spec_u64_to_from_le_bytes();
    let q = pre.len() as int;
    match p {
        PayloadView::Text(s) => {
            assert(b =~= pre + spec_u32_to_le_bytes(0u32) + (str_bytes(s) + rest));
            lemma_dec_u32_of(b, pre, 0u32, str_bytes(s) + rest);
            assert(b =~= (pre + spec_u32_to_le_bytes(0u32)) + str_bytes(s) + rest);
            lemma_dec_str_of(b, pre + spec_u32_to_le_bytes(0u32), s, rest);
        },
        PayloadView::Image(d) => {
            assert(b =~= pre + spec_u32_to_le_bytes(1u32) + (blob_bytes(d) + rest));
            lemma_dec_u32_of(b, pre, 1u32, blob_bytes(d) + rest);
            assert(b =~= (pre + spec_u32_to_le_bytes(1u32)) + blob_bytes(d) + rest);
            lemma_dec_blob_of(b, pre + spec_u32_to_le_bytes(1u32), d, rest);
        },
        PayloadView::File(n, d) => {
            assert(b =~= pre + spec_u32_to_le_bytes(2u32) + (str_bytes(n) + blob_bytes(d)
                + rest));
            lemma_dec_u32_of(b, pre, 2u32, str_bytes(n) + blob_bytes(d) + rest);
            assert(b =~= (pre + spec_u32_to_le_bytes(2u32)) + str_bytes(n) + (blob_bytes(d)
                + rest));
            lemma_dec_str_of(b, pre + spec_u32_to_le_bytes(2u32), n, blob_bytes(d) + rest);
            assert(b =~= (pre + spec_u32_to_le_bytes(2u32) + str_bytes(n)) + blob_bytes(d)
                + rest);
            lemma_dec_blob_of(b, pre + spec_u32_to_le_bytes(2u32) + str_bytes(n), d, rest);
        },
        PayloadView::ServerInfo(s) => {
            assert(b =~= pre + spec_u32_to_le_bytes(3u32) + (str_bytes(s) + rest));
            lemma_dec_u32_of(b, pre, 3u32, str_bytes(s) + rest);
            assert(b =~= (pre + spec_u32_to_le_bytes(3u32)) + str_bytes(s) + rest);
            lemma_dec_str_of(b, pre + spec_u32_to_le_bytes(3u32), s, rest);
        },
        PayloadView::Login(u) => {
            assert(b =~= pre + spec_u32_to_le_bytes(4u32) + (str_bytes(u.name) + str_bytes(
                u.password,
            ) + rest));
            lemma_dec_u32_of(b, pre, 4u32, str_bytes(u.name) + str_bytes(u.password) + rest);
            assert(b =~= (pre + spec_u32_to_le_bytes(4u32)) + str_bytes(u.name) + (str_bytes(
                u.password,
            ) + rest));
            lemma_dec_str_of(
                b,
                pre + spec_u32_to_le_bytes(4u32),
                u.name,
                str_bytes(u.password) + rest,
            );
            assert(b =~= (pre + spec_u32_to_le_bytes(4u32) + str_bytes(u.name)) + str_bytes(
                u.password,
            ) + rest);
            lemma_dec_str_of(
                b,
                pre + spec_u32_to_le_bytes(4u32) + str_bytes(u.name),
                u.password,
                rest,
            );
        },
        PayloadView::LoginResponse(a) => {
            lemma_dec_login_response_of(b, pre, a, rest);
        },
    }
}

#[verifier::rlimit(100)]
#[verifier::spinoff_prover]
proof fn lemma_dec_login_response_of(b: Seq<u8>, pre: Seq<u8>, a: AuthPayloadView, rest: Seq<u8>)
    requires
        b == pre + payload_bytes(PayloadView::LoginResponse(a)) + rest,
    ensures
        dec_payload(b, pre.len() as int) == Some(
            (
                PayloadView::LoginResponse(a),
                pre.len() + payload_bytes(PayloadView::LoginResponse(a)).len() as int,
            ),
        ),
{
    lemma_auto_spec_u32_to_from_le_bytes();
    lemma_auto_spec_u64_to_from_le_bytes();
    let q = pre.len() as int;
    let p = PayloadView::LoginResponse(a);
    {
        {
            let tail1 = seq![bool_byte(a.is_ok)] + opt_auth_message_bytes(a.message)
                + opt_auth_error_bytes(a.err) + rest;
            assert(b =~= pre + spec_u32_to_le_bytes(5u32) + tail1);
            lemma_dec_u32_of(b, pre, 5u32, tail1);
            let pre1 = pre + spec_u32_to_le_bytes(5u32);
            assert(b =~= pre1 + seq![bool_byte(a.is_ok)] + (opt_auth_message_bytes(a.message)
                + opt_auth_error_bytes(a.err) + rest));
            lemma_dec_u8_of(
                b,
                pre1,
                bool_byte(a.is_ok),
                opt_auth_message_bytes(a.message) + opt_auth_error_bytes(a.err) + rest,
            );
            let pre2 = pre1 + seq![bool_byte(a.is_ok)];
            assert(dec_bool(b, pre1.len() as int) == Some((a.is_ok, pre2.len() as int)));
            match a.message {
                None => {
                    assert(b =~= pre2 + seq![0u8] + (opt_auth_error_bytes(a.err) + rest));
                    lemma_dec_u8_of(b, pre2, 0u8, opt_auth_error_bytes(a.err) + rest);
                },
                Some(m) => {
                    assert(b =~= pre2 + seq![1u8] + (spec_u32_to_le_bytes(auth_message_tag(m))
                        + opt_auth_error_bytes(a.err) + rest));
                    lemma_dec_u8_of(
                        b,
                        pre2,
                        1u8,
                        spec_u32_to_le_bytes(auth_message_tag(m)) + opt_auth_error_bytes(a.err)
                            + rest,
                    );
                    assert(b =~= (pre2 + seq![1u8]) + spec_u32_to_le_bytes(auth_message_tag(m))
                        + (opt_auth_error_bytes(a.err) + rest));
                    lemma_dec_u32_of(
                        b,
                        pre2 + seq![1u8],
                        auth_message_tag(m),
                        opt_auth_error_bytes(a.err) + rest,
                    );
                },
            }
            let pre3 = pre2 + opt_auth_message_bytes(a.message);
            assert(dec_opt_auth_message(b, pre2.len() as int) == Some(
                (a.message, pre3.len() as int),
            ));
            match a.err {
                None => {
                    assert(b =~= pre3 + seq![0u8] + rest);
                    lemma_dec_u8_of(b, pre3, 0u8, rest);
                },
                Some(AuthError::IncorrectPassword) => {
                    assert(b =~= pre3 + seq![1u8] + (spec_u32_to_le_bytes(0u32) + rest));
                    lemma_dec_u8_of(b, pre3, 1u8, spec_u32_to_le_bytes(0u32) + rest);
                    assert(b =~= (pre3 + seq![1u8]) + spec_u32_to_le_bytes(0u32) + rest);
                    lemma_dec_u32_of(b, pre3 + seq![1u8], 0u32, rest);
                },
            }
            let pre4 = pre3 + opt_auth_error_bytes(a.err);
            assert(dec_opt_auth_error(b, pre3.len() as int) == Some((a.err, pre4.len() as int)));
            assert(pre4.len() == q + payload_bytes(p).len());
        }
    }
}

/// Decoding inverts encoding: the canonical bytes of a message, followed by
/// anything at all, decode back to exactly that message, consuming exactly
/// the message's bytes.
#[verifier::rlimit(100)]
pub proof fn lemma_decode_encode(m: MessageView, rest: Seq<u8>)
    requires
        view_in_bounds(m),
    ensures
        dec_message(message_bytes(m) + rest) == Some((m, message_bytes(m).len() as int)),
{
    lemma_auto_spec_u32_to_from_le_bytes();
    lemma_auto_spec_u64_to_from_le_bytes();
    let b = message_bytes(m) + rest;
    let ts = spec_u64_to_le_bytes(m.timestamp as i64 as u64);
    match m.sender {
        None => {
            assert(b =~= Seq::<u8>::empty() + seq![0u8] + (ts + payload_bytes(m.data) + rest));
            lemma_dec_u8_of(b, Seq::<u8>::empty(), 0u8, ts + payload_bytes(m.data) + rest);
            assert(dec_opt_str(b, 0) == Some((None::<Seq<char>>, 1int)));
        },
        Some(s) => {
            assert(b =~= Seq::<u8>::empty() + seq![1u8] + (str_bytes(s) + ts + payload_bytes(
                m.data,
            ) + rest));
            lemma_dec_u8_of(
                b,
                Seq::<u8>::empty(),
                1u8,
                str_bytes(s) + ts + payload_bytes(m.data) + rest,
            );
            assert(b =~= seq![1u8] + str_bytes(s) + (ts + payload_bytes(m.data) + rest));
            lemma_dec_str_of(b, seq![1u8], s, ts + payload_bytes(m.data) + rest);
            assert(dec_opt_str(b, 0) == Some((Some(s), opt_str_bytes(m.sender).len() as int)));
        },
    }
    let pre1 = opt_str_bytes(m.sender);
    assert(b =~= pre1 + ts + (payload_bytes(m.data) + rest));
    lemma_dec_u64_of(b, pre1, m.timestamp as i64 as u64, payload_bytes(m.data) + rest);
    let pre2 = pre1 + ts;
    assert(b =~= pre2 + payload_bytes(m.data) + rest);
    lemma_dec_payload_of(b, pre2, m.data, rest);
    let x: i64 = m.timestamp as i64;
    assert(x as u64 as i64 == x) by (bit_vector);
    assert(m.timestamp as i64 as u64 as i64 as int == m.timestamp);
    assert(pre2.len() + payload_bytes(m.data).len() == message_bytes(m).len());
    let decoded = MessageView {
        sender: m.sender,
        timestamp: m.timestamp as i64 as u64 as i64 as int,
        data: m.data,
    };
    assert(dec_message(b) == Some((decoded, message_bytes(m).len() as int)));
    assert(decoded =~= m);
}

/// No message encodes to the empty byte sequence, so an empty frame body
/// never decodes.
pub proof fn lemma_empty_body_invalid()
    ensures
        dec_message(Seq::<u8>::empty()) is None,
{
}

proof fn lemma_sound_u64(b: Seq<u8>, pos: int)
    ensures
        dec_u64(b, pos) matches Some((x, p)) ==> p == pos + 8 && b.subrange(pos, p)
            == spec_u64_to_le_bytes(x),
{
    lemma_auto_spec_u64_to_from_le_bytes();
}

proof fn lemma_sound_u32(b: Seq<u8>, pos: int)
    ensures
        dec_u32(b, pos) matches Some((x, p)) ==> p == pos + 4 && b.subrange(pos, p)
            == spec_u32_to_le_bytes(x),
{
    lemma_auto_spec_u32_to_from_le_bytes();
}

proof fn lemma_sound_blob(b: Seq<u8>, pos: int)
    ensures
        dec_blob(b, pos) matches Some((d, p)) ==> 0 <= pos <= p <= b.len() && d.len() <= u64::MAX
            && b.subrange(pos, p) == blob_bytes(d),
{
    lemma_auto_spec_u64_to_from_le_bytes();
    if dec_blob(b, pos) is Some {
        let (d, p) = dec_blob(b, pos)->Some_0;
        lemma_sound_u64(b, pos);
        assert(b.subrange(pos, p) =~= b.subrange(pos, pos + 8) + b.subrange(pos + 8, p));
    }
}

proof fn lemma_sound_str(b: Seq<u8>, pos: int)
    ensures
        dec_str(b, pos) matches Some((s, p)) ==> 0 <= pos <= p <= b.len() && encode_utf8(s).len()
            <= u64::MAX && b.subrange(pos, p) == str_bytes(s),
{
    if dec_str(b, pos) is Some {
        lemma_sound_blob(b, pos);
        let (d, _) = dec_blob(b, pos)->Some_0;
        decode_utf8_encode_utf8(d);
    }
}

#[verifier::rlimit(100)]
#[verifier::spinoff_prover]
proof fn lemma_sound_payload(b: Seq<u8>, pos: int)
    ensures
        dec_payload(b, pos) matches Some((v, p)) ==> {
            &&& 0 <= pos <= p <= b.len()
            &&& b.subrange(pos, p) == payload_bytes(v)
            &&& view_in_bounds(MessageView { sender: None, timestamp: 0, data: v })
        },
{
    lemma_auto_spec_u32_to_from_le_bytes();
    lemma_auto_spec_u64_to_from_le_bytes();
    if dec_payload(b, pos) is Some {
        let (v, p) = dec_payload(b, pos)->Some_0;
        let (tag, p1) = dec_u32(b, pos)->Some_0;
        lemma_sound_u32(b, pos);
        if tag == 0 || tag == 3 {
            lemma_sound_str(b, p1);
            let (_, p2) = dec_str(b, p1)->Some_0;
            assert(b.subrange(pos, p) =~= b.subrange(pos, p1) + b.subrange(p1, p2));
        } else if tag == 1 {
            lemma_sound_blob(b, p1);
            let (_, p2) = dec_blob(b, p1)->Some_0;
            assert(b.subrange(pos, p) =~= b.subrange(pos, p1) + b.subrange(p1, p2));
        } else if tag == 2 {
            lemma_sound_str(b, p1);
            let (_, p2) = dec_str(b, p1)->Some_0;
            lemma_sound_blob(b, p2);
            let (_, p3) = dec_blob(b, p2)->Some_0;
            assert(b.subrange(pos, p) =~= b.subrange(pos, p1) + b.subrange(p1, p2) + b.subrange(
                p2,
                p3,
            ));
        } else if tag == 4 {
            lemma_sound_str(b, p1);
            let (_, p2) = dec_str(b, p1)->Some_0;
            lemma_sound_str(b, p2);
            let (_, p3) = dec_str(b, p2)->Some_0;
            assert(b.subrange(pos, p) =~= b.subrange(pos, p1) + b.subrange(p1, p2) + b.subrange(
                p2,
                p3,
            ));
        } else {
            let (_, p2) = dec_bool(b, p1)->Some_0;
            let (_, p3) = dec_opt_auth_message(b, p2)->Some_0;
            let (_, p4) = dec_opt_auth_error(b, p3)->Some_0;
            assert(b.subrange(p1, p2) =~= seq![b[p1]]);
            if b[p2] == 0 {
                assert(b.subrange(p2, p3) =~= seq![0u8]);
            } else {
                lemma_sound_u32(b, p2 + 1);
                assert(b.subrange(p2, p3) =~= seq![1u8] + b.subrange(p2 + 1, p3));
            }
            if b[p3] == 0 {
                assert(b.subrange(p3, p4) =~= seq![0u8]);
            } else {
                lemma_sound_u32(b, p3 + 1);
                assert(b.subrange(p3, p4) =~= seq![1u8] + b.subrange(p3 + 1, p4));
            }
            assert(b.subrange(pos, p) =~= b.subrange(pos, p1) + b.subrange(p1, p2) + b.subrange(
                p2,
                p3,
            ) + b.subrange(p3, p4));
        }
    }
}

/// The codec accepts nothing it would not itself produce: whatever decodes
/// from a buffer re-encodes to exactly the bytes consumed. Together with the
/// round trip this makes the encoding canonical.
pub proof fn lemma_decode_sound(b: Seq<u8>)
    ensures
        dec_message(b) matches Some((m, p)) ==> {
            &&& 0 <= p <= b.len()
            &&& view_in_bounds(m)
            &&& message_bytes(m) == b.subrange(0, p)
        },
{
    lemma_auto_spec_u64_to_from_le_bytes();
    if dec_message(b) is Some {
        let (m, p) = dec_message(b)->Some_0;
        let (sender, p1) = dec_opt_str(b, 0)->Some_0;
        let (t, p2) = dec_u64(b, p1)->Some_0;
        let (v, p3) = dec_payload(b, p2)->Some_0;
        if b[0] == 0 {
            assert(b.subrange(0, p1) =~= seq![0u8]);
        } else {
            lemma_sound_str(b, 1);
            assert(b.subrange(0, p1) =~= seq![1u8] + b.subrange(1, p1));
        }
        lemma_sound_u64(b, p1);
        lemma_sound_payload(b, p2);
        assert(t as i64 as u64 == t) by (bit_vector);
        assert(b.subrange(0, p) =~= b.subrange(0, p1) + b.subrange(p1, p2) + b.subrange(p2, p3));
    }
}

// ---------------------------------------------------------------------------
// Framing: a 4-byte big-endian body length, then the body.
// ---------------------------------------------------------------------------
/// The 4-byte big-endian form of `x`.
pub open spec fn spec_u32_to_be_bytes(x: u32) -> Seq<u8> {
    seq![
        (x / 0x1000000) as u8,
        ((x / 0x10000) % 0x100) as u8,
        ((x / 0x100) % 0x100) as u8,
        (x % 0x100) as u8,
    ]
}

/// The value of 4 big-endian bytes.
pub open spec fn spec_u32_from_be_bytes(b: Seq<u8>) -> u32
    recommends
        b.len() == 4,
{
    (b[0] * 0x1000000 + b[1] * 0x10000 + b[2] * 0x100 + b[3]) as u32
}

/// Reading back the big-endian bytes of `x` gives `x` again.
pub proof fn lemma_u32_be_bytes_roundtrip(x: u32)
    ensures
        spec_u32_from_be_bytes(spec_u32_to_be_bytes(x)) == x,
{
}

/// A whole frame: the body length as 4 big-endian bytes, then the body.
pub open spec fn frame_of(body: Seq<u8>) -> Seq<u8>
    recommends
        body.len() <= u32::MAX,
{
    spec_u32_to_be_bytes(body.len() as u32) + body
}

/// The frame header for a body of `n` bytes.
pub fn header_bytes(n: u32) -> (r: [u8; 4])
    ensures
        r@ == spec_u32_to_be_bytes(n),
{
    let r = [
        (n / 0x1000000) as u8,
        ((n / 0x10000) % 0x100) as u8,
        ((n / 0x100) % 0x100) as u8,
        (n % 0x100) as u8,
    ];
    proof {
        assert(r@ =~= spec_u32_to_be_bytes(n));
    }
    r
}

/// The body length declared by a frame header.
pub fn header_len(b: &[u8; 4]) -> (r: u32)
    ensures
        r == spec_u32_from_be_bytes(b@),
{
    (b[0] as u32) * 0x1000000 + (b[1] as u32) * 0x10000 + (b[2] as u32) * 0x100 + (b[3] as u32)
}

/// Encodes a message and frames it: 4 big-endian length bytes, then the
/// encoded body. Fails only when the body does not fit a 32-bit length.
pub fn encode_frame(message: &Message) -> (r: Result<Vec<u8>, MessageError>)
    ensures
        match r {
            Ok(v) => v@ == frame_of(message_bytes(message@)) && message_bytes(message@).len()
                <= u32::MAX,
            Err(_) => message_bytes(message@).len() > u32::MAX,
        },
{
    let body = encode(message);
    if body.len() > u32::MAX as usize {
        return Err(MessageError::SerializeError);
    }
    let header = header_bytes(body.len() as u32);
    let mut out: Vec<u8> = Vec::new();
    out.extend_from_slice(header.as_slice());
    let ghost h = out@;
    out.extend_from_slice(body.as_slice());
    proof {
        assert(out@ =~= frame_of(message_bytes(message@)));
    }
    Ok(out)
}

/// Decodes the body of one frame, as read from the wire after its header.
/// An empty body never decodes: no message encodes to zero bytes.
pub fn decode_body(body: &[u8]) -> (r: Result<Message, MessageError>)
    ensures
        match r {
            Ok(m) => dec_message(body@) matches Some((v, _)) && m@ == v,
            Err(_) => dec_message(body@) is None,
        },
        body@.len() == 0 ==> r is Err,
{
    decode(body)
}

} // verus!
