//! The wire codec: one message to one frame and back.
//!
//! A frame is the signature byte, the code, the path's length and the path.
//! Every frame but a read request then carries a value: its type tag, for a
//! string or byte value its length in one byte, and its content.

use crate::parser::answer_value;
use crate::parser::frame_value;
use crate::parser::header_of;
use crate::parser::header_parser;
use crate::parser::i16_to_u16;
use crate::parser::i32_to_u32;
use crate::parser::i8_to_u8;
use crate::parser::lemma_bytes_round_trip;
use crate::parser::lemma_numbers_round_trip;
use crate::parser::signed8;
use crate::parser::unsigned8;
use crate::parser::u16_to_le;
use crate::parser::u32_to_le;
use crate::parser::stream_content;
use crate::parser::stream_value;
use crate::parser::value_of;
use crate::parser::value_reader;
use crate::parser::Error;
use crate::parser::OperationStatus;
use crate::parser::RegTypeId;
use crate::parser::RegisterValue;
use crate::parser::Value;
use crate::parser::MAX_FIELD_LEN;
use crate::parser::PROTOCOL_SIGN;
use vstd::prelude::*;
use vstd::slice::slice_subrange;
use vstd::utf8::encode_utf8;
use vstd::utf8::encode_utf8_decode_utf8;
use vstd::utf8::encode_utf8_valid_utf8;

verus! {

/// Length of the longest frame: a full path and a full string or byte value.
pub const MAX_MSG_SZ: usize = 515;

/// A wire message, as callers hold it: code, path and value.
#[derive(Clone, Debug, PartialEq, Eq)]
pub struct Msg(pub OperationStatus, pub String, pub RegisterValue);

/// A wire message, as contracts speak of it.
pub struct Message {
    pub code: OperationStatus,
    pub path: Seq<char>,
    pub value: Value,
}

impl View for Msg {
    type V = Message;

    open spec fn view(&self) -> Message {
        Message { code: self.0, path: self.1@, value: self.2@ }
    }
}

/// The bytes that carry a value: tag, length byte where the type has one,
/// content.
pub open spec fn value_bytes(v: Value) -> Seq<u8> {
    if v.length_prefixed() {
        seq![v.tag().wire(), v.content().len() as u8] + v.content()
    } else {
        seq![v.tag().wire()] + v.content()
    }
}

impl Message {
    /// Whether a frame of this message has a value section. A read request
    /// has none.
    pub open spec fn carries_value(self) -> bool {
        self.code != OperationStatus::Read
    }

    /// Whether the path fits its length byte.
    pub open spec fn path_fits(self) -> bool {
        encode_utf8(self.path).len() <= MAX_FIELD_LEN
    }

    /// Whether a frame can hold all of the message: path and value fit their
    /// length bytes, and a read request has the unit value.
    pub open spec fn well_formed(self) -> bool {
        &&& self.path_fits()
        &&& if self.carries_value() {
            self.value.fits()
        } else {
            self.value is Unit
        }
    }

    /// The frame of this message.
    pub open spec fn frame(self) -> Seq<u8> {
        let head = seq![PROTOCOL_SIGN, self.code.wire(), encode_utf8(self.path).len() as u8]
            + encode_utf8(self.path);
        if self.carries_value() {
            head + value_bytes(self.value)
        } else {
            head
        }
    }

    /// What encoding this message as a request gives: the frame, or the first
    /// reason why there is none. The value of a read request is not sent.
    pub open spec fn encoded(self) -> Result<Seq<u8>, Error> {
        if !self.code.is_request() {
            Err(Error::UnsupportedCode)
        } else if !self.path_fits() {
            Err(Error::PathTooLong)
        } else if self.carries_value() && !self.value.fits() {
            Err(Error::ValueTooLarge)
        } else {
            Ok(self.frame())
        }
    }
}

/// The message at the start of `buf` and the number of bytes its frame
/// takes, or why there is none: code and path as the header gives them, the
/// value and the count as `frame_value` gives them.
///
/// The fields are checked in the order in which they are sent. Wherever
/// `buf` ends before a field does, the answer is `NeedMoreData`. A wrong
/// signature and an unknown code are `BadProtocol`; a path that is not UTF-8
/// and an unknown type tag are `BadFormat`; a string value that is not UTF-8
/// is `BadParam`.
pub open spec fn parse_frame(buf: Seq<u8>) -> Result<(Message, nat), Error> {
    match frame_value(buf) {
        Err(e) => Err(e),
        Ok((v, n)) => Ok(
            (
                Message {
                    code: header_of(buf).unwrap().code,
                    path: header_of(buf).unwrap().path,
                    value: v,
                },
                n,
            ),
        ),
    }
}

/// Whether an executable parse result is what the contract's result says.
pub open spec fn same_parse(
    r: Result<(Msg, usize), Error>,
    s: Result<(Message, nat), Error>,
) -> bool {
    match s {
        Ok((m, n)) => r matches Ok(p) && p.0@ == m && p.1 == n,
        Err(e) => r matches Err(x) && x == e,
    }
}

/// Appends `src` to `out`.
pub fn append_bytes(out: &mut Vec<u8>, src: &[u8])
    ensures
        final(out)@ == old(out)@ + src@,
{
    let mut k: usize = 0;
    while k < src.len()
        invariant
            k <= src@.len(),
            out@ == old(out)@ + src@.take(k as int),
        decreases src@.len() - k,
    {
        out.push(src[k]);
        k += 1;
        assert(src@.take(k as int) == src@.take(k - 1).push(src@[k - 1]));
    }
    assert(src@.take(k as int) == src@);
}

/// Appends the bytes that carry `value` to `out`, unless the value is too
/// large to be sent.
pub fn put_value(value: &RegisterValue, out: &mut Vec<u8>) -> (r: Result<(), Error>)
    ensures
        value@.fits() ==> r is Ok && final(out)@ == old(out)@ + value_bytes(value@),
        !value@.fits() ==> r == Err::<(), Error>(Error::ValueTooLarge) && final(out)@ == old(out)@,
{
    let ghost before = out@;
    match value {
        RegisterValue::UNIT => {
            out.push(RegTypeId::UNIT.to_wire());
        },
        RegisterValue::I32(x) => {
            out.push(RegTypeId::I32.to_wire());
            let b = u32_to_le(i32_to_u32(*x));
            append_bytes(out, b.as_slice());
        },
        RegisterValue::I16(x) => {
            out.push(RegTypeId::I16.to_wire());
            let b = u16_to_le(i16_to_u16(*x));
            append_bytes(out, b.as_slice());
        },
        RegisterValue::I8(x) => {
            out.push(RegTypeId::I8.to_wire());
            out.push(i8_to_u8(*x));
        },
        RegisterValue::U32(x) => {
            out.push(RegTypeId::U32.to_wire());
            let b = u32_to_le(*x);
            append_bytes(out, b.as_slice());
        },
        RegisterValue::U16(x) => {
            out.push(RegTypeId::U16.to_wire());
            let b = u16_to_le(*x);
            append_bytes(out, b.as_slice());
        },
        RegisterValue::U8(x) => {
            out.push(RegTypeId::U8.to_wire());
            out.push(*x);
        },
        RegisterValue::STR(s) => {
            let b = s.as_str().as_bytes();
            if b.len() > MAX_FIELD_LEN {
                return Err(Error::ValueTooLarge);
            }
            out.push(RegTypeId::STR.to_wire());
            out.push(b.len() as u8);
            append_bytes(out, b);
        },
        RegisterValue::BYTES(v) => {
            if v.len() > MAX_FIELD_LEN {
                return Err(Error::ValueTooLarge);
            }
            out.push(RegTypeId::BYTES.to_wire());
            out.push(v.len() as u8);
            append_bytes(out, v.as_slice());
        },
    }
    assert(out@ =~= before + value_bytes(value@));
    Ok(())
}

/// Encodes a request.
///
/// Only `Read` and `Write` can stand in a request: any other code is
/// `UnsupportedCode`. A path of more than 255 bytes is `PathTooLong`. A
/// string or byte value of more than 255 bytes, in a write, is
/// `ValueTooLarge`. Otherwise the result is the message's frame; a read
/// request carries no value, whatever the message holds.
pub fn encode(msg: &Msg) -> (r: Result<Vec<u8>, Error>)
    ensures
        match msg@.encoded() {
            Ok(frame) => r matches Ok(bytes) && bytes@ == frame,
            Err(e) => r matches Err(x) && x == e,
        },
{
    let carries_value = match msg.0 {
        OperationStatus::Read => false,
        OperationStatus::Write => true,
        _ => {
            return Err(Error::UnsupportedCode);
        },
    };
    let path = msg.1.as_str().as_bytes();
    if path.len() > MAX_FIELD_LEN {
        return Err(Error::PathTooLong);
    }
    let mut out: Vec<u8> = Vec::new();
    out.push(PROTOCOL_SIGN);
    out.push(msg.0.to_wire());
    out.push(path.len() as u8);
    append_bytes(&mut out, path);
    assert(out@ =~= seq![PROTOCOL_SIGN, msg@.code.wire(), encode_utf8(msg@.path).len() as u8]
        + encode_utf8(msg@.path));
    if carries_value {
        put_value(&msg.2, &mut out)?;
    }
    Ok(out)
}

/// Reads the one frame at the start of `buffer`.
///
/// On success the result holds the message and the number of bytes its
/// frame took; bytes after those belong to the next frame and were not
/// looked at. `NeedMoreData` says that `buffer` is the beginning of a frame:
/// call again with more bytes appended.
pub fn try_parse(buffer: &[u8]) -> (r: Result<(Msg, usize), Error>)
    ensures
        same_parse(r, parse_frame(buffer@)),
        r matches Ok(p) ==> p.1 <= buffer@.len(),
{
    let (code, path, used) = header_parser(buffer)?;
    match code {
        OperationStatus::Read => {
            return Ok((Msg(code, path, RegisterValue::UNIT), used));
        },
        _ => {},
    }
    let rest = slice_subrange(buffer, used, buffer.len());
    assert(rest@ == buffer@.skip(used as int));
    let (value, n) = value_reader(rest)?;
    Ok((Msg(code, path, value), used + n))
}

/// A value that can be sent is read back as it was, whatever follows it, and
/// the bytes read are exactly those that carried it.
pub proof fn lemma_value_round_trip(v: Value, tail: Seq<u8>)
    requires
        v.fits(),
    ensures
        stream_value(value_bytes(v) + tail) == Ok::<(Value, nat), Error>(
            (v, value_bytes(v).len()),
        ),
{
    let b = value_bytes(v) + tail;
    let tag = v.tag();
    let c = v.content();
    lemma_numbers_round_trip();
    assert(b[0] == tag.wire());
    assert(RegTypeId::from_wire(tag.wire()) == Some(tag));
    if v.length_prefixed() {
        assert(b.skip(1)[0] == c.len() as u8);
        assert(b.skip(1).subrange(1, 1 + c.len() as int) =~= c);
        if v is Str {
            encode_utf8_valid_utf8(v->Str_0);
            encode_utf8_decode_utf8(v->Str_0);
        }
    } else {
        assert(b.skip(1).take(c.len() as int) =~= c);
    }
}

/// Cut anywhere before its end, the bytes that carry a value ask for more
/// data.
pub proof fn lemma_value_prefix(v: Value, k: int)
    requires
        v.fits(),
        0 <= k < value_bytes(v).len(),
    ensures
        stream_value(value_bytes(v).take(k)) == Err::<(Value, nat), Error>(Error::NeedMoreData),
{
    let p = value_bytes(v).take(k);
    let tag = v.tag();
    if k >= 1 {
        assert(p[0] == tag.wire());
        assert(RegTypeId::from_wire(tag.wire()) == Some(tag));
        if v.length_prefixed() && k >= 2 {
            assert(p.skip(1)[0] == v.content().len() as u8);
        }
    }
}

/// Codec round trip: the frame of a well-formed message is read back as that
/// message, and the count of bytes read is the frame's length. Bytes that
/// follow the frame change nothing.
pub proof fn lemma_round_trip(m: Message, tail: Seq<u8>)
    requires
        m.well_formed(),
    ensures
        parse_frame(m.frame() + tail) == Ok::<(Message, nat), Error>((m, m.frame().len())),
        parse_frame(m.frame()) == Ok::<(Message, nat), Error>((m, m.frame().len())),
        answer_value(m.frame() + tail) == Ok::<Value, Error>(m.value),
        answer_value(m.frame()) == Ok::<Value, Error>(m.value),
{
    let path = encode_utf8(m.path);
    let n = path.len() as int;
    assert forall|t: Seq<u8>| #![auto] parse_frame(m.frame() + t) == Ok::<(Message, nat), Error>(
        (m, m.frame().len()),
    ) by {
        let f = m.frame() + t;
        assert(f[0] == PROTOCOL_SIGN);
        assert(f[1] == m.code.wire());
        assert(f[2] == n as u8);
        assert(OperationStatus::from_wire(m.code.wire()) == Some(m.code));
        assert(f.subrange(3, 3 + n) =~= path);
        encode_utf8_valid_utf8(m.path);
        encode_utf8_decode_utf8(m.path);
        if m.carries_value() {
            assert(f.skip(3 + n) =~= value_bytes(m.value) + t);
            lemma_value_round_trip(m.value, t);
        }
    }
    assert(m.frame() + Seq::<u8>::empty() =~= m.frame());
}

/// A request that can be encoded is read back from its encoding as it was,
/// but for the value of a read request, which is not sent and reads back as
/// the unit value.
pub proof fn lemma_encode_then_parse(m: Message)
    requires
        m.encoded() is Ok,
    ensures
        parse_frame(m.encoded().unwrap()) == Ok::<(Message, nat), Error>(
            (
                Message {
                    code: m.code,
                    path: m.path,
                    value: if m.carries_value() {
                        m.value
                    } else {
                        Value::Unit
                    },
                },
                m.encoded().unwrap().len(),
            ),
        ),
{
    let sent = Message {
        code: m.code,
        path: m.path,
        value: if m.carries_value() {
            m.value
        } else {
            Value::Unit
        },
    };
    assert(sent.frame() == m.frame());
    lemma_round_trip(sent, Seq::<u8>::empty());
}

/// Partial-frame resilience: a frame cut at any offset before its end asks
/// for more data, and with the rest appended it gives the message, every
/// byte used once.
pub proof fn lemma_split_frame(m: Message, k: int)
    requires
        m.well_formed(),
        0 <= k < m.frame().len(),
    ensures
        parse_frame(m.frame().take(k)) == Err::<(Message, nat), Error>(Error::NeedMoreData),
        parse_frame(m.frame().take(k) + m.frame().skip(k)) == Ok::<(Message, nat), Error>(
            (m, m.frame().len()),
        ),
        answer_value(m.frame().take(k)) == Err::<Value, Error>(Error::NeedMoreData),
        answer_value(m.frame().take(k) + m.frame().skip(k)) == Ok::<Value, Error>(m.value),
{
    let f = m.frame();
    let p = f.take(k);
    let path = encode_utf8(m.path);
    let n = path.len() as int;
    assert(p + f.skip(k) =~= f);
    lemma_round_trip(m, Seq::<u8>::empty());
    if k >= 1 {
        assert(p[0] == PROTOCOL_SIGN);
    }
    if k >= 2 {
        assert(p[1] == m.code.wire());
        assert(OperationStatus::from_wire(m.code.wire()) == Some(m.code));
    }
    if k >= 3 {
        assert(p[2] == n as u8);
    }
    if k >= 3 + n {
        assert(p.subrange(3, 3 + n) =~= path);
        encode_utf8_valid_utf8(m.path);
        encode_utf8_decode_utf8(m.path);
        assert(m.carries_value());
        assert(p.skip(3 + n) =~= value_bytes(m.value).take(k - 3 - n));
        lemma_value_prefix(m.value, k - 3 - n);
    }
}

/// Malformed input: bytes that do not begin with the signature are no frame.
pub proof fn lemma_bad_signature(buf: Seq<u8>)
    requires
        buf.len() >= 1,
        buf[0] != PROTOCOL_SIGN,
    ensures
        parse_frame(buf) == Err::<(Message, nat), Error>(Error::BadProtocol),
{
}

/// Malformed input: a frame whose signature byte was changed is no frame.
pub proof fn lemma_signature_changed(m: Message, b: u8)
    requires
        b != PROTOCOL_SIGN,
    ensures
        parse_frame(m.frame().update(0, b)) == Err::<(Message, nat), Error>(Error::BadProtocol),
{
    assert(m.frame().update(0, b)[0] == b);
}

/// Malformed input: a code outside the known set is no frame.
pub proof fn lemma_unknown_code(buf: Seq<u8>)
    requires
        buf.len() >= 2,
        buf[0] == PROTOCOL_SIGN,
        OperationStatus::from_wire(buf[1]) is None,
    ensures
        parse_frame(buf) == Err::<(Message, nat), Error>(Error::BadProtocol),
{
}

/// Malformed input: after a good header, a type tag outside the defined set
/// is a format error.
pub proof fn lemma_unknown_tag(buf: Seq<u8>)
    requires
        header_of(buf) is Ok,
        header_of(buf).unwrap().code != OperationStatus::Read,
        buf.len() > header_of(buf).unwrap().len,
        RegTypeId::from_wire(buf[header_of(buf).unwrap().len as int]) is None,
    ensures
        parse_frame(buf) == Err::<(Message, nat), Error>(Error::BadFormat),
{
}

/// Malformed input: a string or byte value whose length byte says more than
/// the buffer holds asks for more data.
pub proof fn lemma_declared_length_exceeds(buf: Seq<u8>)
    requires
        header_of(buf) is Ok,
        header_of(buf).unwrap().code != OperationStatus::Read,
        buf.len() >= header_of(buf).unwrap().len + 2,
        RegTypeId::from_wire(buf[header_of(buf).unwrap().len as int]) == Some(RegTypeId::STR)
            || RegTypeId::from_wire(buf[header_of(buf).unwrap().len as int]) == Some(
            RegTypeId::BYTES,
        ),
        buf[header_of(buf).unwrap().len as int + 1] > buf.len() - header_of(buf).unwrap().len - 2,
    ensures
        parse_frame(buf) == Err::<(Message, nat), Error>(Error::NeedMoreData),
{
    let h = header_of(buf).unwrap();
    let rest = buf.skip(h.len as int);
    assert(rest[0] == buf[h.len as int]);
    assert(rest.skip(1)[0] == buf[h.len as int + 1]);
}

/// Reading stops at the end of the frame: what was read is well formed, the
/// bytes used are its frame, and what follows them plays no part.
pub proof fn lemma_parse_is_frame(buf: Seq<u8>)
    requires
        parse_frame(buf) is Ok,
    ensures
        parse_frame(buf).unwrap().0.well_formed(),
        parse_frame(buf).unwrap().1 <= buf.len(),
        parse_frame(buf).unwrap().1 <= MAX_MSG_SZ,
        parse_frame(buf).unwrap().0.frame() == buf.take(parse_frame(buf).unwrap().1 as int),
{
    let (m, n) = parse_frame(buf).unwrap();
    let h = header_of(buf).unwrap();
    let path = buf.subrange(3, 3 + buf[2] as int);
    vstd::utf8::decode_utf8_encode_utf8(path);
    assert(encode_utf8(m.path) == path);
    let head = seq![PROTOCOL_SIGN, m.code.wire(), path.len() as u8] + path;
    assert(head =~= buf.take(h.len as int));
    if m.carries_value() {
        let rest = buf.skip(h.len as int);
        let tag = RegTypeId::from_wire(rest[0]).unwrap();
        let (content, used) = stream_content(tag, rest.skip(1)).unwrap();
        lemma_value_is_content(tag, content);
        assert(value_bytes(m.value) =~= rest.take(1 + used as int));
        assert(head + value_bytes(m.value) =~= buf.take(n as int));
    }
}

/// A value that was read has the tag it was read under, and its content is
/// the bytes it was read from.
pub proof fn lemma_value_is_content(tag: RegTypeId, content: Seq<u8>)
    requires
        tag.admits(content.len()),
        value_of(tag, content) is Ok,
    ensures
        value_of(tag, content).unwrap().tag() == tag,
        value_of(tag, content).unwrap().content() == content,
        value_of(tag, content).unwrap().fits(),
{
    lemma_bytes_round_trip();
    match tag {
        RegTypeId::STR => {
            vstd::utf8::decode_utf8_encode_utf8(content);
        },
        RegTypeId::UNIT => {
            assert(content =~= Seq::<u8>::empty());
        },
        RegTypeId::I8 => {
            assert(seq![unsigned8(signed8(content[0]))] =~= content);
        },
        RegTypeId::U8 => {
            assert(seq![content[0]] =~= content);
        },
        _ => {},
    }
}

/// Reading the value alone gives what reading the message gives: the same
/// value on the same bytes, and the same refusal.
pub proof fn lemma_answer_is_parsed_value(buf: Seq<u8>)
    ensures
        answer_value(buf) == match parse_frame(buf) {
            Ok((m, _)) => Ok::<Value, Error>(m.value),
            Err(e) => Err::<Value, Error>(e),
        },
{
}

/// A buffer as long as the longest frame never asks for more data.
pub proof fn lemma_need_more_data_is_short(buf: Seq<u8>)
    requires
        parse_frame(buf) == Err::<(Message, nat), Error>(Error::NeedMoreData),
    ensures
        buf.len() < MAX_MSG_SZ,
{
}

} // verus!
