//! Typed register values, their wire tags, and the parsers for the fields of
//! a frame.
//!
//! Multi-byte integers travel in little-endian order; signed integers in
//! two's complement.

use vstd::prelude::*;
use vstd::slice::slice_subrange;
use vstd::slice::slice_to_vec;
use vstd::utf8::decode_utf8;
use vstd::utf8::encode_utf8;
use vstd::utf8::valid_utf8;

verus! {

/// First byte of every frame.
pub const PROTOCOL_SIGN: u8 = 0x8E;

/// Largest number of bytes a length-prefixed field can hold: its length is
/// one byte.
pub const MAX_FIELD_LEN: usize = 255;

/// What can go wrong while a frame is built or read.
#[derive(Clone, Copy, Debug, PartialEq, Eq, Structural)]
pub enum Error {
    /// The bytes so far are the beginning of a frame, but not a whole one.
    NeedMoreData,
    /// Wrong signature byte, or a code outside the known set.
    BadProtocol,
    /// Unknown type tag, or a path that is not UTF-8.
    BadFormat,
    /// The payload does not fit its type.
    BadParam,
    /// The code cannot stand in a request.
    UnsupportedCode,
    /// A string or byte payload longer than `MAX_FIELD_LEN` bytes.
    ValueTooLarge,
    /// A path longer than `MAX_FIELD_LEN` bytes.
    PathTooLong,
}

/// Operation code of a request, or status code of an answer.
#[allow(non_camel_case_types)]
#[derive(Clone, Copy, Debug, PartialEq, Eq, Structural)]
pub enum OperationStatus {
    /// Request: read the register at the path.
    Read,
    /// Request: write the value to the register at the path.
    Write,
    /// Answer: the register was read; the value follows.
    OK_READ,
    /// Answer: the register was written.
    OK_WRITE,
    /// Answer: no register at this path.
    ERR_PATH,
    /// Answer: the value's type is not the register's.
    ERR_TYPE,
    /// Answer: the register does not allow this operation.
    ERR_ACCESS,
    /// Answer: the device could not carry the operation out.
    ERR_FAILED,
}

impl OperationStatus {
    /// The byte that stands for this code on the wire. Read as a signed
    /// byte, requests and successes are positive and failures negative.
    pub open spec fn wire(self) -> u8 {
        match self {
            OperationStatus::Read => 0x01,
            OperationStatus::Write => 0x02,
            OperationStatus::OK_READ => 0x03,
            OperationStatus::OK_WRITE => 0x04,
            OperationStatus::ERR_PATH => 0xFF,
            OperationStatus::ERR_TYPE => 0xFE,
            OperationStatus::ERR_ACCESS => 0xFD,
            OperationStatus::ERR_FAILED => 0xFC,
        }
    }

    /// The code that a wire byte stands for, if any.
    pub open spec fn from_wire(b: u8) -> Option<OperationStatus> {
        if b == 0x01 {
            Some(OperationStatus::Read)
        } else if b == 0x02 {
            Some(OperationStatus::Write)
        } else if b == 0x03 {
            Some(OperationStatus::OK_READ)
        } else if b == 0x04 {
            Some(OperationStatus::OK_WRITE)
        } else if b == 0xFF {
            Some(OperationStatus::ERR_PATH)
        } else if b == 0xFE {
            Some(OperationStatus::ERR_TYPE)
        } else if b == 0xFD {
            Some(OperationStatus::ERR_ACCESS)
        } else if b == 0xFC {
            Some(OperationStatus::ERR_FAILED)
        } else {
            None
        }
    }

    /// Whether the code is one a host sends.
    pub open spec fn is_request(self) -> bool {
        self == OperationStatus::Read || self == OperationStatus::Write
    }

    pub fn to_wire(self) -> (b: u8)
        ensures
            b == self.wire(),
            OperationStatus::from_wire(b) == Some(self),
    {
        match self {
            OperationStatus::Read => 0x01,
            OperationStatus::Write => 0x02,
            OperationStatus::OK_READ => 0x03,
            OperationStatus::OK_WRITE => 0x04,
            OperationStatus::ERR_PATH => 0xFF,
            OperationStatus::ERR_TYPE => 0xFE,
            OperationStatus::ERR_ACCESS => 0xFD,
            OperationStatus::ERR_FAILED => 0xFC,
        }
    }

    pub fn try_from_wire(b: u8) -> (r: Option<OperationStatus>)
        ensures
            r == OperationStatus::from_wire(b),
            r is Some ==> r.unwrap().wire() == b,
    {
        match b {
            0x01 => Some(OperationStatus::Read),
            0x02 => Some(OperationStatus::Write),
            0x03 => Some(OperationStatus::OK_READ),
            0x04 => Some(OperationStatus::OK_WRITE),
            0xFF => Some(OperationStatus::ERR_PATH),
            0xFE => Some(OperationStatus::ERR_TYPE),
            0xFD => Some(OperationStatus::ERR_ACCESS),
            0xFC => Some(OperationStatus::ERR_FAILED),
            _ => None,
        }
    }
}

/// Type tag of a register value.
#[allow(non_camel_case_types)]
#[derive(Clone, Copy, Debug, PartialEq, Eq, Structural)]
pub enum RegTypeId {
    UNIT,
    I32,
    I16,
    I8,
    U32,
    U16,
    U8,
    STR,
    BYTES,
}

impl RegTypeId {
    /// The tag's byte on the wire.
    pub open spec fn wire(self) -> u8 {
        match self {
            RegTypeId::UNIT => 0,
            RegTypeId::I32 => 1,
            RegTypeId::I16 => 2,
            RegTypeId::I8 => 3,
            RegTypeId::U32 => 4,
            RegTypeId::U16 => 5,
            RegTypeId::U8 => 6,
            RegTypeId::STR => 7,
            RegTypeId::BYTES => 8,
        }
    }

    /// The tag that a wire byte stands for, if any.
    pub open spec fn from_wire(b: u8) -> Option<RegTypeId> {
        if b == 0 {
            Some(RegTypeId::UNIT)
        } else if b == 1 {
            Some(RegTypeId::I32)
        } else if b == 2 {
            Some(RegTypeId::I16)
        } else if b == 3 {
            Some(RegTypeId::I8)
        } else if b == 4 {
            Some(RegTypeId::U32)
        } else if b == 5 {
            Some(RegTypeId::U16)
        } else if b == 6 {
            Some(RegTypeId::U8)
        } else if b == 7 {
            Some(RegTypeId::STR)
        } else if b == 8 {
            Some(RegTypeId::BYTES)
        } else {
            None
        }
    }

    pub fn to_wire(self) -> (b: u8)
        ensures
            b == self.wire(),
            RegTypeId::from_wire(b) == Some(self),
    {
        match self {
            RegTypeId::UNIT => 0,
            RegTypeId::I32 => 1,
            RegTypeId::I16 => 2,
            RegTypeId::I8 => 3,
            RegTypeId::U32 => 4,
            RegTypeId::U16 => 5,
            RegTypeId::U8 => 6,
            RegTypeId::STR => 7,
            RegTypeId::BYTES => 8,
        }
    }

    /// The tag for a wire byte; `Err(())` for a byte that is no tag.
    pub fn try_from(value: u8) -> (r: Result<RegTypeId, ()>)
        ensures
            match RegTypeId::from_wire(value) {
                Some(t) => r == Ok::<RegTypeId, ()>(t),
                None => r is Err,
            },
    {
        match value {
            0 => Ok(RegTypeId::UNIT),
            1 => Ok(RegTypeId::I32),
            2 => Ok(RegTypeId::I16),
            3 => Ok(RegTypeId::I8),
            4 => Ok(RegTypeId::U32),
            5 => Ok(RegTypeId::U16),
            6 => Ok(RegTypeId::U8),
            7 => Ok(RegTypeId::STR),
            8 => Ok(RegTypeId::BYTES),
            _ => Err(()),
        }
    }
}

/// A register's value, as callers hold it.
#[allow(non_camel_case_types)]
#[derive(Clone, Debug, PartialEq, Eq)]
pub enum RegisterValue {
    UNIT,
    I32(i32),
    I16(i16),
    I8(i8),
    U32(u32),
    U16(u16),
    U8(u8),
    STR(String),
    BYTES(Vec<u8>),
}

/// A register's value, as contracts speak of it.
pub enum Value {
    Unit,
    I32(i32),
    I16(i16),
    I8(i8),
    U32(u32),
    U16(u16),
    U8(u8),
    Str(Seq<char>),
    Bytes(Seq<u8>),
}

impl View for RegisterValue {
    type V = Value;

    open spec fn view(&self) -> Value {
        match *self {
            RegisterValue::UNIT => Value::Unit,
            RegisterValue::I32(x) => Value::I32(x),
            RegisterValue::I16(x) => Value::I16(x),
            RegisterValue::I8(x) => Value::I8(x),
            RegisterValue::U32(x) => Value::U32(x),
            RegisterValue::U16(x) => Value::U16(x),
            RegisterValue::U8(x) => Value::U8(x),
            RegisterValue::STR(s) => Value::Str(s@),
            RegisterValue::BYTES(b) => Value::Bytes(b@),
        }
    }
}

impl Value {
    /// A truth value as it is sent: the unsigned 8-bit value 1 for true and
    /// 0 for false. The wire knows no type of its own for it.
    pub open spec fn of_bool(b: bool) -> Value {
        Value::U8(if b {
            1u8
        } else {
            0u8
        })
    }

    /// The truth value that this value stands for, if it stands for one.
    pub open spec fn truth(self) -> Option<bool> {
        if self == Value::U8(0u8) {
            Some(false)
        } else if self == Value::U8(1u8) {
            Some(true)
        } else {
            None
        }
    }

    /// The tag that announces this value.
    pub open spec fn tag(self) -> RegTypeId {
        match self {
            Value::Unit => RegTypeId::UNIT,
            Value::I32(_) => RegTypeId::I32,
            Value::I16(_) => RegTypeId::I16,
            Value::I8(_) => RegTypeId::I8,
            Value::U32(_) => RegTypeId::U32,
            Value::U16(_) => RegTypeId::U16,
            Value::U8(_) => RegTypeId::U8,
            Value::Str(_) => RegTypeId::STR,
            Value::Bytes(_) => RegTypeId::BYTES,
        }
    }

    /// The bytes that carry this value, without tag and without length byte.
    pub open spec fn content(self) -> Seq<u8> {
        match self {
            Value::Unit => Seq::<u8>::empty(),
            Value::I32(x) => le32(unsigned32(x)),
            Value::I16(x) => le16(unsigned16(x)),
            Value::I8(x) => seq![unsigned8(x)],
            Value::U32(x) => le32(x),
            Value::U16(x) => le16(x),
            Value::U8(x) => seq![x],
            Value::Str(s) => encode_utf8(s),
            Value::Bytes(b) => b,
        }
    }

    /// Whether the value's length is sent ahead of its content.
    pub open spec fn length_prefixed(self) -> bool {
        self is Str || self is Bytes
    }

    /// Whether the value can be sent: a string or byte payload must fit the
    /// single length byte.
    pub open spec fn fits(self) -> bool {
        self.length_prefixed() ==> self.content().len() <= MAX_FIELD_LEN
    }
}

impl RegisterValue {
    /// The value that carries a truth value: `U8(1)` for true, `U8(0)` for
    /// false.
    pub fn from_bool(b: bool) -> (r: RegisterValue)
        ensures
            r@ == Value::of_bool(b),
            r@.truth() == Some(b),
    {
        if b {
            RegisterValue::U8(1)
        } else {
            RegisterValue::U8(0)
        }
    }

    /// The truth value that this value carries: `U8(0)` is false, `U8(1)` is
    /// true, and nothing else is a truth value.
    pub fn to_bool(&self) -> (r: Option<bool>)
        ensures
            r == self@.truth(),
    {
        match self {
            RegisterValue::U8(x) => {
                if *x == 0 {
                    Some(false)
                } else if *x == 1 {
                    Some(true)
                } else {
                    None
                }
            },
            _ => None,
        }
    }
}

/// Two bytes, low byte first.
pub open spec fn le16(x: u16) -> Seq<u8> {
    seq![(x % 256) as u8, (x / 256) as u8]
}

/// The number that two bytes, low byte first, stand for.
pub open spec fn from_le16(s: Seq<u8>) -> u16
    recommends
        s.len() == 2,
{
    (s[0] + 256 * s[1]) as u16
}

/// Four bytes, lowest byte first.
pub open spec fn le32(x: u32) -> Seq<u8> {
    seq![
        (x % 256) as u8,
        ((x / 256) % 256) as u8,
        ((x / 65536) % 256) as u8,
        (x / 16777216) as u8,
    ]
}

/// The number that four bytes, lowest byte first, stand for.
pub open spec fn from_le32(s: Seq<u8>) -> u32
    recommends
        s.len() == 4,
{
    (s[0] + 256 * s[1] + 65536 * s[2] + 16777216 * s[3]) as u32
}

/// Two's complement of an 8-bit number.
pub open spec fn unsigned8(x: i8) -> u8 {
    if x >= 0 {
        x as u8
    } else {
        (x + 256) as u8
    }
}

/// The 8-bit number whose two's complement is `u`.
pub open spec fn signed8(u: u8) -> i8 {
    if u < 128 {
        u as i8
    } else {
        (u - 256) as i8
    }
}

/// Two's complement of a 16-bit number.
pub open spec fn unsigned16(x: i16) -> u16 {
    if x >= 0 {
        x as u16
    } else {
        (x + 65536) as u16
    }
}

/// The 16-bit number whose two's complement is `u`.
pub open spec fn signed16(u: u16) -> i16 {
    if u < 32768 {
        u as i16
    } else {
        (u - 65536) as i16
    }
}

/// Two's complement of a 32-bit number.
pub open spec fn unsigned32(x: i32) -> u32 {
    if x >= 0 {
        x as u32
    } else {
        (x + 4294967296) as u32
    }
}

/// The 32-bit number whose two's complement is `u`.
pub open spec fn signed32(u: u32) -> i32 {
    if u < 2147483648 {
        u as i32
    } else {
        (u - 4294967296) as i32
    }
}

/// Reading back what was written gives the number again, for each width and
/// each signedness.
pub proof fn lemma_numbers_round_trip()
    ensures
        forall|x: u16| from_le16(#[trigger] le16(x)) == x,
        forall|x: u32| from_le32(#[trigger] le32(x)) == x,
        forall|x: i8| signed8(#[trigger] unsigned8(x)) == x,
        forall|x: i16| signed16(#[trigger] unsigned16(x)) == x,
        forall|x: i32| signed32(#[trigger] unsigned32(x)) == x,
{
}

/// Writing back what was read gives the bytes again, for each width and
/// each signedness.
pub proof fn lemma_bytes_round_trip()
    ensures
        forall|s: Seq<u8>| s.len() == 2 ==> le16(#[trigger] from_le16(s)) == s,
        forall|s: Seq<u8>| s.len() == 4 ==> le32(#[trigger] from_le32(s)) == s,
        forall|u: u8| unsigned8(#[trigger] signed8(u)) == u,
        forall|u: u16| unsigned16(#[trigger] signed16(u)) == u,
        forall|u: u32| unsigned32(#[trigger] signed32(u)) == u,
{
    assert forall|s: Seq<u8>| s.len() == 2 implies le16(#[trigger] from_le16(s)) == s by {
        assert(le16(from_le16(s)) =~= s);
    }
    assert forall|s: Seq<u8>| s.len() == 4 implies le32(#[trigger] from_le32(s)) == s by {
        assert(le32(from_le32(s)) =~= s);
    }
}

pub fn u16_to_le(x: u16) -> (out: Vec<u8>)
    ensures
        out@ == le16(x),
{
    let mut out: Vec<u8> = Vec::new();
    out.push((x % 256) as u8);
    out.push((x / 256) as u8);
    assert(out@ =~= le16(x));
    out
}

pub fn u32_to_le(x: u32) -> (out: Vec<u8>)
    ensures
        out@ == le32(x),
{
    let mut out: Vec<u8> = Vec::new();
    out.push((x % 256) as u8);
    out.push(((x / 256) % 256) as u8);
    out.push(((x / 65536) % 256) as u8);
    out.push((x / 16777216) as u8);
    assert(out@ =~= le32(x));
    out
}

pub fn u16_from_le(s: &[u8]) -> (x: u16)
    requires
        s@.len() == 2,
    ensures
        x == from_le16(s@),
{
    let lo: u16 = s[0] as u16;
    let hi: u16 = s[1] as u16;
    lo + 256 * hi
}

pub fn u32_from_le(s: &[u8]) -> (x: u32)
    requires
        s@.len() == 4,
    ensures
        x == from_le32(s@),
{
    let b0: u32 = s[0] as u32;
    let b1: u32 = s[1] as u32;
    let b2: u32 = s[2] as u32;
    let b3: u32 = s[3] as u32;
    b0 + 256 * b1 + 65536 * b2 + 16777216 * b3
}

pub fn i8_to_u8(x: i8) -> (u: u8)
    ensures
        u == unsigned8(x),
{
    if x >= 0 {
        x as u8
    } else {
        (x as i16 + 256) as u8
    }
}

pub fn u8_to_i8(u: u8) -> (x: i8)
    ensures
        x == signed8(u),
{
    if u < 128 {
        u as i8
    } else {
        (u as i16 - 256) as i8
    }
}

pub fn i16_to_u16(x: i16) -> (u: u16)
    ensures
        u == unsigned16(x),
{
    if x >= 0 {
        x as u16
    } else {
        (x as i32 + 65536) as u16
    }
}

pub fn u16_to_i16(u: u16) -> (x: i16)
    ensures
        x == signed16(u),
{
    if u < 32768 {
        u as i16
    } else {
        (u as i32 - 65536) as i16
    }
}

pub fn i32_to_u32(x: i32) -> (u: u32)
    ensures
        u == unsigned32(x),
{
    if x >= 0 {
        x as u32
    } else {
        (x as i64 + 4294967296) as u32
    }
}

pub fn u32_to_i32(u: u32) -> (x: i32)
    ensures
        x == signed32(u),
{
    if u < 2147483648 {
        u as i32
    } else {
        (u as i64 - 4294967296) as i32
    }
}

/// What a parser hands back: the bytes it did not use, and what it read.
pub type ParseResult<'a, T> = Result<(&'a [u8], T), Error>;

impl RegTypeId {
    /// How many bytes a value of this type takes, where the type fixes it.
    pub open spec fn width(self) -> Option<nat> {
        match self {
            RegTypeId::UNIT => Some(0),
            RegTypeId::I32 | RegTypeId::U32 => Some(4),
            RegTypeId::I16 | RegTypeId::U16 => Some(2),
            RegTypeId::I8 | RegTypeId::U8 => Some(1),
            RegTypeId::STR | RegTypeId::BYTES => None,
        }
    }

    /// Whether `n` bytes can be the content of a value of this type.
    pub open spec fn admits(self, n: nat) -> bool {
        match self.width() {
            Some(w) => n == w,
            None => n <= MAX_FIELD_LEN,
        }
    }

    /// How many bytes a value of this type takes, where the type fixes it.
    pub fn fixed_width(self) -> (w: Option<usize>)
        ensures
            match self.width() {
                Some(n) => w == Some(n as usize) && n <= 4,
                None => w is None,
            },
    {
        match self {
            RegTypeId::UNIT => Some(0),
            RegTypeId::I32 | RegTypeId::U32 => Some(4),
            RegTypeId::I16 | RegTypeId::U16 => Some(2),
            RegTypeId::I8 | RegTypeId::U8 => Some(1),
            RegTypeId::STR | RegTypeId::BYTES => None,
        }
    }
}

/// The fixed part of a frame: code and path.
pub struct Header {
    pub code: OperationStatus,
    pub path: Seq<char>,
    /// Number of bytes the header takes.
    pub len: nat,
}

/// The header at the start of `buf`. Each field is checked in the order in
/// which it is sent; where `buf` ends before a field does, more data is
/// needed.
pub open spec fn header_of(buf: Seq<u8>) -> Result<Header, Error> {
    if buf.len() < 1 {
        Err(Error::NeedMoreData)
    } else if buf[0] != PROTOCOL_SIGN {
        Err(Error::BadProtocol)
    } else if buf.len() < 2 {
        Err(Error::NeedMoreData)
    } else if OperationStatus::from_wire(buf[1]) is None {
        Err(Error::BadProtocol)
    } else if buf.len() < 3 || buf.len() < 3 + buf[2] {
        Err(Error::NeedMoreData)
    } else if !valid_utf8(buf.subrange(3, 3 + buf[2])) {
        Err(Error::BadFormat)
    } else {
        Ok(
            Header {
                code: OperationStatus::from_wire(buf[1]).unwrap(),
                path: decode_utf8(buf.subrange(3, 3 + buf[2])),
                len: (3 + buf[2]) as nat,
            },
        )
    }
}

/// The value that `content` stands for under `tag`.
pub open spec fn value_of(tag: RegTypeId, content: Seq<u8>) -> Result<Value, Error>
    recommends
        tag.admits(content.len()),
{
    match tag {
        RegTypeId::UNIT => Ok(Value::Unit),
        RegTypeId::I32 => Ok(Value::I32(signed32(from_le32(content)))),
        RegTypeId::I16 => Ok(Value::I16(signed16(from_le16(content)))),
        RegTypeId::I8 => Ok(Value::I8(signed8(content[0]))),
        RegTypeId::U32 => Ok(Value::U32(from_le32(content))),
        RegTypeId::U16 => Ok(Value::U16(from_le16(content))),
        RegTypeId::U8 => Ok(Value::U8(content[0])),
        RegTypeId::STR => if valid_utf8(content) {
            Ok(Value::Str(decode_utf8(content)))
        } else {
            Err(Error::BadParam)
        },
        RegTypeId::BYTES => Ok(Value::Bytes(content)),
    }
}

/// The type tag at the start of `i`, and what follows it.
pub open spec fn stream_tag(i: Seq<u8>) -> Result<(Seq<u8>, RegTypeId), Error> {
    if i.len() < 1 {
        Err(Error::NeedMoreData)
    } else {
        match RegTypeId::from_wire(i[0]) {
            None => Err(Error::BadFormat),
            Some(tag) => Ok((i.skip(1), tag)),
        }
    }
}

/// The content of a value of type `tag` at the start of `i`, and the number
/// of bytes that content and length byte take. A value of fixed width takes
/// that many bytes; a string or byte value takes its length byte and as many
/// bytes as that says. Where `i` ends before the value does, more data is
/// needed.
pub open spec fn stream_content(tag: RegTypeId, i: Seq<u8>) -> Result<(Seq<u8>, nat), Error> {
    match tag.width() {
        Some(w) => if i.len() < w {
            Err(Error::NeedMoreData)
        } else {
            Ok((i.take(w as int), w))
        },
        None => if i.len() < 1 || i.len() < 1 + i[0] {
            Err(Error::NeedMoreData)
        } else {
            Ok((i.subrange(1, 1 + i[0]), (1 + i[0]) as nat))
        },
    }
}

/// The value at the start of `i`, and the number of bytes it takes, tag
/// included.
pub open spec fn stream_value(i: Seq<u8>) -> Result<(Value, nat), Error> {
    match stream_tag(i) {
        Err(e) => Err(e),
        Ok((rest, tag)) => match stream_content(tag, rest) {
            Err(e) => Err(e),
            Ok((content, used)) => match value_of(tag, content) {
                Err(e) => Err(e),
                Ok(v) => Ok((v, 1 + used)),
            },
        },
    }
}

/// The value of the frame at the start of `buf`, and the number of bytes the
/// frame takes, or why there is none.
///
/// The fields are checked in the order in which they are sent. Wherever
/// `buf` ends before a field does, the answer is `NeedMoreData`. A wrong
/// signature and an unknown code are `BadProtocol`; a path that is not UTF-8
/// and an unknown type tag are `BadFormat`; a string value that is not UTF-8
/// is `BadParam`. A read request carries no value and gives the unit value;
/// every other frame carries one. Bytes behind the frame play no part.
pub open spec fn frame_value(buf: Seq<u8>) -> Result<(Value, nat), Error> {
    match header_of(buf) {
        Err(e) => Err(e),
        Ok(h) => if h.code == OperationStatus::Read {
            Ok((Value::Unit, h.len))
        } else {
            match stream_value(buf.skip(h.len as int)) {
                Err(e) => Err(e),
                Ok((v, used)) => Ok((v, h.len + used)),
            }
        },
    }
}

/// The value of the frame at the start of `buf`, or why there is none.
pub open spec fn answer_value(buf: Seq<u8>) -> Result<Value, Error> {
    match frame_value(buf) {
        Err(e) => Err(e),
        Ok((v, _)) => Ok(v),
    }
}

/// Whether an executable result is what the contract's result says.
pub open spec fn same_value(r: Result<RegisterValue, Error>, s: Result<Value, Error>) -> bool {
    match s {
        Ok(v) => r matches Ok(x) && x@ == v,
        Err(e) => r matches Err(x) && x == e,
    }
}

/// `core::str::from_utf8`: the bytes as a string slice when they are valid
/// UTF-8, and nothing when they are not. The slice's bytes are the given
/// ones.
#[verifier::external_body]
fn str_from_utf8<'a>(bytes: &'a [u8]) -> (r: Option<&'a str>)
    ensures
        r is Some <==> valid_utf8(bytes@),
        r matches Some(s) ==> encode_utf8(s@) == bytes@,
{
    core::str::from_utf8(bytes).ok()
}

/// The string that `bytes` spell, if they are valid UTF-8.
pub fn utf8_string(bytes: &[u8]) -> (r: Option<String>)
    ensures
        r is Some <==> valid_utf8(bytes@),
        r matches Some(s) ==> s@ == decode_utf8(bytes@) && encode_utf8(s@) == bytes@,
{
    match str_from_utf8(bytes) {
        Some(s) => {
            proof {
                vstd::utf8::encode_utf8_decode_utf8(s@);
            }
            Some(s.to_owned())
        },
        None => None,
    }
}

/// Checks the signature byte.
pub fn sign_parser(i: &[u8]) -> (r: ParseResult<()>)
    ensures
        i@.len() < 1 ==> (r matches Err(e) && e == Error::NeedMoreData),
        i@.len() >= 1 && i@[0] != PROTOCOL_SIGN ==> (r matches Err(e) && e == Error::BadProtocol),
        i@.len() >= 1 && i@[0] == PROTOCOL_SIGN ==> (r matches Ok(p) && p.0@ == i@.skip(1)),
{
    if i.len() < 1 {
        return Err(Error::NeedMoreData);
    }
    if i[0] != PROTOCOL_SIGN {
        return Err(Error::BadProtocol);
    }
    Ok((slice_subrange(i, 1, i.len()), ()))
}

/// Reads the operation or status code.
pub fn op_parser(i: &[u8]) -> (r: ParseResult<OperationStatus>)
    ensures
        i@.len() < 1 ==> (r matches Err(e) && e == Error::NeedMoreData),
        i@.len() >= 1 && OperationStatus::from_wire(i@[0]) is None ==> (r matches Err(e) && e
            == Error::BadProtocol),
        i@.len() >= 1 && OperationStatus::from_wire(i@[0]) is Some ==> (r matches Ok(p) && p.0@
            == i@.skip(1) && Some(p.1) == OperationStatus::from_wire(i@[0])),
{
    if i.len() < 1 {
        return Err(Error::NeedMoreData);
    }
    match OperationStatus::try_from_wire(i[0]) {
        Some(v) => Ok((slice_subrange(i, 1, i.len()), v)),
        None => Err(Error::BadProtocol),
    }
}

/// Reads the path's length byte.
pub fn name_sz_parser(i: &[u8]) -> (r: ParseResult<usize>)
    ensures
        i@.len() < 1 ==> (r matches Err(e) && e == Error::NeedMoreData),
        i@.len() >= 1 ==> (r matches Ok(p) && p.0@ == i@.skip(1) && p.1 == i@[0]),
{
    if i.len() < 1 {
        return Err(Error::NeedMoreData);
    }
    let name_sz: usize = i[0] as usize;
    Ok((slice_subrange(i, 1, i.len()), name_sz))
}

/// Reads a path of `sz` bytes.
pub fn name_parser(i: &[u8], sz: usize) -> (r: ParseResult<String>)
    ensures
        i@.len() < sz ==> (r matches Err(e) && e == Error::NeedMoreData),
        i@.len() >= sz && !valid_utf8(i@.take(sz as int)) ==> (r matches Err(e) && e
            == Error::BadFormat),
        i@.len() >= sz && valid_utf8(i@.take(sz as int)) ==> (r matches Ok(p) && p.0@
            == i@.skip(sz as int) && p.1@ == decode_utf8(i@.take(sz as int))),
{
    if i.len() < sz {
        return Err(Error::NeedMoreData);
    }
    assert(i@.subrange(0, sz as int) == i@.take(sz as int));
    match utf8_string(slice_subrange(i, 0, sz)) {
        Some(name) => Ok((slice_subrange(i, sz, i.len()), name)),
        None => Err(Error::BadFormat),
    }
}

/// Reads code and path from the start of `buf`, and says how many bytes they
/// took.
pub fn header_parser(buf: &[u8]) -> (r: Result<(OperationStatus, String, usize), Error>)
    ensures
        match header_of(buf@) {
            Ok(h) => r matches Ok(t) && t.0 == h.code && t.1@ == h.path && t.2 == h.len,
            Err(e) => r matches Err(x) && x == e,
        },
{
    let (rest, _) = sign_parser(buf)?;
    let (rest, op) = op_parser(rest)?;
    let (rest, name_sz) = name_sz_parser(rest)?;
    assert(rest@ == buf@.skip(3));
    assert(rest@.len() >= name_sz ==> rest@.take(name_sz as int) == buf@.subrange(
        3,
        3 + name_sz,
    ));
    let (_, name) = name_parser(rest, name_sz)?;
    Ok((op, name, 3 + name_sz))
}

/// Reads the type tag of a value.
pub fn value_type(i: &[u8]) -> (r: ParseResult<RegTypeId>)
    ensures
        match stream_tag(i@) {
            Ok((rest, tag)) => r matches Ok(p) && p.0@ == rest && p.1 == tag,
            Err(e) => r matches Err(x) && x == e,
        },
{
    if i.len() < 1 {
        return Err(Error::NeedMoreData);
    }
    let type_id = match RegTypeId::try_from(i[0]) {
        Ok(v) => v,
        Err(_) => {
            return Err(Error::BadFormat);
        },
    };
    Ok((slice_subrange(i, 1, i.len()), type_id))
}

/// Takes the content of a value of type `type_id` from the start of `i`, and
/// hands back the bytes behind it untouched.
pub fn value_parser(i: &[u8], type_id: RegTypeId) -> (r: ParseResult<(RegTypeId, &[u8])>)
    ensures
        match stream_content(type_id, i@) {
            Ok((content, used)) => r matches Ok(p) && p.0@ == i@.skip(used as int) && p.1.0
                == type_id && p.1.1@ == content && type_id.admits(content.len()) && used
                <= i@.len(),
            Err(e) => r matches Err(x) && x == e,
        },
{
    match type_id.fixed_width() {
        Some(w) => {
            if i.len() < w {
                return Err(Error::NeedMoreData);
            }
            let content = slice_subrange(i, 0, w);
            assert(content@ == i@.take(w as int));
            Ok((slice_subrange(i, w, i.len()), (type_id, content)))
        },
        None => {
            if i.len() < 1 {
                return Err(Error::NeedMoreData);
            }
            let sz: usize = i[0] as usize;
            if i.len() - 1 < sz {
                return Err(Error::NeedMoreData);
            }
            Ok((slice_subrange(i, 1 + sz, i.len()), (type_id, slice_subrange(i, 1, 1 + sz))))
        },
    }
}

/// Builds the value that `content` stands for under `type_id`.
pub fn value_builder(type_id: RegTypeId, content: &[u8]) -> (r: Result<RegisterValue, Error>)
    requires
        type_id.admits(content@.len()),
    ensures
        same_value(r, value_of(type_id, content@)),
{
    match type_id {
        RegTypeId::UNIT => Ok(RegisterValue::UNIT),
        RegTypeId::I32 => Ok(RegisterValue::I32(u32_to_i32(u32_from_le(content)))),
        RegTypeId::I16 => Ok(RegisterValue::I16(u16_to_i16(u16_from_le(content)))),
        RegTypeId::I8 => Ok(RegisterValue::I8(u8_to_i8(content[0]))),
        RegTypeId::U32 => Ok(RegisterValue::U32(u32_from_le(content))),
        RegTypeId::U16 => Ok(RegisterValue::U16(u16_from_le(content))),
        RegTypeId::U8 => Ok(RegisterValue::U8(content[0])),
        RegTypeId::STR => match utf8_string(content) {
            Some(s) => Ok(RegisterValue::STR(s)),
            None => Err(Error::BadParam),
        },
        RegTypeId::BYTES => Ok(RegisterValue::BYTES(slice_to_vec(content))),
    }
}

/// Reads the value at the start of `i`, and says how many bytes it took.
pub fn value_reader(i: &[u8]) -> (r: Result<(RegisterValue, usize), Error>)
    ensures
        match stream_value(i@) {
            Ok((v, n)) => r matches Ok(p) && p.0@ == v && p.1 == n && n <= i@.len(),
            Err(e) => r matches Err(x) && x == e,
        },
{
    let (rest, rtype) = value_type(i)?;
    let (after, (_type_id, value_bytes)) = value_parser(rest, rtype)?;
    let value = value_builder(rtype, value_bytes)?;
    Ok((value, i.len() - after.len()))
}

/// Reads the value out of the frame at the start of `buf`.
///
/// The frame is read as far as it goes and no further: bytes behind it are
/// not looked at. A buffer that ends before the frame does gives
/// `NeedMoreData`: call again with more bytes appended. A read request
/// carries no value and gives the unit value.
pub fn pars_answer(buf: &[u8]) -> (r: Result<RegisterValue, Error>)
    ensures
        same_value(r, answer_value(buf@)),
{
    let (op, _name, used) = header_parser(buf)?;
    match op {
        OperationStatus::Read => Ok(RegisterValue::UNIT),
        _ => {
            let rest = slice_subrange(buf, used, buf.len());
            assert(rest@ == buf@.skip(used as int));
            let (value, _) = value_reader(rest)?;
            Ok(value)
        },
    }
}

} // verus!
