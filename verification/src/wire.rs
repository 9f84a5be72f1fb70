//! The wire format of a field: a header that carries the tag and the wire
//! type, then a payload in the form that the wire type names. The header
//! alone tells how long the payload is, so a reader can pass over a field
//! whose tag it has never seen.

use crate::error::DecodeError;
use crate::varint::{
    decode_u64, lemma_u64_roundtrip, lemma_varint_prefix_bounds, read_varint, varint_bytes,
    write_varint, MAX_VARINT_LEN,
};
use vstd::prelude::*;
use vstd::slice::slice_subrange;
use vstd::slice::slice_to_vec;
use vstd::std_specs::cmp::PartialEqSpecImpl;

verus! {

/// How the payload of a field is laid out.
#[derive(Clone, Copy, Debug, PartialEq, Eq, Structural, Hash)]
pub enum WireType {
    /// One variable-length integer: scalar fields.
    Varint,
    /// A length and that many bytes: every nested or composite field.
    Sized,
}

impl WireType {
    /// The code of this wire type in a field header.
    pub open spec fn spec_code(self) -> u8 {
        match self {
            WireType::Varint => 0,
            WireType::Sized => 2,
        }
    }

    /// The wire type that a code stands for, if any.
    pub open spec fn spec_from_code(code: u8) -> Option<WireType> {
        if code == 0 {
            Some(WireType::Varint)
        } else if code == 2 {
            Some(WireType::Sized)
        } else {
            None
        }
    }

    /// The code of this wire type in a field header.
    pub fn code(self) -> (code: u8)
        ensures
            code == self.spec_code(),
    {
        match self {
            WireType::Varint => 0,
            WireType::Sized => 2,
        }
    }

    /// The wire type that a code stands for, if any.
    pub fn from_code(code: u8) -> (wire_type: Option<WireType>)
        ensures
            wire_type == WireType::spec_from_code(code),
    {
        if code == 0 {
            Some(WireType::Varint)
        } else if code == 2 {
            Some(WireType::Sized)
        } else {
            None
        }
    }
}

/// A value as it travels: the type it had in the program is gone, the wire
/// type is kept.
#[derive(Debug)]
pub enum Value {
    Varint(u64),
    Sized(Vec<u8>),
}

/// What a `Value` holds.
pub ghost enum ValueView {
    Varint(u64),
    Sized(Seq<u8>),
}

impl View for Value {
    type V = ValueView;

    open spec fn view(&self) -> ValueView {
        match self {
            Value::Varint(v) => ValueView::Varint(*v),
            Value::Sized(bytes) => ValueView::Sized(bytes@),
        }
    }
}

impl ValueView {
    /// The wire type under which the value travels.
    pub open spec fn wire_type(self) -> WireType {
        match self {
            ValueView::Varint(_) => WireType::Varint,
            ValueView::Sized(_) => WireType::Sized,
        }
    }

    /// A length-delimited value can be written only if its length fits the
    /// length prefix.
    pub open spec fn wf(self) -> bool {
        match self {
            ValueView::Varint(_) => true,
            ValueView::Sized(bytes) => bytes.len() <= u64::MAX,
        }
    }

    /// The payload: the integer itself, or the length and then the bytes.
    pub open spec fn payload(self) -> Seq<u8> {
        match self {
            ValueView::Varint(v) => varint_bytes(v as nat),
            ValueView::Sized(bytes) => varint_bytes(bytes.len()) + bytes,
        }
    }
}

/// The number that a field header encodes.
pub open spec fn header_key(tag: u16, wire_type: WireType) -> nat {
    (tag * 8 + wire_type.spec_code()) as nat
}

/// The header of a field.
pub open spec fn header_bytes(tag: u16, wire_type: WireType) -> Seq<u8> {
    varint_bytes(header_key(tag, wire_type))
}

/// A field: header, then payload.
pub open spec fn field_bytes(tag: u16, value: ValueView) -> Seq<u8> {
    header_bytes(tag, value.wire_type()) + value.payload()
}

/// The header at the front of `s`: tag, wire type, bytes taken.
pub open spec fn parse_header(s: Seq<u8>) -> Result<(u16, WireType, nat), DecodeError> {
    match decode_u64(s) {
        Err(e) => Err(e),
        Ok((key, n)) => if key / 8 > u16::MAX {
            Err(DecodeError::InvalidHeader)
        } else {
            match WireType::spec_from_code((key % 8) as u8) {
                None => Err(DecodeError::InvalidHeader),
                Some(wire_type) => Ok(((key / 8) as u16, wire_type, n)),
            }
        },
    }
}

/// The payload of the given wire type at the front of `s`: the value and
/// the bytes taken.
pub open spec fn parse_payload(s: Seq<u8>, wire_type: WireType) -> Result<
    (ValueView, nat),
    DecodeError,
> {
    match decode_u64(s) {
        Err(e) => Err(e),
        Ok((v, n)) => match wire_type {
            WireType::Varint => Ok((ValueView::Varint(v), n)),
            WireType::Sized => if v > s.len() - n {
                Err(DecodeError::LengthExceedsBuffer)
            } else {
                Ok((ValueView::Sized(s.subrange(n as int, (n + v) as int)), (n + v) as nat))
            },
        },
    }
}

/// The field at the front of `s`: tag, value, bytes taken.
pub open spec fn parse_field(s: Seq<u8>) -> Result<(u16, ValueView, nat), DecodeError> {
    match parse_header(s) {
        Err(e) => Err(e),
        Ok((tag, wire_type, n)) => match parse_payload(s.skip(n as int), wire_type) {
            Err(e) => Err(e),
            Ok((value, m)) => Ok((tag, value, n + m)),
        },
    }
}

/// A header that was written is read back, whatever follows it.
pub proof fn lemma_header_roundtrip(tag: u16, wire_type: WireType, rest: Seq<u8>)
    ensures
        parse_header(header_bytes(tag, wire_type) + rest) == Ok::<
            (u16, WireType, nat),
            DecodeError,
        >((tag, wire_type, header_bytes(tag, wire_type).len())),
{
    let key = header_key(tag, wire_type);
    lemma_u64_roundtrip(key as u64, rest);
}

/// A payload that was written is read back under its wire type, whatever
/// follows it.
pub proof fn lemma_payload_roundtrip(value: ValueView, rest: Seq<u8>)
    requires
        value.wf(),
    ensures
        parse_payload(value.payload() + rest, value.wire_type()) == Ok::<
            (ValueView, nat),
            DecodeError,
        >((value, value.payload().len())),
{
    match value {
        ValueView::Varint(v) => {
            lemma_u64_roundtrip(v, rest);
        },
        ValueView::Sized(bytes) => {
            let s = value.payload() + rest;
            let n = varint_bytes(bytes.len()).len();
            assert(s =~= varint_bytes(bytes.len()) + (bytes + rest));
            lemma_u64_roundtrip(bytes.len() as u64, bytes + rest);
            assert(s.subrange(n as int, (n + bytes.len()) as int) =~= bytes);
        },
    }
}

/// A field that was written is read back, whatever follows it.
pub proof fn lemma_field_roundtrip(tag: u16, value: ValueView, rest: Seq<u8>)
    requires
        value.wf(),
    ensures
        parse_field(field_bytes(tag, value) + rest) == Ok::<(u16, ValueView, nat), DecodeError>(
            (tag, value, field_bytes(tag, value).len()),
        ),
{
    let header = header_bytes(tag, value.wire_type());
    let s = field_bytes(tag, value) + rest;
    assert(s =~= header + (value.payload() + rest));
    lemma_header_roundtrip(tag, value.wire_type(), value.payload() + rest);
    assert(s.skip(header.len() as int) =~= value.payload() + rest);
    lemma_payload_roundtrip(value, rest);
}

/// What was read as a field is at least two bytes and no more than what
/// stands there.
pub proof fn lemma_parse_field_bounds(s: Seq<u8>)
    ensures
        match parse_field(s) {
            Ok((_, _, n)) => 2 <= n <= s.len(),
            Err(_) => true,
        },
{
    lemma_varint_prefix_bounds(s, MAX_VARINT_LEN as nat);
    if let Ok((_, _, n)) = parse_header(s) {
        lemma_varint_prefix_bounds(s.skip(n as int), MAX_VARINT_LEN as nat);
    }
}

/// Appends `bytes` to `out`.
pub fn append_bytes(out: &mut Vec<u8>, bytes: &[u8])
    ensures
        final(out)@ == old(out)@ + bytes@,
{
    let mut i: usize = 0;
    while i < bytes.len()
        invariant
            i <= bytes.len(),
            out@ == old(out)@ + bytes@.take(i as int),
        decreases bytes.len() - i,
    {
        out.push(bytes[i]);
        assert(bytes@.take(i + 1) =~= bytes@.take(i as int).push(bytes@[i as int]));
        i += 1;
    }
    assert(bytes@.take(i as int) =~= bytes@);
}

impl Value {
    /// The wire type under which the value travels.
    pub fn wire_type(&self) -> (wire_type: WireType)
        ensures
            wire_type == self@.wire_type(),
    {
        match self {
            Value::Varint(_) => WireType::Varint,
            Value::Sized(_) => WireType::Sized,
        }
    }

    /// Every value that a program can hold can be written.
    pub proof fn lemma_wf(&self)
        ensures
            self@.wf(),
    {
        if let Value::Sized(bytes) = self {
            assert(bytes@.len() == bytes.len());
        }
    }

    /// Appends the payload of the value to `out`.
    pub fn write_payload(&self, out: &mut Vec<u8>)
        ensures
            final(out)@ == old(out)@ + self@.payload(),
    {
        match self {
            Value::Varint(v) => {
                write_varint(out, *v);
            },
            Value::Sized(bytes) => {
                write_varint(out, bytes.len() as u64);
                append_bytes(out, bytes.as_slice());
                assert(out@ =~= old(out)@ + self@.payload());
            },
        }
    }

}

impl Clone for Value {
    fn clone(&self) -> (copy: Value)
        ensures
            copy@ == self@,
    {
        match self {
            Value::Varint(v) => Value::Varint(*v),
            Value::Sized(bytes) => Value::Sized(bytes.clone()),
        }
    }
}

impl PartialEq for Value {
    /// Two values are equal when they have the same wire type and hold the
    /// same number or the same bytes.
    fn eq(&self, other: &Value) -> (equal: bool) {
        match (self, other) {
            (Value::Varint(a), Value::Varint(b)) => *a == *b,
            (Value::Sized(a), Value::Sized(b)) => {
                let equal = *a == *b;
                proof {
                    if equal {
                        assert(a@ =~= b@);
                    }
                }
                equal
            },
            _ => false,
        }
    }
}

impl PartialEqSpecImpl for Value {
    open spec fn obeys_eq_spec() -> bool {
        true
    }

    open spec fn eq_spec(&self, other: &Value) -> bool {
        self@ == other@
    }
}

impl Eq for Value {

}

/// Appends the header of a field to `out`.
pub fn write_header(out: &mut Vec<u8>, tag: u16, wire_type: WireType)
    ensures
        final(out)@ == old(out)@ + header_bytes(tag, wire_type),
{
    let key: u64 = tag as u64 * 8 + wire_type.code() as u64;
    write_varint(out, key);
}

/// Appends a field, header and payload, to `out`.
pub fn write_field(out: &mut Vec<u8>, tag: u16, value: &Value)
    ensures
        final(out)@ == old(out)@ + field_bytes(tag, value@),
{
    write_header(out, tag, value.wire_type());
    value.write_payload(out);
    assert(out@ =~= old(out)@ + field_bytes(tag, value@));
}

/// The bytes of a field.
pub fn encode_field(tag: u16, value: &Value) -> (bytes: Vec<u8>)
    ensures
        bytes@ == field_bytes(tag, value@),
{
    let mut bytes: Vec<u8> = Vec::new();
    write_field(&mut bytes, tag, value);
    assert(bytes@ =~= field_bytes(tag, value@));
    bytes
}

/// Reads the field header that stands in `buf` at `pos`.
pub(crate) fn read_header(buf: &[u8], pos: usize) -> (r: Result<(u16, WireType, usize), DecodeError>)
    requires
        pos <= buf.len(),
    ensures
        match r {
            Ok((tag, wire_type, n)) => parse_header(buf@.skip(pos as int)) == Ok::<
                (u16, WireType, nat),
                DecodeError,
            >((tag, wire_type, n as nat)) && pos + n <= buf.len(),
            Err(e) => parse_header(buf@.skip(pos as int)) == Err::<
                (u16, WireType, nat),
                DecodeError,
            >(e),
        },
{
    match read_varint(buf, pos) {
        Err(e) => Err(e),
        Ok((key, n)) => {
            if key / 8 > u16::MAX as u64 {
                return Err(DecodeError::InvalidHeader);
            }
            match WireType::from_code((key % 8) as u8) {
                None => Err(DecodeError::InvalidHeader),
                Some(wire_type) => Ok(((key / 8) as u16, wire_type, n)),
            }
        },
    }
}

/// Measures the payload of the given wire type that stands in `buf` at
/// `pos`, without building its value.
pub(crate) fn skip_payload_at(buf: &[u8], pos: usize, wire_type: WireType) -> (r: Result<
    usize,
    DecodeError,
>)
    requires
        pos <= buf.len(),
    ensures
        match r {
            Ok(n) => parse_payload(buf@.skip(pos as int), wire_type) is Ok && parse_payload(
                buf@.skip(pos as int),
                wire_type,
            )->Ok_0.1 == n && pos + n <= buf.len(),
            Err(e) => parse_payload(buf@.skip(pos as int), wire_type) == Err::<
                (ValueView, nat),
                DecodeError,
            >(e),
        },
{
    match read_varint(buf, pos) {
        Err(e) => Err(e),
        Ok((v, n)) => match wire_type {
            WireType::Varint => Ok(n),
            WireType::Sized => {
                if v > (buf.len() - pos - n) as u64 {
                    Err(DecodeError::LengthExceedsBuffer)
                } else {
                    Ok(n + v as usize)
                }
            },
        },
    }
}

/// Reads the payload of the given wire type that stands in `buf` at `pos`.
pub(crate) fn read_payload(buf: &[u8], pos: usize, wire_type: WireType) -> (r: Result<
    (Value, usize),
    DecodeError,
>)
    requires
        pos <= buf.len(),
    ensures
        match r {
            Ok((value, n)) => parse_payload(buf@.skip(pos as int), wire_type) == Ok::<
                (ValueView, nat),
                DecodeError,
            >((value@, n as nat)) && pos + n <= buf.len(),
            Err(e) => parse_payload(buf@.skip(pos as int), wire_type) == Err::<
                (ValueView, nat),
                DecodeError,
            >(e),
        },
{
    match read_varint(buf, pos) {
        Err(e) => Err(e),
        Ok((v, n)) => match wire_type {
            WireType::Varint => Ok((Value::Varint(v), n)),
            WireType::Sized => {
                if v > (buf.len() - pos - n) as u64 {
                    Err(DecodeError::LengthExceedsBuffer)
                } else {
                    let len: usize = v as usize;
                    let bytes = slice_to_vec(slice_subrange(buf, pos + n, pos + n + len));
                    assert(bytes@ =~= buf@.skip(pos as int).subrange(n as int, (n + v) as int));
                    Ok((Value::Sized(bytes), n + len))
                }
            },
        },
    }
}

/// Reads the field that stands in `buf` at `pos`: tag, value, bytes taken.
pub(crate) fn read_field(buf: &[u8], pos: usize) -> (r: Result<(u16, Value, usize), DecodeError>)
    requires
        pos <= buf.len(),
    ensures
        match r {
            Ok((tag, value, n)) => parse_field(buf@.skip(pos as int)) == Ok::<
                (u16, ValueView, nat),
                DecodeError,
            >((tag, value@, n as nat)) && pos + n <= buf.len(),
            Err(e) => parse_field(buf@.skip(pos as int)) == Err::<
                (u16, ValueView, nat),
                DecodeError,
            >(e),
        },
{
    match read_header(buf, pos) {
        Err(e) => Err(e),
        Ok((tag, wire_type, n)) => {
            assert(buf@.skip(pos as int).skip(n as int) =~= buf@.skip(pos + n));
            match read_payload(buf, pos + n, wire_type) {
                Err(e) => Err(e),
                Ok((value, m)) => Ok((tag, value, n + m)),
            }
        },
    }
}

/// Reads the field at the front of `bytes`: tag, value, bytes taken.
pub fn decode_field(bytes: &[u8]) -> (r: Result<(u16, Value, usize), DecodeError>)
    ensures
        match r {
            Ok((tag, value, n)) => parse_field(bytes@) == Ok::<(u16, ValueView, nat), DecodeError>(
                (tag, value@, n as nat),
            ),
            Err(e) => parse_field(bytes@) == Err::<(u16, ValueView, nat), DecodeError>(e),
        },
{
    assert(bytes@.skip(0) =~= bytes@);
    read_field(bytes, 0)
}

/// Reads the field header at the front of `bytes`: tag, wire type, bytes
/// taken.
pub fn decode_header(bytes: &[u8]) -> (r: Result<(u16, WireType, usize), DecodeError>)
    ensures
        match r {
            Ok((tag, wire_type, n)) => parse_header(bytes@) == Ok::<
                (u16, WireType, nat),
                DecodeError,
            >((tag, wire_type, n as nat)),
            Err(e) => parse_header(bytes@) == Err::<(u16, WireType, nat), DecodeError>(e),
        },
{
    assert(bytes@.skip(0) =~= bytes@);
    read_header(bytes, 0)
}

/// Reads the payload of the given wire type at the front of `bytes`: the
/// value and the bytes taken.
pub fn decode_payload(bytes: &[u8], wire_type: WireType) -> (r: Result<
    (Value, usize),
    DecodeError,
>)
    ensures
        match r {
            Ok((value, n)) => parse_payload(bytes@, wire_type) == Ok::<
                (ValueView, nat),
                DecodeError,
            >((value@, n as nat)),
            Err(e) => parse_payload(bytes@, wire_type) == Err::<(ValueView, nat), DecodeError>(e),
        },
{
    assert(bytes@.skip(0) =~= bytes@);
    read_payload(bytes, 0, wire_type)
}

/// Measures the payload of the given wire type at the front of `bytes`
/// without building its value: the number of bytes that reading it would
/// take. This is how a field with an unknown tag is passed over.
pub fn skip_payload(bytes: &[u8], wire_type: WireType) -> (r: Result<usize, DecodeError>)
    ensures
        match r {
            Ok(n) => parse_payload(bytes@, wire_type) is Ok && parse_payload(
                bytes@,
                wire_type,
            )->Ok_0.1 == n,
            Err(e) => parse_payload(bytes@, wire_type) == Err::<(ValueView, nat), DecodeError>(e),
        },
{
    assert(bytes@.skip(0) =~= bytes@);
    skip_payload_at(bytes, 0, wire_type)
}

} // verus!
