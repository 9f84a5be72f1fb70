//! The table of one type's fields, and the decoding of a message against
//! it: what the table knows is handed out, what it does not know is passed
//! over.

use crate::error::{DecodeError, SchemaError};
use crate::wire::{
    field_bytes, lemma_field_roundtrip, lemma_parse_field_bounds, parse_field, read_header,
    read_payload, skip_payload_at, write_field, Value, ValueView, WireType,
};
use crate::varint::{decode_u64, read_varint};
use vstd::slice::slice_subrange;
use vstd::prelude::*;

verus! {

/// The wire type that `table` gives for `tag`: that of the first row with
/// this tag.
pub open spec fn lookup(table: Seq<(u16, WireType)>, tag: u16) -> Option<WireType>
    decreases table.len(),
{
    if table.len() == 0 {
        None
    } else if table[0].0 == tag {
        Some(table[0].1)
    } else {
        lookup(table.skip(1), tag)
    }
}

/// A new row at the end of a table changes nothing for the tags that the
/// table knew, and gives the new tag its wire type if the table did not
/// know it.
pub proof fn lemma_lookup_push(table: Seq<(u16, WireType)>, row: (u16, WireType), tag: u16)
    ensures
        lookup(table.push(row), tag) == match lookup(table, tag) {
            Some(wire_type) => Some(wire_type),
            None => if tag == row.0 {
                Some(row.1)
            } else {
                None
            },
        },
    decreases table.len(),
{
    reveal_with_fuel(lookup, 2);
    if table.len() == 0 {
        assert(table.push(row).skip(1) =~= Seq::<(u16, WireType)>::empty());
    } else {
        assert(table.push(row).skip(1) =~= table.skip(1).push(row));
        lemma_lookup_push(table.skip(1), row, tag);
    }
}

/// The tags of one type and the wire type of each. A tag gets its wire
/// type when it is declared and keeps it.
pub struct Schema {
    rows: Vec<(u16, WireType)>,
}

impl Schema {
    /// The wire type of `tag`, or nothing if the schema does not know the
    /// tag.
    pub closed spec fn spec_wire_type_for(&self, tag: u16) -> Option<WireType> {
        lookup(self.rows@, tag)
    }

    /// Whether a field with this tag and this wire type is one of the
    /// schema's own.
    pub open spec fn recognises(&self, tag: u16, wire_type: WireType) -> bool {
        self.spec_wire_type_for(tag) == Some(wire_type)
    }

    /// A schema that knows no tag.
    pub fn new() -> (schema: Schema)
        ensures
            forall|tag: u16| schema.spec_wire_type_for(tag) is None,
    {
        Schema { rows: Vec::new() }
    }

    /// The wire type of `tag`, or nothing if the schema does not know the
    /// tag. An unknown tag is no error.
    pub fn wire_type_for(&self, tag: u16) -> (wire_type: Option<WireType>)
        ensures
            wire_type == self.spec_wire_type_for(tag),
    {
        let mut i: usize = 0;
        assert(self.rows@.skip(0) =~= self.rows@);
        while i < self.rows.len()
            invariant
                i <= self.rows.len(),
                lookup(self.rows@, tag) == lookup(self.rows@.skip(i as int), tag),
            decreases self.rows.len() - i,
        {
            let row = self.rows[i];
            assert(self.rows@.skip(i as int)[0] == row);
            if row.0 == tag {
                return Some(row.1);
            }
            assert(self.rows@.skip(i as int).skip(1) =~= self.rows@.skip(i + 1));
            i += 1;
        }
        None
    }

    /// Declares that `tag` travels as `wire_type`. To declare a tag again
    /// with the wire type it has changes nothing; to declare it with the
    /// other one is refused, and the schema stays as it was.
    pub fn declare(&mut self, tag: u16, wire_type: WireType) -> (r: Result<(), SchemaError>)
        ensures
            match old(self).spec_wire_type_for(tag) {
                None => r is Ok && final(self).spec_wire_type_for(tag) == Some(wire_type),
                Some(declared) => {
                    &&& r is Ok <==> declared == wire_type
                    &&& final(self).spec_wire_type_for(tag) == Some(declared)
                },
            },
            r is Err ==> r == Err::<(), SchemaError>(SchemaError::WireTypeChanged),
            forall|other: u16|
                other != tag ==> final(self).spec_wire_type_for(other) == old(self)
                    .spec_wire_type_for(other),
    {
        match self.wire_type_for(tag) {
            Some(declared) => {
                if declared == wire_type {
                    Ok(())
                } else {
                    Err(SchemaError::WireTypeChanged)
                }
            },
            None => {
                proof {
                    assert forall|other: u16|
                        lookup(self.rows@.push((tag, wire_type)), other) == match lookup(
                            self.rows@,
                            other,
                        ) {
                            Some(w) => Some(w),
                            None => if other == tag {
                                Some(wire_type)
                            } else {
                                None
                            },
                        } by {
                        lemma_lookup_push(self.rows@, (tag, wire_type), other);
                    }
                }
                self.rows.push((tag, wire_type));
                Ok(())
            },
        }
    }
}

/// What a vector of fields holds.
pub open spec fn field_views(fields: Seq<(u16, Value)>) -> Seq<(u16, ValueView)> {
    fields.map_values(|field: (u16, Value)| (field.0, field.1@))
}

/// The fields of a message one after the other.
pub open spec fn message_bytes(fields: Seq<(u16, ValueView)>) -> Seq<u8>
    decreases fields.len(),
{
    if fields.len() == 0 {
        Seq::empty()
    } else {
        field_bytes(fields[0].0, fields[0].1) + message_bytes(fields.skip(1))
    }
}

/// Those of `fields` that the schema recognises, in their order.
pub open spec fn recognised(fields: Seq<(u16, ValueView)>, schema: Schema) -> Seq<
    (u16, ValueView),
>
    decreases fields.len(),
{
    if fields.len() == 0 {
        Seq::empty()
    } else if schema.recognises(fields[0].0, fields[0].1.wire_type()) {
        seq![fields[0]] + recognised(fields.skip(1), schema)
    } else {
        recognised(fields.skip(1), schema)
    }
}

/// The fields of the message `s` that the schema recognises, in their
/// order. A field whose tag the schema does not know, or knows under the
/// other wire type, is read over: its header says how long it is. A field
/// that cannot be read fails the message.
pub open spec fn parse_message(s: Seq<u8>, schema: Schema) -> Result<
    Seq<(u16, ValueView)>,
    DecodeError,
>
    decreases s.len(),
{
    if s.len() == 0 {
        Ok(Seq::empty())
    } else {
        match parse_field(s) {
            Err(e) => Err(e),
            Ok((tag, value, n)) => {
                proof {
                    lemma_parse_field_bounds(s);
                }
                match parse_message(s.skip(n as int), schema) {
                    Err(e) => Err(e),
                    Ok(rest) => if schema.recognises(tag, value.wire_type()) {
                        Ok(seq![(tag, value)] + rest)
                    } else {
                        Ok(rest)
                    },
                }
            },
        }
    }
}

/// A message of one more field is the message and then the field.
pub proof fn lemma_message_bytes_push(fields: Seq<(u16, ValueView)>, field: (u16, ValueView))
    ensures
        message_bytes(fields.push(field)) == message_bytes(fields) + field_bytes(field.0, field.1),
    decreases fields.len(),
{
    reveal_with_fuel(message_bytes, 2);
    if fields.len() == 0 {
        assert(fields.push(field).skip(1) =~= Seq::<(u16, ValueView)>::empty());
        assert(message_bytes(fields.push(field)) =~= message_bytes(fields) + field_bytes(
            field.0,
            field.1,
        ));
    } else {
        assert(fields.push(field).skip(1) =~= fields.skip(1).push(field));
        lemma_message_bytes_push(fields.skip(1), field);
        assert(message_bytes(fields.push(field)) =~= message_bytes(fields) + field_bytes(
            field.0,
            field.1,
        ));
    }
}

/// Reading a message that was written gives the fields that the schema
/// recognises, each as it was written, and none of the others.
pub proof fn lemma_message_roundtrip(fields: Seq<(u16, ValueView)>, schema: Schema)
    requires
        forall|i: int| 0 <= i < fields.len() ==> (#[trigger] fields[i]).1.wf(),
    ensures
        parse_message(message_bytes(fields), schema) == Ok::<Seq<(u16, ValueView)>, DecodeError>(
            recognised(fields, schema),
        ),
    decreases fields.len(),
{
    if fields.len() > 0 {
        let first = field_bytes(fields[0].0, fields[0].1);
        let rest = message_bytes(fields.skip(1));
        lemma_field_roundtrip(fields[0].0, fields[0].1, rest);
        lemma_parse_field_bounds(first + rest);
        assert((first + rest).skip(first.len() as int) =~= rest);
        assert forall|i: int| 0 <= i < fields.skip(1).len() implies (#[trigger] fields.skip(
            1,
        )[i]).1.wf() by {
            assert(fields.skip(1)[i] == fields[i + 1]);
        }
        lemma_message_roundtrip(fields.skip(1), schema);
    }
}

/// Skip-unknown: between two fields that the schema recognises, a
/// length-delimited field with a tag that the schema does not know leaves
/// no trace, whatever it holds and however long it is.
pub proof fn lemma_skip_unknown(
    schema: Schema,
    first: (u16, ValueView),
    unknown_tag: u16,
    content: Seq<u8>,
    last: (u16, ValueView),
)
    requires
        schema.recognises(first.0, first.1.wire_type()),
        schema.recognises(last.0, last.1.wire_type()),
        schema.spec_wire_type_for(unknown_tag) is None,
        first.1.wf(),
        last.1.wf(),
        content.len() <= u64::MAX,
    ensures
        parse_message(
            field_bytes(first.0, first.1) + field_bytes(unknown_tag, ValueView::Sized(content))
                + field_bytes(last.0, last.1),
            schema,
        ) == Ok::<Seq<(u16, ValueView)>, DecodeError>(seq![first, last]),
{
    let unknown = (unknown_tag, ValueView::Sized(content));
    let fields = seq![first, unknown, last];
    lemma_message_roundtrip(fields, schema);
    reveal_with_fuel(message_bytes, 4);
    reveal_with_fuel(recognised, 4);
    assert(fields.skip(1) =~= seq![unknown, last]);
    assert(fields.skip(1).skip(1) =~= seq![last]);
    assert(fields.skip(1).skip(1).skip(1) =~= Seq::<(u16, ValueView)>::empty());
    assert(message_bytes(fields) =~= field_bytes(first.0, first.1) + field_bytes(
        unknown_tag,
        ValueView::Sized(content),
    ) + field_bytes(last.0, last.1));
    assert(recognised(fields, schema) =~= seq![first, last]);
}

/// The bytes of a message: its fields one after the other.
pub fn encode_message(fields: &Vec<(u16, Value)>) -> (bytes: Vec<u8>)
    ensures
        bytes@ == message_bytes(field_views(fields@)),
{
    let mut bytes: Vec<u8> = Vec::new();
    let mut i: usize = 0;
    while i < fields.len()
        invariant
            i <= fields.len(),
            bytes@ == message_bytes(field_views(fields@).take(i as int)),
        decreases fields.len() - i,
    {
        let ghost views = field_views(fields@);
        write_field(&mut bytes, fields[i].0, &fields[i].1);
        proof {
            lemma_message_bytes_push(views.take(i as int), views[i as int]);
            assert(views.take(i + 1) =~= views.take(i as int).push(views[i as int]));
        }
        i += 1;
    }
    assert(field_views(fields@).take(i as int) =~= field_views(fields@));
    bytes
}

/// Reads a message: the fields that the schema recognises, in the order
/// in which they stand in `bytes`. Every other field is passed over by the
/// length that its header gives. A field that cannot be read fails the
/// message.
pub fn decode_message(bytes: &[u8], schema: &Schema) -> (r: Result<
    Vec<(u16, Value)>,
    DecodeError,
>)
    ensures
        match r {
            Ok(fields) => parse_message(bytes@, *schema) == Ok::<
                Seq<(u16, ValueView)>,
                DecodeError,
            >(field_views(fields@)),
            Err(e) => parse_message(bytes@, *schema) == Err::<Seq<(u16, ValueView)>, DecodeError>(
                e,
            ),
        },
{
    let mut fields: Vec<(u16, Value)> = Vec::new();
    let mut pos: usize = 0;
    proof {
        assert(bytes@.skip(0) =~= bytes@);
        if let Ok(all) = parse_message(bytes@, *schema) {
            assert(field_views(fields@) + all =~= all);
        }
    }
    while pos < bytes.len()
        invariant
            pos <= bytes.len(),
            parse_message(bytes@, *schema) == match parse_message(
                bytes@.skip(pos as int),
                *schema,
            ) {
                Ok(rest) => Ok::<Seq<(u16, ValueView)>, DecodeError>(
                    field_views(fields@) + rest,
                ),
                Err(e) => Err(e),
            },
        decreases bytes.len() - pos,
    {
        let ghost s = bytes@.skip(pos as int);
        let (tag, wire_type, n) = match read_header(bytes, pos) {
            Err(e) => {
                return Err(e);
            },
            Ok(header) => header,
        };
        assert(s.skip(n as int) =~= bytes@.skip(pos + n));
        proof {
            lemma_parse_field_bounds(s);
        }
        if schema.wire_type_for(tag) == Some(wire_type) {
            match read_payload(bytes, pos + n, wire_type) {
                Err(e) => {
                    return Err(e);
                },
                Ok((value, m)) => {
                    proof {
                        assert(s.skip(n + m) =~= bytes@.skip(pos + n + m));
                        if let Ok(rest) = parse_message(bytes@.skip(pos + n + m), *schema) {
                            assert(field_views(fields@) + (seq![(tag, value@)] + rest)
                                =~= field_views(fields@.push((tag, value))) + rest);
                        }
                    }
                    fields.push((tag, value));
                    pos = pos + n + m;
                },
            }
        } else {
            match skip_payload_at(bytes, pos + n, wire_type) {
                Err(e) => {
                    return Err(e);
                },
                Ok(m) => {
                    assert(s.skip(n + m) =~= bytes@.skip(pos + n + m));
                    pos = pos + n + m;
                },
            }
        }
    }
    assert(field_views(fields@) + Seq::<(u16, ValueView)>::empty() =~= field_views(fields@));
    Ok(fields)
}

/// The state that stands at the front of `s` as a length-delimited
/// region: the fields of the message in the region that the schema
/// recognises, and the bytes that length and region take.
pub open spec fn parse_nested(s: Seq<u8>, schema: Schema) -> Result<
    (Seq<(u16, ValueView)>, nat),
    DecodeError,
> {
    match decode_u64(s) {
        Err(e) => Err(e),
        Ok((len, n)) => if len > s.len() - n {
            Err(DecodeError::LengthExceedsBuffer)
        } else {
            match parse_message(s.subrange(n as int, (n + len) as int), schema) {
                Err(e) => Err(e),
                Ok(fields) => Ok((fields, (n + len) as nat)),
            }
        },
    }
}

/// Reads a state from a length-delimited region at the front of `bytes`:
/// the length first, then the message of that length, field by field.
pub fn decode_nested(bytes: &[u8], schema: &Schema) -> (r: Result<
    (Vec<(u16, Value)>, usize),
    DecodeError,
>)
    ensures
        match r {
            Ok((fields, n)) => parse_nested(bytes@, *schema) == Ok::<
                (Seq<(u16, ValueView)>, nat),
                DecodeError,
            >((field_views(fields@), n as nat)),
            Err(e) => parse_nested(bytes@, *schema) == Err::<
                (Seq<(u16, ValueView)>, nat),
                DecodeError,
            >(e),
        },
{
    assert(bytes@.skip(0) =~= bytes@);
    match read_varint(bytes, 0) {
        Err(e) => Err(e),
        Ok((len, n)) => {
            if len > (bytes.len() - n) as u64 {
                return Err(DecodeError::LengthExceedsBuffer);
            }
            let end: usize = n + len as usize;
            match decode_message(slice_subrange(bytes, n, end), schema) {
                Err(e) => Err(e),
                Ok(fields) => Ok((fields, end)),
            }
        },
    }
}

} // verus!
