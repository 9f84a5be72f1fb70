//! The description of a schema as the generators read it: the types, their
//! fields, and the tag and the type of each field.

use crate::error::SchemaError;
use crate::schema::Schema;
use crate::wire::WireType;
use vstd::prelude::*;

verus! {

/// A type with named, tagged fields, in the order of their declaration.
#[derive(Debug)]
pub struct Struct {
    pub name: String,
    pub fields: Vec<Field>,
}

/// A type with variants. Nothing is generated for one yet, so its name is
/// all that is kept.
#[derive(Debug)]
pub struct Enum {
    pub name: String,
}

/// One field of a type.
#[derive(Debug)]
pub struct Field {
    pub name: String,
    pub tag: u16,
    pub ty: FieldType,
}

/// The type of a field: a scalar, known by its name, or a described type.
#[derive(Debug)]
pub enum FieldType {
    Primitive(String),
    Meta(Box<Meta>),
}

/// A described type: a struct, an enum, or a list or a map whose items
/// are described by a field.
#[derive(Debug)]
pub enum Meta {
    Struct(Struct),
    Enum(Enum),
    List(Field),
    Mapping(Field),
}

impl FieldType {
    /// The wire type under which a field of this type travels: a scalar as
    /// a variable-length integer, everything else length-delimited.
    pub open spec fn spec_wire_type(&self) -> WireType {
        match self {
            FieldType::Primitive(_) => WireType::Varint,
            FieldType::Meta(_) => WireType::Sized,
        }
    }

    /// The wire type under which a field of this type travels.
    pub fn wire_type(&self) -> (wire_type: WireType)
        ensures
            wire_type == self.spec_wire_type(),
    {
        match self {
            FieldType::Primitive(_) => WireType::Varint,
            FieldType::Meta(_) => WireType::Sized,
        }
    }

    /// Whether a field of this type holds a state of its own.
    pub fn is_meta(&self) -> (meta: bool)
        ensures
            meta == (self is Meta),
    {
        match self {
            FieldType::Primitive(_) => false,
            FieldType::Meta(_) => true,
        }
    }
}

/// The wire type that `fields` give to `tag`: that of the first field with
/// this tag.
pub open spec fn table_of(fields: Seq<Field>, tag: u16) -> Option<WireType>
    decreases fields.len(),
{
    if fields.len() == 0 {
        None
    } else {
        match table_of(fields.drop_last(), tag) {
            Some(wire_type) => Some(wire_type),
            None => if fields.last().tag == tag {
                Some(fields.last().ty.spec_wire_type())
            } else {
                None
            },
        }
    }
}

/// Whether no tag of `fields` stands for two wire types: every field
/// travels as the fields before it with the same tag do.
pub open spec fn coherent(fields: Seq<Field>) -> bool
    decreases fields.len(),
{
    fields.len() == 0 || (coherent(fields.drop_last()) && match table_of(
        fields.drop_last(),
        fields.last().tag,
    ) {
        Some(wire_type) => wire_type == fields.last().ty.spec_wire_type(),
        None => true,
    })
}

/// The first fields of coherent fields are coherent.
pub proof fn lemma_coherent_prefix(fields: Seq<Field>, n: int)
    requires
        coherent(fields),
        0 <= n <= fields.len(),
    ensures
        coherent(fields.take(n)),
    decreases fields.len(),
{
    if n == fields.len() {
        assert(fields.take(n) =~= fields);
    } else {
        assert(fields.drop_last().take(n) =~= fields.take(n));
        lemma_coherent_prefix(fields.drop_last(), n);
    }
}

impl Struct {
    /// The table of the struct: every tag of its fields with the wire type
    /// of the field. A struct in which one tag stands for two wire types
    /// has no table.
    pub fn schema(&self) -> (r: Result<Schema, SchemaError>)
        ensures
            r is Ok <==> coherent(self.fields@),
            r is Err ==> r == Err::<Schema, SchemaError>(SchemaError::WireTypeChanged),
            r is Ok ==> forall|tag: u16|
                (#[trigger] r->Ok_0.spec_wire_type_for(tag)) == table_of(self.fields@, tag),
    {
        let mut schema = Schema::new();
        let mut i: usize = 0;
        assert(self.fields@.take(0) =~= Seq::<Field>::empty());
        while i < self.fields.len()
            invariant
                i <= self.fields.len(),
                coherent(self.fields@.take(i as int)),
                forall|tag: u16|
                    (#[trigger] schema.spec_wire_type_for(tag)) == table_of(
                        self.fields@.take(i as int),
                        tag,
                    ),
            decreases self.fields.len() - i,
        {
            let field = &self.fields[i];
            let ghost before = self.fields@.take(i as int);
            let ghost known = schema.spec_wire_type_for(field.tag);
            assert(self.fields@.take(i + 1).drop_last() =~= before);
            assert(self.fields@.take(i + 1).last() == *field);
            match schema.declare(field.tag, field.ty.wire_type()) {
                Ok(()) => {},
                Err(e) => {
                    proof {
                        assert(known == table_of(before, field.tag));
                        assert(!coherent(self.fields@.take(i + 1)));
                        if coherent(self.fields@) {
                            lemma_coherent_prefix(self.fields@, i + 1);
                        }
                    }
                    return Err(e);
                },
            }
            i += 1;
        }
        assert(self.fields@.take(i as int) =~= self.fields@);
        Ok(schema)
    }
}

} // verus!
