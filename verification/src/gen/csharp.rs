//! The generator of C# bindings: for each struct of a schema one class
//! that reads the wire format and tells its listeners of every change.

use crate::gen::generator::Generator;
use crate::gen::meta::{Enum, Field, FieldType, Meta, Struct};
use crate::gen::string_utils::{
    camel_case, decimal, push_decimal, same_text, to_camel_case, uncap, uncap_first_char,
};
use crate::gen::writer::{blank, line, LineView, Writer};
use vstd::prelude::*;
use vstd::string::StringExecFns;

verus! {

/// Generates C# classes in one namespace, for the files of one directory.
pub struct CSharpGenerator {
    namespace: String,
    out_dir: String,
}

impl CSharpGenerator {
    /// The namespace of the generated classes.
    pub closed spec fn spec_namespace(&self) -> Seq<char> {
        self.namespace@
    }

    /// The directory that the generated files are meant for.
    pub closed spec fn spec_out_dir(&self) -> Seq<char> {
        self.out_dir@
    }

    /// A generator of classes in `namespace`, for files in `out_dir`.
    pub fn new(namespace: &str, out_dir: &str) -> (generator: CSharpGenerator)
        ensures
            generator.spec_namespace() == namespace@,
            generator.spec_out_dir() == out_dir@,
    {
        CSharpGenerator {
            namespace: String::from_str(namespace),
            out_dir: String::from_str(out_dir),
        }
    }

    /// The namespace of the generated classes.
    pub fn namespace(&self) -> (namespace: &str)
        ensures
            namespace@ == self.spec_namespace(),
    {
        self.namespace.as_str()
    }
}

/// The C# name of a scalar type: the fixed-width integers and `bool` have
/// names of their own, any other name is kept.
pub open spec fn primitive_type(name: Seq<char>) -> Seq<char> {
    if name == "u8"@ {
        "UInt8"@
    } else if name == "u16"@ {
        "UInt16"@
    } else if name == "u32"@ {
        "UInt32"@
    } else if name == "u64"@ {
        "UInt64"@
    } else if name == "i8"@ {
        "Int8"@
    } else if name == "i16"@ {
        "Int16"@
    } else if name == "i32"@ {
        "Int32"@
    } else if name == "i64"@ {
        "Int64"@
    } else if name == "bool"@ {
        "Boolean"@
    } else {
        name
    }
}

/// The C# type of a field: the name of a scalar, struct or enum, and for a
/// list or a map the state collection of the type of its items.
pub open spec fn csharp_type(ty: FieldType) -> Seq<char>
    decreases ty,
{
    match ty {
        FieldType::Primitive(name) => primitive_type(name@),
        FieldType::Meta(meta) => match *meta {
            Meta::Struct(described) => described.name@,
            Meta::Enum(described) => described.name@,
            Meta::List(item) => "StateList<"@ + csharp_type(item.ty) + ">"@,
            Meta::Mapping(item) => "StateDictionary<"@ + csharp_type(item.ty) + ">"@,
        },
    }
}

/// The C# type of a field.
pub fn get_type(ty: &FieldType) -> (name: String)
    ensures
        name@ == csharp_type(*ty),
    decreases ty,
{
    match ty {
        FieldType::Primitive(name) => {
            let name = name.as_str();
            if same_text(name, "u8") {
                String::from_str("UInt8")
            } else if same_text(name, "u16") {
                String::from_str("UInt16")
            } else if same_text(name, "u32") {
                String::from_str("UInt32")
            } else if same_text(name, "u64") {
                String::from_str("UInt64")
            } else if same_text(name, "i8") {
                String::from_str("Int8")
            } else if same_text(name, "i16") {
                String::from_str("Int16")
            } else if same_text(name, "i32") {
                String::from_str("Int32")
            } else if same_text(name, "i64") {
                String::from_str("Int64")
            } else if same_text(name, "bool") {
                String::from_str("Boolean")
            } else {
                String::from_str(name)
            }
        },
        FieldType::Meta(meta) => match &**meta {
            Meta::Struct(described) => String::from_str(described.name.as_str()),
            Meta::Enum(described) => String::from_str(described.name.as_str()),
            Meta::List(item) => {
                let mut name = String::from_str("StateList<");
                name.append(get_type(&item.ty).as_str());
                name.append(">");
                name
            },
            Meta::Mapping(item) => {
                let mut name = String::from_str("StateDictionary<");
                name.append(get_type(&item.ty).as_str());
                name.append(">");
                name
            },
        },
    }
}

/// A field with the names under which the generated class knows it.
pub struct CSharpField<'a> {
    raw: &'a Field,
    upper_camel_case_name: String,
    lower_camel_case_name: String,
    ty: String,
}

impl<'a> CSharpField<'a> {
    /// The names are those that the field gives.
    #[verifier::type_invariant]
    spec fn wf(&self) -> bool {
        &&& self.upper_camel_case_name@ == camel_case(self.raw.name@, true)
        &&& self.lower_camel_case_name@ == camel_case(self.raw.name@, false)
        &&& self.ty@ == csharp_type(self.raw.ty)
    }

    /// The field that was named.
    pub closed spec fn spec_raw(&self) -> Field {
        *self.raw
    }

    /// The field with its two camel-case names and its C# type.
    pub fn with_field(field: &'a Field) -> (named: CSharpField<'a>)
        ensures
            named.spec_raw() == *field,
    {
        CSharpField {
            raw: field,
            upper_camel_case_name: to_camel_case(field.name.as_str(), true),
            lower_camel_case_name: to_camel_case(field.name.as_str(), false),
            ty: get_type(&field.ty),
        }
    }

    /// The field that was named.
    pub fn raw(&self) -> (raw: &'a Field)
        ensures
            *raw == self.spec_raw(),
    {
        self.raw
    }

    /// The name of the field in camel case, beginning in upper case.
    pub fn upper_camel_case_name(&self) -> (name: &str)
        ensures
            name@ == camel_case(self.spec_raw().name@, true),
    {
        proof {
            use_type_invariant(self);
        }
        self.upper_camel_case_name.as_str()
    }

    /// The name of the field in camel case, beginning in lower case.
    pub fn lower_camel_case_name(&self) -> (name: &str)
        ensures
            name@ == camel_case(self.spec_raw().name@, false),
    {
        proof {
            use_type_invariant(self);
        }
        self.lower_camel_case_name.as_str()
    }

    /// The C# type of the field.
    pub fn ty(&self) -> (ty: &str)
        ensures
            ty@ == csharp_type(self.spec_raw().ty),
    {
        proof {
            use_type_invariant(self);
        }
        self.ty.as_str()
    }
}

/// The fields that named fields stand for.
pub open spec fn raw_fields(fields: Seq<CSharpField>) -> Seq<Field> {
    fields.map_values(|field: CSharpField| field.spec_raw())
}

/// Every field of `fields`, named.
pub fn with_fields<'a>(fields: &'a Vec<Field>) -> (named: Vec<CSharpField<'a>>)
    ensures
        raw_fields(named@) == fields@,
{
    let mut named: Vec<CSharpField<'a>> = Vec::new();
    let mut i: usize = 0;
    while i < fields.len()
        invariant
            i <= fields.len(),
            named.len() == i,
            raw_fields(named@) == fields@.take(i as int),
        decreases fields.len() - i,
    {
        let ghost before = named@;
        let field = CSharpField::with_field(&fields[i]);
        named.push(field);
        assert forall|j: int| 0 <= j < named.len() implies raw_fields(named@)[j] == fields@.take(
            i + 1,
        )[j] by {
            if j < i {
                assert(raw_fields(before)[j] == fields@.take(i as int)[j]);
            }
        }
        assert(raw_fields(named@) =~= fields@.take(i + 1));
        i += 1;
    }
    assert(fields@.take(i as int) =~= fields@);
    named
}

/// The parts of a class that hold one line for each field, or for each
/// field that holds a state of its own.
#[derive(Clone, Copy, Debug, PartialEq, Eq, Structural)]
pub enum Section {
    /// The list of the listeners of a field.
    ListenerDecl,
    /// The property of a field.
    Property,
    /// The making of a nested state in the constructor.
    Init,
    /// The method that adds a listener.
    OnUpdate,
    /// The method that removes a listener.
    RemoveListener,
    /// The method that removes the listener at an index.
    RemoveListenerAt,
    /// The method that removes every listener of a field.
    ClearListeners,
    /// The line for a field in the method that removes every listener.
    ClearAll,
    /// The case of a field in the lookup of nested states.
    NestedCase,
    /// The case of a field in the lookup of wire types.
    WireTypeCase,
    /// The case of a field in the method that replaces a field.
    ReplaceCase,
}

/// The line that `section` holds for `field`, if it holds one: the making
/// and the lookup of nested states are for the fields that hold a state of
/// their own.
pub open spec fn section_text(section: Section, field: Field) -> Option<Seq<char>> {
    let ty = csharp_type(field.ty);
    let upper = camel_case(field.name@, true);
    let lower = camel_case(field.name@, false);
    let tag = decimal(field.tag as nat);
    match section {
        Section::ListenerDecl => Some(
            "private static IList<Listener<"@ + ty + ">> "@ + lower
                + "Listeners = new List<Listener<"@ + ty + ">>();"@,
        ),
        Section::Property => Some(
            "public "@ + ty + " "@ + upper + " { get; private set; }"@,
        ),
        Section::Init => if field.ty is Meta {
            Some(
                "this."@ + upper + " = new "@ + ty + "(this.Path.Nested("@ + tag
                    + "));"@,
            )
        } else {
            None
        },
        Section::OnUpdate => Some(
            "public static int OnUpdate"@ + upper + "(Listener<"@ + ty
                + "> listener) { return Utils.Add("@ + lower
                + "Listeners, listener); }"@,
        ),
        Section::RemoveListener => Some(
            "public static void Remove"@ + upper + "Listener(Listener<"@ + ty
                + "> listener) { "@ + lower + "Listeners.Remove(listener); }"@,
        ),
        Section::RemoveListenerAt => Some(
            "public static void Remove"@ + upper + "ListenerAt(int index) { "@
                + lower + "Listeners.RemoveAt(index); }"@,
        ),
        Section::ClearListeners => Some(
            "public static void Clear"@ + upper + "Listeners() { "@ + lower
                + "Listeners.Clear(); }"@,
        ),
        Section::ClearAll => Some(
            lower + "Listeners.Clear();"@,
        ),
        Section::NestedCase => if field.ty is Meta {
            Some(
                "case "@ + tag + ": return this."@ + upper + ";"@,
            )
        } else {
            None
        },
        Section::WireTypeCase => if field.ty is Meta {
            Some(
                "case "@ + tag + ": return StateReader.WIRE_TYPE_SIZED;"@,
            )
        } else {
            Some(
                "case "@ + tag + ": return StateReader.WIRE_TYPE_VARINT;"@,
            )
        },
        Section::ReplaceCase => if field.ty is Meta {
            Some(
                "case "@ + tag + ": this."@ + upper + " = this.Notify("@ + upper
                    + ".Deserialize(reader, this.Path.Nested("@ + tag + ")), this."@
                    + upper + ", shouldNotify, "@ + lower + "Listeners); break;"@,
            )
        } else {
            Some(
                "case "@ + tag + ": this."@ + upper + " = this.Notify(reader.Read"@
                    + ty + "(), this."@ + upper + ", shouldNotify, "@ + lower
                    + "Listeners); break;"@,
            )
        },
    }
}

/// The lines that `section` holds for `fields`, in their order, at the
/// depth `level`.
pub open spec fn section_lines(section: Section, fields: Seq<Field>, level: nat) -> Seq<
    LineView,
>
    decreases fields.len(),
{
    if fields.len() == 0 {
        Seq::empty()
    } else {
        let before = section_lines(section, fields.drop_last(), level);
        match section_text(section, fields.last()) {
            Some(text) => before.push(line(level, text)),
            None => before,
        }
    }
}

/// The line that `section` holds for `field`, if it holds one.
pub fn section_line(section: Section, field: &CSharpField) -> (text: Option<String>)
    ensures
        match text {
            Some(text) => section_text(section, field.spec_raw()) == Some(text@),
            None => section_text(section, field.spec_raw()) is None,
        },
{
    proof {
        use_type_invariant(field);
    }
    match section {
        Section::ListenerDecl => {
            let mut text = String::from_str("private static IList<Listener<");
            text.append(field.ty.as_str());
            text.append(">> ");
            text.append(field.lower_camel_case_name.as_str());
            text.append("Listeners = new List<Listener<");
            text.append(field.ty.as_str());
            text.append(">>();");
            Some(text)
        },
        Section::Property => {
            let mut text = String::from_str("public ");
            text.append(field.ty.as_str());
            text.append(" ");
            text.append(field.upper_camel_case_name.as_str());
            text.append(" { get; private set; }");
            Some(text)
        },
        Section::Init => {
            if !field.raw.ty.is_meta() {
                return None;
            }
            let mut text = String::from_str("this.");
            text.append(field.upper_camel_case_name.as_str());
            text.append(" = new ");
            text.append(field.ty.as_str());
            text.append("(this.Path.Nested(");
            push_decimal(&mut text, field.raw.tag);
            text.append("));");
            Some(text)
        },
        Section::OnUpdate => {
            let mut text = String::from_str("public static int OnUpdate");
            text.append(field.upper_camel_case_name.as_str());
            text.append("(Listener<");
            text.append(field.ty.as_str());
            text.append("> listener) { return Utils.Add(");
            text.append(field.lower_camel_case_name.as_str());
            text.append("Listeners, listener); }");
            Some(text)
        },
        Section::RemoveListener => {
            let mut text = String::from_str("public static void Remove");
            text.append(field.upper_camel_case_name.as_str());
            text.append("Listener(Listener<");
            text.append(field.ty.as_str());
            text.append("> listener) { ");
            text.append(field.lower_camel_case_name.as_str());
            text.append("Listeners.Remove(listener); }");
            Some(text)
        },
        Section::RemoveListenerAt => {
            let mut text = String::from_str("public static void Remove");
            text.append(field.upper_camel_case_name.as_str());
            text.append("ListenerAt(int index) { ");
            text.append(field.lower_camel_case_name.as_str());
            text.append("Listeners.RemoveAt(index); }");
            Some(text)
        },
        Section::ClearListeners => {
            let mut text = String::from_str("public static void Clear");
            text.append(field.upper_camel_case_name.as_str());
            text.append("Listeners() { ");
            text.append(field.lower_camel_case_name.as_str());
            text.append("Listeners.Clear(); }");
            Some(text)
        },
        Section::ClearAll => {
            let mut text = field.lower_camel_case_name.clone();
            text.append("Listeners.Clear();");
            Some(text)
        },
        Section::NestedCase => {
            if !field.raw.ty.is_meta() {
                return None;
            }
            let mut text = String::from_str("case ");
            push_decimal(&mut text, field.raw.tag);
            text.append(": return this.");
            text.append(field.upper_camel_case_name.as_str());
            text.append(";");
            Some(text)
        },
        Section::WireTypeCase => {
            if field.raw.ty.is_meta() {
                let mut text = String::from_str("case ");
                push_decimal(&mut text, field.raw.tag);
                text.append(": return StateReader.WIRE_TYPE_SIZED;");
                Some(text)
            } else {
                let mut text = String::from_str("case ");
                push_decimal(&mut text, field.raw.tag);
                text.append(": return StateReader.WIRE_TYPE_VARINT;");
                Some(text)
            }
        },
        Section::ReplaceCase => {
            if field.raw.ty.is_meta() {
                let mut text = String::from_str("case ");
                push_decimal(&mut text, field.raw.tag);
                text.append(": this.");
                text.append(field.upper_camel_case_name.as_str());
                text.append(" = this.Notify(");
                text.append(field.upper_camel_case_name.as_str());
                text.append(".Deserialize(reader, this.Path.Nested(");
                push_decimal(&mut text, field.raw.tag);
                text.append(")), this.");
                text.append(field.upper_camel_case_name.as_str());
                text.append(", shouldNotify, ");
                text.append(field.lower_camel_case_name.as_str());
                text.append("Listeners); break;");
                Some(text)
            } else {
                let mut text = String::from_str("case ");
                push_decimal(&mut text, field.raw.tag);
                text.append(": this.");
                text.append(field.upper_camel_case_name.as_str());
                text.append(" = this.Notify(reader.Read");
                text.append(field.ty.as_str());
                text.append("(), this.");
                text.append(field.upper_camel_case_name.as_str());
                text.append(", shouldNotify, ");
                text.append(field.lower_camel_case_name.as_str());
                text.append("Listeners); break;");
                Some(text)
            }
        },
    }
}

/// Writes the lines that `section` holds for `fields`.
pub fn write_section(writer: &mut Writer, section: Section, fields: &Vec<CSharpField>)
    ensures
        final(writer)@ == old(writer)@ + section_lines(
            section,
            raw_fields(fields@),
            old(writer).level(),
        ),
        final(writer).level() == old(writer).level(),
        final(writer).indent_size() == old(writer).indent_size(),
{
    let ghost raws = raw_fields(fields@);
    let mut i: usize = 0;
    assert(writer@ =~= old(writer)@ + section_lines(section, raws.take(0), writer.level()));
    while i < fields.len()
        invariant
            i <= fields.len(),
            raws == raw_fields(fields@),
            writer@ == old(writer)@ + section_lines(
                section,
                raws.take(i as int),
                old(writer).level(),
            ),
            writer.level() == old(writer).level(),
            writer.indent_size() == old(writer).indent_size(),
        decreases fields.len() - i,
    {
        let ghost before = section_lines(section, raws.take(i as int), old(writer).level());
        assert(raws.take(i + 1).drop_last() =~= raws.take(i as int));
        assert(raws.take(i + 1).last() == fields[i as int].spec_raw());
        match section_line(section, &fields[i]) {
            Some(text) => {
                writer.writeln(text.as_str());
                assert(writer@ =~= old(writer)@ + before.push(
                    line(old(writer).level(), text@),
                ));
            },
            None => {},
        }
        i += 1;
    }
    assert(raws.take(i as int) =~= raws);
}

/// The lines before the members of a class: what the file uses, and the
/// opening of the namespace and of the class.
pub open spec fn prologue_lines(namespace: Seq<char>, name: Seq<char>, level: nat) -> Seq<
    LineView,
> {
    seq![
        line(level, "using System;"@),
        line(level, "using System.Collections.Generic;"@),
        blank(),
        line(level, "using Steit;"@),
        line(level, "using Steit.Reader;"@),
        blank(),
        line(level, "namespace "@ + namespace + " {"@),
        line(level + 1, "public sealed class "@ + name + " : State {"@),
    ]
}

/// The property that holds the path of the state.
pub open spec fn path_property_lines(level: nat) -> Seq<LineView> {
    seq![
        blank(),
        line(level, "public Path Path { get; private set; }"@),
        blank(),
    ]
}

/// The constructor: it takes the path of the state and makes a nested
/// state, one step further down, for every field that holds one.
pub open spec fn constructor_lines(name: Seq<char>, fields: Seq<Field>, level: nat) -> Seq<
    LineView,
> {
    seq![
        blank(),
        line(level, "public "@ + name + "(Path path = null) {"@),
        line(level + 1, "this.Path = path != null ? path : Path.Root;"@),
    ] + section_lines(Section::Init, fields, level + 1) + seq![
        line(level, "}"@),
    ]
}

/// The type of the listeners of the class.
pub open spec fn delegate_lines(name: Seq<char>, level: nat) -> Seq<LineView> {
    seq![
        blank(),
        line(
            level,
            "public delegate void Listener<T>(T newValue, T oldValue, "@ + name
                + " container);"@,
        ),
        blank(),
    ]
}

/// The methods that add and remove the listeners of each field.
pub open spec fn listener_methods_lines(fields: Seq<Field>, level: nat) -> Seq<LineView> {
    section_lines(Section::OnUpdate, fields, level) + seq![
        blank(),
    ] + section_lines(Section::RemoveListener, fields, level) + seq![
        blank(),
    ] + section_lines(Section::RemoveListenerAt, fields, level) + seq![
        blank(),
    ] + section_lines(Section::ClearListeners, fields, level)
}

/// The method that removes the listeners of every field.
pub open spec fn clear_all_lines(fields: Seq<Field>, level: nat) -> Seq<LineView> {
    seq![
        blank(),
        line(level, "public static void ClearAllListeners() {"@),
    ] + section_lines(Section::ClearAll, fields, level + 1) + seq![
        line(level, "}"@),
    ]
}

/// The method that reads a state from a length-delimited region.
pub open spec fn deserialize_lines(name: Seq<char>, var: Seq<char>, level: nat) -> Seq<LineView> {
    seq![
        blank(),
        line(
            level,
            "public static "@ + name + " Deserialize(StateReader reader, Path path = null) {"@,
        ),
        line(level + 1, "var "@ + var + " = new "@ + name + "(path);"@),
        line(
            level + 1,
            var + ".ReplaceAll(reader.Nested((int) reader.ReadUInt32()), shouldNotify: false);"@,
        ),
        line(level + 1, "return "@ + var + ";"@),
        line(level, "}"@),
    ]
}

/// The lookup of the nested state at a tag: a case for every field that
/// holds a state of its own, and nothing for any other tag.
pub open spec fn nested_lines(fields: Seq<Field>, level: nat) -> Seq<LineView> {
    seq![
        blank(),
        line(level, "public override State Nested(UInt16 tag) {"@),
        line(level + 1, "switch (tag) {"@),
    ] + section_lines(Section::NestedCase, fields, level + 2) + seq![
        line(level + 2, "default: return null;"@),
        line(level + 1, "}"@),
        line(level, "}"@),
    ]
}

/// The lookup of the wire type of a tag: a case for every field, and -1 for
/// a tag that the class does not know.
pub open spec fn wire_type_lines(fields: Seq<Field>, level: nat) -> Seq<LineView> {
    seq![
        blank(),
        line(level, "protected override Int16 WireType(UInt16 tag) {"@),
        line(level + 1, "switch (tag) {"@),
    ] + section_lines(Section::WireTypeCase, fields, level + 2) + seq![
        line(level + 2, "default: return -1;"@),
        line(level + 1, "}"@),
        line(level, "}"@),
    ]
}

/// The method that replaces the field at a tag by what the reader holds: a
/// case for every field, and for any other tag the skipping of the value
/// by its wire type.
pub open spec fn replace_at_lines(fields: Seq<Field>, level: nat) -> Seq<LineView> {
    seq![
        blank(),
        line(
            level,
            "protected override void ReplaceAt(UInt16 tag, Byte wireType, StateReader reader, bool shouldNotify) {"@,
        ),
        line(level + 1, "switch (tag) {"@),
    ] + section_lines(Section::ReplaceCase, fields, level + 2) + seq![
        line(level + 2, "default: reader.SkipWireTyped(wireType); break;"@),
        line(level + 1, "}"@),
        line(level, "}"@),
    ]
}

/// The method that tells the listeners of a field of a new value.
pub open spec fn notify_lines(level: nat) -> Seq<LineView> {
    seq![
        blank(),
        line(
            level,
            "private T Notify<T>(T newValue, T oldValue, bool shouldNotify, IList<Listener<T>> listeners) {"@,
        ),
        line(level + 1, "if (shouldNotify) {"@),
        line(level + 2, "foreach (var listener in listeners) {"@),
        line(level + 3, "listener(newValue, oldValue, this);"@),
        line(level + 2, "}"@),
        line(level + 1, "}"@),
        blank(),
        line(level + 1, "return newValue;"@),
        line(level, "}"@),
    ]
}

/// The class that stands for the struct `described`: its lines, from the
/// depth `level` on.
pub open spec fn class_lines(namespace: Seq<char>, described: Struct, level: nat) -> Seq<
    LineView,
> {
    let name = described.name@;
    let fields = described.fields@;
    let inner = level + 2;
    prologue_lines(namespace, name, level) + section_lines(Section::ListenerDecl, fields, inner)
        + path_property_lines(inner) + section_lines(Section::Property, fields, inner)
        + constructor_lines(name, fields, inner) + delegate_lines(name, inner)
        + listener_methods_lines(fields, inner) + clear_all_lines(fields, inner)
        + deserialize_lines(name, uncap(name), inner) + nested_lines(fields, inner)
        + wire_type_lines(fields, inner) + replace_at_lines(fields, inner) + notify_lines(inner)
        + seq![line(level + 1, "}"@), line(level, "}"@)]
}

/// Writes the lines of `prologue_lines`.
fn write_prologue(writer: &mut Writer, namespace: &str, name: &str)
    requires
        old(writer).level() + 2 <= usize::MAX,
    ensures
        final(writer)@ == old(writer)@ + prologue_lines(namespace@, name@, old(writer).level()),
        final(writer).level() == old(writer).level() + 2,
        final(writer).indent_size() == old(writer).indent_size(),
{
    writer.writeln("using System;");
    writer.writeln("using System.Collections.Generic;");
    writer.newline();
    writer.writeln("using Steit;");
    writer.writeln("using Steit.Reader;");
    writer.newline();
    let mut text = String::from_str("namespace ");
    text.append(namespace);
    text.append(" {");
    writer.writeln(text.as_str());
    writer.indent();
    let mut text = String::from_str("public sealed class ");
    text.append(name);
    text.append(" : State {");
    writer.writeln(text.as_str());
    writer.indent();
    assert(writer@ =~= old(writer)@ + prologue_lines(namespace@, name@, old(writer).level()));
}

/// Writes the lines of `path_property_lines`.
fn write_path_property(writer: &mut Writer)
    ensures
        final(writer)@ == old(writer)@ + path_property_lines(old(writer).level()),
        final(writer).level() == old(writer).level(),
        final(writer).indent_size() == old(writer).indent_size(),
{
    writer.newline();
    writer.writeln("public Path Path { get; private set; }");
    writer.newline();
    assert(writer@ =~= old(writer)@ + path_property_lines(old(writer).level()));
}

/// Writes the lines of `constructor_lines`.
fn write_constructor(writer: &mut Writer, name: &str, fields: &Vec<CSharpField>)
    requires
        old(writer).level() + 1 <= usize::MAX,
    ensures
        final(writer)@ == old(writer)@ + constructor_lines(
            name@,
            raw_fields(fields@),
            old(writer).level(),
        ),
        final(writer).level() == old(writer).level(),
        final(writer).indent_size() == old(writer).indent_size(),
{
    writer.newline();
    let mut text = String::from_str("public ");
    text.append(name);
    text.append("(Path path = null) {");
    writer.writeln(text.as_str());
    writer.indent();
    writer.writeln("this.Path = path != null ? path : Path.Root;");
    write_section(writer, Section::Init, fields);
    writer.outdent();
    writer.writeln("}");
    assert(writer@ =~= old(writer)@ + constructor_lines(
        name@,
        raw_fields(fields@),
        old(writer).level(),
    ));
}

/// Writes the lines of `delegate_lines`.
fn write_delegate(writer: &mut Writer, name: &str)
    ensures
        final(writer)@ == old(writer)@ + delegate_lines(name@, old(writer).level()),
        final(writer).level() == old(writer).level(),
        final(writer).indent_size() == old(writer).indent_size(),
{
    writer.newline();
    let mut text = String::from_str("public delegate void Listener<T>(T newValue, T oldValue, ");
    text.append(name);
    text.append(" container);");
    writer.writeln(text.as_str());
    writer.newline();
    assert(writer@ =~= old(writer)@ + delegate_lines(name@, old(writer).level()));
}

/// Writes the lines of `listener_methods_lines`.
fn write_listener_methods(writer: &mut Writer, fields: &Vec<CSharpField>)
    ensures
        final(writer)@ == old(writer)@ + listener_methods_lines(
            raw_fields(fields@),
            old(writer).level(),
        ),
        final(writer).level() == old(writer).level(),
        final(writer).indent_size() == old(writer).indent_size(),
{
    write_section(writer, Section::OnUpdate, fields);
    writer.newline();
    write_section(writer, Section::RemoveListener, fields);
    writer.newline();
    write_section(writer, Section::RemoveListenerAt, fields);
    writer.newline();
    write_section(writer, Section::ClearListeners, fields);
    assert(writer@ =~= old(writer)@ + listener_methods_lines(
        raw_fields(fields@),
        old(writer).level(),
    ));
}

/// Writes the lines of `clear_all_lines`.
fn write_clear_all(writer: &mut Writer, fields: &Vec<CSharpField>)
    requires
        old(writer).level() + 1 <= usize::MAX,
    ensures
        final(writer)@ == old(writer)@ + clear_all_lines(raw_fields(fields@), old(writer).level()),
        final(writer).level() == old(writer).level(),
        final(writer).indent_size() == old(writer).indent_size(),
{
    writer.newline();
    writer.writeln("public static void ClearAllListeners() {");
    writer.indent();
    write_section(writer, Section::ClearAll, fields);
    writer.outdent();
    writer.writeln("}");
    assert(writer@ =~= old(writer)@ + clear_all_lines(raw_fields(fields@), old(writer).level()));
}

/// Writes the lines of `deserialize_lines`.
fn write_deserialize(writer: &mut Writer, name: &str, var: &str)
    requires
        old(writer).level() + 1 <= usize::MAX,
    ensures
        final(writer)@ == old(writer)@ + deserialize_lines(name@, var@, old(writer).level()),
        final(writer).level() == old(writer).level(),
        final(writer).indent_size() == old(writer).indent_size(),
{
    writer.newline();
    let mut text = String::from_str("public static ");
    text.append(name);
    text.append(" Deserialize(StateReader reader, Path path = null) {");
    writer.writeln(text.as_str());
    writer.indent();
    let mut text = String::from_str("var ");
    text.append(var);
    text.append(" = new ");
    text.append(name);
    text.append("(path);");
    writer.writeln(text.as_str());
    let mut text = String::from_str(var);
    text.append(".ReplaceAll(reader.Nested((int) reader.ReadUInt32()), shouldNotify: false);");
    writer.writeln(text.as_str());
    let mut text = String::from_str("return ");
    text.append(var);
    text.append(";");
    writer.writeln(text.as_str());
    writer.outdent();
    writer.writeln("}");
    assert(writer@ =~= old(writer)@ + deserialize_lines(name@, var@, old(writer).level()));
}

/// Writes the lines of `nested_lines`.
fn write_nested(writer: &mut Writer, fields: &Vec<CSharpField>)
    requires
        old(writer).level() + 2 <= usize::MAX,
    ensures
        final(writer)@ == old(writer)@ + nested_lines(raw_fields(fields@), old(writer).level()),
        final(writer).level() == old(writer).level(),
        final(writer).indent_size() == old(writer).indent_size(),
{
    writer.newline();
    writer.writeln("public override State Nested(UInt16 tag) {");
    writer.indent_writeln("switch (tag) {");
    writer.indent();
    write_section(writer, Section::NestedCase, fields);
    writer.writeln("default: return null;");
    writer.outdent();
    writer.writeln("}");
    writer.outdent();
    writer.writeln("}");
    assert(writer@ =~= old(writer)@ + nested_lines(raw_fields(fields@), old(writer).level()));
}

/// Writes the lines of `wire_type_lines`.
fn write_wire_type(writer: &mut Writer, fields: &Vec<CSharpField>)
    requires
        old(writer).level() + 2 <= usize::MAX,
    ensures
        final(writer)@ == old(writer)@ + wire_type_lines(raw_fields(fields@), old(writer).level()),
        final(writer).level() == old(writer).level(),
        final(writer).indent_size() == old(writer).indent_size(),
{
    writer.newline();
    writer.writeln("protected override Int16 WireType(UInt16 tag) {");
    writer.indent_writeln("switch (tag) {");
    writer.indent();
    write_section(writer, Section::WireTypeCase, fields);
    writer.writeln("default: return -1;");
    writer.outdent_writeln("}");
    writer.outdent_writeln("}");
    assert(writer@ =~= old(writer)@ + wire_type_lines(raw_fields(fields@), old(writer).level()));
}

/// Writes the lines of `replace_at_lines`.
fn write_replace_at(writer: &mut Writer, fields: &Vec<CSharpField>)
    requires
        old(writer).level() + 2 <= usize::MAX,
    ensures
        final(writer)@ == old(writer)@ + replace_at_lines(raw_fields(fields@), old(writer).level()),
        final(writer).level() == old(writer).level(),
        final(writer).indent_size() == old(writer).indent_size(),
{
    writer.newline();
    writer.writeln(
        "protected override void ReplaceAt(UInt16 tag, Byte wireType, StateReader reader, bool shouldNotify) {",
    );
    writer.indent_writeln("switch (tag) {");
    writer.indent();
    write_section(writer, Section::ReplaceCase, fields);
    writer.writeln("default: reader.SkipWireTyped(wireType); break;");
    writer.outdent_writeln("}");
    writer.outdent_writeln("}");
    assert(writer@ =~= old(writer)@ + replace_at_lines(raw_fields(fields@), old(writer).level()));
}

/// Writes the lines of `notify_lines`.
fn write_notify(writer: &mut Writer)
    requires
        old(writer).level() + 3 <= usize::MAX,
    ensures
        final(writer)@ == old(writer)@ + notify_lines(old(writer).level()),
        final(writer).level() == old(writer).level(),
        final(writer).indent_size() == old(writer).indent_size(),
{
    writer.newline();
    writer.writeln(
        "private T Notify<T>(T newValue, T oldValue, bool shouldNotify, IList<Listener<T>> listeners) {",
    );
    writer.indent_writeln("if (shouldNotify) {");
    writer.indent_writeln("foreach (var listener in listeners) {");
    writer.indent_writeln("listener(newValue, oldValue, this);");
    writer.outdent_writeln("}");
    writer.outdent_writeln("}");
    writer.newline();
    writer.writeln("return newValue;");
    writer.outdent_writeln("}");
    assert(writer@ =~= old(writer)@ + notify_lines(old(writer).level()));
}

/// Lines that are written behind others stand behind them: it is the
/// same to add a part to what was written, or to what was written since
/// the start.
proof fn lemma_lines_behind(start: Seq<LineView>, lines: Seq<LineView>, part: Seq<LineView>)
    ensures
        (start + lines) + part == start + (lines + part),
{
    assert((start + lines) + part =~= start + (lines + part));
}

impl Generator for CSharpGenerator {
    open spec fn spec_indent_size(&self) -> nat {
        4
    }

    open spec fn struct_lines(&self, described: Struct, level: nat) -> Seq<LineView> {
        class_lines(self.spec_namespace(), described, level)
    }

    /// Nothing is generated for an enum yet.
    open spec fn enum_lines(&self, described: Enum, level: nat) -> Seq<LineView> {
        Seq::empty()
    }

    /// The directory that the generated files are meant for.
    fn out_dir(&self) -> (out_dir: &str)
        ensures
            out_dir@ == self.spec_out_dir(),
    {
        self.out_dir.as_str()
    }

    /// One step of depth is four spaces.
    fn indent_size(&self) -> (size: usize) {
        4
    }

    /// Writes the class that stands for `described`.
    #[verifier::rlimit(50)]
    fn generate_struct(&self, described: &Struct, _is_variant: bool, writer: &mut Writer) {
        let ghost start = writer@;
        let ghost level = writer.level();
        let ghost name = described.name@;
        let ghost raws = described.fields@;
        let ghost inner = level + 2;
        let name_text = described.name.as_str();
        let var = uncap_first_char(name_text);
        let fields = with_fields(&described.fields);

        write_prologue(writer, self.namespace.as_str(), name_text);
        let ghost lines = prologue_lines(self.spec_namespace(), name, level);
        assert(writer@ == start + lines);

        write_section(writer, Section::ListenerDecl, &fields);
        let ghost part = section_lines(Section::ListenerDecl, raws, inner);
        proof {
            lemma_lines_behind(start, lines, part);
        }
        let ghost lines = lines + part;

        write_path_property(writer);
        let ghost part = path_property_lines(inner);
        proof {
            lemma_lines_behind(start, lines, part);
        }
        let ghost lines = lines + part;

        write_section(writer, Section::Property, &fields);
        let ghost part = section_lines(Section::Property, raws, inner);
        proof {
            lemma_lines_behind(start, lines, part);
        }
        let ghost lines = lines + part;

        write_constructor(writer, name_text, &fields);
        let ghost part = constructor_lines(name, raws, inner);
        proof {
            lemma_lines_behind(start, lines, part);
        }
        let ghost lines = lines + part;

        write_delegate(writer, name_text);
        let ghost part = delegate_lines(name, inner);
        proof {
            lemma_lines_behind(start, lines, part);
        }
        let ghost lines = lines + part;

        write_listener_methods(writer, &fields);
        let ghost part = listener_methods_lines(raws, inner);
        proof {
            lemma_lines_behind(start, lines, part);
        }
        let ghost lines = lines + part;

        write_clear_all(writer, &fields);
        let ghost part = clear_all_lines(raws, inner);
        proof {
            lemma_lines_behind(start, lines, part);
        }
        let ghost lines = lines + part;

        write_deserialize(writer, name_text, var.as_str());
        let ghost part = deserialize_lines(name, uncap(name), inner);
        proof {
            lemma_lines_behind(start, lines, part);
        }
        let ghost lines = lines + part;

        write_nested(writer, &fields);
        let ghost part = nested_lines(raws, inner);
        proof {
            lemma_lines_behind(start, lines, part);
        }
        let ghost lines = lines + part;

        write_wire_type(writer, &fields);
        let ghost part = wire_type_lines(raws, inner);
        proof {
            lemma_lines_behind(start, lines, part);
        }
        let ghost lines = lines + part;

        write_replace_at(writer, &fields);
        let ghost part = replace_at_lines(raws, inner);
        proof {
            lemma_lines_behind(start, lines, part);
        }
        let ghost lines = lines + part;

        write_notify(writer);
        let ghost part = notify_lines(inner);
        proof {
            lemma_lines_behind(start, lines, part);
        }
        let ghost lines = lines + part;

        let ghost members = writer@;
        writer.outdent_writeln("}");
        writer.outdent_writeln("}");
        let ghost part = seq![line(level + 1, "}"@), line(level, "}"@)];
        proof {
            assert(writer@ =~= members + part);
            lemma_lines_behind(start, lines, part);
        }
    }

    /// Writes nothing: there is no class for an enum yet.
    fn generate_enum(&self, described: &Enum, writer: &mut Writer) {
        assert(writer@ =~= old(writer)@ + Seq::<LineView>::empty());
    }
}

} // verus!
