//! What every generator of bindings offers.

use crate::gen::meta::{Enum, Struct};
use crate::gen::writer::{render, LineView, Writer};
use vstd::prelude::*;

verus! {

/// A generator goes at most this many steps deeper than the writer that
/// it is given.
pub const MAX_DEPTH: usize = 16;

/// A generator of bindings for one language. It says which lines stand for
/// a described type, and writes exactly those.
pub trait Generator {
    /// The number of spaces to one step of depth in the generated files.
    spec fn spec_indent_size(&self) -> nat;

    /// The lines that stand for a struct, from the depth `level` on.
    spec fn struct_lines(&self, described: Struct, level: nat) -> Seq<LineView>;

    /// The lines that stand for an enum, from the depth `level` on.
    spec fn enum_lines(&self, described: Enum, level: nat) -> Seq<LineView>;

    /// The directory that the generated files are meant for.
    fn out_dir(&self) -> (out_dir: &str);

    /// The number of spaces to one step of depth in the generated files.
    fn indent_size(&self) -> (size: usize)
        ensures
            size == self.spec_indent_size(),
    ;

    /// Writes the lines that stand for the struct `described` behind those
    /// that `writer` holds, and leaves the writer at the depth it had.
    fn generate_struct(&self, described: &Struct, is_variant: bool, writer: &mut Writer)
        requires
            old(writer).level() + MAX_DEPTH <= usize::MAX,
        ensures
            final(writer)@ == old(writer)@ + self.struct_lines(*described, old(writer).level()),
            final(writer).level() == old(writer).level(),
            final(writer).indent_size() == old(writer).indent_size(),
    ;

    /// Writes the lines that stand for the enum `described` behind those
    /// that `writer` holds, and leaves the writer at the depth it had.
    fn generate_enum(&self, described: &Enum, writer: &mut Writer)
        requires
            old(writer).level() + MAX_DEPTH <= usize::MAX,
        ensures
            final(writer)@ == old(writer)@ + self.enum_lines(*described, old(writer).level()),
            final(writer).level() == old(writer).level(),
            final(writer).indent_size() == old(writer).indent_size(),
    ;
}

/// The text of the file that `generator` makes of the struct `described`.
pub fn struct_text<G: Generator>(generator: &G, described: &Struct) -> (text: String)
    ensures
        text@ == render(generator.struct_lines(*described, 0), generator.spec_indent_size()),
{
    let mut writer = Writer::new(generator.indent_size());
    generator.generate_struct(described, false, &mut writer);
    assert(writer@ =~= generator.struct_lines(*described, 0));
    writer.to_text()
}

/// The text of the file that `generator` makes of the enum `described`.
pub fn enum_text<G: Generator>(generator: &G, described: &Enum) -> (text: String)
    ensures
        text@ == render(generator.enum_lines(*described, 0), generator.spec_indent_size()),
{
    let mut writer = Writer::new(generator.indent_size());
    generator.generate_enum(described, &mut writer);
    assert(writer@ =~= generator.enum_lines(*described, 0));
    writer.to_text()
}

} // verus!
