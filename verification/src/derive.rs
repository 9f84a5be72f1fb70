//! The deriving of schema code from type declarations: what it accepts,
//! what it refuses, and the errors it reports on the way.

use vstd::prelude::*;

verus! {

/// `syn::DataEnum`: the body of an enum as the parser hands it over.
#[verifier::external_type_specification]
#[verifier::external_body]
pub struct ExDataEnum(syn::DataEnum);

/// `proc_macro2::Span`: a place in the source that is being derived from.
#[verifier::external_type_specification]
#[verifier::external_body]
pub struct ExSpan(proc_macro2::Span);

/// One error of a derivation: where, and what.
pub struct Diagnostic {
    pub span: proc_macro2::Span,
    pub message: String,
}

/// The errors of one derivation, in the order in which they were found.
pub struct Context {
    errors: Vec<Diagnostic>,
}

/// The messages of errors, without their places.
pub open spec fn messages_of(errors: Seq<Diagnostic>) -> Seq<Seq<char>> {
    errors.map_values(|error: Diagnostic| error.message@)
}

impl Context {
    /// The messages of the errors so far, the first one first.
    pub closed spec fn messages(&self) -> Seq<Seq<char>> {
        messages_of(self.errors@)
    }

    /// A context without errors.
    pub fn new() -> (context: Context)
        ensures
            context.messages() == Seq::<Seq<char>>::empty(),
    {
        let context = Context { errors: Vec::new() };
        assert(context.messages() =~= Seq::<Seq<char>>::empty());
        context
    }

    /// Reports an error at `span`.
    pub fn error(&mut self, span: proc_macro2::Span, message: &str)
        ensures
            final(self).messages() == old(self).messages().push(message@),
    {
        self.errors.push(Diagnostic { span, message: message.to_owned() });
        assert(self.messages() =~= old(self).messages().push(message@));
    }

    /// Whether no error was reported.
    pub fn is_ok(&self) -> (ok: bool)
        ensures
            ok == (self.messages().len() == 0),
    {
        self.errors.len() == 0
    }

    /// The errors so far, the first one first.
    pub fn errors(&self) -> (errors: &Vec<Diagnostic>)
        ensures
            messages_of(errors@) == self.messages(),
    {
        &self.errors
    }
}

/// The place of the keyword `enum` in the declaration: the field
/// `enum_token` of `syn::DataEnum`, and in it the field `span`.
#[verifier::external_body]
fn enum_keyword_span(data: &syn::DataEnum) -> (span: proc_macro2::Span) {
    data.enum_token.span
}

/// What is derived for an enum. Nothing can be derived for one yet.
pub struct Enum;

impl Enum {
    /// Refuses the enum: one error is reported at the keyword `enum`, and
    /// nothing is derived. The declaration stays as it is.
    pub fn parse(context: &mut Context, data: &mut syn::DataEnum) -> (r: Result<Enum, ()>)
        ensures
            r is Err,
            final(context).messages() == old(context).messages().push(
                "cannot derive for enums yet"@,
            ),
            *final(data) == *old(data),
    {
        let span = enum_keyword_span(data);
        context.error(span, "cannot derive for enums yet");
        Err(())
    }
}

} // verus!
