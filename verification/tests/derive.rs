use steit::derive::{Context, Enum};

fn data_of(source: &str) -> syn::DataEnum {
    let input: syn::DeriveInput = syn::parse_str(source).unwrap();
    match input.data {
        syn::Data::Enum(data) => data,
        _ => panic!("an enum"),
    }
}

#[test]
fn a_new_context_has_no_errors() {
    let context = Context::new();
    assert!(context.is_ok());
    assert!(context.errors().is_empty());
}

#[test]
fn errors_are_kept_in_order() {
    let mut context = Context::new();
    context.error(proc_macro2::Span::call_site(), "first");
    context.error(proc_macro2::Span::call_site(), "second");
    assert!(!context.is_ok());
    let messages: Vec<&str> = context.errors().iter().map(|e| e.message.as_str()).collect();
    assert_eq!(messages, vec!["first", "second"]);
}

#[test]
fn enums_cannot_be_derived_for_yet() {
    let mut context = Context::new();
    let mut data = data_of("enum Choice { First, Second { a: u8 } }");
    assert!(Enum::parse(&mut context, &mut data).is_err());
    assert_eq!(context.errors().len(), 1);
    assert_eq!(context.errors()[0].message, "cannot derive for enums yet");
    assert_eq!(data.variants.len(), 2);
}

#[test]
fn every_enum_is_refused_with_one_more_error() {
    let mut context = Context::new();
    context.error(proc_macro2::Span::call_site(), "before");
    for source in ["enum A {}", "pub enum B { X }", "enum C<T> { X(T), Y }"] {
        let mut data = data_of(source);
        assert!(Enum::parse(&mut context, &mut data).is_err());
    }
    let messages: Vec<&str> = context.errors().iter().map(|e| e.message.as_str()).collect();
    assert_eq!(
        messages,
        vec![
            "before",
            "cannot derive for enums yet",
            "cannot derive for enums yet",
            "cannot derive for enums yet",
        ]
    );
}

#[test]
fn the_error_stands_at_the_keyword() {
    let mut context = Context::new();
    let mut data = data_of("enum Choice { First }");
    let keyword = format!("{:?}", data.enum_token.span);
    let _ = Enum::parse(&mut context, &mut data);
    assert_eq!(format!("{:?}", context.errors()[0].span), keyword);
}
