use steit::gen::string_utils::{
    push_camel, push_chars, push_decimal, same_text, to_camel_case, to_decimal,
    uncap_first_char, uncap_first_char_with,
};

#[test]
fn camel_case_drops_underscores_and_raises_what_follows() {
    assert_eq!(to_camel_case("foo_bar", false), "fooBar");
    assert_eq!(to_camel_case("foo_bar", true), "FooBar");
    assert_eq!(to_camel_case("inner_state_list", true), "InnerStateList");
    assert_eq!(to_camel_case("x", true), "X");
    assert_eq!(to_camel_case("x", false), "x");
}

#[test]
fn camel_case_of_edge_names() {
    assert_eq!(to_camel_case("", true), "");
    assert_eq!(to_camel_case("", false), "");
    assert_eq!(to_camel_case("_", false), "");
    assert_eq!(to_camel_case("___", true), "");
    assert_eq!(to_camel_case("__foo__bar_", false), "FooBar");
    assert_eq!(to_camel_case("_foo", false), "Foo");
    assert_eq!(to_camel_case("fooBar", true), "FooBar");
    assert_eq!(to_camel_case("FOO_BAR", false), "FOOBAR");
    assert_eq!(to_camel_case("a_1_b", true), "A1B");
}

#[test]
fn camel_case_raises_by_the_rules_of_unicode() {
    assert_eq!(to_camel_case("ß_é", true), "SSÉ");
    assert_eq!(to_camel_case("ß_é", false), "ßÉ");
    assert_eq!(to_camel_case("ǆ", true), "Ǆ");
    assert_eq!(to_camel_case("日_本", true), "日本");
}

#[test]
fn one_step_of_camel_case() {
    let mut out = String::from("ab");
    assert!(push_camel(&mut out, '_', false, &vec!['?']));
    assert_eq!(out, "ab");
    assert!(push_camel(&mut out, '_', true, &vec!['?']));
    assert_eq!(out, "ab");
    assert!(!push_camel(&mut out, 'c', true, &vec!['X', 'Y']));
    assert_eq!(out, "abXY");
    assert!(!push_camel(&mut out, 'c', false, &vec!['X', 'Y']));
    assert_eq!(out, "abXYc");
    assert!(!push_camel(&mut out, 'd', true, &vec![]));
    assert_eq!(out, "abXYc");
}

#[test]
fn uncap_lowers_the_first_character_only() {
    assert_eq!(uncap_first_char("FooBar"), "fooBar");
    assert_eq!(uncap_first_char("fooBar"), "fooBar");
    assert_eq!(uncap_first_char("F"), "f");
    assert_eq!(uncap_first_char("FOO"), "fOO");
    assert_eq!(uncap_first_char(""), "");
    assert_eq!(uncap_first_char("_Foo"), "_Foo");
    assert_eq!(uncap_first_char("Éa"), "éa");
    assert_eq!(uncap_first_char("İx"), "i\u{307}x");
}

#[test]
fn uncap_with_a_given_first_character() {
    assert_eq!(uncap_first_char_with("Hello", &vec!['j']), "jello");
    assert_eq!(uncap_first_char_with("Hello", &vec![]), "ello");
    assert_eq!(uncap_first_char_with("Hello", &vec!['a', 'b']), "abello");
    assert_eq!(uncap_first_char_with("", &vec!['j']), "");
    assert_eq!(uncap_first_char_with("H", &vec!['j']), "j");
}

#[test]
fn numbers_in_decimal() {
    assert_eq!(to_decimal(0), "0");
    assert_eq!(to_decimal(7), "7");
    assert_eq!(to_decimal(10), "10");
    assert_eq!(to_decimal(109), "109");
    assert_eq!(to_decimal(65535), "65535");
    for n in [0u16, 9, 10, 99, 100, 1000, 9999, 10000, 65535] {
        assert_eq!(to_decimal(n), format!("{}", n));
    }
    let mut out = String::from("tag ");
    push_decimal(&mut out, 42);
    assert_eq!(out, "tag 42");
    assert_eq!((0..10).map(to_decimal).collect::<String>(), "0123456789");
}

#[test]
fn texts_are_the_same_when_their_characters_are() {
    assert!(same_text("u8", "u8"));
    assert!(!same_text("u8", "u16"));
    assert!(!same_text("u8", "U8"));
    assert!(same_text("", ""));
    assert!(!same_text("", " "));
}

#[test]
fn push_chars_appends() {
    let mut out = String::from("a");
    push_chars(&mut out, &vec!['b', 'ç']);
    push_chars(&mut out, &vec![]);
    assert_eq!(out, "abç");
}
