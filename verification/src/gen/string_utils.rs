//! The forms of a name: from the snake case of a schema to the camel case
//! of the generated code.

use vstd::prelude::*;

verus! {

/// The upper-case form of a character, as Unicode maps it: one character
/// or more, the character itself where it has no upper-case form.
pub uninterp spec fn uppercase_of(c: char) -> Seq<char>;

/// The lower-case form of a character, as Unicode maps it: one character
/// or more, the character itself where it has no lower-case form.
pub uninterp spec fn lowercase_of(c: char) -> Seq<char>;

/// `char::to_uppercase`, its characters gathered in a vector.
#[verifier::external_body]
fn to_uppercase(c: char) -> (upper: Vec<char>)
    ensures
        upper@ == uppercase_of(c),
{
    c.to_uppercase().collect()
}

/// `char::to_lowercase`, its characters gathered in a vector.
#[verifier::external_body]
fn to_lowercase(c: char) -> (lower: Vec<char>)
    ensures
        lower@ == lowercase_of(c),
{
    c.to_lowercase().collect()
}

/// `String::push`: the character is appended.
#[verifier::external_body]
fn push_char(out: &mut String, c: char)
    ensures
        final(out)@ == old(out)@.push(c),
{
    out.push(c)
}

/// Appends the characters of `chars` to `out`.
pub fn push_chars(out: &mut String, chars: &Vec<char>)
    ensures
        final(out)@ == old(out)@ + chars@,
{
    let mut i: usize = 0;
    while i < chars.len()
        invariant
            i <= chars.len(),
            out@ == old(out)@ + chars@.take(i as int),
        decreases chars.len() - i,
    {
        push_char(out, chars[i]);
        assert(chars@.take(i + 1) =~= chars@.take(i as int).push(chars@[i as int]));
        i += 1;
    }
    assert(chars@.take(i as int) =~= chars@);
}

/// What one character of a name gives to its camel-case form, and whether
/// the character after it is to be raised. An underscore gives nothing and
/// raises the next character; a character to be raised gives its
/// upper-case form `upper_form`; any other character gives itself.
pub open spec fn camel_step(c: char, upper: bool, upper_form: Seq<char>) -> (Seq<char>, bool) {
    if c == '_' {
        (Seq::empty(), true)
    } else if upper {
        (upper_form, false)
    } else {
        (seq![c], false)
    }
}

/// The camel-case form of `s`: the underscores are dropped, and the
/// character behind each run of underscores is raised, the first
/// character too if `upper` says so.
pub open spec fn camel_case(s: Seq<char>, upper: bool) -> Seq<char>
    decreases s.len(),
{
    if s.len() == 0 {
        Seq::empty()
    } else {
        let step = camel_step(s[0], upper, uppercase_of(s[0]));
        step.0 + camel_case(s.skip(1), step.1)
    }
}

/// The form of `s` that begins with a lower-case character: the first
/// character is replaced by `lower_first`, the rest stays.
pub open spec fn uncap_with(s: Seq<char>, lower_first: Seq<char>) -> Seq<char> {
    if s.len() == 0 {
        Seq::empty()
    } else {
        lower_first + s.skip(1)
    }
}

/// The form of `s` that begins with a lower-case character: the first
/// character gives way to its lower-case form, the rest stays.
pub open spec fn uncap(s: Seq<char>) -> Seq<char> {
    uncap_with(s, lowercase_of(s[0]))
}

/// Appends to `out` what the character `c` gives to a camel-case form,
/// where `upper_form` is the upper-case form of `c`, and says whether the
/// next character is to be raised.
pub fn push_camel(out: &mut String, c: char, upper: bool, upper_form: &Vec<char>) -> (next: bool)
    ensures
        final(out)@ == old(out)@ + camel_step(c, upper, upper_form@).0,
        next == camel_step(c, upper, upper_form@).1,
{
    if c == '_' {
        assert(out@ =~= old(out)@ + Seq::<char>::empty());
        true
    } else if upper {
        push_chars(out, upper_form);
        false
    } else {
        push_char(out, c);
        assert(out@ =~= old(out)@ + seq![c]);
        false
    }
}

/// The camel-case form of the snake-case name `s`, beginning with an
/// upper-case character if `upper` says so.
pub fn to_camel_case(s: &str, upper: bool) -> (out: String)
    ensures
        out@ == camel_case(s@, upper),
{
    let mut out = String::new();
    let mut upper = upper;
    let ghost first = upper;
    assert(s@.skip(0) =~= s@);
    for c in it: s.chars()
        invariant
            it.seq() == s@,
            camel_case(s@, first) == out@ + camel_case(s@.skip(it.index()), upper),
    {
        let upper_form = if upper && c != '_' {
            to_uppercase(c)
        } else {
            Vec::new()
        };
        let ghost before = out@;
        let ghost was = upper;
        let ghost rest = s@.skip(it.index());
        assert(rest[0] == c);
        assert(rest.skip(1) =~= s@.skip(it.index() + 1));
        upper = push_camel(&mut out, c, upper, &upper_form);
        assert(out@ + camel_case(s@.skip(it.index() + 1), upper) =~= before + camel_case(
            rest,
            was,
        ));
    }
    assert(out@ + Seq::<char>::empty() =~= out@);
    out
}

/// The form of `s` whose first character is replaced by `lower_first`,
/// the lower-case form of that character.
pub fn uncap_first_char_with(s: &str, lower_first: &Vec<char>) -> (out: String)
    ensures
        out@ == uncap_with(s@, lower_first@),
{
    let mut out = String::new();
    let mut first = true;
    for c in it: s.chars()
        invariant
            it.seq() == s@,
            first == (it.index() == 0),
            out@ == if it.index() == 0 {
                Seq::<char>::empty()
            } else {
                lower_first@ + s@.subrange(1, it.index())
            },
    {
        if first {
            push_chars(&mut out, lower_first);
            first = false;
            assert(out@ =~= lower_first@ + s@.subrange(1, 1));
        } else {
            push_char(&mut out, c);
            assert(s@.subrange(1, it.index() + 1) =~= s@.subrange(1, it.index()).push(c));
        }
    }
    assert(s@.subrange(1, s@.len() as int) =~= s@.skip(1));
    out
}

/// The form of `s` that begins with a lower-case character: the first
/// character gives way to its lower-case form, the rest stays.
pub fn uncap_first_char(s: &str) -> (out: String)
    ensures
        out@ == uncap(s@),
{
    let mut chars = s.chars();
    match chars.next() {
        None => String::new(),
        Some(first) => {
            let lower_first = to_lowercase(first);
            uncap_first_char_with(s, &lower_first)
        },
    }
}

/// The character of a decimal digit.
pub open spec fn digit_char(d: nat) -> char {
    if d == 0 {
        '0'
    } else if d == 1 {
        '1'
    } else if d == 2 {
        '2'
    } else if d == 3 {
        '3'
    } else if d == 4 {
        '4'
    } else if d == 5 {
        '5'
    } else if d == 6 {
        '6'
    } else if d == 7 {
        '7'
    } else if d == 8 {
        '8'
    } else {
        '9'
    }
}

/// A number in decimal digits, without leading zeros.
pub open spec fn decimal(n: nat) -> Seq<char>
    decreases n,
{
    if n < 10 {
        seq![digit_char(n)]
    } else {
        decimal(n / 10).push(digit_char(n % 10))
    }
}

/// The character of the decimal digit `d`.
fn digit(d: u16) -> (c: char)
    requires
        d < 10,
    ensures
        c == digit_char(d as nat),
{
    if d == 0 {
        '0'
    } else if d == 1 {
        '1'
    } else if d == 2 {
        '2'
    } else if d == 3 {
        '3'
    } else if d == 4 {
        '4'
    } else if d == 5 {
        '5'
    } else if d == 6 {
        '6'
    } else if d == 7 {
        '7'
    } else if d == 8 {
        '8'
    } else {
        '9'
    }
}

/// Appends `n` in decimal digits to `out`.
pub fn push_decimal(out: &mut String, n: u16)
    ensures
        final(out)@ == old(out)@ + decimal(n as nat),
    decreases n,
{
    if n >= 10 {
        push_decimal(out, n / 10);
    }
    push_char(out, digit(n % 10));
    assert(out@ =~= old(out)@ + decimal(n as nat));
}

/// `n` in decimal digits.
pub fn to_decimal(n: u16) -> (out: String)
    ensures
        out@ == decimal(n as nat),
{
    let mut out = String::new();
    push_decimal(&mut out, n);
    assert(out@ =~= decimal(n as nat));
    out
}

/// Whether two texts are the same, character by character.
pub fn same_text(a: &str, b: &str) -> (same: bool)
    ensures
        same == (a@ == b@),
{
    a.to_owned() == b.to_owned()
}

} // verus!
