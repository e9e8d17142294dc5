//! Identifier conventions: type names, field names and tag names.
use vstd::prelude::*;
use heck::{ToKebabCase, ToSnakeCase, ToUpperCamelCase};
use crate::text::{str_eq, push_char};

verus! {

/// The upper-camel-case form of a text, as heck computes it.
pub uninterp spec fn upper_camel_of(s: Seq<char>) -> Seq<char>;

/// The snake-case form of a text, as heck computes it.
pub uninterp spec fn snake_of(s: Seq<char>) -> Seq<char>;

/// The kebab-case form of a text, as heck computes it.
pub uninterp spec fn kebab_of(s: Seq<char>) -> Seq<char>;

/// Relies on heck's `ToUpperCamelCase::to_upper_camel_case` for `str`.
#[verifier::external_body]
fn upper_camel(s: &str) -> (r: String)
    ensures
        r@ == upper_camel_of(s@),
{
    s.to_upper_camel_case()
}

/// Relies on heck's `ToSnakeCase::to_snake_case` for `str`.
#[verifier::external_body]
fn snake(s: &str) -> (r: String)
    ensures
        r@ == snake_of(s@),
{
    s.to_snake_case()
}

/// Relies on heck's `ToKebabCase::to_kebab_case` for `str`.
#[verifier::external_body]
fn kebab(s: &str) -> (r: String)
    ensures
        r@ == kebab_of(s@),
{
    s.to_kebab_case()
}

/// Words of the target language that cannot be used as field names.
pub open spec fn is_reserved(s: Seq<char>) -> bool {
    s == "type"@ || s == "loop"@ || s == "async"@ || s == "for"@ || s == "as"@
}

/// A field name with the collision marker appended where it is reserved.
pub open spec fn marked(s: Seq<char>) -> Seq<char> {
    if is_reserved(s) {
        s.push('_')
    } else {
        s
    }
}

/// Whether `s` is one of the reserved words.
pub fn is_reserved_word(s: &str) -> (r: bool)
    ensures
        r == is_reserved(s@),
{
    str_eq(s, "type") || str_eq(s, "loop") || str_eq(s, "async") || str_eq(s, "for")
        || str_eq(s, "as")
}

/// Appends the collision marker `_` to a reserved word; other names are kept.
pub fn mark_reserved(s: String) -> (r: String)
    ensures
        r@ == marked(s@),
{
    let mut s = s;
    if is_reserved_word(s.as_str()) {
        push_char(&mut s, '_');
    }
    s
}

/// Type-name form of a display name (upper camel case).
pub fn to_type_name(raw: &str) -> (r: String)
    ensures
        r@ == upper_camel_of(raw@),
{
    upper_camel(raw)
}

/// Snake-case form of an attribute label, before reserved words are marked.
pub fn to_snake_name(raw: &str) -> (r: String)
    ensures
        r@ == snake_of(raw@),
{
    snake(raw)
}

/// Field-name form of an attribute label: snake case, with reserved words marked.
pub fn to_field_name(raw: &str) -> (r: String)
    ensures
        r@ == marked(snake_of(raw@)),
{
    mark_reserved(snake(raw))
}

/// Tag-name form of a type name (lowercase, hyphen separated).
pub fn to_tag_name(ident: &str) -> (r: String)
    ensures
        r@ == kebab_of(ident@),
{
    kebab(ident)
}

/// The bare name inside a bracketed display name: one character off each end.
pub open spec fn unbracketed(s: Seq<char>) -> Seq<char> {
    s.subrange(1, s.len() - 1)
}

/// Strips exactly one leading and one trailing character from a display name
/// such as `<div>`; `None` where the text has fewer than two characters.
pub fn strip_brackets(display: &str) -> (r: Option<String>)
    ensures
        display@.len() < 2 <==> r is None,
        r is Some ==> r->0@ == unbracketed(display@),
{
    let c = crate::text::chars_of(display);
    if c.len() < 2 {
        return None;
    }
    let mut out = String::new();
    let mut i: usize = 1;
    while i < c.len() - 1
        invariant
            c@ == display@,
            c.len() >= 2,
            1 <= i <= c.len() - 1,
            out@ == c@.subrange(1, i as int),
        decreases c.len() - i,
    {
        push_char(&mut out, c[i]);
        assert(c@.subrange(1, i + 1) == c@.subrange(1, i as int).push(c@[i as int]));
        i = i + 1;
    }
    Some(out)
}

/// Type name of an element from its bracketed display name.
pub fn element_type_name(display: &str) -> (r: Option<String>)
    ensures
        display@.len() < 2 <==> r is None,
        r is Some ==> r->0@ == upper_camel_of(unbracketed(display@)),
{
    match strip_brackets(display) {
        Some(bare) => Some(to_type_name(bare.as_str())),
        None => None,
    }
}

} // verus!
