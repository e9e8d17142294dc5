//! Source text of element declarations and of the tagged union over them.
use vstd::prelude::*;
use crate::attrs::{AttrSet, AttributeSpec, SemanticType};
use crate::naming::{kebab_of, to_tag_name};
use crate::text::append_str;

verus! {

/// How generated text and mapping fields hold their data.
#[derive(Clone, Copy, Debug, PartialEq, Eq, Structural)]
pub enum Storage {
    /// Fields borrow from storage with the lifetime `'life`.
    Borrowed,
    /// Fields own their data.
    Owned,
}

/// One element of the union: its type name and whether it is deprecated.
#[derive(Debug)]
pub struct ElementEntry {
    pub name: String,
    pub deprecated: bool,
}

impl ElementEntry {
    /// The name and the deprecation flag.
    pub open spec fn view(&self) -> (Seq<char>, bool) {
        (self.name@, self.deprecated)
    }
}

/// The views of a list of element entries.
pub open spec fn entry_views(es: Seq<ElementEntry>) -> Seq<(Seq<char>, bool)> {
    es.map_values(|e: ElementEntry| e@)
}

/// The pieces of `f` over `s`, concatenated in order.
pub open spec fn concat_map<T>(s: Seq<T>, f: spec_fn(T) -> Seq<char>) -> Seq<char>
    decreases s.len(),
{
    if s.len() == 0 {
        Seq::empty()
    } else {
        concat_map(s.drop_last(), f) + f(s.last())
    }
}

proof fn lemma_concat_map_step<T>(s: Seq<T>, f: spec_fn(T) -> Seq<char>, i: int)
    requires
        0 <= i < s.len(),
    ensures
        concat_map(s.take(i + 1), f) == concat_map(s.take(i), f) + f(s[i]),
{
    assert(s.take(i + 1).drop_last() == s.take(i));
}

/// Pieces that agree position by position concatenate to the same text.
pub proof fn lemma_concat_map_pointwise<A, B>(
    s1: Seq<A>,
    s2: Seq<B>,
    f: spec_fn(A) -> Seq<char>,
    g: spec_fn(B) -> Seq<char>,
)
    requires
        s1.len() == s2.len(),
        forall|i: int| 0 <= i < s1.len() ==> f(#[trigger] s1[i]) == g(s2[i]),
    ensures
        concat_map(s1, f) == concat_map(s2, g),
    decreases s1.len(),
{
    if s1.len() > 0 {
        assert forall|i: int| 0 <= i < s1.drop_last().len() implies f(
            #[trigger] s1.drop_last()[i],
        ) == g(s2.drop_last()[i]) by {
            assert(f(s1[i]) == g(s2[i]));
        }
        lemma_concat_map_pointwise(s1.drop_last(), s2.drop_last(), f, g);
        assert(f(s1[s1.len() - 1]) == g(s2[s2.len() - 1]));
    }
}

/// Suffix of the owned form of a type name.
pub open spec fn owned_suffix(st: Storage) -> Seq<char> {
    if st == Storage::Owned { "Owned"@ } else { ""@ }
}

/// Generic parameters of the borrowing form.
pub open spec fn lifetime(st: Storage) -> Seq<char> {
    if st == Storage::Owned { ""@ } else { "<'life>"@ }
}

/// What follows an element name to name its declaration type.
pub open spec fn type_args(st: Storage) -> Seq<char> {
    if st == Storage::Owned { "Owned"@ } else { "<'life>"@ }
}

/// The line that puts an item behind the `alloc` feature, where `b` holds.
pub open spec fn cfg_if(b: bool) -> Seq<char> {
    if b { "#[cfg(feature = \"alloc\")]\n"@ } else { ""@ }
}

/// The deprecation annotation line, where `b` holds.
pub open spec fn deprecated_if(b: bool) -> Seq<char> {
    if b { "#[deprecated]\n"@ } else { ""@ }
}

/// The field type that holds an attribute of the given kind.
pub open spec fn type_spec(kind: SemanticType, st: Storage) -> Seq<char> {
    match kind {
        SemanticType::Flag => "bool"@,
        SemanticType::Text => if st == Storage::Owned {
            "alloc::string::String"@
        } else {
            "&'life str"@
        },
        SemanticType::Mapping => if st == Storage::Owned {
            "alloc::collections::BTreeMap<alloc::string::String, alloc::string::String>"@
        } else {
            "alloc::collections::BTreeMap<&'life str, &'life str>"@
        },
    }
}

fn owned_suffix_text(st: Storage) -> (r: &'static str)
    ensures
        r@ == owned_suffix(st),
{
    match st {
        Storage::Owned => "Owned",
        Storage::Borrowed => "",
    }
}

fn lifetime_text(st: Storage) -> (r: &'static str)
    ensures
        r@ == lifetime(st),
{
    match st {
        Storage::Owned => "",
        Storage::Borrowed => "<'life>",
    }
}

fn type_args_text(st: Storage) -> (r: &'static str)
    ensures
        r@ == type_args(st),
{
    match st {
        Storage::Owned => "Owned",
        Storage::Borrowed => "<'life>",
    }
}

fn cfg_text(b: bool) -> (r: &'static str)
    ensures
        r@ == cfg_if(b),
{
    if b { "#[cfg(feature = \"alloc\")]\n" } else { "" }
}

fn deprecated_text(b: bool) -> (r: &'static str)
    ensures
        r@ == deprecated_if(b),
{
    if b { "#[deprecated]\n" } else { "" }
}

/// The field type that holds an attribute of the given kind.
pub fn type_text(kind: SemanticType, st: Storage) -> (r: &'static str)
    ensures
        r@ == type_spec(kind, st),
{
    match kind {
        SemanticType::Flag => "bool",
        SemanticType::Text => match st {
            Storage::Owned => "alloc::string::String",
            Storage::Borrowed => "&'life str",
        },
        SemanticType::Mapping => match st {
            Storage::Owned => "alloc::collections::BTreeMap<alloc::string::String, alloc::string::String>",
            Storage::Borrowed => "alloc::collections::BTreeMap<&'life str, &'life str>",
        },
    }
}

/// One optional field of a declaration, documented by its attribute's description.
pub open spec fn field_text(a: AttributeSpec, st: Storage) -> Seq<char> {
    "/// "@ + a.description@ + "\n"@ + cfg_if(a.requires_allocation) + "pub "@ + a.name@
        + ": core::option::Option<"@ + type_spec(a.kind, st) + ">,\n"@
}

pub open spec fn field_fn(st: Storage) -> spec_fn(AttributeSpec) -> Seq<char> {
    |a: AttributeSpec| field_text(a, st)
}

/// The declaration of one element: a record with one optional field per
/// attribute in name order, and its tag accessor.
pub open spec fn decl_text(
    doc: Seq<char>,
    name: Seq<char>,
    attrs: Seq<AttributeSpec>,
    deprecated: bool,
    st: Storage,
) -> Seq<char> {
    doc + "\n"@ + deprecated_if(deprecated) + cfg_if(st == Storage::Owned)
        + "#[derive(Debug, Clone, Default, PartialEq, Eq, PartialOrd, Ord)]\npub struct "@ + name
        + owned_suffix(st) + lifetime(st) + " {\n"@ + concat_map(attrs, field_fn(st)) + "}\n"@
        + "#[allow(deprecated)]\n"@ + cfg_if(st == Storage::Owned) + "impl"@ + lifetime(st) + " "@
        + name + owned_suffix(st) + lifetime(st)
        + " {\n/// Get the tag name of the element.\n/// This is the same as the name of the struct, in kebab-case.\npub fn tag() -> &'static str {\n\""@
        + kebab_of(name) + "\"\n}\n}\n"@
}

/// Appends the fields of a declaration, one per attribute in order.
pub fn write_fields(out: &mut String, attrs: &Vec<AttributeSpec>, st: Storage)
    ensures
        final(out)@ == old(out)@ + concat_map(attrs@, field_fn(st)),
{
    let ghost start = out@;
    let mut i: usize = 0;
    while i < attrs.len()
        invariant
            i <= attrs.len(),
            out@ == start + concat_map(attrs@.take(i as int), field_fn(st)),
        decreases attrs.len() - i,
    {
        let a = &attrs[i];
        append_str(out, "/// ");
        append_str(out, a.description.as_str());
        append_str(out, "\n");
        append_str(out, cfg_text(a.requires_allocation));
        append_str(out, "pub ");
        append_str(out, a.name.as_str());
        append_str(out, ": core::option::Option<");
        append_str(out, type_text(a.kind, st));
        append_str(out, ">,\n");
        proof {
            lemma_concat_map_step(attrs@, field_fn(st), i as int);
            assert(out@ =~= start + concat_map(attrs@.take(i + 1), field_fn(st)));
        }
        i = i + 1;
    }
    assert(attrs@.take(i as int) == attrs@);
}

/// Appends the declaration of one element in the given storage form.
pub fn write_elem(out: &mut String, doc: &str, name: &str, attrs: &AttrSet, deprecated: bool, st: Storage)
    requires
        attrs.wf(),
    ensures
        final(out)@ == old(out)@ + decl_text(doc@, name@, attrs.entries@, deprecated, st),
{
    let mut s = String::new();
    let owned = match st {
        Storage::Owned => true,
        Storage::Borrowed => false,
    };
    append_str(&mut s, doc);
    assert(s@ =~= doc@);
    append_str(&mut s, "\n");
    append_str(&mut s, deprecated_text(deprecated));
    append_str(&mut s, cfg_text(owned));
    append_str(&mut s, "#[derive(Debug, Clone, Default, PartialEq, Eq, PartialOrd, Ord)]\npub struct ");
    append_str(&mut s, name);
    append_str(&mut s, owned_suffix_text(st));
    append_str(&mut s, lifetime_text(st));
    append_str(&mut s, " {\n");
    write_fields(&mut s, &attrs.entries, st);
    append_str(&mut s, "}\n");
    append_str(&mut s, "#[allow(deprecated)]\n");
    append_str(&mut s, cfg_text(owned));
    append_str(&mut s, "impl");
    append_str(&mut s, lifetime_text(st));
    append_str(&mut s, " ");
    append_str(&mut s, name);
    append_str(&mut s, owned_suffix_text(st));
    append_str(&mut s, lifetime_text(st));
    append_str(
        &mut s,
        " {\n/// Get the tag name of the element.\n/// This is the same as the name of the struct, in kebab-case.\npub fn tag() -> &'static str {\n\"",
    );
    let tag = to_tag_name(name);
    append_str(&mut s, tag.as_str());
    append_str(&mut s, "\"\n}\n}\n");
    append_str(out, s.as_str());
}


/// An inline deprecation annotation, where `b` holds.
pub open spec fn deprecated_inline(b: bool) -> Seq<char> {
    if b { "#[deprecated] "@ } else { ""@ }
}

/// `.as_ref()` where `b` holds.
pub open spec fn as_ref_if(b: bool) -> Seq<char> {
    if b { ".as_ref()"@ } else { ""@ }
}

/// `&` where `b` holds.
pub open spec fn ref_if(b: bool) -> Seq<char> {
    if b { "&"@ } else { ""@ }
}

/// Whether an accessor of the attribute hands out a reference.
pub open spec fn by_ref(a: AttributeSpec, st: Storage) -> bool {
    a.requires_allocation || st == Storage::Owned
}

/// The union variant of one element, wrapping its declaration type.
pub open spec fn variant_line(e: (Seq<char>, bool), st: Storage) -> Seq<char> {
    deprecated_inline(e.1) + e.0 + "("@ + e.0 + type_args(st) + "),\n"@
}

pub open spec fn variant_fn(st: Storage) -> spec_fn((Seq<char>, bool)) -> Seq<char> {
    |e: (Seq<char>, bool)| variant_line(e, st)
}

/// The constructor arm of one element: its tag maps to its variant.
pub open spec fn from_tag_arm(e: (Seq<char>, bool), st: Storage) -> Seq<char> {
    "\""@ + kebab_of(e.0) + "\" => Self::"@ + e.0 + "("@ + e.0 + owned_suffix(st)
        + "::default()),\n"@
}

pub open spec fn from_tag_fn(st: Storage) -> spec_fn((Seq<char>, bool)) -> Seq<char> {
    |e: (Seq<char>, bool)| from_tag_arm(e, st)
}

/// The tag-accessor arm of one element.
pub open spec fn tag_arm(e: (Seq<char>, bool)) -> Seq<char> {
    "Self::"@ + e.0 + "(_) => "@ + e.0 + "::tag(),\n"@
}

pub open spec fn tag_fn() -> spec_fn((Seq<char>, bool)) -> Seq<char> {
    |e: (Seq<char>, bool)| tag_arm(e)
}

/// The getter arm of one element for the field `field`.
pub open spec fn getter_arm(e: (Seq<char>, bool), field: Seq<char>, r: bool) -> Seq<char> {
    "Self::"@ + e.0 + "(e) => e."@ + field + as_ref_if(r) + ",\n"@
}

pub open spec fn getter_arm_fn(field: Seq<char>, r: bool) -> spec_fn((Seq<char>, bool)) -> Seq<char> {
    |e: (Seq<char>, bool)| getter_arm(e, field, r)
}

/// The setter arm of one element for the field `field`.
pub open spec fn setter_arm(e: (Seq<char>, bool), field: Seq<char>) -> Seq<char> {
    "Self::"@ + e.0 + "(e) => e."@ + field + ".replace(val),\n"@
}

pub open spec fn setter_arm_fn(field: Seq<char>) -> spec_fn((Seq<char>, bool)) -> Seq<char> {
    |e: (Seq<char>, bool)| setter_arm(e, field)
}

/// The getter of a global attribute, dispatching over every variant.
pub open spec fn getter_text(a: AttributeSpec, es: Seq<(Seq<char>, bool)>, st: Storage) -> Seq<char> {
    "/// "@ + a.description@ + "\n"@ + cfg_if(by_ref(a, st)) + "pub fn "@ + a.name@
        + "(&self) -> core::option::Option<"@ + ref_if(by_ref(a, st)) + type_spec(a.kind, st)
        + "> {\nmatch self {\n"@ + concat_map(es, getter_arm_fn(a.name@, by_ref(a, st)))
        + "}\n}\n"@
}

pub open spec fn getter_fn(es: Seq<(Seq<char>, bool)>, st: Storage) -> spec_fn(AttributeSpec) -> Seq<char> {
    |a: AttributeSpec| getter_text(a, es, st)
}

/// The setter of a global attribute, dispatching over every variant and
/// returning the value it replaced.
pub open spec fn setter_text(a: AttributeSpec, es: Seq<(Seq<char>, bool)>, st: Storage) -> Seq<char> {
    "/// "@ + a.description@ + "\n"@ + cfg_if(by_ref(a, st)) + "pub fn set_"@ + a.name@
        + "(&mut self, val: "@ + type_spec(a.kind, st) + ") -> core::option::Option<"@
        + type_spec(a.kind, st) + "> {\nmatch self {\n"@ + concat_map(es, setter_arm_fn(a.name@))
        + "}\n}\n"@
}

pub open spec fn setter_fn(es: Seq<(Seq<char>, bool)>, st: Storage) -> spec_fn(AttributeSpec) -> Seq<char> {
    |a: AttributeSpec| setter_text(a, es, st)
}

/// The union type, one variant per element.
pub open spec fn union_type_text(es: Seq<(Seq<char>, bool)>, st: Storage) -> Seq<char> {
    "#[allow(deprecated)]\n#[derive(Debug, Clone, PartialEq, Eq, PartialOrd, Ord)]\n"@
        + cfg_if(st == Storage::Owned) + "pub enum Element"@ + type_args(st) + " {\n"@
        + concat_map(es, variant_fn(st)) + "}\n"@
}

/// The constructor from a tag, with its fallback, and the tag accessor.
pub open spec fn dispatch_text(es: Seq<(Seq<char>, bool)>, st: Storage) -> Seq<char> {
    "#[allow(deprecated)]\n"@ + cfg_if(st == Storage::Owned) + "impl"@ + lifetime(st) + " Element"@
        + owned_suffix(st) + lifetime(st)
        + " {\n/// Gets an element from a lowercase tag name.\npub fn from_tag(tag: &str) -> Self {\nmatch tag {\n"@
        + concat_map(es, from_tag_fn(st))
        + "_ => Self::default(),\n}\n}\n/// Gets the tag name of the element.\npub fn tag(&self) -> &'static str {\nmatch self {\n"@
        + concat_map(es, tag_fn()) + "}\n}\n}\n"@
}

/// A getter and a setter for every global attribute.
pub open spec fn accessors_text(es: Seq<(Seq<char>, bool)>, global: Seq<AttributeSpec>, st: Storage) -> Seq<char> {
    "#[allow(deprecated)]\n"@ + cfg_if(st == Storage::Owned) + "impl"@ + lifetime(st) + " Element"@
        + owned_suffix(st) + lifetime(st) + " {\n"@ + concat_map(global, getter_fn(es, st))
        + concat_map(global, setter_fn(es, st)) + "}\n"@
}

/// The default union value: the unknown element in its default state.
pub open spec fn default_text(st: Storage) -> Seq<char> {
    "#[allow(deprecated)]\n"@ + cfg_if(st == Storage::Owned) + "impl"@ + lifetime(st)
        + " Default for Element"@ + owned_suffix(st) + lifetime(st)
        + " {\nfn default() -> Self {\nSelf::Unknown(Unknown"@ + owned_suffix(st)
        + "::default())\n}\n}\n"@
}

/// The whole union in one storage form.
pub open spec fn union_text(es: Seq<(Seq<char>, bool)>, global: Seq<AttributeSpec>, st: Storage) -> Seq<char> {
    union_type_text(es, st) + dispatch_text(es, st) + accessors_text(es, global, st) + default_text(st)
}

fn is_owned(st: Storage) -> (r: bool)
    ensures
        r == (st == Storage::Owned),
{
    match st {
        Storage::Owned => true,
        Storage::Borrowed => false,
    }
}

fn write_variants(out: &mut String, es: &Vec<ElementEntry>, st: Storage)
    ensures
        final(out)@ == old(out)@ + concat_map(entry_views(es@), variant_fn(st)),
{
    let ghost start = out@;
    let mut i: usize = 0;
    while i < es.len()
        invariant
            i <= es.len(),
            out@ == start + concat_map(entry_views(es@).take(i as int), variant_fn(st)),
        decreases es.len() - i,
    {
        let e = &es[i];
        append_str(out, if e.deprecated { "#[deprecated] " } else { "" });
        append_str(out, e.name.as_str());
        append_str(out, "(");
        append_str(out, e.name.as_str());
        append_str(out, type_args_text(st));
        append_str(out, "),\n");
        proof {
            lemma_concat_map_step(entry_views(es@), variant_fn(st), i as int);
            assert(out@ =~= start + concat_map(entry_views(es@).take(i + 1), variant_fn(st)));
        }
        i = i + 1;
    }
    assert(entry_views(es@).take(i as int) == entry_views(es@));
}

fn write_from_tag_arms(out: &mut String, es: &Vec<ElementEntry>, st: Storage)
    ensures
        final(out)@ == old(out)@ + concat_map(entry_views(es@), from_tag_fn(st)),
{
    let ghost start = out@;
    let mut i: usize = 0;
    while i < es.len()
        invariant
            i <= es.len(),
            out@ == start + concat_map(entry_views(es@).take(i as int), from_tag_fn(st)),
        decreases es.len() - i,
    {
        let e = &es[i];
        let tag = to_tag_name(e.name.as_str());
        append_str(out, "\"");
        append_str(out, tag.as_str());
        append_str(out, "\" => Self::");
        append_str(out, e.name.as_str());
        append_str(out, "(");
        append_str(out, e.name.as_str());
        append_str(out, owned_suffix_text(st));
        append_str(out, "::default()),\n");
        proof {
            lemma_concat_map_step(entry_views(es@), from_tag_fn(st), i as int);
            assert(out@ =~= start + concat_map(entry_views(es@).take(i + 1), from_tag_fn(st)));
        }
        i = i + 1;
    }
    assert(entry_views(es@).take(i as int) == entry_views(es@));
}

fn write_tag_arms(out: &mut String, es: &Vec<ElementEntry>)
    ensures
        final(out)@ == old(out)@ + concat_map(entry_views(es@), tag_fn()),
{
    let ghost start = out@;
    let mut i: usize = 0;
    while i < es.len()
        invariant
            i <= es.len(),
            out@ == start + concat_map(entry_views(es@).take(i as int), tag_fn()),
        decreases es.len() - i,
    {
        let e = &es[i];
        append_str(out, "Self::");
        append_str(out, e.name.as_str());
        append_str(out, "(_) => ");
        append_str(out, e.name.as_str());
        append_str(out, "::tag(),\n");
        proof {
            lemma_concat_map_step(entry_views(es@), tag_fn(), i as int);
            assert(out@ =~= start + concat_map(entry_views(es@).take(i + 1), tag_fn()));
        }
        i = i + 1;
    }
    assert(entry_views(es@).take(i as int) == entry_views(es@));
}

fn write_getter_arms(out: &mut String, es: &Vec<ElementEntry>, field: &str, r: bool)
    ensures
        final(out)@ == old(out)@ + concat_map(entry_views(es@), getter_arm_fn(field@, r)),
{
    let ghost start = out@;
    let mut i: usize = 0;
    while i < es.len()
        invariant
            i <= es.len(),
            out@ == start + concat_map(entry_views(es@).take(i as int), getter_arm_fn(field@, r)),
        decreases es.len() - i,
    {
        let e = &es[i];
        append_str(out, "Self::");
        append_str(out, e.name.as_str());
        append_str(out, "(e) => e.");
        append_str(out, field);
        append_str(out, if r { ".as_ref()" } else { "" });
        append_str(out, ",\n");
        proof {
            lemma_concat_map_step(entry_views(es@), getter_arm_fn(field@, r), i as int);
            assert(out@ =~= start + concat_map(entry_views(es@).take(i + 1), getter_arm_fn(field@, r)));
        }
        i = i + 1;
    }
    assert(entry_views(es@).take(i as int) == entry_views(es@));
}

fn write_setter_arms(out: &mut String, es: &Vec<ElementEntry>, field: &str)
    ensures
        final(out)@ == old(out)@ + concat_map(entry_views(es@), setter_arm_fn(field@)),
{
    let ghost start = out@;
    let mut i: usize = 0;
    while i < es.len()
        invariant
            i <= es.len(),
            out@ == start + concat_map(entry_views(es@).take(i as int), setter_arm_fn(field@)),
        decreases es.len() - i,
    {
        let e = &es[i];
        append_str(out, "Self::");
        append_str(out, e.name.as_str());
        append_str(out, "(e) => e.");
        append_str(out, field);
        append_str(out, ".replace(val),\n");
        proof {
            lemma_concat_map_step(entry_views(es@), setter_arm_fn(field@), i as int);
            assert(out@ =~= start + concat_map(entry_views(es@).take(i + 1), setter_arm_fn(field@)));
        }
        i = i + 1;
    }
    assert(entry_views(es@).take(i as int) == entry_views(es@));
}

fn getter_string(a: &AttributeSpec, es: &Vec<ElementEntry>, st: Storage) -> (r: String)
    ensures
        r@ == getter_text(*a, entry_views(es@), st),
{
    let r = a.requires_allocation || is_owned(st);
    let mut s = String::new();
    append_str(&mut s, "/// ");
    assert(s@ =~= "/// "@);
    append_str(&mut s, a.description.as_str());
    append_str(&mut s, "\n");
    append_str(&mut s, cfg_text(r));
    append_str(&mut s, "pub fn ");
    append_str(&mut s, a.name.as_str());
    append_str(&mut s, "(&self) -> core::option::Option<");
    append_str(&mut s, if r { "&" } else { "" });
    append_str(&mut s, type_text(a.kind, st));
    append_str(&mut s, "> {\nmatch self {\n");
    write_getter_arms(&mut s, es, a.name.as_str(), r);
    append_str(&mut s, "}\n}\n");
    s
}

fn setter_string(a: &AttributeSpec, es: &Vec<ElementEntry>, st: Storage) -> (r: String)
    ensures
        r@ == setter_text(*a, entry_views(es@), st),
{
    let r = a.requires_allocation || is_owned(st);
    let mut s = String::new();
    append_str(&mut s, "/// ");
    assert(s@ =~= "/// "@);
    append_str(&mut s, a.description.as_str());
    append_str(&mut s, "\n");
    append_str(&mut s, cfg_text(r));
    append_str(&mut s, "pub fn set_");
    append_str(&mut s, a.name.as_str());
    append_str(&mut s, "(&mut self, val: ");
    append_str(&mut s, type_text(a.kind, st));
    append_str(&mut s, ") -> core::option::Option<");
    append_str(&mut s, type_text(a.kind, st));
    append_str(&mut s, "> {\nmatch self {\n");
    write_setter_arms(&mut s, es, a.name.as_str());
    append_str(&mut s, "}\n}\n");
    s
}

fn write_getters(out: &mut String, global: &Vec<AttributeSpec>, es: &Vec<ElementEntry>, st: Storage)
    ensures
        final(out)@ == old(out)@ + concat_map(global@, getter_fn(entry_views(es@), st)),
{
    let ghost start = out@;
    let mut i: usize = 0;
    while i < global.len()
        invariant
            i <= global.len(),
            out@ == start + concat_map(global@.take(i as int), getter_fn(entry_views(es@), st)),
        decreases global.len() - i,
    {
        let g = getter_string(&global[i], es, st);
        append_str(out, g.as_str());
        proof {
            lemma_concat_map_step(global@, getter_fn(entry_views(es@), st), i as int);
            assert(out@ =~= start + concat_map(global@.take(i + 1), getter_fn(entry_views(es@), st)));
        }
        i = i + 1;
    }
    assert(global@.take(i as int) == global@);
}

fn write_setters(out: &mut String, global: &Vec<AttributeSpec>, es: &Vec<ElementEntry>, st: Storage)
    ensures
        final(out)@ == old(out)@ + concat_map(global@, setter_fn(entry_views(es@), st)),
{
    let ghost start = out@;
    let mut i: usize = 0;
    while i < global.len()
        invariant
            i <= global.len(),
            out@ == start + concat_map(global@.take(i as int), setter_fn(entry_views(es@), st)),
        decreases global.len() - i,
    {
        let g = setter_string(&global[i], es, st);
        append_str(out, g.as_str());
        proof {
            lemma_concat_map_step(global@, setter_fn(entry_views(es@), st), i as int);
            assert(out@ =~= start + concat_map(global@.take(i + 1), setter_fn(entry_views(es@), st)));
        }
        i = i + 1;
    }
    assert(global@.take(i as int) == global@);
}

fn union_type_string(es: &Vec<ElementEntry>, st: Storage) -> (r: String)
    ensures
        r@ == union_type_text(entry_views(es@), st),
{
    let mut s = String::new();
    append_str(&mut s, "#[allow(deprecated)]\n#[derive(Debug, Clone, PartialEq, Eq, PartialOrd, Ord)]\n");
    assert(s@ =~= "#[allow(deprecated)]\n#[derive(Debug, Clone, PartialEq, Eq, PartialOrd, Ord)]\n"@);
    append_str(&mut s, cfg_text(is_owned(st)));
    append_str(&mut s, "pub enum Element");
    append_str(&mut s, type_args_text(st));
    append_str(&mut s, " {\n");
    write_variants(&mut s, es, st);
    append_str(&mut s, "}\n");
    s
}

fn dispatch_string(es: &Vec<ElementEntry>, st: Storage) -> (r: String)
    ensures
        r@ == dispatch_text(entry_views(es@), st),
{
    let mut s = String::new();
    append_str(&mut s, "#[allow(deprecated)]\n");
    assert(s@ =~= "#[allow(deprecated)]\n"@);
    append_str(&mut s, cfg_text(is_owned(st)));
    append_str(&mut s, "impl");
    append_str(&mut s, lifetime_text(st));
    append_str(&mut s, " Element");
    append_str(&mut s, owned_suffix_text(st));
    append_str(&mut s, lifetime_text(st));
    append_str(
        &mut s,
        " {\n/// Gets an element from a lowercase tag name.\npub fn from_tag(tag: &str) -> Self {\nmatch tag {\n",
    );
    write_from_tag_arms(&mut s, es, st);
    append_str(
        &mut s,
        "_ => Self::default(),\n}\n}\n/// Gets the tag name of the element.\npub fn tag(&self) -> &'static str {\nmatch self {\n",
    );
    write_tag_arms(&mut s, es);
    append_str(&mut s, "}\n}\n}\n");
    s
}

fn accessors_string(es: &Vec<ElementEntry>, global: &AttrSet, st: Storage) -> (r: String)
    ensures
        r@ == accessors_text(entry_views(es@), global.entries@, st),
{
    let mut s = String::new();
    append_str(&mut s, "#[allow(deprecated)]\n");
    assert(s@ =~= "#[allow(deprecated)]\n"@);
    append_str(&mut s, cfg_text(is_owned(st)));
    append_str(&mut s, "impl");
    append_str(&mut s, lifetime_text(st));
    append_str(&mut s, " Element");
    append_str(&mut s, owned_suffix_text(st));
    append_str(&mut s, lifetime_text(st));
    append_str(&mut s, " {\n");
    write_getters(&mut s, &global.entries, es, st);
    write_setters(&mut s, &global.entries, es, st);
    append_str(&mut s, "}\n");
    s
}

fn default_string(st: Storage) -> (r: String)
    ensures
        r@ == default_text(st),
{
    let mut s = String::new();
    append_str(&mut s, "#[allow(deprecated)]\n");
    assert(s@ =~= "#[allow(deprecated)]\n"@);
    append_str(&mut s, cfg_text(is_owned(st)));
    append_str(&mut s, "impl");
    append_str(&mut s, lifetime_text(st));
    append_str(&mut s, " Default for Element");
    append_str(&mut s, owned_suffix_text(st));
    append_str(&mut s, lifetime_text(st));
    append_str(&mut s, " {\nfn default() -> Self {\nSelf::Unknown(Unknown");
    append_str(&mut s, owned_suffix_text(st));
    append_str(&mut s, "::default())\n}\n}\n");
    s
}

/// Appends the union over the elements in the given storage form: the type,
/// the constructor from a tag and the tag accessor, a getter and a setter for
/// each global attribute, and the default value.
pub fn write_elem_enum(out: &mut String, es: &Vec<ElementEntry>, global: &AttrSet, st: Storage)
    requires
        global.wf(),
    ensures
        final(out)@ == old(out)@ + union_text(entry_views(es@), global.entries@, st),
{
    let a = union_type_string(es, st);
    let b = dispatch_string(es, st);
    let c = accessors_string(es, global, st);
    let d = default_string(st);
    let ghost start = out@;
    append_str(out, a.as_str());
    append_str(out, b.as_str());
    append_str(out, c.as_str());
    append_str(out, d.as_str());
    assert(out@ =~= start + union_text(entry_views(es@), global.entries@, st));
}

/// The variant that the generated constructor picks for a tag: the first
/// element whose tag name equals it, else the unknown element.
pub open spec fn variant_for(es: Seq<(Seq<char>, bool)>, tag: Seq<char>) -> Seq<char>
    decreases es.len(),
{
    if es.len() == 0 {
        "Unknown"@
    } else if kebab_of(es[0].0) == tag {
        es[0].0
    } else {
        variant_for(es.skip(1), tag)
    }
}

/// The name of the variant that the generated constructor picks for `tag`.
pub fn variant_for_tag(es: &Vec<ElementEntry>, tag: &str) -> (r: String)
    ensures
        r@ == variant_for(entry_views(es@), tag@),
{
    let mut i: usize = 0;
    assert(entry_views(es@).skip(0) == entry_views(es@));
    while i < es.len()
        invariant
            i <= es.len(),
            variant_for(entry_views(es@), tag@) == variant_for(entry_views(es@).skip(i as int), tag@),
        decreases es.len() - i,
    {
        let t = to_tag_name(es[i].name.as_str());
        if crate::text::str_eq(t.as_str(), tag) {
            return es[i].name.clone();
        }
        assert(entry_views(es@).skip(i as int).skip(1) == entry_views(es@).skip(i + 1));
        i = i + 1;
    }
    let mut r = String::new();
    append_str(&mut r, "Unknown");
    assert(r@ =~= "Unknown"@);
    r
}

/// The generated constructor is total: for every tag it picks either an
/// element whose tag name equals the tag, or, exactly where there is none, the
/// unknown element.
pub proof fn law_from_tag_total(es: Seq<(Seq<char>, bool)>, tag: Seq<char>)
    ensures
        variant_for(es, tag) == "Unknown"@ || exists|i: int|
            0 <= i < es.len() && kebab_of((#[trigger] es[i]).0) == tag && es[i].0
                == variant_for(es, tag),
        (forall|i: int| 0 <= i < es.len() ==> kebab_of((#[trigger] es[i]).0) != tag)
            ==> variant_for(es, tag) == "Unknown"@,
    decreases es.len(),
{
    if es.len() > 0 {
        law_from_tag_total(es.skip(1), tag);
        if kebab_of(es[0].0) != tag && variant_for(es, tag) != "Unknown"@ {
            let i = choose|i: int|
                0 <= i < es.skip(1).len() && kebab_of((#[trigger] es.skip(1)[i]).0) == tag
                    && es.skip(1)[i].0 == variant_for(es.skip(1), tag);
            assert(es[i + 1] == es.skip(1)[i]);
        }
        if forall|i: int| 0 <= i < es.len() ==> kebab_of((#[trigger] es[i]).0) != tag {
            assert forall|i: int| 0 <= i < es.skip(1).len() implies kebab_of(
                (#[trigger] es.skip(1)[i]).0,
            ) != tag by {
                assert(es.skip(1)[i] == es[i + 1]);
            }
        }
    }
}

} // verus!
