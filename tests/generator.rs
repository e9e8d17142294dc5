use html_tags_gen::attrs::{classify, name_less, AttrSet, AttributeSpec, SemanticType};
use html_tags_gen::doc::{element_documentation, join_with, replace_breaks, to_comment_body};
use html_tags_gen::emit::{type_text, variant_for_tag, write_elem, ElementEntry, Storage};
use html_tags_gen::extract::{dl_to_attrs, element_attributes, global_attributes, DlTerm, GenError};
use html_tags_gen::model::{build_model, detail_url, generate, render, ElementPage};
use html_tags_gen::naming::{
    element_type_name, is_reserved_word, mark_reserved, strip_brackets, to_field_name,
    to_tag_name, to_type_name,
};
use html_tags_gen::text::str_eq;

fn term(name: &str, html: &str) -> DlTerm {
    DlTerm { term_text: Some(name.to_string()), description_html: Some(html.to_string()) }
}

fn page(display: &str, href: &str, notices: usize, terms: Option<Vec<DlTerm>>) -> ElementPage {
    ElementPage {
        display_name: display.to_string(),
        href: href.to_string(),
        deprecated_notices: notices,
        attribute_terms: terms,
        paragraphs: vec!["A summary.".to_string()],
        summary_blocks: vec![],
    }
}

fn attr(name: &str, doc: &str) -> AttributeSpec {
    AttributeSpec {
        name: name.to_string(),
        description: doc.to_string(),
        kind: SemanticType::Text,
        requires_allocation: false,
    }
}

fn names(set: &AttrSet) -> Vec<String> {
    set.entries.iter().map(|a| a.name.clone()).collect()
}

#[test]
fn tag_name_round_trips_display_names() {
    let corpus = [
        ("<a>", "a"),
        ("<blockquote>", "blockquote"),
        ("<h1>", "h1"),
        ("<fencedframe>", "fencedframe"),
        ("<div>", "div"),
        ("<textarea>", "textarea"),
    ];
    for (display, tag) in corpus {
        let bare = strip_brackets(display).unwrap();
        let ty = to_type_name(&bare);
        assert_eq!(to_tag_name(&ty), tag);
    }
}

#[test]
fn type_name_is_upper_camel_case() {
    assert_eq!(element_type_name("<div>").unwrap(), "Div");
    assert_eq!(element_type_name("<foo>").unwrap(), "Foo");
    assert_eq!(element_type_name("x"), None);
    assert_eq!(to_type_name("foo-bar"), "FooBar");
}

#[test]
fn strip_brackets_removes_one_character_each_end() {
    assert_eq!(strip_brackets("<img>").unwrap(), "img");
    assert_eq!(strip_brackets("<>").unwrap(), "");
    assert_eq!(strip_brackets("<"), None);
}

#[test]
fn reserved_words_get_marker() {
    for w in ["type", "loop", "async", "for", "as"] {
        assert!(is_reserved_word(w));
        assert_eq!(mark_reserved(w.to_string()), format!("{w}_"));
        assert_eq!(to_field_name(w), format!("{w}_"));
    }
    assert!(!is_reserved_word("types"));
    assert_eq!(mark_reserved("value".to_string()), "value");
    assert_eq!(to_field_name("accept-charset"), "accept_charset");
}

#[test]
fn reserved_name_used_in_field_getter_and_setter() {
    let global = global_attributes(&Some(vec![term("type", "The type.")])).unwrap();
    assert!(names(&global).contains(&"type_".to_string()));
    let es = vec![ElementEntry { name: "Input".to_string(), deprecated: false }];
    let mut out = String::new();
    html_tags_gen::emit::write_elem_enum(&mut out, &es, &global, Storage::Borrowed);
    assert!(out.contains("pub fn type_(&self)"));
    assert!(out.contains("pub fn set_type_(&mut self"));
    assert!(out.contains("Self::Input(e) => e.type_,"));
    let mut decl = String::new();
    write_elem(&mut decl, "/// Input.", "Input", &global, false, Storage::Borrowed);
    assert!(decl.contains("pub type_: core::option::Option<&'life str>,"));
}

#[test]
fn flag_classification_is_exact_set() {
    for f in [
        "autofocus", "checked", "disabled", "multiple", "readonly", "required", "selected",
        "hidden", "novalidate", "formnovalidate",
    ] {
        assert_eq!(classify(f), (SemanticType::Flag, false));
    }
    assert_eq!(classify("placeholder"), (SemanticType::Text, false));
    assert_eq!(classify("value"), (SemanticType::Text, false));
    assert_eq!(classify("data"), (SemanticType::Mapping, true));
    assert_eq!(classify("datas"), (SemanticType::Text, false));
    assert_eq!(classify("Hidden"), (SemanticType::Flag, false));
    assert_eq!(classify("ReadOnly"), (SemanticType::Flag, false));
    assert_eq!(classify("noValidate"), (SemanticType::Flag, false));
    assert_eq!(classify("Data"), (SemanticType::Mapping, true));
    assert_eq!(classify("data-*"), (SemanticType::Mapping, true));
    assert_eq!(classify("hiddenx"), (SemanticType::Text, false));
}

#[test]
fn type_texts_per_storage() {
    assert_eq!(type_text(SemanticType::Flag, Storage::Owned), "bool");
    assert_eq!(type_text(SemanticType::Text, Storage::Borrowed), "&'life str");
    assert_eq!(type_text(SemanticType::Text, Storage::Owned), "alloc::string::String");
    assert_eq!(
        type_text(SemanticType::Mapping, Storage::Borrowed),
        "alloc::collections::BTreeMap<&'life str, &'life str>"
    );
}

#[test]
fn names_compare_by_code_point() {
    assert!(name_less("abc", "abd"));
    assert!(name_less("ab", "abc"));
    assert!(!name_less("abc", "ab"));
    assert!(!name_less("id", "id"));
    assert!(name_less("", "a"));
    assert!(str_eq("id", "id"));
    assert!(!str_eq("id", "ids"));
}

#[test]
fn attribute_set_is_name_sorted_and_overwrites() {
    let mut set = AttrSet::new();
    set.insert(attr("title", "/// t"));
    set.insert(attr("id", "/// first"));
    set.insert(attr("class", "/// c"));
    set.insert(attr("id", "/// second"));
    assert_eq!(names(&set), vec!["class", "id", "title"]);
    assert_eq!(set.entries[1].description, "/// second");
    assert_eq!(set.len(), 3);
}

#[test]
fn element_attribute_overrides_global() {
    let global = global_attributes(&Some(vec![term("id", "Global id."), term("lang", "Lang.")])).unwrap();
    let own = element_attributes(&global, &Some(vec![term("id", "Element id.")])).unwrap();
    assert_eq!(names(&own), vec!["extra", "id", "lang"]);
    let id = own.entries.iter().find(|a| a.name == "id").unwrap();
    assert_eq!(id.description, "Element id.");
    let mut decl = String::new();
    write_elem(&mut decl, "/// E.", "E", &own, false, Storage::Borrowed);
    assert!(decl.contains("/// Element id.\npub id: core::option::Option<&'life str>,"));
    assert!(!decl.contains("Global id."));
    let none = element_attributes(&global, &None).unwrap();
    assert_eq!(names(&none), names(&global));
}

#[test]
fn global_set_gets_extra_mapping() {
    let g = global_attributes(&Some(vec![])).unwrap();
    assert_eq!(g.entries.len(), 1);
    assert_eq!(g.entries[0].name, "extra");
    assert_eq!(g.entries[0].kind, SemanticType::Mapping);
    assert!(g.entries[0].requires_allocation);
    assert!(matches!(global_attributes(&None), Err(GenError::Parse)));
}

#[test]
fn incomplete_terms_are_extraction_errors() {
    let missing_desc = DlTerm { term_text: Some("id".to_string()), description_html: None };
    assert!(matches!(dl_to_attrs(&vec![missing_desc]), Err(GenError::Extraction)));
    let missing_text = DlTerm { term_text: None, description_html: Some("x".to_string()) };
    assert!(matches!(dl_to_attrs(&vec![missing_text]), Err(GenError::Extraction)));
    let ok = dl_to_attrs(&vec![term("Data", "a<br>b\nc")]).unwrap();
    assert_eq!(ok[0].name, "data");
    assert_eq!(ok[0].kind, SemanticType::Mapping);
    assert_eq!(ok[0].description, "a\n/// \n/// b\n/// c");
    let bar = dl_to_attrs(&vec![term("bar", "Bar doc")]).unwrap();
    assert_eq!(bar[0].name, "bar");
    assert_eq!(bar[0].description, "Bar doc");
    assert_eq!(bar[0].kind, SemanticType::Text);
    assert!(!bar[0].requires_allocation);
}

#[test]
fn comment_formatting() {
    assert_eq!(replace_breaks("x<br>y<br"), "x\n\ny<br");
    assert_eq!(to_comment_body("a\nb"), "a\n/// b");
    assert_eq!(to_comment_body(""), "");
    let parts = vec!["p1".to_string(), "p2".to_string()];
    assert_eq!(join_with(&parts, "\n\n"), "p1\n\np2");
    assert_eq!(join_with(&vec![], "-"), "");
}

#[test]
fn documentation_falls_back_and_keeps_reference_line() {
    let url = detail_url("/en-US/docs/Web/HTML/Element/foo");
    assert_eq!(url, "https://developer.mozilla.org/en-US/docs/Web/HTML/Element/foo");
    let d = element_documentation(&vec!["One.".to_string()], &vec!["Two.".to_string()], &url);
    assert_eq!(
        d,
        "/// One.\n///\n/// More information: <https://developer.mozilla.org/en-US/docs/Web/HTML/Element/foo>"
    );
    let fb = element_documentation(&vec![], &vec!["Two.".to_string()], "u");
    assert_eq!(fb, "/// Two.\n///\n/// More information: <u>");
    let empty = element_documentation(&vec![], &vec![], "u");
    assert_eq!(empty, "/// \n///\n/// More information: <u>");
}

#[test]
fn from_tag_is_total() {
    let es = vec![
        ElementEntry { name: "Foo".to_string(), deprecated: false },
        ElementEntry { name: "Unknown".to_string(), deprecated: false },
    ];
    assert_eq!(variant_for_tag(&es, "foo"), "Foo");
    assert_eq!(variant_for_tag(&es, "made-up-tag"), "Unknown");
    assert_eq!(variant_for_tag(&es, ""), "Unknown");
    assert_eq!(variant_for_tag(&es, "bar"), "Unknown");
    assert_eq!(variant_for_tag(&es, "FOO"), "Unknown");
    assert_eq!(variant_for_tag(&vec![], "foo"), "Unknown");
}

#[test]
fn end_to_end_single_element() {
    let global = Some(vec![term("id", "The id.")]);
    let pages = vec![page("<foo>", "/en-US/docs/Web/HTML/Element/foo", 0, Some(vec![term("bar", "The bar.")]))];
    let out = generate(&global, &pages).unwrap();
    let decl = out.find("pub struct Foo<'life> {").unwrap();
    let owned = out.find("pub struct FooOwned {").unwrap();
    assert!(decl < owned);
    let bar = out.find("pub bar: core::option::Option<&'life str>,").unwrap();
    let id = out.find("pub id: core::option::Option<&'life str>,").unwrap();
    assert!(decl < bar && bar < id && id < owned);
    assert!(out.contains("pub bar: core::option::Option<alloc::string::String>,"));
    assert!(!out.contains("#[deprecated]"));
    assert!(out.contains("pub fn tag() -> &'static str {\n\"foo\"\n}"));
    assert!(out.contains("pub enum Element<'life> {\nFoo(Foo<'life>),\nUnknown(Unknown<'life>),\n}"));
    assert!(out.contains("pub enum ElementOwned {\nFoo(FooOwned),\nUnknown(UnknownOwned),\n}"));
    assert!(out.contains("\"foo\" => Self::Foo(Foo::default()),\n\"unknown\" => Self::Unknown(Unknown::default()),\n_ => Self::default(),"));
    assert!(out.contains("Self::Unknown(Unknown::default())"));
    assert!(out.contains("/// The id.\npub fn id(&self) -> core::option::Option<&'life str>"));
    assert!(out.contains("/// The bar.\npub bar: core::option::Option<&'life str>,"));
    assert!(!out.contains("pub fn bar(&self)"));
    assert!(out.contains("pub fn set_id(&mut self, val: &'life str) -> core::option::Option<&'life str>"));
    assert!(out.contains("More information: <https://developer.mozilla.org/en-US/docs/Web/HTML/Element/foo>"));
}

#[test]
fn deprecated_element_is_annotated_and_constructible() {
    let global = Some(vec![term("id", "The id.")]);
    let pages = vec![page("<acronym>", "/a", 1, None)];
    let model = build_model(&global, &pages).unwrap();
    assert!(model.elements[0].deprecated);
    let out = render(&model);
    assert!(out.contains("#[deprecated]\n#[derive(Debug, Clone, Default, PartialEq, Eq, PartialOrd, Ord)]\npub struct Acronym<'life> {"));
    assert!(out.contains("#[deprecated] Acronym(Acronym<'life>),"));
    assert!(out.contains("#[deprecated] Acronym(AcronymOwned),"));
    assert!(out.contains("\"acronym\" => Self::Acronym(Acronym::default()),"));
    let es = vec![ElementEntry { name: "Acronym".to_string(), deprecated: true }];
    assert_eq!(variant_for_tag(&es, "acronym"), "Acronym");
}

#[test]
fn run_errors() {
    let pages = vec![page("<foo>", "/f", 0, None)];
    assert!(matches!(generate(&None, &pages), Err(GenError::Parse)));
    assert!(matches!(generate(&Some(vec![]), &vec![]), Err(GenError::Parse)));
    let bad_global = Some(vec![DlTerm { term_text: None, description_html: None }]);
    assert!(matches!(generate(&bad_global, &pages), Err(GenError::Extraction)));
    let short = vec![page("x", "/f", 0, None)];
    assert!(matches!(generate(&Some(vec![]), &short), Err(GenError::Extraction)));
    let bad_terms = vec![page("<foo>", "/f", 0, Some(vec![DlTerm { term_text: Some("a".to_string()), description_html: None }]))];
    assert!(matches!(generate(&Some(vec![]), &bad_terms), Err(GenError::Extraction)));
}

#[test]
fn unknown_element_has_tag_name_field() {
    let model = build_model(&Some(vec![]), &vec![page("<p>", "/p", 0, None)]).unwrap();
    assert_eq!(names(&model.unknown), vec!["extra", "tag_name"]);
    let out = render(&model);
    assert!(out.contains("/// An unknown element.\n#[derive(Debug, Clone, Default, PartialEq, Eq, PartialOrd, Ord)]\npub struct Unknown<'life> {"));
    assert!(out.contains("/// The tag name of the element.\npub tag_name: core::option::Option<&'life str>,"));
    assert!(out.contains("/// Extra attributes of the element."));
    assert!(!out.contains("/// /// "));
    assert!(out.contains("pub extra: core::option::Option<alloc::collections::BTreeMap<&'life str, &'life str>>,"));
    assert!(out.contains("pub fn extra(&self) -> core::option::Option<&alloc::collections::BTreeMap<&'life str, &'life str>>"));
    assert!(out.contains("Self::P(e) => e.extra.as_ref(),"));
}

#[test]
fn repeated_runs_agree() {
    let global = Some(vec![term("title", "T."), term("id", "I.")]);
    let pages = vec![page("<foo>", "/f", 0, Some(vec![term("zeta", "Z."), term("alpha", "A.")]))];
    let a = generate(&global, &pages).unwrap();
    let b = generate(&global, &pages).unwrap();
    assert_eq!(a, b);
    let alpha = a.find("pub alpha:").unwrap();
    let zeta = a.find("pub zeta:").unwrap();
    assert!(alpha < zeta);
}
