//! The generation run: from scraped pages to a model, and from the model to text.
use vstd::prelude::*;
use crate::attrs::{
    has_name, info_map, lemma_info_map_at, lemma_sorted_unique, same_views, strictly_sorted, AttrInfo, AttrSet, AttributeSpec,
    SemanticType,
};
use crate::doc::{element_doc, element_documentation};
use crate::emit::{
    cfg_if, concat_map, decl_text, entry_views, field_fn, field_text, type_spec, getter_fn, lemma_concat_map_pointwise,
    setter_fn, union_text, write_elem, write_elem_enum, ElementEntry,
    Storage,
};
use crate::extract::{
    element_attributes, extra_doc, global_attributes, term_complete, terms_complete, terms_map,
    DlTerm, GenError,
};
use crate::naming::{element_type_name, unbracketed, upper_camel_of};
use crate::text::append_str;

verus! {

/// What is read from the detail page of one element.
#[derive(Debug)]
pub struct ElementPage {
    /// The link text of the index entry, such as `<div>`.
    pub display_name: String,
    /// The link target of the index entry, a path on the reference site.
    pub href: String,
    /// How many deprecation notices the main content holds.
    pub deprecated_notices: usize,
    /// The terms of the attribute list, where the page has one.
    pub attribute_terms: Option<Vec<DlTerm>>,
    /// The summary paragraphs of the main content, as markup.
    pub paragraphs: Vec<String>,
    /// The blocks of the summary section, as markup.
    pub summary_blocks: Vec<String>,
}

/// One element of the model.
#[derive(Debug)]
pub struct ElementModel {
    pub name: String,
    pub deprecated: bool,
    pub doc: String,
    pub attrs: AttrSet,
}

/// The model of one run: the global attributes, those of the unknown element,
/// and every element in index order.
#[derive(Debug)]
pub struct Model {
    pub global: AttrSet,
    pub unknown: AttrSet,
    pub elements: Vec<ElementModel>,
}

/// The address of a detail page.
pub open spec fn page_url(href: Seq<char>) -> Seq<char> {
    "https://developer.mozilla.org"@ + href
}

/// Whether a page can be modelled: a bracketed name and complete attribute terms.
pub open spec fn page_ok(p: ElementPage) -> bool {
    p.display_name@.len() >= 2 && (p.attribute_terms is Some ==> terms_complete(
        p.attribute_terms->0@,
    ))
}

/// Whether every page can be modelled.
pub open spec fn pages_ok(ps: Seq<ElementPage>) -> bool {
    forall|i: int| 0 <= i < ps.len() ==> page_ok(#[trigger] ps[i])
}

/// The attributes that a page itself defines.
pub open spec fn own_map(p: ElementPage) -> Map<Seq<char>, AttrInfo> {
    match p.attribute_terms {
        Some(t) => terms_map(t@),
        None => Map::empty(),
    }
}

/// Whether `m` is the model of page `p` over the global attributes `g`.
pub open spec fn describes_element(m: ElementModel, p: ElementPage, g: Map<Seq<char>, AttrInfo>) -> bool {
    &&& m.name@ == upper_camel_of(unbracketed(p.display_name@))
    &&& m.deprecated == (p.deprecated_notices != 0)
    &&& m.doc@ == element_doc(p.paragraphs@, p.summary_blocks@, page_url(p.href@))
    &&& m.attrs.wf()
    &&& m.attrs@ == g.union_prefer_right(own_map(p))
}

/// The entry of the open attribute map.
pub open spec fn extra_info() -> AttrInfo {
    AttrInfo { description: extra_doc(), kind: SemanticType::Mapping, requires_allocation: true }
}

/// The entry of the unknown element's own tag name.
pub open spec fn tag_name_info() -> AttrInfo {
    AttrInfo {
        description: "The tag name of the element."@,
        kind: SemanticType::Text,
        requires_allocation: false,
    }
}

/// Whether the global-attribute terms and the pages can be modelled.
pub open spec fn inputs_ok(global_dl: Option<Vec<DlTerm>>, pages: Seq<ElementPage>) -> bool {
    global_dl is Some && terms_complete(global_dl->0@) && pages.len() > 0 && pages_ok(pages)
}

/// The error of a run on inputs that cannot be modelled.
pub open spec fn input_error(global_dl: Option<Vec<DlTerm>>, pages: Seq<ElementPage>) -> GenError {
    if global_dl is None {
        GenError::Parse
    } else if !terms_complete(global_dl->0@) {
        GenError::Extraction
    } else if pages.len() == 0 {
        GenError::Parse
    } else {
        GenError::Extraction
    }
}

impl Model {
    /// Every attribute set of the model is in strict name order.
    pub open spec fn wf(&self) -> bool {
        &&& self.global.wf()
        &&& self.unknown.wf()
        &&& forall|i: int| 0 <= i < self.elements@.len() ==> (#[trigger] self.elements@[i]).attrs.wf()
    }

    /// Whether this is the model of the given global-attribute terms and pages.
    pub open spec fn describes(&self, global_dl: Option<Vec<DlTerm>>, pages: Seq<ElementPage>) -> bool {
        &&& global_dl is Some
        &&& self.global.wf()
        &&& self.global@ == terms_map(global_dl->0@).insert("extra"@, extra_info())
        &&& self.unknown.wf()
        &&& self.unknown@ == self.global@.insert("tag_name"@, tag_name_info())
        &&& self.elements@.len() == pages.len()
        &&& forall|i: int|
            0 <= i < pages.len() ==> describes_element(
                #[trigger] self.elements@[i],
                pages[i],
                self.global@,
            )
    }
}

/// The address of a detail page from its path.
pub fn detail_url(href: &str) -> (r: String)
    ensures
        r@ == page_url(href@),
{
    let mut r = String::new();
    append_str(&mut r, "https://developer.mozilla.org");
    assert(r@ =~= "https://developer.mozilla.org"@);
    append_str(&mut r, href);
    r
}

/// The model of one element page over the global attribute set.
pub fn build_element(global: &AttrSet, page: &ElementPage) -> (r: Result<ElementModel, GenError>)
    requires
        global.wf(),
    ensures
        r is Ok <==> page_ok(*page),
        r is Err ==> r->Err_0 == GenError::Extraction,
        r is Ok ==> describes_element(r->Ok_0, *page, global@),
{
    let name = match element_type_name(page.display_name.as_str()) {
        Some(n) => n,
        None => return Err(GenError::Extraction),
    };
    let attrs = match element_attributes(global, &page.attribute_terms) {
        Ok(a) => a,
        Err(e) => return Err(e),
    };
    let url = detail_url(page.href.as_str());
    let doc = element_documentation(&page.paragraphs, &page.summary_blocks, url.as_str());
    proof {
        if page.attribute_terms is None {
            assert(global@.union_prefer_right(Map::empty()) =~= global@);
        }
    }
    Ok(ElementModel { name, deprecated: page.deprecated_notices != 0, doc, attrs })
}

/// The attribute set of the unknown element: the global set and its tag name.
pub fn unknown_attributes(global: &AttrSet) -> (r: AttrSet)
    requires
        global.wf(),
    ensures
        r.wf(),
        r@ == global@.insert("tag_name"@, tag_name_info()),
{
    let mut r = global.duplicate();
    let mut name = String::new();
    append_str(&mut name, "tag_name");
    assert(name@ =~= "tag_name"@);
    let mut description = String::new();
    append_str(&mut description, "The tag name of the element.");
    assert(description@ =~= "The tag name of the element."@);
    r.insert(AttributeSpec { name, description, kind: SemanticType::Text, requires_allocation: false });
    r
}

/// The model of a run: the global attributes from their definition list
/// (`Parse` where the page has none), then each element page in index order
/// (`Parse` where the index lists none).
pub fn build_model(global_dl: &Option<Vec<DlTerm>>, pages: &Vec<ElementPage>) -> (r: Result<Model, GenError>)
    ensures
        r is Ok <==> inputs_ok(*global_dl, pages@),
        r is Err ==> r->Err_0 == input_error(*global_dl, pages@),
        r is Ok ==> r->Ok_0.describes(*global_dl, pages@),
        r is Ok ==> r->Ok_0.wf(),
{
    let global = match global_attributes(global_dl) {
        Ok(g) => g,
        Err(e) => return Err(e),
    };
    if pages.len() == 0 {
        return Err(GenError::Parse);
    }
    let unknown = unknown_attributes(&global);
    let mut elements: Vec<ElementModel> = Vec::new();
    let mut i: usize = 0;
    while i < pages.len()
        invariant
            i <= pages.len(),
            global_dl is Some,
            terms_complete(global_dl->0@),
            pages@.len() > 0,
            global.wf(),
            elements@.len() == i,
            forall|j: int| 0 <= j < i ==> page_ok(#[trigger] pages@[j]),
            forall|j: int|
                0 <= j < i ==> describes_element(#[trigger] elements@[j], pages@[j], global@),
        decreases pages.len() - i,
    {
        match build_element(&global, &pages[i]) {
            Ok(m) => elements.push(m),
            Err(_) => {
                assert(!page_ok(pages@[i as int]));
                return Err(GenError::Extraction);
            },
        }
        i = i + 1;
    }
    let m = Model { global, unknown, elements };
    assert forall|j: int| 0 <= j < m.elements@.len() implies (#[trigger] m.elements@[j]).attrs.wf() by {
        assert(describes_element(m.elements@[j], pages@[j], m.global@));
    }
    Ok(m)
}

/// The two declarations of one element, borrowing form first.
pub open spec fn element_decls(m: ElementModel) -> Seq<char> {
    decl_text(m.doc@, m.name@, m.attrs.entries@, m.deprecated, Storage::Borrowed) + decl_text(
        m.doc@,
        m.name@,
        m.attrs.entries@,
        m.deprecated,
        Storage::Owned,
    )
}

pub open spec fn element_decls_fn() -> spec_fn(ElementModel) -> Seq<char> {
    |m: ElementModel| element_decls(m)
}

/// Documentation of the unknown element.
pub open spec fn unknown_doc() -> Seq<char> {
    "/// An unknown element."@
}

/// The names and deprecation flags of the elements.
pub open spec fn model_views(s: Seq<ElementModel>) -> Seq<(Seq<char>, bool)> {
    s.map_values(|e: ElementModel| (e.name@, e.deprecated))
}

/// The union members: every element in index order, then the unknown element.
pub open spec fn union_entries(m: Model) -> Seq<(Seq<char>, bool)> {
    model_views(m.elements@).push(("Unknown"@, false))
}

/// The generated declarations of a model: both forms of every element, both
/// forms of the unknown element, then the union in both forms.
pub open spec fn module_body(m: Model) -> Seq<char> {
    concat_map(m.elements@, element_decls_fn()) + decl_text(
        unknown_doc(),
        "Unknown"@,
        m.unknown.entries@,
        false,
        Storage::Borrowed,
    ) + decl_text(unknown_doc(), "Unknown"@, m.unknown.entries@, false, Storage::Owned)
        + union_text(union_entries(m), m.global.entries@, Storage::Borrowed) + union_text(
        union_entries(m),
        m.global.entries@,
        Storage::Owned,
    )
}

proof fn lemma_concat_step(s: Seq<ElementModel>, i: int)
    requires
        0 <= i < s.len(),
    ensures
        concat_map(s.take(i + 1), element_decls_fn()) == concat_map(s.take(i), element_decls_fn())
            + element_decls(s[i]),
{
    assert(s.take(i + 1).drop_last() == s.take(i));
}

/// Renders the declarations of a model.
pub fn render(m: &Model) -> (r: String)
    requires
        m.wf(),
    ensures
        r@ == module_body(*m),
{
    let mut out = String::new();
    let mut entries: Vec<ElementEntry> = Vec::new();
    let mut i: usize = 0;
    let ghost views = model_views(m.elements@);
    assert(out@ =~= concat_map(m.elements@.take(0), element_decls_fn()));
    while i < m.elements.len()
        invariant
            i <= m.elements.len(),
            m.wf(),
            views == model_views(m.elements@),
            out@ == concat_map(m.elements@.take(i as int), element_decls_fn()),
            entries@.len() == i,
            entry_views(entries@) == views.take(i as int),
        decreases m.elements.len() - i,
    {
        let e = &m.elements[i];
        assert(m.elements@[i as int].attrs.wf());
        write_elem(&mut out, e.doc.as_str(), e.name.as_str(), &e.attrs, e.deprecated, Storage::Borrowed);
        write_elem(&mut out, e.doc.as_str(), e.name.as_str(), &e.attrs, e.deprecated, Storage::Owned);
        entries.push(ElementEntry { name: e.name.clone(), deprecated: e.deprecated });
        proof {
            lemma_concat_step(m.elements@, i as int);
            assert(entries@[i as int]@ == views[i as int]);
            assert(entry_views(entries@) =~= views.take(i + 1));
        }
        i = i + 1;
    }
    assert(m.elements@.take(i as int) == m.elements@);
    assert(views.take(i as int) == views);
    let mut unknown_name = String::new();
    append_str(&mut unknown_name, "Unknown");
    assert(unknown_name@ =~= "Unknown"@);
    write_elem(&mut out, "/// An unknown element.", unknown_name.as_str(), &m.unknown, false, Storage::Borrowed);
    write_elem(&mut out, "/// An unknown element.", unknown_name.as_str(), &m.unknown, false, Storage::Owned);
    entries.push(ElementEntry { name: unknown_name, deprecated: false });
    assert(entry_views(entries@) =~= union_entries(*m));
    write_elem_enum(&mut out, &entries, &m.global, Storage::Borrowed);
    write_elem_enum(&mut out, &entries, &m.global, Storage::Owned);
    out
}

/// A whole run on scraped inputs: the model, then its declarations. Fails on
/// exactly the inputs that cannot be modelled.
pub fn generate(global_dl: &Option<Vec<DlTerm>>, pages: &Vec<ElementPage>) -> (r: Result<String, GenError>)
    ensures
        r is Ok <==> inputs_ok(*global_dl, pages@),
        r is Err ==> r->Err_0 == input_error(*global_dl, pages@),
        r is Ok ==> exists|m: Model| m.describes(*global_dl, pages@) && r->Ok_0@ == module_body(m),
{
    match build_model(global_dl, pages) {
        Ok(m) => {
            let text = render(&m);
            assert(m.describes(*global_dl, pages@) && text@ == module_body(m));
            Ok(text)
        },
        Err(e) => Err(e),
    }
}

/// Every attribute set of the model of a run holds its fields in strictly
/// increasing name order, the order in which they are emitted.
pub proof fn law_fields_in_name_order(
    global_dl: Option<Vec<DlTerm>>,
    pages: Seq<ElementPage>,
    m: Model,
    i: int,
)
    requires
        m.describes(global_dl, pages),
        0 <= i < pages.len(),
    ensures
        strictly_sorted(m.elements@[i].attrs.entries@),
        strictly_sorted(m.global.entries@),
        strictly_sorted(m.unknown.entries@),
{
    assert(describes_element(m.elements@[i], pages[i], m.global@));
}

proof fn lemma_same_attrs_same_text(s1: Seq<AttributeSpec>, s2: Seq<AttributeSpec>, es: Seq<(Seq<char>, bool)>)
    requires
        same_views(s1, s2),
    ensures
        concat_map(s1, field_fn(Storage::Borrowed)) == concat_map(s2, field_fn(Storage::Borrowed)),
        concat_map(s1, field_fn(Storage::Owned)) == concat_map(s2, field_fn(Storage::Owned)),
        concat_map(s1, getter_fn(es, Storage::Borrowed)) == concat_map(s2, getter_fn(es, Storage::Borrowed)),
        concat_map(s1, getter_fn(es, Storage::Owned)) == concat_map(s2, getter_fn(es, Storage::Owned)),
        concat_map(s1, setter_fn(es, Storage::Borrowed)) == concat_map(s2, setter_fn(es, Storage::Borrowed)),
        concat_map(s1, setter_fn(es, Storage::Owned)) == concat_map(s2, setter_fn(es, Storage::Owned)),
{
    assert forall|i: int| 0 <= i < s1.len() implies #[trigger] s1[i].name@ == s2[i].name@
        && s1[i].description@ == s2[i].description@ && s1[i].kind == s2[i].kind
        && s1[i].requires_allocation == s2[i].requires_allocation by {
        assert(s1[i].info() == s2[i].info());
    }
    lemma_concat_map_pointwise(s1, s2, field_fn(Storage::Borrowed), field_fn(Storage::Borrowed));
    lemma_concat_map_pointwise(s1, s2, field_fn(Storage::Owned), field_fn(Storage::Owned));
    lemma_concat_map_pointwise(s1, s2, getter_fn(es, Storage::Borrowed), getter_fn(es, Storage::Borrowed));
    lemma_concat_map_pointwise(s1, s2, getter_fn(es, Storage::Owned), getter_fn(es, Storage::Owned));
    lemma_concat_map_pointwise(s1, s2, setter_fn(es, Storage::Borrowed), setter_fn(es, Storage::Borrowed));
    lemma_concat_map_pointwise(s1, s2, setter_fn(es, Storage::Owned), setter_fn(es, Storage::Owned));
}

/// Runs on the same inputs give the same text: whatever model of them is
/// taken, field order and all else that is emitted agree.
pub proof fn law_same_inputs_same_text(
    global_dl: Option<Vec<DlTerm>>,
    pages: Seq<ElementPage>,
    m1: Model,
    m2: Model,
)
    requires
        m1.describes(global_dl, pages),
        m2.describes(global_dl, pages),
    ensures
        module_body(m1) == module_body(m2),
{
    let e1 = m1.elements@;
    let e2 = m2.elements@;
    assert forall|i: int| 0 <= i < e1.len() implies element_decls_fn()(#[trigger] e1[i])
        == element_decls_fn()(e2[i]) by {
        assert(describes_element(e1[i], pages[i], m1.global@));
        assert(describes_element(e2[i], pages[i], m2.global@));
        lemma_sorted_unique(e1[i].attrs.entries@, e2[i].attrs.entries@);
        lemma_same_attrs_same_text(e1[i].attrs.entries@, e2[i].attrs.entries@, seq![]);
    }
    lemma_concat_map_pointwise(e1, e2, element_decls_fn(), element_decls_fn());
    assert forall|i: int| 0 <= i < e1.len() implies #[trigger] model_views(e1)[i]
        == model_views(e2)[i] by {
        assert(describes_element(e1[i], pages[i], m1.global@));
        assert(describes_element(e2[i], pages[i], m2.global@));
    }
    assert(model_views(e1) =~= model_views(e2));
    let es = union_entries(m1);
    assert(union_entries(m2) == es);
    lemma_sorted_unique(m1.global.entries@, m2.global.entries@);
    lemma_same_attrs_same_text(m1.global.entries@, m2.global.entries@, es);
    lemma_sorted_unique(m1.unknown.entries@, m2.unknown.entries@);
    lemma_same_attrs_same_text(m1.unknown.entries@, m2.unknown.entries@, es);
}

/// In the declaration of an element, the field of an attribute that the
/// element's own page defines is documented, typed and flagged as the page
/// says, whatever the global set held under the same name.
pub proof fn law_element_entry_in_field(
    global_dl: Option<Vec<DlTerm>>,
    pages: Seq<ElementPage>,
    m: Model,
    i: int,
    k: Seq<char>,
    st: Storage,
)
    requires
        m.describes(global_dl, pages),
        0 <= i < pages.len(),
        own_map(pages[i]).contains_key(k),
    ensures
        exists|j: int|
            0 <= j < m.elements@[i].attrs.entries@.len() && (#[trigger] m.elements@[i].attrs.entries@[j]).name@
                == k && field_text(m.elements@[i].attrs.entries@[j], st) == "/// "@ + own_map(
                pages[i],
            )[k].description + "\n"@ + cfg_if(own_map(pages[i])[k].requires_allocation)
                + "pub "@ + k + ": core::option::Option<"@ + type_spec(own_map(pages[i])[k].kind, st)
                + ">,\n"@,
{
    let e = m.elements@[i];
    assert(describes_element(e, pages[i], m.global@));
    let s = e.attrs.entries@;
    assert(info_map(s).contains_key(k));
    assert(has_name(s, k));
    let j = choose|j: int| 0 <= j < s.len() && #[trigger] s[j].name@ == k;
    lemma_info_map_at(s, j);
    assert(s[j].info() == own_map(pages[i])[k]);
}

} // verus!
