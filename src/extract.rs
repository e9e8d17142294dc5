//! Attributes read from definition lists, and the global attribute set.
use vstd::prelude::*;
use crate::attrs::{
    allocates, classify, kind_of, list_map, AttrInfo, AttrSet, AttributeSpec, SemanticType,
};
use crate::doc::{comment_body, to_comment_body};
use crate::naming::{is_reserved, marked, mark_reserved, snake_of, to_snake_name};
use crate::text::append_str;

verus! {

/// One term of a definition list: the first text of the term, and the inner
/// markup of the element that follows it, where these exist.
#[derive(Debug)]
pub struct DlTerm {
    pub term_text: Option<String>,
    pub description_html: Option<String>,
}

/// Why a generation run fails.
#[derive(Clone, Copy, Debug, PartialEq, Eq, Structural)]
pub enum GenError {
    /// A node that the page structure requires was not found.
    Parse,
    /// A term lacks its text or its description, or a name is malformed.
    Extraction,
}

/// Whether a term has both its text and its description.
pub open spec fn term_complete(t: DlTerm) -> bool {
    t.term_text is Some && t.description_html is Some
}

/// Whether every term of the list is complete.
pub open spec fn terms_complete(ts: Seq<DlTerm>) -> bool {
    forall|i: int| 0 <= i < ts.len() ==> term_complete(#[trigger] ts[i])
}

/// The field name of a complete term.
pub open spec fn term_name(t: DlTerm) -> Seq<char> {
    marked(snake_of(t.term_text->0@))
}

/// What an attribute set records of a complete term.
pub open spec fn term_info(t: DlTerm) -> AttrInfo {
    AttrInfo {
        description: comment_body(t.description_html->0@),
        kind: kind_of(t.term_text->0@),
        requires_allocation: allocates(t.term_text->0@),
    }
}

/// The attributes of a list of complete terms; a later one replaces an earlier
/// one of the same name.
pub open spec fn terms_map(ts: Seq<DlTerm>) -> Map<Seq<char>, AttrInfo>
    decreases ts.len(),
{
    if ts.len() == 0 {
        Map::empty()
    } else {
        terms_map(ts.drop_last()).insert(term_name(ts.last()), term_info(ts.last()))
    }
}

/// The attribute read from one term; `None` where the term is incomplete.
pub fn attribute_from_term(t: &DlTerm) -> (r: Option<AttributeSpec>)
    ensures
        r is Some <==> term_complete(*t),
        r is Some ==> r->0.name@ == term_name(*t) && r->0.info() == term_info(*t),
{
    match (&t.term_text, &t.description_html) {
        (Some(text), Some(html)) => {
            let snake = to_snake_name(text.as_str());
            let (kind, alloc) = classify(text.as_str());
            let description = to_comment_body(html.as_str());
            let name = mark_reserved(snake);
            Some(AttributeSpec { name, description, kind, requires_allocation: alloc })
        },
        _ => None,
    }
}

proof fn lemma_list_map_of_terms(ts: Seq<DlTerm>, v: Seq<AttributeSpec>)
    requires
        ts.len() == v.len(),
        forall|i: int|
            0 <= i < ts.len() ==> (#[trigger] v[i]).name@ == term_name(ts[i]) && v[i].info()
                == term_info(ts[i]),
    ensures
        list_map(v) == terms_map(ts),
    decreases ts.len(),
{
    if ts.len() > 0 {
        lemma_list_map_of_terms(ts.drop_last(), v.drop_last());
    }
}

/// The attributes of a definition list, in document order; fails where a term
/// lacks its text or its description.
pub fn dl_to_attrs(terms: &Vec<DlTerm>) -> (r: Result<Vec<AttributeSpec>, GenError>)
    ensures
        r is Ok <==> terms_complete(terms@),
        r is Err ==> r->Err_0 == GenError::Extraction,
        r is Ok ==> r->Ok_0@.len() == terms@.len() && list_map(r->Ok_0@) == terms_map(terms@),
        r is Ok ==> forall|i: int|
            0 <= i < terms@.len() ==> (#[trigger] r->Ok_0@[i]).name@ == term_name(terms@[i])
                && r->Ok_0@[i].info() == term_info(terms@[i]),
{
    let mut out: Vec<AttributeSpec> = Vec::new();
    let mut i: usize = 0;
    while i < terms.len()
        invariant
            i <= terms.len(),
            out@.len() == i,
            forall|j: int| 0 <= j < i ==> term_complete(#[trigger] terms@[j]),
            forall|j: int|
                0 <= j < i ==> (#[trigger] out@[j]).name@ == term_name(terms@[j]) && out@[j].info()
                    == term_info(terms@[j]),
        decreases terms.len() - i,
    {
        match attribute_from_term(&terms[i]) {
            Some(a) => out.push(a),
            None => return Err(GenError::Extraction),
        }
        i = i + 1;
    }
    proof {
        lemma_list_map_of_terms(terms@, out@);
    }
    Ok(out)
}

/// Documentation of the open attribute map.
pub open spec fn extra_doc() -> Seq<char> {
    "Extra attributes of the element. This is a map of attribute names to their values, and the attribute names are in lowercase."@
}

/// The synthetic attribute that holds attributes not modelled otherwise.
pub fn extra_attribute() -> (r: AttributeSpec)
    ensures
        r.name@ == "extra"@,
        r.info() == (AttrInfo { description: extra_doc(), kind: SemanticType::Mapping, requires_allocation: true }),
{
    let mut name = String::new();
    append_str(&mut name, "extra");
    let mut description = String::new();
    append_str(
        &mut description,
        "Extra attributes of the element. This is a map of attribute names to their values, and the attribute names are in lowercase.",
    );
    AttributeSpec { name, description, kind: SemanticType::Mapping, requires_allocation: true }
}

/// The global attribute set of the shared-attributes page: the attributes of
/// its first definition list, then the open `extra` map. Fails with `Parse`
/// where the page has no definition list.
pub fn global_attributes(dl: &Option<Vec<DlTerm>>) -> (r: Result<AttrSet, GenError>)
    ensures
        dl is None ==> r == Err::<AttrSet, GenError>(GenError::Parse),
        dl is Some ==> (r is Ok <==> terms_complete(dl->0@)),
        dl is Some && r is Err ==> r->Err_0 == GenError::Extraction,
        r is Ok ==> r->Ok_0.wf() && r->Ok_0@ == terms_map(dl->0@).insert(
            "extra"@,
            AttrInfo { description: extra_doc(), kind: SemanticType::Mapping, requires_allocation: true },
        ),
{
    match dl {
        None => Err(GenError::Parse),
        Some(terms) => {
            match dl_to_attrs(terms) {
                Err(e) => Err(e),
                Ok(list) => {
                    let mut set = AttrSet::from_list(&list);
                    set.insert(extra_attribute());
                    Ok(set)
                },
            }
        },
    }
}

/// The attribute set of one element: the global set overlaid with the
/// attributes of the element's own definition list (none where it has none);
/// an element attribute replaces a global one of the same name.
pub fn element_attributes(global: &AttrSet, dl: &Option<Vec<DlTerm>>) -> (r: Result<AttrSet, GenError>)
    requires
        global.wf(),
    ensures
        dl is None ==> r is Ok && r->Ok_0.entries@ == global.entries@,
        dl is Some ==> (r is Ok <==> terms_complete(dl->0@)),
        r is Err ==> r->Err_0 == GenError::Extraction,
        r is Ok ==> r->Ok_0.wf(),
        r is Ok && dl is Some ==> r->Ok_0@ == global@.union_prefer_right(terms_map(dl->0@)),
{
    match dl {
        None => Ok(global.duplicate()),
        Some(terms) => {
            match dl_to_attrs(terms) {
                Err(e) => Err(e),
                Ok(list) => Ok(global.overlay(&list)),
            }
        },
    }
}

/// Overlaying element attributes on a global set keeps every name of either,
/// and a name that the element defines takes the element's entry, whatever the
/// global set held for it.
pub proof fn law_element_overrides_global(
    global: Map<Seq<char>, AttrInfo>,
    own: Map<Seq<char>, AttrInfo>,
    k: Seq<char>,
)
    ensures
        global.union_prefer_right(own).contains_key(k) <==> global.contains_key(k)
            || own.contains_key(k),
        own.contains_key(k) ==> global.union_prefer_right(own)[k] == own[k],
        !own.contains_key(k) && global.contains_key(k) ==> global.union_prefer_right(own)[k]
            == global[k],
{
}

/// An attribute whose snake-case name is a reserved word takes that name with
/// the marker `_` appended; any other attribute keeps its snake-case name.
pub proof fn law_reserved_names_marked(t: DlTerm)
    requires
        term_complete(t),
    ensures
        is_reserved(snake_of(t.term_text->0@)) ==> term_name(t) == snake_of(t.term_text->0@).push(
            '_',
        ),
        !is_reserved(snake_of(t.term_text->0@)) ==> term_name(t) == snake_of(t.term_text->0@),
{
}

} // verus!
