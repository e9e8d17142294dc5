//! Attributes: their classification and name-ordered attribute sets.
use vstd::prelude::*;
use crate::naming::{snake_of, to_snake_name};
use crate::text::{chars_of, str_eq};

verus! {

/// What kind of value an attribute holds.
#[derive(Clone, Copy, Debug, PartialEq, Eq, Structural)]
pub enum SemanticType {
    /// A boolean flag.
    Flag,
    /// Free text.
    Text,
    /// A mapping from strings to strings.
    Mapping,
}

/// The ASCII capital of a lowercase letter; any other character is kept.
pub open spec fn ascii_upper(c: char) -> char {
    match c {
        'a' => 'A',
        'b' => 'B',
        'c' => 'C',
        'd' => 'D',
        'e' => 'E',
        'f' => 'F',
        'g' => 'G',
        'h' => 'H',
        'i' => 'I',
        'j' => 'J',
        'k' => 'K',
        'l' => 'L',
        'm' => 'M',
        'n' => 'N',
        'o' => 'O',
        'p' => 'P',
        'q' => 'Q',
        'r' => 'R',
        's' => 'S',
        't' => 'T',
        'u' => 'U',
        'v' => 'V',
        'w' => 'W',
        'x' => 'X',
        'y' => 'Y',
        'z' => 'Z',
        _ => c,
    }
}

/// The ASCII capital of a lowercase letter; any other character is kept.
fn upper_of(c: char) -> (r: char)
    ensures
        r == ascii_upper(c),
{
    match c {
        'a' => 'A',
        'b' => 'B',
        'c' => 'C',
        'd' => 'D',
        'e' => 'E',
        'f' => 'F',
        'g' => 'G',
        'h' => 'H',
        'i' => 'I',
        'j' => 'J',
        'k' => 'K',
        'l' => 'L',
        'm' => 'M',
        'n' => 'N',
        'o' => 'O',
        'p' => 'P',
        'q' => 'Q',
        'r' => 'R',
        's' => 'S',
        't' => 'T',
        'u' => 'U',
        'v' => 'V',
        'w' => 'W',
        'x' => 'X',
        'y' => 'Y',
        'z' => 'Z',
        _ => c,
    }
}

/// Whether `a` spells the lowercase name `b`, each letter in either ASCII case.
pub open spec fn same_ignoring_case(a: Seq<char>, b: Seq<char>) -> bool {
    &&& a.len() == b.len()
    &&& forall|i: int|
        0 <= i < a.len() ==> #[trigger] a[i] == b[i] || a[i] == ascii_upper(b[i])
}

/// Whether an attribute label is, ignoring ASCII case, one of the boolean flags.
pub open spec fn is_flag_name(s: Seq<char>) -> bool {
    same_ignoring_case(s, "autofocus"@) || same_ignoring_case(s, "checked"@)
        || same_ignoring_case(s, "disabled"@) || same_ignoring_case(s, "multiple"@)
        || same_ignoring_case(s, "readonly"@) || same_ignoring_case(s, "required"@)
        || same_ignoring_case(s, "selected"@) || same_ignoring_case(s, "novalidate"@)
        || same_ignoring_case(s, "formnovalidate"@) || same_ignoring_case(s, "hidden"@)
}

/// The semantic type of an attribute with the given label: a mapping where its
/// snake-case name is `data`, a flag where the label is a flag name in any
/// ASCII case, text otherwise.
pub open spec fn kind_of(label: Seq<char>) -> SemanticType {
    if snake_of(label) == "data"@ {
        SemanticType::Mapping
    } else if is_flag_name(label) {
        SemanticType::Flag
    } else {
        SemanticType::Text
    }
}

/// Only mappings need dynamic allocation.
pub open spec fn allocates(label: Seq<char>) -> bool {
    snake_of(label) == "data"@
}

/// Whether `a` matches the lowercase name `b` ignoring the ASCII case of `a`.
pub fn matches_ignoring_case(a: &str, b: &str) -> (r: bool)
    ensures
        r == same_ignoring_case(a@, b@),
{
    let x = chars_of(a);
    let y = chars_of(b);
    if x.len() != y.len() {
        return false;
    }
    let mut i: usize = 0;
    while i < x.len()
        invariant
            x@ == a@,
            y@ == b@,
            x.len() == y.len(),
            i <= x.len(),
            forall|j: int|
                0 <= j < i ==> #[trigger] x@[j] == y@[j] || x@[j] == ascii_upper(y@[j]),
        decreases x.len() - i,
    {
        let c = x[i];
        let d = y[i];
        if c != d && c != upper_of(d) {
            return false;
        }
        i = i + 1;
    }
    true
}

/// Whether `label` is, ignoring ASCII case, one of the boolean-flag attribute names.
pub fn is_flag_attribute(label: &str) -> (r: bool)
    ensures
        r == is_flag_name(label@),
{
    matches_ignoring_case(label, "autofocus") || matches_ignoring_case(label, "checked")
        || matches_ignoring_case(label, "disabled") || matches_ignoring_case(label, "multiple")
        || matches_ignoring_case(label, "readonly") || matches_ignoring_case(label, "required")
        || matches_ignoring_case(label, "selected") || matches_ignoring_case(label, "novalidate")
        || matches_ignoring_case(label, "formnovalidate") || matches_ignoring_case(label, "hidden")
}

/// Classifies an attribute by its label: its semantic type and whether it
/// needs dynamic allocation.
pub fn classify(label: &str) -> (r: (SemanticType, bool))
    ensures
        r.0 == kind_of(label@),
        r.1 == allocates(label@),
{
    let snake = to_snake_name(label);
    if str_eq(snake.as_str(), "data") {
        (SemanticType::Mapping, true)
    } else if is_flag_attribute(label) {
        (SemanticType::Flag, false)
    } else {
        (SemanticType::Text, false)
    }
}

/// What an attribute set records for one attribute name.
pub struct AttrInfo {
    pub description: Seq<char>,
    pub kind: SemanticType,
    pub requires_allocation: bool,
}

/// One attribute: its field name, documentation comment, type and allocation need.
#[derive(Debug)]
pub struct AttributeSpec {
    pub name: String,
    pub description: String,
    pub kind: SemanticType,
    pub requires_allocation: bool,
}

impl AttributeSpec {
    pub open spec fn info(&self) -> AttrInfo {
        AttrInfo {
            description: self.description@,
            kind: self.kind,
            requires_allocation: self.requires_allocation,
        }
    }

    /// A copy of this attribute.
    pub fn duplicate(&self) -> (r: AttributeSpec)
        ensures
            r == *self,
    {
        AttributeSpec {
            name: self.name.clone(),
            description: self.description.clone(),
            kind: self.kind,
            requires_allocation: self.requires_allocation,
        }
    }
}

/// Strict lexicographic order of names by code point, the order of `str`'s `Ord`.
pub open spec fn name_lt(a: Seq<char>, b: Seq<char>) -> bool
    decreases a.len(),
{
    if a.len() == 0 {
        b.len() > 0
    } else if b.len() == 0 {
        false
    } else if a[0] != b[0] {
        (a[0] as int) < (b[0] as int)
    } else {
        name_lt(a.drop_first(), b.drop_first())
    }
}

proof fn lemma_name_lt_irreflexive(a: Seq<char>)
    ensures
        !name_lt(a, a),
    decreases a.len(),
{
    if a.len() > 0 {
        lemma_name_lt_irreflexive(a.drop_first());
    }
}

proof fn lemma_name_lt_total(a: Seq<char>, b: Seq<char>)
    ensures
        a != b ==> name_lt(a, b) || name_lt(b, a),
        !(name_lt(a, b) && name_lt(b, a)),
    decreases a.len(),
{
    if a.len() > 0 && b.len() > 0 {
        if a[0] == b[0] {
            lemma_name_lt_total(a.drop_first(), b.drop_first());
            if a != b {
                assert(a == seq![a[0]] + a.drop_first());
                assert(b == seq![b[0]] + b.drop_first());
            }
        } else {
            let x = a[0];
            let y = b[0];
            assert((x as int) != (y as int));
        }
    } else if a.len() == 0 && b.len() == 0 {
        assert(a == b);
    }
}

proof fn lemma_name_lt_transitive(a: Seq<char>, b: Seq<char>, c: Seq<char>)
    requires
        name_lt(a, b),
        name_lt(b, c),
    ensures
        name_lt(a, c),
    decreases a.len(),
{
    if a.len() > 0 && b.len() > 0 && c.len() > 0 {
        if a[0] == b[0] && b[0] == c[0] {
            lemma_name_lt_transitive(a.drop_first(), b.drop_first(), c.drop_first());
        }
    }
}

/// Compares two names in the order of `name_lt`.
pub fn name_less(a: &str, b: &str) -> (r: bool)
    ensures
        r == name_lt(a@, b@),
{
    let x = chars_of(a);
    let y = chars_of(b);
    let mut i: usize = 0;
    assert(x@.skip(0) == x@);
    assert(y@.skip(0) == y@);
    while i < x.len() && i < y.len()
        invariant
            x@ == a@,
            y@ == b@,
            i <= x.len(),
            i <= y.len(),
            name_lt(x@, y@) == name_lt(x@.skip(i as int), y@.skip(i as int)),
        decreases x.len() - i,
    {
        if x[i] != y[i] {
            return x[i] < y[i];
        }
        assert(x@.skip(i as int).drop_first() == x@.skip(i + 1));
        assert(y@.skip(i as int).drop_first() == y@.skip(i + 1));
        i = i + 1;
    }
    i < y.len()
}

/// Names strictly increasing.
pub open spec fn strictly_sorted(s: Seq<AttributeSpec>) -> bool {
    forall|i: int, j: int| 0 <= i < j < s.len() ==> name_lt(#[trigger] s[i].name@, #[trigger] s[j].name@)
}

/// Whether some attribute of `s` has the name `k`.
pub open spec fn has_name(s: Seq<AttributeSpec>, k: Seq<char>) -> bool {
    exists|i: int| 0 <= i < s.len() && #[trigger] s[i].name@ == k
}

/// The map from name to attribute information of a name-unique sequence.
pub open spec fn info_map(s: Seq<AttributeSpec>) -> Map<Seq<char>, AttrInfo> {
    Map::new(
        |k: Seq<char>| has_name(s, k),
        |k: Seq<char>| s[choose|i: int| 0 <= i < s.len() && #[trigger] s[i].name@ == k].info(),
    )
}

/// The map of a list of attributes in which a later entry replaces an earlier
/// one of the same name.
pub open spec fn list_map(s: Seq<AttributeSpec>) -> Map<Seq<char>, AttrInfo>
    decreases s.len(),
{
    if s.len() == 0 {
        Map::empty()
    } else {
        list_map(s.drop_last()).insert(s.last().name@, s.last().info())
    }
}

pub proof fn lemma_info_map_at(s: Seq<AttributeSpec>, i: int)
    requires
        strictly_sorted(s),
        0 <= i < s.len(),
    ensures
        info_map(s).contains_key(s[i].name@),
        info_map(s)[s[i].name@] == s[i].info(),
{
    let k = s[i].name@;
    assert(has_name(s, k));
    let j = choose|j: int| 0 <= j < s.len() && #[trigger] s[j].name@ == k;
    lemma_name_lt_irreflexive(k);
    if j < i {
        assert(name_lt(s[j].name@, s[i].name@));
    } else if i < j {
        assert(name_lt(s[i].name@, s[j].name@));
    }
    assert(j == i);
}

/// Whether two attribute sequences agree, position by position, on name and information.
pub open spec fn same_views(s1: Seq<AttributeSpec>, s2: Seq<AttributeSpec>) -> bool {
    &&& s1.len() == s2.len()
    &&& forall|i: int|
        0 <= i < s1.len() ==> (#[trigger] s1[i]).name@ == s2[i].name@ && s1[i].info() == s2[i].info()
}

proof fn lemma_info_map_tail(s: Seq<AttributeSpec>)
    requires
        strictly_sorted(s),
        s.len() > 0,
    ensures
        strictly_sorted(s.drop_first()),
        info_map(s.drop_first()) == info_map(s).remove(s[0].name@),
{
    let t = s.drop_first();
    let k0 = s[0].name@;
    assert forall|i: int, j: int| 0 <= i < j < t.len() implies name_lt(
        #[trigger] t[i].name@,
        #[trigger] t[j].name@,
    ) by {
        assert(name_lt(s[i + 1].name@, s[j + 1].name@));
    }
    let m = info_map(s).remove(k0);
    assert forall|k: Seq<char>| #[trigger] m.contains_key(k) <==> info_map(t).contains_key(k) by {
        if has_name(t, k) {
            let j = choose|j: int| 0 <= j < t.len() && #[trigger] t[j].name@ == k;
            assert(s[j + 1].name@ == k);
            assert(has_name(s, k));
            assert(name_lt(s[0].name@, s[j + 1].name@));
            lemma_name_lt_irreflexive(k);
        }
        if has_name(s, k) && k != k0 {
            let j = choose|j: int| 0 <= j < s.len() && #[trigger] s[j].name@ == k;
            assert(j != 0);
            assert(t[j - 1].name@ == k);
            assert(has_name(t, k));
        }
    }
    assert forall|k: Seq<char>| #[trigger] m.contains_key(k) implies m[k] == info_map(t)[k] by {
        assert(has_name(t, k));
        let j = choose|j: int| 0 <= j < t.len() && #[trigger] t[j].name@ == k;
        lemma_info_map_at(t, j);
        lemma_info_map_at(s, j + 1);
    }
    assert(info_map(t) =~= m);
}

/// Two name-sorted sequences with the same attributes agree position by position.
pub proof fn lemma_sorted_unique(s1: Seq<AttributeSpec>, s2: Seq<AttributeSpec>)
    requires
        strictly_sorted(s1),
        strictly_sorted(s2),
        info_map(s1) == info_map(s2),
    ensures
        same_views(s1, s2),
    decreases s1.len(),
{
    if s1.len() == 0 || s2.len() == 0 {
        if s1.len() > 0 {
            assert(has_name(s1, s1[0].name@));
            assert(info_map(s1).contains_key(s1[0].name@));
        }
        if s2.len() > 0 {
            assert(has_name(s2, s2[0].name@));
            assert(info_map(s2).contains_key(s2[0].name@));
        }
    } else {
        let k1 = s1[0].name@;
        let k2 = s2[0].name@;
        assert(has_name(s1, k1));
        assert(info_map(s2).contains_key(k1));
        assert(has_name(s2, k2));
        assert(info_map(s1).contains_key(k2));
        let j = choose|j: int| 0 <= j < s2.len() && #[trigger] s2[j].name@ == k1;
        let jj = choose|j: int| 0 <= j < s1.len() && #[trigger] s1[j].name@ == k2;
        if j > 0 && jj > 0 {
            assert(name_lt(s2[0].name@, s2[j].name@));
            assert(name_lt(s1[0].name@, s1[jj].name@));
            lemma_name_lt_total(k1, k2);
        }
        assert(k1 == k2);
        lemma_info_map_at(s1, 0);
        lemma_info_map_at(s2, 0);
        lemma_info_map_tail(s1);
        lemma_info_map_tail(s2);
        lemma_sorted_unique(s1.drop_first(), s2.drop_first());
        assert forall|i: int| 0 <= i < s1.len() implies (#[trigger] s1[i]).name@ == s2[i].name@
            && s1[i].info() == s2[i].info() by {
            if i > 0 {
                assert(s1[i] == s1.drop_first()[i - 1]);
                assert(s2[i] == s2.drop_first()[i - 1]);
            }
        }
    }
}

/// Attributes keyed by name, kept in increasing name order.
#[derive(Debug)]
pub struct AttrSet {
    pub entries: Vec<AttributeSpec>,
}

impl AttrSet {
    /// Names unique and in increasing order.
    pub open spec fn wf(&self) -> bool {
        strictly_sorted(self.entries@)
    }

    /// The attributes of the set, by name.
    pub open spec fn view(&self) -> Map<Seq<char>, AttrInfo> {
        info_map(self.entries@)
    }

    /// The empty set.
    pub fn new() -> (r: AttrSet)
        ensures
            r.wf(),
            r.entries@.len() == 0,
            r@ == Map::<Seq<char>, AttrInfo>::empty(),
    {
        let r = AttrSet { entries: Vec::new() };
        assert(r@ =~= Map::<Seq<char>, AttrInfo>::empty());
        r
    }

    /// The number of attributes.
    pub fn len(&self) -> (r: usize)
        ensures
            r == self.entries@.len(),
    {
        self.entries.len()
    }

    /// A copy of the set.
    pub fn duplicate(&self) -> (r: AttrSet)
        ensures
            r.entries@ == self.entries@,
    {
        let mut v: Vec<AttributeSpec> = Vec::new();
        let mut i: usize = 0;
        while i < self.entries.len()
            invariant
                i <= self.entries.len(),
                v@ == self.entries@.take(i as int),
            decreases self.entries.len() - i,
        {
            v.push(self.entries[i].duplicate());
            assert(self.entries@.take(i + 1) == self.entries@.take(i as int).push(self.entries@[i as int]));
            i = i + 1;
        }
        assert(self.entries@.take(i as int) == self.entries@);
        AttrSet { entries: v }
    }

    /// Inserts an attribute, replacing one of the same name; name order is kept.
    pub fn insert(&mut self, a: AttributeSpec)
        requires
            old(self).wf(),
        ensures
            final(self).wf(),
            final(self)@ == old(self)@.insert(a.name@, a.info()),
    {
        let ghost s = self.entries@;
        let ghost k = a.name@;
        let n = self.entries.len();
        let mut p: usize = 0;
        while p < n
            invariant
                self.entries@ == s,
                a.name@ == k,
                n == s.len(),
                p <= n,
                forall|i: int| 0 <= i < p ==> name_lt(#[trigger] s[i].name@, k),
            ensures
                p <= n,
                p < n ==> !name_lt(s[p as int].name@, k),
                forall|i: int| 0 <= i < p ==> name_lt(#[trigger] s[i].name@, k),
            decreases n - p,
        {
            if !name_less(self.entries[p].name.as_str(), a.name.as_str()) {
                break;
            }
            p = p + 1;
        }
        if p < n && str_eq(self.entries[p].name.as_str(), a.name.as_str()) {
            self.entries.set(p, a);
            proof {
                let t = self.entries@;
                assert(t == s.update(p as int, a));
                assert forall|i: int, j: int| 0 <= i < j < t.len() implies name_lt(
                    #[trigger] t[i].name@,
                    #[trigger] t[j].name@,
                ) by {
                    assert(name_lt(s[i].name@, s[j].name@));
                }
                self.lemma_update_view(s, p as int, a);
            }
        } else {
            self.entries.insert(p, a);
            proof {
                let t = self.entries@;
                assert(t == s.insert(p as int, a));
                if p < n {
                    lemma_name_lt_total(s[p as int].name@, k);
                }
                assert forall|i: int, j: int| 0 <= i < j < t.len() implies name_lt(
                    #[trigger] t[i].name@,
                    #[trigger] t[j].name@,
                ) by {
                    if j < p {
                        assert(name_lt(s[i].name@, s[j].name@));
                    } else if j == p {
                        assert(name_lt(s[i].name@, k));
                    } else if i == p {
                        if j - 1 > p {
                            assert(name_lt(s[p as int].name@, s[j - 1].name@));
                            lemma_name_lt_transitive(k, s[p as int].name@, s[j - 1].name@);
                        }
                    } else if i < p {
                        assert(name_lt(s[i].name@, s[j - 1].name@));
                    } else {
                        assert(name_lt(s[i - 1].name@, s[j - 1].name@));
                    }
                }
                self.lemma_insert_view(s, p as int, a);
            }
        }
    }

    proof fn lemma_update_view(&self, s: Seq<AttributeSpec>, p: int, a: AttributeSpec)
        requires
            strictly_sorted(s),
            strictly_sorted(self.entries@),
            0 <= p < s.len(),
            s[p].name@ == a.name@,
            self.entries@ == s.update(p, a),
        ensures
            self@ == info_map(s).insert(a.name@, a.info()),
    {
        let t = self.entries@;
        let m = info_map(s).insert(a.name@, a.info());
        assert forall|k: Seq<char>| #[trigger] m.contains_key(k) <==> info_map(t).contains_key(k) by {
            if k == a.name@ {
                assert(t[p].name@ == k);
                assert(has_name(t, k));
                assert(has_name(s, k)) by { assert(s[p].name@ == k); }
            } else {
                if has_name(s, k) {
                    let i = choose|i: int| 0 <= i < s.len() && #[trigger] s[i].name@ == k;
                    assert(t[i].name@ == k);
                    assert(has_name(t, k));
                }
                if has_name(t, k) {
                    let i = choose|i: int| 0 <= i < t.len() && #[trigger] t[i].name@ == k;
                    assert(s[i].name@ == k);
                    assert(has_name(s, k));
                }
            }
        }
        assert forall|k: Seq<char>| #[trigger] m.contains_key(k) implies m[k] == info_map(t)[k] by {
            assert(has_name(t, k));
            let i = choose|i: int| 0 <= i < t.len() && #[trigger] t[i].name@ == k;
            lemma_info_map_at(t, i);
            if i != p {
                lemma_name_lt_irreflexive(k);
                if i < p {
                    assert(name_lt(t[i].name@, t[p].name@));
                } else {
                    assert(name_lt(t[p].name@, t[i].name@));
                }
                lemma_info_map_at(s, i);
            }
        }
        assert(self@ =~= m);
    }

    proof fn lemma_insert_view(&self, s: Seq<AttributeSpec>, p: int, a: AttributeSpec)
        requires
            strictly_sorted(s),
            strictly_sorted(self.entries@),
            0 <= p <= s.len(),
            self.entries@ == s.insert(p, a),
        ensures
            self@ == info_map(s).insert(a.name@, a.info()),
    {
        let t = self.entries@;
        let m = info_map(s).insert(a.name@, a.info());
        assert forall|k: Seq<char>| #[trigger] m.contains_key(k) <==> info_map(t).contains_key(k) by {
            if k == a.name@ {
                assert(t[p].name@ == k);
                assert(has_name(t, k));
            } else {
                if has_name(s, k) {
                    let i = choose|i: int| 0 <= i < s.len() && #[trigger] s[i].name@ == k;
                    if i < p {
                        assert(t[i].name@ == k);
                    } else {
                        assert(t[i + 1].name@ == k);
                    }
                    assert(has_name(t, k));
                }
                if has_name(t, k) {
                    let i = choose|i: int| 0 <= i < t.len() && #[trigger] t[i].name@ == k;
                    if i < p {
                        assert(s[i].name@ == k);
                    } else {
                        assert(s[i - 1].name@ == k);
                    }
                    assert(has_name(s, k));
                }
            }
        }
        assert forall|k: Seq<char>| #[trigger] m.contains_key(k) implies m[k] == info_map(t)[k] by {
            assert(has_name(t, k));
            let i = choose|i: int| 0 <= i < t.len() && #[trigger] t[i].name@ == k;
            lemma_info_map_at(t, i);
            if i != p {
                lemma_name_lt_irreflexive(k);
                if i < p {
                    assert(name_lt(t[i].name@, t[p].name@));
                } else {
                    assert(name_lt(t[p].name@, t[i].name@));
                }
            }
            if i < p {
                lemma_info_map_at(s, i);
            } else if i > p {
                lemma_info_map_at(s, i - 1);
            }
        }
        assert(self@ =~= m);
    }

    /// This set with each attribute of `list` inserted in turn: a later one
    /// replaces an earlier one or one of the set with the same name.
    pub fn overlay(&self, list: &Vec<AttributeSpec>) -> (r: AttrSet)
        requires
            self.wf(),
        ensures
            r.wf(),
            r@ == self@.union_prefer_right(list_map(list@)),
    {
        let mut r = self.duplicate();
        let mut i: usize = 0;
        assert(list@.take(0) == Seq::<AttributeSpec>::empty());
        assert(self@.union_prefer_right(list_map(list@.take(0))) =~= self@);
        while i < list.len()
            invariant
                i <= list.len(),
                r.wf(),
                r@ == self@.union_prefer_right(list_map(list@.take(i as int))),
            decreases list.len() - i,
        {
            let a = list[i].duplicate();
            r.insert(a);
            proof {
                let t = list@.take(i + 1);
                assert(t.drop_last() == list@.take(i as int));
                assert(r@ =~= self@.union_prefer_right(list_map(t)));
            }
            i = i + 1;
        }
        assert(list@.take(i as int) == list@);
        r
    }

    /// The set of a list of attributes; a later one replaces an earlier one of
    /// the same name.
    pub fn from_list(list: &Vec<AttributeSpec>) -> (r: AttrSet)
        ensures
            r.wf(),
            r@ == list_map(list@),
    {
        let e = AttrSet::new();
        let r = e.overlay(list);
        assert(r@ =~= list_map(list@));
        r
    }
}

} // verus!
