//! Documentation text: markup line breaks and comment continuation lines.
use vstd::prelude::*;
use crate::text::{append_str, chars_of, push_char};

verus! {

/// The line-break markup `<br>`.
pub open spec fn br_tag() -> Seq<char> {
    seq!['<', 'b', 'r', '>']
}

/// Every `<br>` (left to right, without overlap) replaced by a blank line.
pub open spec fn br_to_breaks(s: Seq<char>) -> Seq<char>
    decreases s.len(),
{
    if s.len() == 0 {
        Seq::empty()
    } else if s.len() >= 4 && s.take(4) == br_tag() {
        seq!['\n', '\n'] + br_to_breaks(s.skip(4))
    } else {
        seq![s[0]] + br_to_breaks(s.skip(1))
    }
}

/// Every newline followed by the comment marker `/// `.
pub open spec fn continue_lines(s: Seq<char>) -> Seq<char>
    decreases s.len(),
{
    if s.len() == 0 {
        Seq::empty()
    } else if s[0] == '\n' {
        seq!['\n', '/', '/', '/', ' '] + continue_lines(s.skip(1))
    } else {
        seq![s[0]] + continue_lines(s.skip(1))
    }
}

/// Markup text made into the body of a documentation comment.
pub open spec fn comment_body(s: Seq<char>) -> Seq<char> {
    continue_lines(br_to_breaks(s))
}

/// Replaces each `<br>` with a blank line.
pub fn replace_breaks(s: &str) -> (r: String)
    ensures
        r@ == br_to_breaks(s@),
{
    let c = chars_of(s);
    let mut out = String::new();
    let mut i: usize = 0;
    assert(c@.skip(0) == c@);
    while i < c.len()
        invariant
            c@ == s@,
            i <= c.len(),
            out@ + br_to_breaks(c@.skip(i as int)) == br_to_breaks(s@),
        decreases c.len() - i,
    {
        let ghost rest = c@.skip(i as int);
        if c.len() - i >= 4 && c[i] == '<' && c[i + 1] == 'b' && c[i + 2] == 'r' && c[i + 3] == '>' {
            assert(rest.take(4) == br_tag());
            assert(rest.skip(4) == c@.skip(i + 4));
            push_char(&mut out, '\n');
            push_char(&mut out, '\n');
            assert(out@ + br_to_breaks(c@.skip(i + 4)) == br_to_breaks(s@));
            i = i + 4;
        } else {
            proof {
                if rest.len() >= 4 && rest.take(4) == br_tag() {
                    assert(rest.take(4)[0] == c@[i as int]);
                    assert(rest.take(4)[1] == c@[i + 1]);
                    assert(rest.take(4)[2] == c@[i + 2]);
                    assert(rest.take(4)[3] == c@[i + 3]);
                }
                assert(rest.skip(1) == c@.skip(i + 1));
            }
            push_char(&mut out, c[i]);
            assert(out@ + br_to_breaks(c@.skip(i + 1)) == br_to_breaks(s@));
            i = i + 1;
        }
    }
    assert(c@.skip(i as int) == Seq::<char>::empty());
    assert(out@ + Seq::<char>::empty() == out@);
    out
}

/// Puts the comment marker after every newline.
pub fn continue_comment(s: &str) -> (r: String)
    ensures
        r@ == continue_lines(s@),
{
    let c = chars_of(s);
    let mut out = String::new();
    let mut i: usize = 0;
    assert(c@.skip(0) == c@);
    while i < c.len()
        invariant
            c@ == s@,
            i <= c.len(),
            out@ + continue_lines(c@.skip(i as int)) == continue_lines(s@),
        decreases c.len() - i,
    {
        let ghost rest = c@.skip(i as int);
        assert(rest.skip(1) == c@.skip(i + 1));
        if c[i] == '\n' {
            push_char(&mut out, '\n');
            push_char(&mut out, '/');
            push_char(&mut out, '/');
            push_char(&mut out, '/');
            push_char(&mut out, ' ');
        } else {
            push_char(&mut out, c[i]);
        }
        assert(out@ + continue_lines(c@.skip(i + 1)) == continue_lines(s@));
        i = i + 1;
    }
    assert(c@.skip(i as int) == Seq::<char>::empty());
    assert(out@ + Seq::<char>::empty() == out@);
    out
}

/// Markup text made into the body of a documentation comment.
pub fn to_comment_body(s: &str) -> (r: String)
    ensures
        r@ == comment_body(s@),
{
    let b = replace_breaks(s);
    continue_comment(b.as_str())
}

/// The parts joined, with `sep` between two neighbours.
pub open spec fn join(parts: Seq<Seq<char>>, sep: Seq<char>) -> Seq<char>
    decreases parts.len(),
{
    if parts.len() == 0 {
        Seq::empty()
    } else if parts.len() == 1 {
        parts[0]
    } else {
        join(parts.drop_last(), sep) + sep + parts.last()
    }
}

/// The views of a list of strings.
pub open spec fn views(v: Seq<String>) -> Seq<Seq<char>> {
    v.map_values(|s: String| s@)
}

/// Joins the parts with `sep` between neighbours.
pub fn join_with(parts: &Vec<String>, sep: &str) -> (r: String)
    ensures
        r@ == join(views(parts@), sep@),
{
    let mut out = String::new();
    let mut i: usize = 0;
    while i < parts.len()
        invariant
            i <= parts.len(),
            out@ == join(views(parts@.take(i as int)), sep@),
        decreases parts.len() - i,
    {
        let ghost before = views(parts@.take(i as int));
        if i > 0 {
            append_str(&mut out, sep);
        }
        append_str(&mut out, parts[i].as_str());
        proof {
            let now = views(parts@.take(i + 1));
            assert(now.drop_last() == before);
            assert(now.last() == parts@[i as int]@);
            if i == 0 {
                assert(out@ == now[0]);
            }
        }
        i = i + 1;
    }
    assert(parts@.take(i as int) == parts@);
    out
}

/// The summary paragraphs: the primary ones, or the fallback blocks where
/// there are none.
pub open spec fn chosen_summary(primary: Seq<String>, fallback: Seq<String>) -> Seq<Seq<char>> {
    if primary.len() > 0 {
        views(primary)
    } else {
        views(fallback)
    }
}

/// The documentation comment of an element: its summary, a blank comment line
/// and a line that points at the page it came from.
pub open spec fn element_doc(primary: Seq<String>, fallback: Seq<String>, url: Seq<char>) -> Seq<char> {
    "/// "@ + comment_body(join(chosen_summary(primary, fallback), "\n\n"@))
        + "\n///\n/// More information: <"@ + url + ">"@
}

/// Builds the documentation comment of an element from the summary
/// paragraphs of its page (or, where it has none, its summary blocks).
pub fn element_documentation(primary: &Vec<String>, fallback: &Vec<String>, url: &str) -> (r: String)
    ensures
        r@ == element_doc(primary@, fallback@, url@),
{
    let joined = if primary.len() > 0 {
        join_with(primary, "\n\n")
    } else {
        join_with(fallback, "\n\n")
    };
    let body = to_comment_body(joined.as_str());
    let mut out = String::new();
    append_str(&mut out, "/// ");
    append_str(&mut out, body.as_str());
    append_str(&mut out, "\n///\n/// More information: <");
    append_str(&mut out, url);
    append_str(&mut out, ">");
    out
}

} // verus!
