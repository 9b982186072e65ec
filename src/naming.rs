//! Names of the generated library items: the sanitized component name, the
//! footprint link of a symbol and the path of a footprint's 3D model.
use vstd::prelude::*;
use vstd::string::*;

use crate::text::{chars_of, string_of};

verus! {

/// What `char::is_alphanumeric` answers for `c`.
pub uninterp spec fn alnum(c: char) -> bool;

/// Relies on `char::is_alphanumeric`: whether `c` is alphabetic or numeric in Unicode.
#[verifier::external_body]
fn is_alphanumeric(c: char) -> (r: bool)
    ensures
        r == alnum(c),
{
    c.is_alphanumeric()
}

/// A character that a name keeps as it is.
pub open spec fn keeps(c: char) -> bool {
    alnum(c) || c == '_' || c == '-'
}

/// `c`, or an underscore where a name may not hold it.
pub open spec fn sanitized_char(c: char) -> char {
    if keeps(c) { c } else { '_' }
}

/// The title with every character that is neither alphanumeric, `_` nor `-` replaced by `_`.
pub open spec fn sanitized(s: Seq<char>) -> Seq<char> {
    s.map_values(|c: char| sanitized_char(c))
}

/// The name of a component: its sanitized title, `_`, and its identifier.
pub open spec fn component_name_of(title: Seq<char>, id: Seq<char>) -> Seq<char> {
    sanitized(title) + seq!['_'] + id
}

/// The character that stands for `c` in a name, given whether `c` is alphanumeric.
pub fn sanitize_char(c: char, alphanumeric: bool) -> (r: char)
    ensures
        r == (if alphanumeric || c == '_' || c == '-' { c } else { '_' }),
{
    if alphanumeric || c == '_' || c == '-' {
        c
    } else {
        '_'
    }
}

/// Replaces each character of `name` that is neither alphanumeric, `_` nor `-` by `_`.
pub fn sanitize_name(name: &str) -> (r: String)
    ensures
        r@ == sanitized(name@),
{
    let cs = chars_of(name);
    let mut out: Vec<char> = Vec::new();
    let mut i: usize = 0;
    while i < cs.len()
        invariant
            cs@ == name@,
            i <= cs.len(),
            out@ =~= sanitized(cs@.subrange(0, i as int)),
        decreases cs.len() - i,
    {
        let c = cs[i];
        out.push(sanitize_char(c, is_alphanumeric(c)));
        assert(cs@.subrange(0, i + 1) =~= cs@.subrange(0, i as int).push(c));
        i = i + 1;
    }
    assert(cs@.subrange(0, cs.len() as int) =~= cs@);
    string_of(&out)
}

/// The unique name of a component: `sanitize(title) + "_" + id`.
pub fn component_name(title: &str, id: &str) -> (r: String)
    ensures
        r@ == component_name_of(title@, id@),
{
    let base = sanitize_name(title);
    proof {
        reveal_strlit("_");
    }
    let with_sep = base.concat("_");
    with_sep.concat(id)
}

/// Names of two components with one title and different identifiers differ.
pub proof fn lemma_names_distinct_for_distinct_ids(title: Seq<char>, id1: Seq<char>, id2: Seq<char>)
    requires
        id1 != id2,
    ensures
        component_name_of(title, id1) != component_name_of(title, id2),
{
    let p = sanitized(title) + seq!['_'];
    let a = component_name_of(title, id1);
    let b = component_name_of(title, id2);
    assert(a == p + id1);
    assert(b == p + id2);
    if a == b {
        assert(id1 =~= a.subrange(p.len() as int, a.len() as int));
        assert(id2 =~= b.subrange(p.len() as int, b.len() as int));
    }
}

/// The library name under which footprints are linked.
pub open spec fn library_prefix() -> Seq<char> {
    seq!['n', 'l', 'b', 'n']
}

/// The footprint link of a symbol: `nlbn:<footprint name>`.
pub fn footprint_link(footprint_name: &str) -> (r: String)
    ensures
        r@ == library_prefix() + seq![':'] + footprint_name@,
{
    proof {
        reveal_strlit("nlbn:");
    }
    let s = String::from_str("nlbn:");
    assert(s@ =~= library_prefix() + seq![':']);
    s.concat(footprint_name)
}

/// The path of a component's STEP model as a footprint refers to it.
pub open spec fn model_path_of(project_relative: bool, model_name: Seq<char>) -> Seq<char> {
    let root = if project_relative {
        seq!['$', '{', 'K', 'I', 'P', 'R', 'J', 'M', 'O', 'D', '}']
    } else {
        seq!['$', '{', 'N', 'L', 'B', 'N', '}']
    };
    root + seq!['/', 'n', 'l', 'b', 'n', '.', '3', 'd', 's', 'h', 'a', 'p', 'e', 's', '/']
        + model_name + seq!['.', 's', 't', 'e', 'p']
}

/// The path of the STEP model named `model_name`, rooted at the project
/// directory (`${KIPRJMOD}`) or at the library's own variable (`${NLBN}`).
pub fn model_path(project_relative: bool, model_name: &str) -> (r: String)
    ensures
        r@ == model_path_of(project_relative, model_name@),
{
    let root = if project_relative {
        proof {
            reveal_strlit("${KIPRJMOD}/nlbn.3dshapes/");
        }
        String::from_str("${KIPRJMOD}/nlbn.3dshapes/")
    } else {
        proof {
            reveal_strlit("${NLBN}/nlbn.3dshapes/");
        }
        String::from_str("${NLBN}/nlbn.3dshapes/")
    };
    proof {
        reveal_strlit(".step");
    }
    let r = root.concat(model_name).concat(".step");
    assert(r@ =~= model_path_of(project_relative, model_name@));
    r
}

/// `s` without its trailing question marks.
pub open spec fn without_trailing_marks(s: Seq<char>) -> Seq<char>
    decreases s.len(),
{
    if s.len() > 0 && s.last() == '?' {
        without_trailing_marks(s.drop_last())
    } else {
        s
    }
}

/// The reference prefix of a symbol: the source's designator prefix without
/// its trailing `?` marks, or `U` where that leaves nothing.
pub open spec fn reference_prefix_of(pre: Seq<char>) -> Seq<char> {
    if without_trailing_marks(pre).len() == 0 {
        seq!['U']
    } else {
        without_trailing_marks(pre)
    }
}

/// The reference prefix of a symbol whose source designator prefix is `pre` (e.g. `R?`).
pub fn reference_prefix(pre: &str) -> (r: String)
    ensures
        r@ == reference_prefix_of(pre@),
{
    let cs = chars_of(pre);
    let mut end: usize = cs.len();
    assert(cs@.subrange(0, cs.len() as int) =~= cs@);
    while end > 0 && cs[end - 1] == '?'
        invariant
            cs@ == pre@,
            end <= cs.len(),
            without_trailing_marks(cs@.subrange(0, end as int)) == without_trailing_marks(cs@),
        decreases end,
    {
        assert(cs@.subrange(0, end - 1) =~= cs@.subrange(0, end as int).drop_last());
        end = end - 1;
    }
    let mut out: Vec<char> = Vec::new();
    let mut i: usize = 0;
    while i < end
        invariant
            cs@ == pre@,
            end <= cs.len(),
            i <= end,
            without_trailing_marks(cs@.subrange(0, end as int)) == without_trailing_marks(cs@),
            out@ =~= cs@.subrange(0, i as int),
        decreases end - i,
    {
        out.push(cs[i]);
        i = i + 1;
    }
    assert(without_trailing_marks(cs@.subrange(0, end as int)) == cs@.subrange(0, end as int));
    if end == 0 {
        let u = vec!['U'];
        assert(u@ =~= seq!['U']);
        string_of(&u)
    } else {
        string_of(&out)
    }
}

/// The characters that stand for `c` inside a quoted string: `"` and `\`
/// take a backslash before them.
pub open spec fn escaped_char(c: char) -> Seq<char> {
    if c == '"' || c == '\\' {
        seq!['\\', c]
    } else {
        seq![c]
    }
}

/// `s` with its quotes and backslashes escaped.
pub open spec fn escaped(s: Seq<char>) -> Seq<char>
    decreases s.len(),
{
    if s.len() == 0 {
        s
    } else {
        escaped(s.drop_last()) + escaped_char(s.last())
    }
}

/// `s` as a quoted string of the library files.
pub fn quoted(s: &str) -> (r: String)
    ensures
        r@ == seq!['"'] + escaped(s@) + seq!['"'],
{
    let cs = chars_of(s);
    let mut out: Vec<char> = Vec::new();
    out.push('"');
    let mut i: usize = 0;
    while i < cs.len()
        invariant
            cs@ == s@,
            i <= cs.len(),
            out@ =~= seq!['"'] + escaped(cs@.subrange(0, i as int)),
        decreases cs.len() - i,
    {
        let c = cs[i];
        assert(cs@.subrange(0, i + 1).drop_last() =~= cs@.subrange(0, i as int));
        if c == '"' || c == '\\' {
            out.push('\\');
            out.push(c);
        } else {
            out.push(c);
        }
        i = i + 1;
    }
    assert(cs@.subrange(0, cs.len() as int) =~= cs@);
    out.push('"');
    string_of(&out)
}

} // verus!
