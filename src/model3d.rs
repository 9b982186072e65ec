//! The 3D-model reference of a footprint: found in the marker record of the
//! footprint's shape records, whose JSON payload names the model.
use vstd::prelude::*;
use vstd::string::*;

use crate::text::{chars_of, has_prefix, same_chars, starts_with, string_of};

verus! {

/// The stable id and display title of a component's 3D model.
#[derive(Debug, Clone, PartialEq, Eq)]
pub struct Model3dInfo {
    pub uuid: String,
    pub title: String,
}

/// What `serde_json::from_str::<Value>(doc)`, then `.get(outer)`, `.get(key)` and
/// `.as_str()` yield: the string member `key` of the object member `outer` of
/// the JSON document `doc`, or `None` where `doc` is no JSON or holds no such string.
pub uninterp spec fn json_member_str(doc: Seq<char>, outer: Seq<char>, key: Seq<char>) -> Option<
    Seq<char>,
>;

/// Relies on `serde_json::from_str` (into a `serde_json::Value`), `Value::get`
/// and `Value::as_str`: reads the string at `outer` / `key` of the document.
#[verifier::external_body]
fn json_str_at(doc: &str, outer: &str, key: &str) -> (r: Option<String>)
    ensures
        match r {
            Some(s) => json_member_str(doc@, outer@, key@) == Some(s@),
            None => json_member_str(doc@, outer@, key@).is_none(),
        },
{
    let v: serde_json::Value = serde_json::from_str(doc).ok()?;
    v.get(outer)?.get(key)?.as_str().map(|s| s.to_string())
}

/// The tag of the marker record.
pub open spec fn marker_tag() -> Seq<char> {
    seq!['S', 'V', 'G', 'N', 'O', 'D', 'E', '~']
}

/// The first index from `i` on where `s` holds `c`, or its length.
pub open spec fn index_of_from(s: Seq<char>, c: char, i: int) -> int
    decreases s.len() - i,
{
    if i < 0 || i >= s.len() {
        s.len() as int
    } else if s[i] == c {
        i
    } else {
        index_of_from(s, c, i + 1)
    }
}

/// The second `~`-separated field of a record.
pub open spec fn payload_of(shape: Seq<char>) -> Seq<char> {
    shape.subrange(8, index_of_from(shape, '~', 8))
}

/// The 3D model that a single shape record declares: a marker record whose
/// payload's `attrs` say `c_etype` is `outline3D` and give `uuid` and `title`.
pub open spec fn model_of_shape(shape: Seq<char>) -> Option<(Seq<char>, Seq<char>)> {
    let p = payload_of(shape);
    let attrs = seq!['a', 't', 't', 'r', 's'];
    if has_prefix(shape, marker_tag()) && json_member_str(p, attrs, seq!['c', '_', 'e', 't', 'y', 'p', 'e'])
        == Some(seq!['o', 'u', 't', 'l', 'i', 'n', 'e', '3', 'D']) {
        match (
            json_member_str(p, attrs, seq!['u', 'u', 'i', 'd']),
            json_member_str(p, attrs, seq!['t', 'i', 't', 'l', 'e']),
        ) {
            (Some(u), Some(t)) => Some((u, t)),
            _ => None,
        }
    } else {
        None
    }
}

/// The model that the first declaring record from index `i` on declares.
pub open spec fn first_model_from(shapes: Seq<Seq<char>>, i: int) -> Option<(Seq<char>, Seq<char>)>
    decreases shapes.len() - i,
{
    if i < 0 || i >= shapes.len() {
        None
    } else if model_of_shape(shapes[i]).is_some() {
        model_of_shape(shapes[i])
    } else {
        first_model_from(shapes, i + 1)
    }
}

/// The model that a marker's attributes declare: where its kind is
/// `outline3D` and both an id and a title are given.
pub fn model_from_attrs(kind: &Option<String>, uuid: Option<String>, title: Option<String>) -> (r:
    Option<Model3dInfo>)
    ensures
        match r {
            Some(m) => (kind matches Some(k) && k@ == seq!['o', 'u', 't', 'l', 'i', 'n', 'e', '3', 'D'])
                && uuid == Some(m.uuid) && title == Some(m.title),
            None => !(kind matches Some(k) && k@ == seq!['o', 'u', 't', 'l', 'i', 'n', 'e', '3', 'D'])
                || uuid.is_none() || title.is_none(),
        },
{
    let is_outline = match kind {
        Some(k) => {
            proof {
                reveal_strlit("outline3D");
            }
            assert("outline3D"@ =~= seq!['o', 'u', 't', 'l', 'i', 'n', 'e', '3', 'D']);
            let kc = chars_of(k.as_str());
            same_chars(&kc, "outline3D")
        },
        None => false,
    };
    if !is_outline {
        return None;
    }
    match (uuid, title) {
        (Some(u), Some(t)) => Some(Model3dInfo { uuid: u, title: t }),
        _ => None,
    }
}

/// The model that a single record declares.
fn model_from_shape(shape: &String) -> (r: Option<Model3dInfo>)
    ensures
        match r {
            Some(m) => model_of_shape(shape@) == Some((m.uuid@, m.title@)),
            None => model_of_shape(shape@).is_none(),
        },
{
    let s = chars_of(shape.as_str());
    let tag = vec!['S', 'V', 'G', 'N', 'O', 'D', 'E', '~'];
    assert(tag@ =~= marker_tag());
    if !starts_with(&s, &tag) {
        return None;
    }
    let mut payload: Vec<char> = Vec::new();
    let mut j: usize = 8;
    while j < s.len() && s[j] != '~'
        invariant
            8 <= j <= s.len(),
            index_of_from(s@, '~', j as int) == index_of_from(s@, '~', 8),
            payload@ =~= s@.subrange(8, j as int),
        decreases s.len() - j,
    {
        payload.push(s[j]);
        j = j + 1;
    }
    assert(payload@ =~= payload_of(shape@));
    let p = string_of(&payload);
    proof {
        reveal_strlit("attrs");
        reveal_strlit("c_etype");
        reveal_strlit("uuid");
        reveal_strlit("title");
    }
    let attrs = "attrs";
    assert(attrs@ =~= seq!['a', 't', 't', 'r', 's']);
    let kind = json_str_at(p.as_str(), attrs, "c_etype");
    let uuid = json_str_at(p.as_str(), attrs, "uuid");
    let title = json_str_at(p.as_str(), attrs, "title");
    assert("c_etype"@ =~= seq!['c', '_', 'e', 't', 'y', 'p', 'e']);
    assert("uuid"@ =~= seq!['u', 'u', 'i', 'd']);
    assert("title"@ =~= seq!['t', 'i', 't', 'l', 'e']);
    model_from_attrs(&kind, uuid, title)
}

/// The 3D model of a footprint: the first marker record whose payload
/// declares an `outline3D` attachment with both an id and a title. `None`
/// where no record does.
pub fn extract_3d_model_from_svgnode(shapes: &Vec<String>) -> (r: Option<Model3dInfo>)
    ensures
        match r {
            Some(m) => first_model_from(shapes.deep_view(), 0) == Some((m.uuid@, m.title@)),
            None => first_model_from(shapes.deep_view(), 0).is_none(),
        },
{
    let ghost ss = shapes.deep_view();
    let mut i: usize = 0;
    while i < shapes.len()
        invariant
            ss == shapes.deep_view(),
            i <= shapes.len(),
            first_model_from(ss, 0) == first_model_from(ss, i as int),
        decreases shapes.len() - i,
    {
        let found = model_from_shape(&shapes[i]);
        assert(shapes[i as int]@ == ss[i as int]);
        if found.is_some() {
            return found;
        }
        i = i + 1;
    }
    None
}

} // verus!
