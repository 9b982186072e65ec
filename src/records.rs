//! Shape records: `~`-separated fields whose first field is a type tag.
//! Splitting a record and telling its kind apart; the caller reads the
//! numeric fields.
use vstd::prelude::*;
use vstd::string::*;

use crate::text::{chars_of, same_chars, string_of};

verus! {

/// The fields of `s` separated by `sep`, as `str::split` gives them: empty
/// fields kept, one more field than separators.
pub open spec fn split_on(s: Seq<char>, sep: char) -> Seq<Seq<char>>
    decreases s.len(),
{
    if s.len() == 0 {
        seq![Seq::<char>::empty()]
    } else {
        let prev = split_on(s.drop_last(), sep);
        if s.last() == sep {
            prev.push(Seq::<char>::empty())
        } else {
            prev.update(prev.len() - 1, prev.last().push(s.last()))
        }
    }
}

proof fn lemma_split_nonempty(s: Seq<char>, sep: char)
    ensures
        split_on(s, sep).len() >= 1,
    decreases s.len(),
{
    if s.len() > 0 {
        lemma_split_nonempty(s.drop_last(), sep);
    }
}

/// The fields of `record` separated by `sep`.
pub fn split_fields(record: &str, sep: char) -> (r: Vec<String>)
    ensures
        r.deep_view() == split_on(record@, sep),
{
    let cs = chars_of(record);
    let mut done: Vec<String> = Vec::new();
    let mut cur: Vec<char> = Vec::new();
    let mut i: usize = 0;
    while i < cs.len()
        invariant
            cs@ == record@,
            i <= cs.len(),
            done.deep_view().push(cur@) == split_on(cs@.subrange(0, i as int), sep),
        decreases cs.len() - i,
    {
        let c = cs[i];
        let ghost prefix = cs@.subrange(0, i + 1);
        proof {
            assert(prefix.drop_last() =~= cs@.subrange(0, i as int));
            lemma_split_nonempty(cs@.subrange(0, i as int), sep);
        }
        let ghost before = done.deep_view();
        if c == sep {
            let field = string_of(&cur);
            done.push(field);
            cur = Vec::new();
            assert(done.deep_view() =~= before.push(field@));
            assert(done.deep_view().push(cur@) =~= split_on(prefix, sep));
        } else {
            cur.push(c);
            assert(done.deep_view().push(cur@) =~= split_on(prefix, sep));
        }
        i = i + 1;
    }
    assert(cs@.subrange(0, cs.len() as int) =~= cs@);
    let last = string_of(&cur);
    let ghost before = done.deep_view();
    done.push(last);
    assert(done.deep_view() =~= before.push(cur@));
    done
}

/// The primitive kinds of a symbol.
#[derive(Debug, Clone, Copy, PartialEq, Eq, Structural)]
pub enum SymbolShape {
    Pin,
    Rectangle,
    Circle,
    Ellipse,
    Arc,
    Polyline,
    Polygon,
    Path,
}

/// The primitive kinds of a footprint, and its 3D-model marker.
#[derive(Debug, Clone, Copy, PartialEq, Eq, Structural)]
pub enum FootprintShape {
    Pad,
    Track,
    Circle,
    Arc,
    Rectangle,
    Text,
    Hole,
    Via,
    ModelMarker,
}

/// The symbol primitive that the tag names, if any.
pub open spec fn symbol_shape_of(tag: Seq<char>) -> Option<SymbolShape> {
    if tag == seq!['P'] {
        Some(SymbolShape::Pin)
    } else if tag == seq!['R'] {
        Some(SymbolShape::Rectangle)
    } else if tag == seq!['C'] {
        Some(SymbolShape::Circle)
    } else if tag == seq!['E'] {
        Some(SymbolShape::Ellipse)
    } else if tag == seq!['A'] {
        Some(SymbolShape::Arc)
    } else if tag == seq!['P', 'L'] {
        Some(SymbolShape::Polyline)
    } else if tag == seq!['P', 'G'] {
        Some(SymbolShape::Polygon)
    } else if tag == seq!['P', 'T'] {
        Some(SymbolShape::Path)
    } else {
        None
    }
}

/// The footprint primitive that the tag names, if any.
pub open spec fn footprint_shape_of(tag: Seq<char>) -> Option<FootprintShape> {
    if tag == seq!['P', 'A', 'D'] {
        Some(FootprintShape::Pad)
    } else if tag == seq!['T', 'R', 'A', 'C', 'K'] {
        Some(FootprintShape::Track)
    } else if tag == seq!['C', 'I', 'R', 'C', 'L', 'E'] {
        Some(FootprintShape::Circle)
    } else if tag == seq!['A', 'R', 'C'] {
        Some(FootprintShape::Arc)
    } else if tag == seq!['R', 'E', 'C', 'T'] {
        Some(FootprintShape::Rectangle)
    } else if tag == seq!['T', 'E', 'X', 'T'] {
        Some(FootprintShape::Text)
    } else if tag == seq!['H', 'O', 'L', 'E'] {
        Some(FootprintShape::Hole)
    } else if tag == seq!['V', 'I', 'A'] {
        Some(FootprintShape::Via)
    } else if tag == seq!['S', 'V', 'G', 'N', 'O', 'D', 'E'] {
        Some(FootprintShape::ModelMarker)
    } else {
        None
    }
}

/// The symbol primitive that a record's tag names; `None` for an unknown tag.
pub fn symbol_shape(tag: &str) -> (r: Option<SymbolShape>)
    ensures
        r == symbol_shape_of(tag@),
{
    let t = chars_of(tag);
    proof {
        reveal_strlit("P");
        reveal_strlit("R");
        reveal_strlit("C");
        reveal_strlit("E");
        reveal_strlit("A");
        reveal_strlit("PL");
        reveal_strlit("PG");
        reveal_strlit("PT");
    }
    assert("P"@ =~= seq!['P'] && "R"@ =~= seq!['R'] && "C"@ =~= seq!['C'] && "E"@ =~= seq!['E']
        && "A"@ =~= seq!['A'] && "PL"@ =~= seq!['P', 'L'] && "PG"@ =~= seq!['P', 'G'] && "PT"@
        =~= seq!['P', 'T']);
    if same_chars(&t, "P") {
        Some(SymbolShape::Pin)
    } else if same_chars(&t, "R") {
        Some(SymbolShape::Rectangle)
    } else if same_chars(&t, "C") {
        Some(SymbolShape::Circle)
    } else if same_chars(&t, "E") {
        Some(SymbolShape::Ellipse)
    } else if same_chars(&t, "A") {
        Some(SymbolShape::Arc)
    } else if same_chars(&t, "PL") {
        Some(SymbolShape::Polyline)
    } else if same_chars(&t, "PG") {
        Some(SymbolShape::Polygon)
    } else if same_chars(&t, "PT") {
        Some(SymbolShape::Path)
    } else {
        None
    }
}

/// The footprint primitive that a record's tag names; `None` for an unknown tag.
pub fn footprint_shape(tag: &str) -> (r: Option<FootprintShape>)
    ensures
        r == footprint_shape_of(tag@),
{
    let t = chars_of(tag);
    proof {
        reveal_strlit("PAD");
        reveal_strlit("TRACK");
        reveal_strlit("CIRCLE");
        reveal_strlit("ARC");
        reveal_strlit("RECT");
        reveal_strlit("TEXT");
        reveal_strlit("HOLE");
        reveal_strlit("VIA");
        reveal_strlit("SVGNODE");
    }
    assert("PAD"@ =~= seq!['P', 'A', 'D'] && "TRACK"@ =~= seq!['T', 'R', 'A', 'C', 'K'] && "CIRCLE"@
        =~= seq!['C', 'I', 'R', 'C', 'L', 'E'] && "ARC"@ =~= seq!['A', 'R', 'C'] && "RECT"@ =~= seq![
        'R',
        'E',
        'C',
        'T',
    ] && "TEXT"@ =~= seq!['T', 'E', 'X', 'T'] && "HOLE"@ =~= seq!['H', 'O', 'L', 'E'] && "VIA"@
        =~= seq!['V', 'I', 'A'] && "SVGNODE"@ =~= seq!['S', 'V', 'G', 'N', 'O', 'D', 'E']);
    if same_chars(&t, "PAD") {
        Some(FootprintShape::Pad)
    } else if same_chars(&t, "TRACK") {
        Some(FootprintShape::Track)
    } else if same_chars(&t, "CIRCLE") {
        Some(FootprintShape::Circle)
    } else if same_chars(&t, "ARC") {
        Some(FootprintShape::Arc)
    } else if same_chars(&t, "RECT") {
        Some(FootprintShape::Rectangle)
    } else if same_chars(&t, "TEXT") {
        Some(FootprintShape::Text)
    } else if same_chars(&t, "HOLE") {
        Some(FootprintShape::Hole)
    } else if same_chars(&t, "VIA") {
        Some(FootprintShape::Via)
    } else if same_chars(&t, "SVGNODE") {
        Some(FootprintShape::ModelMarker)
    } else {
        None
    }
}

/// A colour field that fills: any but the empty one and `none`.
pub open spec fn fills(color: Seq<char>) -> bool {
    color.len() > 0 && color != seq!['n', 'o', 'n', 'e']
}

/// Whether a shape with the fill colour `color` is filled.
pub fn is_filled(color: &str) -> (r: bool)
    ensures
        r == fills(color@),
{
    let c = chars_of(color);
    proof {
        reveal_strlit("none");
    }
    assert("none"@ =~= seq!['n', 'o', 'n', 'e']);
    c.len() > 0 && !same_chars(&c, "none")
}

/// A component's primitives are usable only where at least one record was
/// read; otherwise the conversion fails.
pub fn check_primitives(usable: usize) -> (r: Result<usize, crate::error::AppError>)
    ensures
        usable > 0 ==> r == Ok::<usize, crate::error::AppError>(usable),
        usable == 0 ==> r matches Err(crate::error::AppError::Easyeda(
            crate::error::EasyedaError::InvalidData(_),
        )),
{
    if usable > 0 {
        Ok(usable)
    } else {
        Err(crate::error::AppError::Easyeda(crate::error::EasyedaError::InvalidData(
            String::from_str("No usable shape records"),
        )))
    }
}

} // verus!
