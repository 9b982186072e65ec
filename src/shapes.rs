//! Shape-record interpretation that needs no arithmetic on coordinates: the
//! move / line / close path language, the fill rule of symbol rectangles
//! and the classification of footprint pads. Coordinates are of any type
//! `T`; the caller reads the numbers and normalizes the points.
use vstd::prelude::*;

use crate::text::{chars_of, same_chars};

verus! {

/// The shape of a whitespace-separated word of a path.
#[derive(Debug, Clone, Copy, PartialEq, Eq, Structural)]
pub enum WordKind {
    /// `M` or `L`: a point follows.
    Draw,
    /// `Z` or `z`: the path returns to its first point.
    Close,
    /// A word holding a comma: an `x,y` pair.
    Pair,
    /// Any other word: perhaps a number.
    Plain,
}

/// The kind of the word `w`.
pub open spec fn kind_of(w: Seq<char>) -> WordKind {
    if w == seq!['M'] || w == seq!['L'] {
        WordKind::Draw
    } else if w == seq!['Z'] || w == seq!['z'] {
        WordKind::Close
    } else if w.contains(',') {
        WordKind::Pair
    } else {
        WordKind::Plain
    }
}

/// The kind of a path word.
pub fn word_kind(w: &str) -> (r: WordKind)
    ensures
        r == kind_of(w@),
{
    let cs = chars_of(w);
    if cs.len() == 1 && (cs[0] == 'M' || cs[0] == 'L') {
        assert(cs@ =~= seq![cs[0]]);
        return WordKind::Draw;
    }
    if cs.len() == 1 && (cs[0] == 'Z' || cs[0] == 'z') {
        assert(cs@ =~= seq![cs[0]]);
        return WordKind::Close;
    }
    assert(cs@ != seq!['M'] && cs@ != seq!['L'] && cs@ != seq!['Z'] && cs@ != seq!['z']) by {
        if cs@.len() == 1 {
            assert(cs@[0] == cs[0]);
        }
    }
    let mut i: usize = 0;
    while i < cs.len()
        invariant
            cs@ == w@,
            i <= cs.len(),
            forall|j: int| 0 <= j < i ==> cs@[j] != ',',
        decreases cs.len() - i,
    {
        if cs[i] == ',' {
            assert(cs@[i as int] == ',');
            assert(cs@.contains(','));
            return WordKind::Pair;
        }
        i = i + 1;
    }
    WordKind::Plain
}

/// A path word with the numbers the caller read from it.
#[derive(Debug, Clone, Copy, PartialEq)]
pub enum PathToken<T> {
    /// `M` or `L`.
    Draw,
    /// `Z` or `z`.
    Close,
    /// A word holding a comma, with the pair read from its two halves, if
    /// both are numbers.
    Pair(Option<(T, T)>),
    /// A word that is a number.
    Number(T),
    /// Any other word.
    Word,
}

/// The points that the path tokens from `i` on add to `pts`. `M` or `L` takes
/// the next word: an `x,y` pair adds its point when both halves are numbers;
/// otherwise that word and the one after it add a point when both are numbers,
/// and both are used up. `Z` adds the first point again. Other words are
/// skipped.
pub open spec fn points_from<T>(toks: Seq<PathToken<T>>, i: int, pts: Seq<(T, T)>) -> Seq<(T, T)>
    decreases toks.len() - i,
{
    if i < 0 || i >= toks.len() {
        pts
    } else {
        match toks[i] {
            PathToken::Draw => if i + 1 < toks.len() {
                match toks[i + 1] {
                    PathToken::Pair(Some(p)) => points_from(toks, i + 2, pts.push(p)),
                    PathToken::Pair(None) => points_from(toks, i + 2, pts),
                    _ => if i + 2 < toks.len() {
                        match (toks[i + 1], toks[i + 2]) {
                            (PathToken::Number(x), PathToken::Number(y)) => points_from(
                                toks,
                                i + 3,
                                pts.push((x, y)),
                            ),
                            _ => points_from(toks, i + 2, pts),
                        }
                    } else {
                        points_from(toks, i + 2, pts)
                    },
                }
            } else {
                points_from(toks, i + 1, pts)
            },
            PathToken::Close => if pts.len() > 0 {
                points_from(toks, i + 1, pts.push(pts[0]))
            } else {
                points_from(toks, i + 1, pts)
            },
            _ => points_from(toks, i + 1, pts),
        }
    }
}

/// The points that a path's tokens draw, in order.
pub fn interpret_path<T: Copy>(tokens: &Vec<PathToken<T>>) -> (r: Vec<(T, T)>)
    ensures
        r@ == points_from(tokens@, 0, Seq::<(T, T)>::empty()),
{
    let mut pts: Vec<(T, T)> = Vec::new();
    let mut i: usize = 0;
    while i < tokens.len()
        invariant
            i <= tokens.len() + 1,
            points_from(tokens@, i as int, pts@) == points_from(
                tokens@,
                0,
                Seq::<(T, T)>::empty(),
            ),
        decreases tokens.len() + 1 - i,
    {
        match tokens[i] {
            PathToken::Draw => {
                if i + 1 < tokens.len() {
                    match tokens[i + 1] {
                        PathToken::Pair(Some(p)) => {
                            pts.push(p);
                            i = i + 2;
                        },
                        PathToken::Pair(None) => {
                            i = i + 2;
                        },
                        _ => {
                            if i + 2 < tokens.len() {
                                match (tokens[i + 1], tokens[i + 2]) {
                                    (PathToken::Number(x), PathToken::Number(y)) => {
                                        pts.push((x, y));
                                        i = i + 3;
                                    },
                                    _ => {
                                        i = i + 2;
                                    },
                                }
                            } else {
                                i = i + 2;
                            }
                        },
                    }
                } else {
                    i = i + 1;
                }
            },
            PathToken::Close => {
                if pts.len() > 0 {
                    let first = pts[0];
                    pts.push(first);
                }
                i = i + 1;
            },
            _ => {
                i = i + 1;
            },
        }
    }
    pts
}

/// The fill flags of a symbol's rectangles: the first, the body outline, is
/// always filled; every other keeps its own flag.
pub fn symbol_rectangle_fills(fills: &Vec<bool>) -> (r: Vec<bool>)
    ensures
        r@.len() == fills@.len(),
        fills@.len() > 0 ==> r@[0],
        forall|i: int| 0 < i < fills@.len() ==> r@[i] == fills@[i],
{
    let mut out: Vec<bool> = Vec::new();
    let mut i: usize = 0;
    while i < fills.len()
        invariant
            i <= fills.len(),
            out@.len() == i,
            i > 0 ==> out@[0],
            forall|j: int| 0 < j < i ==> out@[j] == fills@[j],
        decreases fills.len() - i,
    {
        if i == 0 {
            out.push(true);
        } else {
            out.push(fills[i]);
        }
        i = i + 1;
    }
    out
}

/// The kind of a footprint pad.
#[derive(Debug, Clone, Copy, PartialEq, Eq, Structural)]
pub enum PadType {
    Smd,
    ThroughHole,
    NpThroughHole,
}

/// A pad with a hole radius goes through the board; one without is surface-mounted.
pub fn pad_type(has_hole_radius: bool) -> (r: PadType)
    ensures
        r == (if has_hole_radius { PadType::ThroughHole } else { PadType::Smd }),
{
    if has_hole_radius {
        PadType::ThroughHole
    } else {
        PadType::Smd
    }
}

/// The segments of a track whose coordinates are `x1 y1 x2 y2 ...`: one from
/// each point to the next. A trailing odd coordinate is ignored.
pub open spec fn track_segments_of<T>(c: Seq<T>) -> Seq<(T, T, T, T)> {
    Seq::new(
        if c.len() >= 4 { ((c.len() - 2) / 2) as nat } else { 0 },
        |k: int| (c[2 * k], c[2 * k + 1], c[2 * k + 2], c[2 * k + 3]),
    )
}

/// The line segments of a track.
pub fn track_segments<T: Copy>(coords: &Vec<T>) -> (r: Vec<(T, T, T, T)>)
    ensures
        r@ == track_segments_of(coords@),
{
    let mut out: Vec<(T, T, T, T)> = Vec::new();
    if coords.len() < 4 {
        assert(out@ =~= track_segments_of(coords@));
        return out;
    }
    let n: usize = (coords.len() - 2) / 2;
    let mut k: usize = 0;
    while k < n
        invariant
            coords.len() >= 4,
            n == (coords.len() - 2) / 2,
            k <= n,
            out@ =~= track_segments_of(coords@).subrange(0, k as int),
        decreases n - k,
    {
        out.push((coords[2 * k], coords[2 * k + 1], coords[2 * k + 2], coords[2 * k + 3]));
        k = k + 1;
    }
    assert(track_segments_of(coords@).subrange(0, n as int) =~= track_segments_of(coords@));
    out
}

/// The points of a flat list `x1 y1 x2 y2 ...`. A trailing odd coordinate is ignored.
pub open spec fn pairs_of<T>(c: Seq<T>) -> Seq<(T, T)> {
    Seq::new((c.len() / 2) as nat, |k: int| (c[2 * k], c[2 * k + 1]))
}

/// The points of a flat coordinate list.
pub fn coordinate_pairs<T: Copy>(coords: &Vec<T>) -> (r: Vec<(T, T)>)
    ensures
        r@ == pairs_of(coords@),
{
    let mut out: Vec<(T, T)> = Vec::new();
    let n: usize = coords.len() / 2;
    let mut k: usize = 0;
    while k < n
        invariant
            n == coords.len() / 2,
            k <= n,
            out@ =~= pairs_of(coords@).subrange(0, k as int),
        decreases n - k,
    {
        out.push((coords[2 * k], coords[2 * k + 1]));
        k = k + 1;
    }
    assert(pairs_of(coords@).subrange(0, n as int) =~= pairs_of(coords@));
    out
}

/// A polygon pad gets its outline only where its coordinate list gives at
/// least two points.
pub fn polygon_outline_usable(shape_is_polygon: bool, coord_count: usize) -> (r: bool)
    ensures
        r == (shape_is_polygon && coord_count >= 4),
{
    shape_is_polygon && coord_count >= 4
}

/// The four edges of the rectangle with opposite corners (x1, y1) and
/// (x2, y2): top, right, bottom, left, each as (start x, start y, end x, end y).
pub fn rectangle_outline<T: Copy>(x1: T, y1: T, x2: T, y2: T) -> (r: Vec<(T, T, T, T)>)
    ensures
        r@ == seq![(x1, y1, x2, y1), (x2, y1, x2, y2), (x2, y2, x1, y2), (x1, y2, x1, y1)],
{
    let mut out: Vec<(T, T, T, T)> = Vec::new();
    out.push((x1, y1, x2, y1));
    out.push((x2, y1, x2, y2));
    out.push((x2, y2, x1, y2));
    out.push((x1, y2, x1, y1));
    assert(out@ =~= seq![(x1, y1, x2, y1), (x2, y1, x2, y2), (x2, y2, x1, y2), (x1, y2, x1, y1)]);
    out
}

/// The words of a footprint arc path `M sx sy A rx ry rotation large sweep ex ey`
/// have the right shape: at least eleven words, `M` first and `A` fourth.
pub open spec fn arc_words_ok(words: Seq<Seq<char>>) -> bool {
    words.len() >= 11 && words[0] == seq!['M'] && words[3] == seq!['A']
}

/// The large-arc and sweep flags of a well-shaped arc path: a flag is set
/// where its word is `1`. `None` where the words have the wrong shape.
pub fn arc_path_flags(words: &Vec<String>) -> (r: Option<(bool, bool)>)
    ensures
        match r {
            Some((large, sweep)) => arc_words_ok(words.deep_view()) && large == (words.deep_view()[7]
                == seq!['1']) && sweep == (words.deep_view()[8] == seq!['1']),
            None => !arc_words_ok(words.deep_view()),
        },
{
    if words.len() < 11 {
        return None;
    }
    let w0 = chars_of(words[0].as_str());
    let w3 = chars_of(words[3].as_str());
    let m = w0.len() == 1 && w0[0] == 'M';
    let a = w3.len() == 1 && w3[0] == 'A';
    proof {
        if m {
            assert(w0@ =~= seq!['M']);
        }
        if w0@ == seq!['M'] {
            assert(w0@[0] == 'M');
        }
        if a {
            assert(w3@ =~= seq!['A']);
        }
        if w3@ == seq!['A'] {
            assert(w3@[0] == 'A');
        }
    }
    if !m || !a {
        return None;
    }
    let w7 = chars_of(words[7].as_str());
    let w8 = chars_of(words[8].as_str());
    let large = w7.len() == 1 && w7[0] == '1';
    let sweep = w8.len() == 1 && w8[0] == '1';
    proof {
        if large {
            assert(w7@ =~= seq!['1']);
        }
        if w7@ == seq!['1'] {
            assert(w7@[0] == '1');
        }
        if sweep {
            assert(w8@ =~= seq!['1']);
        }
        if w8@ == seq!['1'] {
            assert(w8@[0] == '1');
        }
    }
    Some((large, sweep))
}

/// A board layer of the target footprint.
#[derive(Debug, Clone, Copy, PartialEq, Eq, Structural)]
pub enum Layer {
    FrontCopper,
    BackCopper,
    FrontSilk,
    BackSilk,
    FrontPaste,
    BackPaste,
    FrontMask,
    BackMask,
    EdgeCuts,
    FrontFab,
    BackFab,
    UserDrawings,
}

/// The target layer of a source layer number.
pub open spec fn layer_of(id: u64) -> Layer {
    if id == 1 {
        Layer::FrontCopper
    } else if id == 2 {
        Layer::BackCopper
    } else if id == 3 {
        Layer::FrontSilk
    } else if id == 4 {
        Layer::BackSilk
    } else if id == 5 {
        Layer::FrontPaste
    } else if id == 6 {
        Layer::BackPaste
    } else if id == 7 {
        Layer::FrontMask
    } else if id == 8 {
        Layer::BackMask
    } else if id == 10 {
        Layer::EdgeCuts
    } else if id == 12 || id == 13 {
        Layer::FrontFab
    } else if id == 14 {
        Layer::BackFab
    } else {
        Layer::UserDrawings
    }
}

/// The target layer of a graphic item on the source layer `id`.
pub fn map_layer(id: u64) -> (r: Layer)
    ensures
        r == layer_of(id),
{
    if id == 1 {
        Layer::FrontCopper
    } else if id == 2 {
        Layer::BackCopper
    } else if id == 3 {
        Layer::FrontSilk
    } else if id == 4 {
        Layer::BackSilk
    } else if id == 5 {
        Layer::FrontPaste
    } else if id == 6 {
        Layer::BackPaste
    } else if id == 7 {
        Layer::FrontMask
    } else if id == 8 {
        Layer::BackMask
    } else if id == 10 {
        Layer::EdgeCuts
    } else if id == 12 || id == 13 {
        Layer::FrontFab
    } else if id == 14 {
        Layer::BackFab
    } else {
        Layer::UserDrawings
    }
}

/// The layers of a pad: copper, paste and mask of the back for a
/// surface-mount pad on the back layer (2), of the front for any other; copper
/// and mask of both sides for a pad through the board.
pub open spec fn pad_layers_of(kind: PadType, layer_id: u64) -> Seq<Layer> {
    match kind {
        PadType::Smd => if layer_id == 2 {
            seq![Layer::BackCopper, Layer::BackPaste, Layer::BackMask]
        } else {
            seq![Layer::FrontCopper, Layer::FrontPaste, Layer::FrontMask]
        },
        _ => seq![Layer::FrontCopper, Layer::BackCopper, Layer::FrontMask, Layer::BackMask],
    }
}

/// The layers of a pad of kind `kind` on the source layer `layer_id`.
pub fn pad_layers(kind: PadType, layer_id: u64) -> (r: Vec<Layer>)
    ensures
        r@ == pad_layers_of(kind, layer_id),
{
    let v = match kind {
        PadType::Smd => if layer_id == 2 {
            vec![Layer::BackCopper, Layer::BackPaste, Layer::BackMask]
        } else {
            vec![Layer::FrontCopper, Layer::FrontPaste, Layer::FrontMask]
        },
        _ => vec![Layer::FrontCopper, Layer::BackCopper, Layer::FrontMask, Layer::BackMask],
    };
    assert(v@ =~= pad_layers_of(kind, layer_id));
    v
}

/// The outline of a pad.
#[derive(Debug, Clone, Copy, PartialEq, Eq, Structural)]
pub enum PadShape {
    Rect,
    Circle,
    Oval,
    Custom,
}

/// The target outline of a source pad shape: `ELLIPSE` is a circle, `OVAL` an
/// oval, `POLYGON` a custom outline, anything else a rectangle.
pub open spec fn pad_shape_of(s: Seq<char>) -> PadShape {
    if s == seq!['E', 'L', 'L', 'I', 'P', 'S', 'E'] {
        PadShape::Circle
    } else if s == seq!['O', 'V', 'A', 'L'] {
        PadShape::Oval
    } else if s == seq!['P', 'O', 'L', 'Y', 'G', 'O', 'N'] {
        PadShape::Custom
    } else {
        PadShape::Rect
    }
}

/// The target outline of the source pad shape `shape`.
pub fn pad_shape(shape: &str) -> (r: PadShape)
    ensures
        r == pad_shape_of(shape@),
{
    let c = chars_of(shape);
    proof {
        reveal_strlit("ELLIPSE");
        reveal_strlit("OVAL");
        reveal_strlit("POLYGON");
    }
    assert("ELLIPSE"@ =~= seq!['E', 'L', 'L', 'I', 'P', 'S', 'E'] && "OVAL"@ =~= seq!['O', 'V', 'A', 'L']
        && "POLYGON"@ =~= seq!['P', 'O', 'L', 'Y', 'G', 'O', 'N']);
    if same_chars(&c, "ELLIPSE") {
        PadShape::Circle
    } else if same_chars(&c, "OVAL") {
        PadShape::Oval
    } else if same_chars(&c, "POLYGON") {
        PadShape::Custom
    } else {
        PadShape::Rect
    }
}

/// The electrical kind of a symbol pin.
#[derive(Debug, Clone, Copy, PartialEq, Eq, Structural)]
pub enum PinType {
    Unspecified,
    Input,
    Output,
    Bidirectional,
    PowerIn,
}

/// The pin kind of a source code: `1` input, `2` output, `3` bidirectional,
/// `4` power input, anything else unspecified.
pub open spec fn pin_type_of(code: Seq<char>) -> PinType {
    if code == seq!['1'] {
        PinType::Input
    } else if code == seq!['2'] {
        PinType::Output
    } else if code == seq!['3'] {
        PinType::Bidirectional
    } else if code == seq!['4'] {
        PinType::PowerIn
    } else {
        PinType::Unspecified
    }
}

/// The pin kind of the source electrical code `code`.
pub fn pin_type(code: &str) -> (r: PinType)
    ensures
        r == pin_type_of(code@),
{
    let c = chars_of(code);
    proof {
        reveal_strlit("1");
        reveal_strlit("2");
        reveal_strlit("3");
        reveal_strlit("4");
    }
    assert("1"@ =~= seq!['1'] && "2"@ =~= seq!['2'] && "3"@ =~= seq!['3'] && "4"@ =~= seq!['4']);
    if same_chars(&c, "1") {
        PinType::Input
    } else if same_chars(&c, "2") {
        PinType::Output
    } else if same_chars(&c, "3") {
        PinType::Bidirectional
    } else if same_chars(&c, "4") {
        PinType::PowerIn
    } else {
        PinType::Unspecified
    }
}

/// How a pin is drawn.
#[derive(Debug, Clone, Copy, PartialEq, Eq, Structural)]
pub enum PinStyle {
    Line,
    Inverted,
    Clock,
}

/// A pin with an inversion dot is drawn inverted, else one with a clock mark
/// as a clock, else as a plain line.
pub fn pin_style(dot: bool, clock: bool) -> (r: PinStyle)
    ensures
        r == (if dot {
            PinStyle::Inverted
        } else if clock {
            PinStyle::Clock
        } else {
            PinStyle::Line
        }),
{
    if dot {
        PinStyle::Inverted
    } else if clock {
        PinStyle::Clock
    } else {
        PinStyle::Line
    }
}

} // verus!
