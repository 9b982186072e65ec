//! The shared symbol library, held as its text: storing an entry under its
//! name and removing a component's entries. A scan of bracket depth that
//! skips quoted strings finds each entry `(symbol "NAME" ...)` of the
//! library and its matching `)`; only the span between them is ever removed
//! or replaced, and every other character is kept. Also the file-name rules of
//! the per-component footprint and 3D-model files, and the report of a removal.
use vstd::prelude::*;
use vstd::string::*;

use crate::error::LibraryError;
use crate::text::{
    chars_of, contains, contains_seq, ends_with, has_suffix, matches_at, occurs_at, starts_with,
    string_of,
};

verus! {

/// Where the bracket scan stands after some characters: the unquoted `(`
/// and `)` met so far, whether it is inside a quoted string, and whether the
/// last character there was a backslash.
pub struct ScanState {
    pub opens: nat,
    pub closes: nat,
    pub quoted: bool,
    pub escaped: bool,
}

/// The scan before any character.
pub open spec fn scan_start() -> ScanState {
    ScanState { opens: 0, closes: 0, quoted: false, escaped: false }
}

/// The scan after one more character `c`. Inside a quoted string, a
/// backslash escapes the next character and an unescaped `"` ends it;
/// outside, `"` starts one and brackets are counted.
pub open spec fn step(s: ScanState, c: char) -> ScanState {
    if s.quoted {
        if s.escaped {
            ScanState { escaped: false, ..s }
        } else if c == '\\' {
            ScanState { escaped: true, ..s }
        } else if c == '"' {
            ScanState { quoted: false, ..s }
        } else {
            s
        }
    } else if c == '"' {
        ScanState { quoted: true, ..s }
    } else if c == '(' {
        ScanState { opens: s.opens + 1, ..s }
    } else if c == ')' {
        ScanState { closes: s.closes + 1, ..s }
    } else {
        s
    }
}

/// The scan after the first `i` characters of `t`.
pub open spec fn state_at(t: Seq<char>, i: int) -> ScanState
    decreases i,
{
    if i <= 0 || i > t.len() {
        scan_start()
    } else {
        step(state_at(t, i - 1), t[i - 1])
    }
}

/// The bracket depth of a scan.
pub open spec fn depth(s: ScanState) -> int {
    s.opens - s.closes
}

/// The text that opens a symbol entry.
pub open spec fn entry_marker() -> Seq<char> {
    seq!['(', 's', 'y', 'm', 'b', 'o', 'l', ' ', '"']
}

/// An entry of the library opens at `i`: the marker stands there, outside
/// any quoted string, directly inside the library's own brackets.
pub open spec fn is_entry_start(t: Seq<char>, i: int) -> bool {
    0 <= i < t.len() && !state_at(t, i).quoted && depth(state_at(t, i)) == 1 && occurs_at(
        t,
        entry_marker(),
        i,
    )
}

/// The first position from `j` on that holds `"`, or the length of `t`.
pub open spec fn quote_from(t: Seq<char>, j: int) -> int
    decreases t.len() - j,
{
    if j < 0 || j >= t.len() {
        t.len() as int
    } else if t[j] == '"' {
        j
    } else {
        quote_from(t, j + 1)
    }
}

/// The name of the entry that opens at `i`: the quoted text after the marker.
pub open spec fn name_at(t: Seq<char>, i: int) -> Seq<char> {
    t.subrange(i + 9, quote_from(t, i + 9))
}

/// The first position from `j` on where the depth is back to at most 1, or
/// the length of `t`.
pub open spec fn end_from(t: Seq<char>, j: int) -> int
    decreases t.len() - j,
{
    if j < 0 || j >= t.len() {
        t.len() as int
    } else if depth(state_at(t, j)) <= 1 {
        j
    } else {
        end_from(t, j + 1)
    }
}

/// The end of the entry that opens at `i`: just after its matching `)`, or
/// the end of the text where it is never closed.
pub open spec fn entry_end(t: Seq<char>, i: int) -> int {
    end_from(t, i + 1)
}

/// A name that the key selects: one that holds it (`within`), or one equal
/// to it.
pub open spec fn key_match(name: Seq<char>, key: Seq<char>, within: bool) -> bool {
    if within {
        contains(name, key)
    } else {
        name == key
    }
}

/// An entry that the key selects opens at `i`.
pub open spec fn is_match(t: Seq<char>, key: Seq<char>, within: bool, i: int) -> bool {
    is_entry_start(t, i) && key_match(name_at(t, i), key, within)
}

/// The library holds an entry that the key selects.
pub open spec fn has_match(t: Seq<char>, key: Seq<char>, within: bool) -> bool {
    exists|i: int| is_match(t, key, within, i)
}

/// The text from `i` on with the span of every selected entry removed.
pub open spec fn removed_from(t: Seq<char>, key: Seq<char>, within: bool, i: int) -> Seq<char>
    decreases t.len() - i,
{
    if i < 0 || i >= t.len() {
        seq![]
    } else if is_match(t, key, within, i) && i < entry_end(t, i) <= t.len() {
        removed_from(t, key, within, entry_end(t, i))
    } else {
        seq![t[i]] + removed_from(t, key, within, i + 1)
    }
}

/// The text from `i` on with the span of the first entry named `key` replaced
/// by `p` (where `done` is false) and the span of any later one removed.
pub open spec fn replaced_from(t: Seq<char>, key: Seq<char>, p: Seq<char>, i: int, done: bool) -> Seq<
    char,
>
    decreases t.len() - i,
{
    if i < 0 || i >= t.len() {
        seq![]
    } else if is_match(t, key, false, i) && i < entry_end(t, i) <= t.len() {
        (if done { seq![] } else { p }) + replaced_from(t, key, p, entry_end(t, i), true)
    } else {
        seq![t[i]] + replaced_from(t, key, p, i + 1, done)
    }
}

/// The library's own closing bracket stands at `c`.
pub open spec fn is_container_close(t: Seq<char>, c: int) -> bool {
    0 <= c < t.len() && t[c] == ')' && !state_at(t, c).quoted && depth(state_at(t, c)) == 1
}

/// The last position before `n` that holds the library's closing bracket, or -1.
pub open spec fn last_close_before(t: Seq<char>, n: int) -> int
    decreases n,
{
    if n <= 0 {
        -1
    } else if is_container_close(t, n - 1) {
        n - 1
    } else {
        last_close_before(t, n - 1)
    }
}

/// The entry text `p` as a line of its own: indented by two spaces and
/// ended by a newline.
pub open spec fn entry_line(p: Seq<char>) -> Seq<char> {
    seq![' ', ' '] + p + seq!['\n']
}

/// The entry `p`, as a line of its own, placed just before the library's
/// closing bracket, or at the end where there is none.
pub open spec fn inserted(t: Seq<char>, p: Seq<char>) -> Seq<char> {
    let c = last_close_before(t, t.len() as int);
    if 0 <= c <= t.len() {
        t.subrange(0, c) + entry_line(p) + t.subrange(c, t.len() as int)
    } else {
        t + entry_line(p)
    }
}

/// The library after storing the entry `name` with the text `p` when
/// storing is allowed: the old entry's span replaced in place, or the new
/// entry put before the closing bracket where there was none.
pub open spec fn stored(t: Seq<char>, name: Seq<char>, p: Seq<char>) -> Seq<char> {
    if has_match(t, name, false) {
        replaced_from(t, name, p, 0, false)
    } else {
        inserted(t, p)
    }
}

proof fn lemma_state_bound(t: Seq<char>, i: int)
    requires
        0 <= i <= t.len(),
    ensures
        state_at(t, i).opens + state_at(t, i).closes <= i,
        !state_at(t, i).quoted ==> !state_at(t, i).escaped,
    decreases i,
{
    if i > 0 {
        lemma_state_bound(t, i - 1);
    }
}

proof fn lemma_end_bounds(t: Seq<char>, j: int)
    requires
        0 <= j <= t.len(),
    ensures
        j <= end_from(t, j) <= t.len(),
    decreases t.len() - j,
{
    if j < t.len() && depth(state_at(t, j)) > 1 {
        lemma_end_bounds(t, j + 1);
    }
}

/// The scan state, as the program holds it.
#[derive(Clone, Copy)]
struct Scan {
    opens: usize,
    closes: usize,
    quoted: bool,
    escaped: bool,
}

spec fn sv(s: Scan) -> ScanState {
    ScanState { opens: s.opens as nat, closes: s.closes as nat, quoted: s.quoted, escaped: s.escaped }
}

fn step_scan(s: Scan, c: char) -> (r: Scan)
    requires
        s.opens + s.closes < usize::MAX,
    ensures
        sv(r) == step(sv(s), c),
{
    if s.quoted {
        if s.escaped {
            Scan { escaped: false, ..s }
        } else if c == '\\' {
            Scan { escaped: true, ..s }
        } else if c == '"' {
            Scan { quoted: false, ..s }
        } else {
            s
        }
    } else if c == '"' {
        Scan { quoted: true, ..s }
    } else if c == '(' {
        Scan { opens: s.opens + 1, ..s }
    } else if c == ')' {
        Scan { closes: s.closes + 1, ..s }
    } else {
        s
    }
}

/// Whether the scan is at depth 1.
fn at_top(s: Scan) -> (r: bool)
    ensures
        r == (depth(sv(s)) == 1),
{
    s.opens > s.closes && s.opens - s.closes == 1
}

/// Whether an entry selected by the key opens at `i`, where `s` is the scan before `i`.
fn match_at(t: &Vec<char>, key: &Vec<char>, within: bool, i: usize, s: Scan) -> (r: bool)
    requires
        i < t.len(),
        sv(s) == state_at(t@, i as int),
    ensures
        r == is_match(t@, key@, within, i as int),
{
    let marker = vec!['(', 's', 'y', 'm', 'b', 'o', 'l', ' ', '"'];
    assert(marker@ =~= entry_marker());
    if s.quoted || !at_top(s) || !matches_at(t, &marker, i) {
        return false;
    }
    let mut name: Vec<char> = Vec::new();
    let mut k: usize = i + 9;
    while k < t.len() && t[k] != '"'
        invariant
            i + 9 <= k <= t.len(),
            quote_from(t@, k as int) == quote_from(t@, i + 9),
            name@ =~= t@.subrange(i + 9, k as int),
        decreases t.len() - k,
    {
        name.push(t[k]);
        k = k + 1;
    }
    assert(name@ == name_at(t@, i as int));
    if within {
        contains_seq(&name, key)
    } else {
        let same = name.len() == key.len() && starts_with(&name, key);
        proof {
            if same {
                assert(name@ =~= key@);
            }
            if name@ == key@ {
                assert(name@.subrange(0, key@.len() as int) =~= name@);
            }
        }
        same
    }
}

/// The end of the entry that opens at `i` and the scan there, where `s` is
/// the scan before `i`.
fn find_end(t: &Vec<char>, i: usize, s: Scan) -> (r: (usize, Scan))
    requires
        i < t.len(),
        sv(s) == state_at(t@, i as int),
    ensures
        r.0 == entry_end(t@, i as int),
        i < r.0 <= t.len(),
        sv(r.1) == state_at(t@, r.0 as int),
{
    proof {
        lemma_state_bound(t@, i as int);
        lemma_end_bounds(t@, i + 1);
    }
    let mut sc = step_scan(s, t[i]);
    let mut k: usize = i + 1;
    while k < t.len() && !(sc.opens <= sc.closes || sc.opens - sc.closes == 1)
        invariant
            i < k <= t.len(),
            sv(sc) == state_at(t@, k as int),
            end_from(t@, k as int) == entry_end(t@, i as int),
        decreases t.len() - k,
    {
        proof {
            lemma_state_bound(t@, k as int);
        }
        sc = step_scan(sc, t[k]);
        k = k + 1;
    }
    (k, sc)
}

/// The text with the span of every entry that the key selects removed, and
/// whether there was one.
fn remove_entries(t: &Vec<char>, key: &Vec<char>, within: bool) -> (r: (Vec<char>, bool))
    ensures
        r.0@ == removed_from(t@, key@, within, 0),
        r.1 == has_match(t@, key@, within),
{
    let mut out: Vec<char> = Vec::new();
    let mut found = false;
    let mut sc = Scan { opens: 0, closes: 0, quoted: false, escaped: false };
    let mut j: usize = 0;
    while j < t.len()
        invariant
            j <= t.len(),
            sv(sc) == state_at(t@, j as int),
            out@ + removed_from(t@, key@, within, j as int) == removed_from(t@, key@, within, 0),
            !found ==> forall|k: int| 0 <= k < j ==> !is_match(t@, key@, within, k),
            found ==> has_match(t@, key@, within),
        decreases t.len() - j,
    {
        proof {
            lemma_state_bound(t@, j as int);
        }
        if match_at(t, key, within, j, sc) {
            let (e, se) = find_end(t, j, sc);
            found = true;
            j = e;
            sc = se;
        } else {
            let ghost before = out@;
            out.push(t[j]);
            assert(before + removed_from(t@, key@, within, j as int) =~= out@ + removed_from(
                t@,
                key@,
                within,
                j + 1,
            ));
            sc = step_scan(sc, t[j]);
            j = j + 1;
        }
    }
    assert(out@ + seq![] =~= out@);
    (out, found)
}

/// Removes from the text of a symbol library every entry of the component
/// `lcsc_id` (every entry whose name holds `lcsc_id`): exactly the span
/// from its `(symbol` to its matching `)`. Every other character is kept, in
/// order. Also says whether there was such an entry.
pub fn remove_component_from_symbol_lib(content: &str, lcsc_id: &str) -> (r: (String, bool))
    ensures
        r.0@ == removed_from(content@, lcsc_id@, true, 0),
        r.1 == has_match(content@, lcsc_id@, true),
        !r.1 ==> r.0@ == content@,
{
    let t = chars_of(content);
    let key = chars_of(lcsc_id);
    let (out, found) = remove_entries(&t, &key, true);
    proof {
        if !found {
            lemma_removed_none(t@, key@, true, 0);
            assert(t@.subrange(0, t@.len() as int) =~= t@);
        }
    }
    (string_of(&out), found)
}

/// The text with the span of the first entry named `key` replaced by `p`
/// and those of any later ones removed, and whether there was one.
fn replace_entry(t: &Vec<char>, key: &Vec<char>, p: &Vec<char>) -> (r: (Vec<char>, bool))
    ensures
        r.0@ == replaced_from(t@, key@, p@, 0, false),
        r.1 == has_match(t@, key@, false),
{
    let mut out: Vec<char> = Vec::new();
    let mut found = false;
    let mut sc = Scan { opens: 0, closes: 0, quoted: false, escaped: false };
    let mut j: usize = 0;
    while j < t.len()
        invariant
            j <= t.len(),
            sv(sc) == state_at(t@, j as int),
            out@ + replaced_from(t@, key@, p@, j as int, found) == replaced_from(t@, key@, p@, 0, false),
            !found ==> forall|k: int| 0 <= k < j ==> !is_match(t@, key@, false, k),
            found ==> has_match(t@, key@, false),
        decreases t.len() - j,
    {
        proof {
            lemma_state_bound(t@, j as int);
        }
        if match_at(t, key, false, j, sc) {
            let (e, se) = find_end(t, j, sc);
            let ghost before = out@;
            if !found {
                let mut k: usize = 0;
                while k < p.len()
                    invariant
                        k <= p.len(),
                        out@ =~= before + p@.subrange(0, k as int),
                    decreases p.len() - k,
                {
                    out.push(p[k]);
                    k = k + 1;
                }
                assert(p@.subrange(0, p.len() as int) =~= p@);
            }
            assert(before + replaced_from(t@, key@, p@, j as int, found) =~= out@ + replaced_from(
                t@,
                key@,
                p@,
                e as int,
                true,
            ));
            found = true;
            j = e;
            sc = se;
        } else {
            let ghost before = out@;
            out.push(t[j]);
            assert(before + replaced_from(t@, key@, p@, j as int, found) =~= out@ + replaced_from(
                t@,
                key@,
                p@,
                j + 1,
                found,
            ));
            sc = step_scan(sc, t[j]);
            j = j + 1;
        }
    }
    assert(out@ + seq![] =~= out@);
    (out, found)
}

/// The position of the library's closing bracket: the last `)` that closes
/// depth 1 outside quoted strings.
fn find_container_close(t: &Vec<char>) -> (r: Option<usize>)
    ensures
        match r {
            Some(c) => c as int == last_close_before(t@, t@.len() as int),
            None => last_close_before(t@, t@.len() as int) == -1,
        },
{
    let mut last: Option<usize> = None;
    let mut sc = Scan { opens: 0, closes: 0, quoted: false, escaped: false };
    let mut j: usize = 0;
    while j < t.len()
        invariant
            j <= t.len(),
            sv(sc) == state_at(t@, j as int),
            match last {
                Some(c) => c as int == last_close_before(t@, j as int),
                None => last_close_before(t@, j as int) == -1,
            },
        decreases t.len() - j,
    {
        proof {
            lemma_state_bound(t@, j as int);
        }
        if t[j] == ')' && !sc.quoted && at_top(sc) {
            last = Some(j);
        }
        sc = step_scan(sc, t[j]);
        j = j + 1;
    }
    last
}

/// Stores the symbol entry `name`, whose text is `payload`, in the text of a
/// symbol library. Where an entry of that name exists and `overwrite` is
/// false, fails with `DuplicateComponent`. Otherwise the old entry's span is
/// replaced in place by the payload, or, where there is no such entry, the
/// payload is put, as a line of its own, just before the library's closing
/// bracket. Every other character is kept, in order.
pub fn add_or_update_component(content: &str, name: &str, payload: &str, overwrite: bool) -> (r:
    Result<String, LibraryError>)
    ensures
        has_match(content@, name@, false) && !overwrite ==> (r matches Err(
            LibraryError::DuplicateComponent(s),
        ) && s@ == name@),
        !(has_match(content@, name@, false) && !overwrite) ==> (r matches Ok(v) && v@ == stored(
            content@,
            name@,
            payload@,
        )),
{
    let t = chars_of(content);
    let key = chars_of(name);
    let p = chars_of(payload);
    let (out, found) = replace_entry(&t, &key, &p);
    if found {
        if !overwrite {
            return Err(LibraryError::DuplicateComponent(String::from_str(name)));
        }
        return Ok(string_of(&out));
    }
    let mut res: Vec<char> = Vec::new();
    proof {
        lemma_close_bound(t@, t@.len() as int);
    }
    let c = match find_container_close(&t) {
        Some(c) => c,
        None => t.len(),
    };
    let mut j: usize = 0;
    while j < c
        invariant
            c <= t.len(),
            j <= c,
            res@ =~= t@.subrange(0, j as int),
        decreases c - j,
    {
        res.push(t[j]);
        j = j + 1;
    }
    res.push(' ');
    res.push(' ');
    let mut k: usize = 0;
    while k < p.len()
        invariant
            c <= t.len(),
            k <= p.len(),
            res@ =~= t@.subrange(0, c as int) + seq![' ', ' '] + p@.subrange(0, k as int),
        decreases p.len() - k,
    {
        res.push(p[k]);
        k = k + 1;
    }
    res.push('\n');
    assert(p@.subrange(0, p.len() as int) =~= p@);
    let mut m: usize = c;
    while m < t.len()
        invariant
            c <= m <= t.len(),
            res@ =~= t@.subrange(0, c as int) + entry_line(p@) + t@.subrange(c as int, m as int),
        decreases t.len() - m,
    {
        res.push(t[m]);
        m = m + 1;
    }
    assert(res@ =~= stored(content@, name@, payload@)) by {
        if c == t.len() {
            assert(t@.subrange(0, t.len() as int) =~= t@);
        }
    }
    Ok(string_of(&res))
}

proof fn lemma_close_bound(t: Seq<char>, n: int)
    requires
        0 <= n,
    ensures
        -1 <= last_close_before(t, n) < n,
    decreases n,
{
    if n > 0 {
        lemma_close_bound(t, n - 1);
    }
}

proof fn lemma_removed_none(t: Seq<char>, key: Seq<char>, within: bool, i: int)
    requires
        0 <= i <= t.len(),
        forall|k: int| !is_match(t, key, within, k),
    ensures
        removed_from(t, key, within, i) == t.subrange(i, t.len() as int),
    decreases t.len() - i,
{
    if i < t.len() {
        lemma_removed_none(t, key, within, i + 1);
        assert(t.subrange(i, t.len() as int) =~= seq![t[i]] + t.subrange(i + 1, t.len() as int));
    } else {
        assert(t.subrange(i, t.len() as int) =~= Seq::<char>::empty());
    }
}

proof fn lemma_removed_plain(t: Seq<char>, key: Seq<char>, within: bool, j: int, n: int)
    requires
        0 <= j <= n <= t.len(),
        forall|k: int| j <= k < n ==> !is_match(t, key, within, k),
    ensures
        removed_from(t, key, within, j) == t.subrange(j, n) + removed_from(t, key, within, n),
    decreases n - j,
{
    if j < n {
        lemma_removed_plain(t, key, within, j + 1, n);
        assert(t.subrange(j, n) =~= seq![t[j]] + t.subrange(j + 1, n));
    } else {
        assert(t.subrange(j, n) =~= Seq::<char>::empty());
    }
}

proof fn lemma_replaced_plain(t: Seq<char>, key: Seq<char>, p: Seq<char>, j: int, n: int, done: bool)
    requires
        0 <= j <= n <= t.len(),
        forall|k: int| j <= k < n ==> !is_match(t, key, false, k),
    ensures
        replaced_from(t, key, p, j, done) == t.subrange(j, n) + replaced_from(t, key, p, n, done),
    decreases n - j,
{
    if j < n {
        lemma_replaced_plain(t, key, p, j + 1, n, done);
        assert(t.subrange(j, n) =~= seq![t[j]] + t.subrange(j + 1, n));
    } else {
        assert(t.subrange(j, n) =~= Seq::<char>::empty());
    }
}

/// Removing the one entry that the key selects takes out exactly its span,
/// from its `(symbol` to just after its matching `)`: the text before and
/// the text after, the library's closing bracket included, are kept.
pub proof fn lemma_remove_exact_span(t: Seq<char>, key: Seq<char>, within: bool, i: int)
    requires
        is_match(t, key, within, i),
        forall|k: int| k != i ==> !is_match(t, key, within, k),
    ensures
        i < entry_end(t, i) <= t.len(),
        removed_from(t, key, within, 0) == t.subrange(0, i) + t.subrange(
            entry_end(t, i),
            t.len() as int,
        ),
{
    lemma_end_bounds(t, i + 1);
    let e = entry_end(t, i);
    lemma_removed_plain(t, key, within, 0, i);
    lemma_removed_plain(t, key, within, e, t.len() as int);
    assert(removed_from(t, key, within, t.len() as int) =~= Seq::<char>::empty());
    assert(t.subrange(e, t.len() as int) + Seq::<char>::empty() =~= t.subrange(e, t.len() as int));
}

/// Overwriting the one entry named `key` puts `p` exactly where its span
/// stood: the text before and the text after are kept.
pub proof fn lemma_overwrite_in_place(t: Seq<char>, key: Seq<char>, p: Seq<char>, i: int)
    requires
        is_match(t, key, false, i),
        forall|k: int| k != i ==> !is_match(t, key, false, k),
    ensures
        i < entry_end(t, i) <= t.len(),
        stored(t, key, p) == t.subrange(0, i) + p + t.subrange(entry_end(t, i), t.len() as int),
{
    lemma_end_bounds(t, i + 1);
    let e = entry_end(t, i);
    assert(has_match(t, key, false));
    lemma_replaced_plain(t, key, p, 0, i, false);
    lemma_replaced_plain(t, key, p, e, t.len() as int, true);
    assert(replaced_from(t, key, p, t.len() as int, true) =~= Seq::<char>::empty());
    assert(t.subrange(0, i) + (p + (t.subrange(e, t.len() as int) + Seq::<char>::empty())) =~= t.subrange(0, i) + p + t.subrange(e, t.len() as int));
}

/// The scan after the characters `b`, from the state `s`.
pub open spec fn run_scan(s: ScanState, b: Seq<char>) -> ScanState
    decreases b.len(),
{
    if b.len() == 0 {
        s
    } else {
        step(run_scan(s, b.drop_last()), b.last())
    }
}

/// Every bracket of `t` outside quoted strings is matched, and `t` ends
/// outside any quoted string.
pub open spec fn balanced(t: Seq<char>) -> bool {
    depth(state_at(t, t.len() as int)) == 0 && !state_at(t, t.len() as int).quoted
}

spec fn shift(s: ScanState, k: nat) -> ScanState {
    ScanState { opens: s.opens + k, closes: s.closes + k, ..s }
}

proof fn lemma_state_is_run(t: Seq<char>, i: int)
    requires
        0 <= i <= t.len(),
    ensures
        state_at(t, i) == run_scan(scan_start(), t.subrange(0, i)),
    decreases i,
{
    if i > 0 {
        lemma_state_is_run(t, i - 1);
        assert(t.subrange(0, i).drop_last() =~= t.subrange(0, i - 1));
    } else {
        assert(t.subrange(0, i) =~= Seq::<char>::empty());
    }
}

proof fn lemma_run_concat(s: ScanState, a: Seq<char>, b: Seq<char>)
    ensures
        run_scan(s, a + b) == run_scan(run_scan(s, a), b),
    decreases b.len(),
{
    if b.len() == 0 {
        assert(a + b =~= a);
    } else {
        lemma_run_concat(s, a, b.drop_last());
        assert((a + b).drop_last() =~= a + b.drop_last());
        assert((a + b).last() == b.last());
    }
}

proof fn lemma_run_shift(s: ScanState, k: nat, b: Seq<char>)
    ensures
        run_scan(shift(s, k), b) == shift(run_scan(s, b), k),
    decreases b.len(),
{
    if b.len() > 0 {
        lemma_run_shift(s, k, b.drop_last());
    }
}

proof fn lemma_opens_grow(t: Seq<char>, a: int, b: int)
    requires
        0 <= a <= b <= t.len(),
    ensures
        state_at(t, a).opens <= state_at(t, b).opens,
    decreases b - a,
{
    if a < b {
        lemma_opens_grow(t, a, b - 1);
    }
}

proof fn lemma_end_inside(t: Seq<char>, i: int, j: int)
    requires
        0 <= i < t.len(),
        i + 1 <= j <= end_from(t, i + 1),
        j <= t.len(),
    ensures
        end_from(t, j) == end_from(t, i + 1),
    decreases j - i,
{
    if j > i + 1 {
        lemma_end_inside(t, i, j - 1);
    }
}

proof fn lemma_end_stops(t: Seq<char>, j: int)
    requires
        0 <= j <= t.len(),
        end_from(t, j) < t.len(),
    ensures
        depth(state_at(t, end_from(t, j))) <= 1,
    decreases t.len() - j,
{
    if depth(state_at(t, j)) > 1 {
        lemma_end_stops(t, j + 1);
    }
}

/// Removing the one entry that the key selects from a balanced library
/// leaves it balanced: the library's own brackets all stay.
pub proof fn lemma_remove_keeps_balance(t: Seq<char>, key: Seq<char>, within: bool, i: int)
    requires
        balanced(t),
        is_match(t, key, within, i),
        forall|k: int| k != i ==> !is_match(t, key, within, k),
    ensures
        balanced(removed_from(t, key, within, 0)),
{
    lemma_remove_exact_span(t, key, within, i);
    let e = entry_end(t, i);
    let n = t.len() as int;
    let si = state_at(t, i);
    lemma_state_bound(t, i);
    assert(t.subrange(i, i + 9) == entry_marker());
    assert(t[i] == t.subrange(i, i + 9)[0]);
    assert(depth(state_at(t, i + 1)) == 2);
    // every position inside the entry is at depth 2 or more
    assert forall|j: int| i + 1 <= j < e implies depth(#[trigger] state_at(t, j)) >= 2 by {
        lemma_end_inside(t, i, j);
    }
    if e == n {
        if n - 1 >= i + 1 {
            assert(depth(state_at(t, n - 1)) >= 2);
        }
        assert(depth(state_at(t, n)) >= 1);
        assert(false);
    }
    lemma_end_stops(t, i + 1);
    assert(e >= i + 2);
    assert(depth(state_at(t, e - 1)) >= 2);
    lemma_state_bound(t, e - 1);
    let se = state_at(t, e);
    assert(depth(se) == 1 && !se.quoted && !se.escaped);
    lemma_opens_grow(t, i, e);
    let k = (se.opens - si.opens) as nat;
    assert(se == shift(si, k));
    let r = t.subrange(0, i) + t.subrange(e, n);
    let rest = t.subrange(e, n);
    lemma_state_is_run(r, r.len() as int);
    assert(r.subrange(0, r.len() as int) =~= r);
    lemma_run_concat(scan_start(), t.subrange(0, i), rest);
    lemma_state_is_run(t, i);
    lemma_state_is_run(t, e);
    lemma_state_is_run(t, n);
    assert(t.subrange(0, n) =~= t.subrange(0, e) + rest);
    lemma_run_concat(scan_start(), t.subrange(0, e), rest);
    lemma_run_shift(si, k, rest);
}

/// The footprint file suffix.
pub open spec fn footprint_ext() -> Seq<char> {
    seq!['.', 'k', 'i', 'c', 'a', 'd', '_', 'm', 'o', 'd']
}

/// A footprint file of the component `id`: its name holds `id` and ends in `.kicad_mod`.
pub open spec fn footprint_file_of(name: Seq<char>, id: Seq<char>) -> bool {
    contains(name, id) && has_suffix(name, footprint_ext())
}

/// A 3D-model file of the component `id`: its name holds `id` and ends in
/// `.step` or `.wrl`.
pub open spec fn model_file_of(name: Seq<char>, id: Seq<char>) -> bool {
    contains(name, id) && (has_suffix(name, seq!['.', 's', 't', 'e', 'p']) || has_suffix(
        name,
        seq!['.', 'w', 'r', 'l'],
    ))
}

/// Whether the file `file_name` is a footprint of the component `lcsc_id`.
pub fn is_footprint_file_for(file_name: &str, lcsc_id: &str) -> (r: bool)
    ensures
        r == footprint_file_of(file_name@, lcsc_id@),
{
    let n = chars_of(file_name);
    let id = chars_of(lcsc_id);
    let ext = vec!['.', 'k', 'i', 'c', 'a', 'd', '_', 'm', 'o', 'd'];
    assert(ext@ =~= footprint_ext());
    contains_seq(&n, &id) && ends_with(&n, &ext)
}

/// Whether the file `file_name` is a 3D model of the component `lcsc_id`.
pub fn is_model_file_for(file_name: &str, lcsc_id: &str) -> (r: bool)
    ensures
        r == model_file_of(file_name@, lcsc_id@),
{
    let n = chars_of(file_name);
    let id = chars_of(lcsc_id);
    let step = vec!['.', 's', 't', 'e', 'p'];
    let wrl = vec!['.', 'w', 'r', 'l'];
    assert(step@ =~= seq!['.', 's', 't', 'e', 'p']);
    assert(wrl@ =~= seq!['.', 'w', 'r', 'l']);
    contains_seq(&n, &id) && (ends_with(&n, &step) || ends_with(&n, &wrl))
}

proof fn lemma_filter_step(s: Seq<Seq<char>>, x: Seq<char>, f: spec_fn(Seq<char>) -> bool)
    ensures
        s.push(x).filter(f) == (if f(x) { s.filter(f).push(x) } else { s.filter(f) }),
{
    reveal(Seq::filter);
    assert(s.push(x).drop_last() =~= s);
}

/// The footprint files among `names` that belong to the component `lcsc_id`.
pub fn select_footprint_files(names: &Vec<String>, lcsc_id: &str) -> (r: Vec<String>)
    ensures
        r.deep_view() == names.deep_view().filter(|n: Seq<char>| footprint_file_of(n, lcsc_id@)),
{
    let ghost f = |n: Seq<char>| footprint_file_of(n, lcsc_id@);
    let mut out: Vec<String> = Vec::new();
    let mut i: usize = 0;
    while i < names.len()
        invariant
            i <= names.len(),
            f == (|n: Seq<char>| footprint_file_of(n, lcsc_id@)),
            out.deep_view() == names.deep_view().subrange(0, i as int).filter(f),
        decreases names.len() - i,
    {
        let keep = is_footprint_file_for(names[i].as_str(), lcsc_id);
        let ghost before = out.deep_view();
        proof {
            lemma_filter_step(names.deep_view().subrange(0, i as int), names.deep_view()[i as int], f);
            assert(names.deep_view().subrange(0, i + 1) =~= names.deep_view().subrange(0, i as int).push(
                names.deep_view()[i as int],
            ));
        }
        if keep {
            out.push(names[i].clone());
            assert(out.deep_view() =~= before.push(names.deep_view()[i as int]));
        }
        i = i + 1;
    }
    assert(names.deep_view().subrange(0, i as int) =~= names.deep_view());
    out
}

/// The 3D-model files among `names` that belong to the component `lcsc_id`.
pub fn select_model_files(names: &Vec<String>, lcsc_id: &str) -> (r: Vec<String>)
    ensures
        r.deep_view() == names.deep_view().filter(|n: Seq<char>| model_file_of(n, lcsc_id@)),
{
    let ghost f = |n: Seq<char>| model_file_of(n, lcsc_id@);
    let mut out: Vec<String> = Vec::new();
    let mut i: usize = 0;
    while i < names.len()
        invariant
            i <= names.len(),
            f == (|n: Seq<char>| model_file_of(n, lcsc_id@)),
            out.deep_view() == names.deep_view().subrange(0, i as int).filter(f),
        decreases names.len() - i,
    {
        let keep = is_model_file_for(names[i].as_str(), lcsc_id);
        let ghost before = out.deep_view();
        proof {
            lemma_filter_step(names.deep_view().subrange(0, i as int), names.deep_view()[i as int], f);
            assert(names.deep_view().subrange(0, i + 1) =~= names.deep_view().subrange(0, i as int).push(
                names.deep_view()[i as int],
            ));
        }
        if keep {
            out.push(names[i].clone());
            assert(out.deep_view() =~= before.push(names.deep_view()[i as int]));
        }
        i = i + 1;
    }
    assert(names.deep_view().subrange(0, i as int) =~= names.deep_view());
    out
}

proof fn lemma_filter_none(s: Seq<Seq<char>>, f: spec_fn(Seq<char>) -> bool)
    requires
        forall|i: int| 0 <= i < s.len() ==> !f(s[i]),
    ensures
        s.filter(f).len() == 0,
    decreases s.len(),
{
    if s.len() > 0 {
        lemma_filter_none(s.drop_last(), f);
        lemma_filter_step(s.drop_last(), s.last(), f);
        assert(s.drop_last().push(s.last()) =~= s);
    }
}

/// Removing a component that the library does not hold removes nothing:
/// the symbol library text stays as it is and no footprint or 3D-model file
/// is selected.
pub proof fn lemma_absent_component_removes_nothing(
    t: Seq<char>,
    footprint_names: Seq<Seq<char>>,
    model_names: Seq<Seq<char>>,
    id: Seq<char>,
)
    requires
        !has_match(t, id, true),
        forall|i: int| 0 <= i < footprint_names.len() ==> !contains(footprint_names[i], id),
        forall|i: int| 0 <= i < model_names.len() ==> !contains(model_names[i], id),
    ensures
        removed_from(t, id, true, 0) == t,
        footprint_names.filter(|n: Seq<char>| footprint_file_of(n, id)).len() == 0,
        model_names.filter(|n: Seq<char>| model_file_of(n, id)).len() == 0,
{
    lemma_removed_none(t, id, true, 0);
    assert(t.subrange(0, t.len() as int) =~= t);
    lemma_filter_none(footprint_names, |n: Seq<char>| footprint_file_of(n, id));
    lemma_filter_none(model_names, |n: Seq<char>| model_file_of(n, id));
}

/// What a removal did: entries and files removed per artifact class, and the
/// failures met on the way.
pub struct RemovalReport {
    /// 1 where the symbol library held entries of the component, else 0.
    pub symbols: usize,
    pub footprints: usize,
    pub models: usize,
    /// The failures, in the order met.
    pub errors: Vec<String>,
}

impl RemovalReport {
    /// How many entries and files were removed in all.
    pub open spec fn removed(&self) -> int {
        self.symbols + self.footprints + self.models
    }

    /// Nothing removed and nothing failed yet.
    pub fn new() -> (r: RemovalReport)
        ensures
            r.symbols == 0 && r.footprints == 0 && r.models == 0,
            r.errors@.len() == 0,
    {
        RemovalReport { symbols: 0, footprints: 0, models: 0, errors: Vec::new() }
    }

    /// Records the outcome of removing the symbol entries: whether any was
    /// found, or the failure.
    pub fn record_symbols(&mut self, outcome: Result<bool, String>)
        ensures
            final(self).footprints == old(self).footprints,
            final(self).models == old(self).models,
            match outcome {
                Ok(found) => final(self).symbols == (if found { 1usize } else { old(self).symbols })
                    && final(self).errors@ == old(self).errors@,
                Err(e) => final(self).symbols == old(self).symbols && final(self).errors@
                    == old(self).errors@.push(e),
            },
    {
        match outcome {
            Ok(found) => {
                if found {
                    self.symbols = 1;
                }
            },
            Err(e) => self.errors.push(e),
        }
    }

    /// Records the outcome of removing footprint files: how many, or the failure.
    pub fn record_footprints(&mut self, outcome: Result<usize, String>)
        ensures
            final(self).symbols == old(self).symbols,
            final(self).models == old(self).models,
            match outcome {
                Ok(n) => final(self).footprints == n && final(self).errors@ == old(self).errors@,
                Err(e) => final(self).footprints == old(self).footprints && final(self).errors@
                    == old(self).errors@.push(e),
            },
    {
        match outcome {
            Ok(n) => self.footprints = n,
            Err(e) => self.errors.push(e),
        }
    }

    /// Records the outcome of removing 3D-model files: how many, or the failure.
    pub fn record_models(&mut self, outcome: Result<usize, String>)
        ensures
            final(self).symbols == old(self).symbols,
            final(self).footprints == old(self).footprints,
            match outcome {
                Ok(n) => final(self).models == n && final(self).errors@ == old(self).errors@,
                Err(e) => final(self).models == old(self).models && final(self).errors@
                    == old(self).errors@.push(e),
            },
    {
        match outcome {
            Ok(n) => self.models = n,
            Err(e) => self.errors.push(e),
        }
    }

    /// How many entries and files were removed in all, where that fits in a `usize`.
    pub fn total_removed(&self) -> (r: Option<usize>)
        ensures
            match r {
                Some(n) => n == self.removed(),
                None => self.removed() > usize::MAX,
            },
    {
        match self.symbols.checked_add(self.footprints) {
            Some(a) => a.checked_add(self.models),
            None => None,
        }
    }
}

} // verus!
