use vstd::prelude::*;
use crate::components::Tile;

verus! {

/// A parsed map cell: its tile type and grid coordinates (column `x`, row `y`).
#[derive(Clone, Copy, Debug, PartialEq, Eq, Structural)]
pub struct Placed {
    pub tile: Tile,
    pub x: usize,
    pub y: usize,
}

/// Why a map text could not be loaded.
#[derive(Clone, Debug, PartialEq, Eq)]
pub enum MapError {
    /// A token that names no tile, with its row and column (both counted from zero).
    UnrecognizedToken { token: String, row: usize, column: usize },
}

/// A token that names no tile, as (token, row, column).
pub type BadToken = (Seq<char>, int, int);

/// Unicode white space, as `char::is_whitespace` decides it.
pub open spec fn is_ws(c: char) -> bool {
    let u = c as u32;
    (0x09 <= u && u <= 0x0D) || u == 0x20 || u == 0x85 || u == 0xA0 || u == 0x1680 || (0x2000
        <= u && u <= 0x200A) || u == 0x2028 || u == 0x2029 || u == 0x202F || u == 0x205F || u
        == 0x3000
}

pub open spec fn trim_start(s: Seq<char>) -> Seq<char>
    decreases s.len(),
{
    if s.len() > 0 && is_ws(s[0]) {
        trim_start(s.drop_first())
    } else {
        s
    }
}

pub open spec fn trim_end(s: Seq<char>) -> Seq<char>
    decreases s.len(),
{
    if s.len() > 0 && is_ws(s.last()) {
        trim_end(s.drop_last())
    } else {
        s
    }
}

/// `s` without leading and trailing white space.
pub open spec fn trim(s: Seq<char>) -> Seq<char> {
    trim_end(trim_start(s))
}

/// The pieces of `s` between occurrences of `sep`; always at least one piece.
pub open spec fn split(s: Seq<char>, sep: char) -> Seq<Seq<char>>
    decreases s.len(),
{
    if s.len() == 0 {
        seq![Seq::empty()]
    } else {
        let p = split(s.drop_last(), sep);
        if s.last() == sep {
            p.push(Seq::empty())
        } else {
            p.update(p.len() - 1, p.last().push(s.last()))
        }
    }
}

/// The rows of a map text: the trimmed text cut at each line feed.
pub open spec fn map_rows(text: Seq<char>) -> Seq<Seq<char>> {
    split(trim(text), '\n')
}

/// The tokens of one row: the trimmed row cut at each space.
pub open spec fn row_tokens(row: Seq<char>) -> Seq<Seq<char>> {
    split(trim(row), ' ')
}

pub open spec fn tile_of(t: Seq<char>) -> Option<Tile> {
    if t.len() != 1 {
        None
    } else if t[0] == '.' {
        Some(Tile::Floor)
    } else if t[0] == 'W' {
        Some(Tile::Wall)
    } else if t[0] == 'P' {
        Some(Tile::Player)
    } else if t[0] == 'B' {
        Some(Tile::Box)
    } else if t[0] == 'S' {
        Some(Tile::Spot)
    } else if t[0] == 'N' {
        Some(Tile::Empty)
    } else {
        None
    }
}

/// The cells of row `y`, left to right, or the first token that names no tile.
pub open spec fn parse_row(toks: Seq<Seq<char>>, y: int) -> Result<Seq<Placed>, BadToken>
    decreases toks.len(),
{
    if toks.len() == 0 {
        Ok(Seq::empty())
    } else {
        match parse_row(toks.drop_last(), y) {
            Err(e) => Err(e),
            Ok(p) => match tile_of(toks.last()) {
                None => Err((toks.last(), y, toks.len() - 1)),
                Some(t) => Ok(p.push(Placed { tile: t, x: (toks.len() - 1) as usize, y: y as usize })),
            },
        }
    }
}

/// The cells of all rows in row-major order, or the first token that names no tile.
pub open spec fn parse_rows(rows: Seq<Seq<char>>) -> Result<Seq<Placed>, BadToken>
    decreases rows.len(),
{
    if rows.len() == 0 {
        Ok(Seq::empty())
    } else {
        match parse_rows(rows.drop_last()) {
            Err(e) => Err(e),
            Ok(p) => match parse_row(row_tokens(rows.last()), rows.len() - 1) {
                Err(e) => Err(e),
                Ok(q) => Ok(p + q),
            },
        }
    }
}

/// What a map text describes.
pub open spec fn parse_text(text: Seq<char>) -> Result<Seq<Placed>, BadToken> {
    parse_rows(map_rows(text))
}

/// The executable result `r` is the one that `s` describes.
pub open spec fn result_is(r: Result<Vec<Placed>, MapError>, s: Result<Seq<Placed>, BadToken>) -> bool {
    match r {
        Ok(v) => s == Ok::<Seq<Placed>, BadToken>(v@),
        Err(MapError::UnrecognizedToken { token, row, column }) => s == Err::<Seq<Placed>, BadToken>(
            (token@, row as int, column as int),
        ),
    }
}

pub open spec fn ranges_view(s: Seq<char>, rs: Seq<(usize, usize)>) -> Seq<Seq<char>> {
    rs.map_values(|p: (usize, usize)| s.subrange(p.0 as int, p.1 as int))
}

/// Relies on `Iterator::collect` over `str::chars`: the characters of `s` in order.
#[verifier::external_body]
fn chars_of(s: &str) -> (r: Vec<char>)
    ensures
        r@ == s@,
{
    s.chars().collect()
}

/// Relies on `Iterator::collect` into a `String`: the characters of `cs` in order.
#[verifier::external_body]
fn string_of(cs: &Vec<char>) -> (r: String)
    ensures
        r@ == cs@,
{
    cs.iter().collect()
}

fn is_white(c: char) -> (r: bool)
    ensures
        r == is_ws(c),
{
    let u = c as u32;
    (0x09 <= u && u <= 0x0D) || u == 0x20 || u == 0x85 || u == 0xA0 || u == 0x1680 || (0x2000
        <= u && u <= 0x200A) || u == 0x2028 || u == 0x2029 || u == 0x202F || u == 0x205F || u
        == 0x3000
}

/// The bounds of `cs[lo..hi]` with white space trimmed from both ends.
fn trim_range(cs: &Vec<char>, lo: usize, hi: usize) -> (r: (usize, usize))
    requires
        lo <= hi <= cs.len(),
    ensures
        lo <= r.0 <= r.1 <= hi,
        cs@.subrange(r.0 as int, r.1 as int) == trim(cs@.subrange(lo as int, hi as int)),
{
    let mut a: usize = lo;
    while a < hi && is_white(cs[a])
        invariant
            lo <= a <= hi,
            hi <= cs.len(),
            trim_start(cs@.subrange(lo as int, hi as int)) == trim_start(
                cs@.subrange(a as int, hi as int),
            ),
        decreases hi - a,
    {
        assert(cs@.subrange(a as int, hi as int).drop_first() =~= cs@.subrange(a + 1, hi as int));
        a = a + 1;
    }
    assert(trim_start(cs@.subrange(lo as int, hi as int)) == cs@.subrange(a as int, hi as int));
    let mut b: usize = hi;
    while b > a && is_white(cs[b - 1])
        invariant
            lo <= a <= b <= hi,
            hi <= cs.len(),
            trim_end(cs@.subrange(a as int, hi as int)) == trim_end(
                cs@.subrange(a as int, b as int),
            ),
        decreases b - a,
    {
        assert(cs@.subrange(a as int, b as int).drop_last() =~= cs@.subrange(a as int, b - 1));
        b = b - 1;
    }
    (a, b)
}

/// The bounds of the pieces of `cs[lo..hi]` between occurrences of `sep`.
fn split_ranges(cs: &Vec<char>, lo: usize, hi: usize, sep: char) -> (r: Vec<(usize, usize)>)
    requires
        lo <= hi <= cs.len(),
    ensures
        ranges_view(cs@, r@) == split(cs@.subrange(lo as int, hi as int), sep),
        forall|k: int| 0 <= k < r.len() ==> lo <= #[trigger] r@[k].0 <= r@[k].1 <= hi,
{
    let mut rs: Vec<(usize, usize)> = Vec::new();
    let mut start: usize = lo;
    let mut i: usize = lo;
    assert(cs@.subrange(lo as int, lo as int) =~= Seq::<char>::empty());
    assert(ranges_view(cs@, rs@).push(cs@.subrange(start as int, i as int)) =~= seq![
        Seq::<char>::empty(),
    ]);
    while i < hi
        invariant
            lo <= start <= i <= hi,
            hi <= cs.len(),
            forall|k: int| 0 <= k < rs.len() ==> lo <= #[trigger] rs@[k].0 <= rs@[k].1 <= hi,
            ranges_view(cs@, rs@).push(cs@.subrange(start as int, i as int)) == split(
                cs@.subrange(lo as int, i as int),
                sep,
            ),
        decreases hi - i,
    {
        let ghost prev = ranges_view(cs@, rs@);
        let ghost s = cs@.subrange(lo as int, i + 1);
        assert(s.drop_last() =~= cs@.subrange(lo as int, i as int));
        assert(s.last() == cs@[i as int]);
        if cs[i] == sep {
            rs.push((start, i));
            assert(ranges_view(cs@, rs@) =~= prev.push(cs@.subrange(start as int, i as int)));
            start = i + 1;
            assert(cs@.subrange(start as int, i + 1) =~= Seq::<char>::empty());
        } else {
            assert(cs@.subrange(start as int, i + 1) =~= cs@.subrange(start as int, i as int).push(
                cs@[i as int],
            ));
            assert(prev.push(cs@.subrange(start as int, i + 1)) =~= prev.push(
                cs@.subrange(start as int, i as int),
            ).update(prev.len() as int, cs@.subrange(start as int, i as int).push(cs@[i as int])));
        }
        i = i + 1;
    }
    let ghost prev = ranges_view(cs@, rs@);
    rs.push((start, hi));
    assert(ranges_view(cs@, rs@) =~= prev.push(cs@.subrange(start as int, hi as int)));
    rs
}


/// The tile that the token `cs[a..b]` names, if any.
fn tile_of_range(cs: &Vec<char>, a: usize, b: usize) -> (r: Option<Tile>)
    requires
        a <= b <= cs.len(),
    ensures
        r == tile_of(cs@.subrange(a as int, b as int)),
{
    if b - a != 1 {
        return None;
    }
    let c = cs[a];
    if c == '.' {
        Some(Tile::Floor)
    } else if c == 'W' {
        Some(Tile::Wall)
    } else if c == 'P' {
        Some(Tile::Player)
    } else if c == 'B' {
        Some(Tile::Box)
    } else if c == 'S' {
        Some(Tile::Spot)
    } else if c == 'N' {
        Some(Tile::Empty)
    } else {
        None
    }
}

/// A copy of `cs[a..b]`.
fn copy_range(cs: &Vec<char>, a: usize, b: usize) -> (r: Vec<char>)
    requires
        a <= b <= cs.len(),
    ensures
        r@ == cs@.subrange(a as int, b as int),
{
    let mut out: Vec<char> = Vec::new();
    let mut i: usize = a;
    while i < b
        invariant
            a <= i <= b <= cs.len(),
            out@ == cs@.subrange(a as int, i as int),
        decreases b - i,
    {
        out.push(cs[i]);
        assert(out@ =~= cs@.subrange(a as int, i + 1));
        i = i + 1;
    }
    out
}

/// Parses the row `cs[lo..hi]`, which is row `y` of the map.
fn parse_row_range(cs: &Vec<char>, lo: usize, hi: usize, y: usize) -> (r: Result<Vec<Placed>, MapError>)
    requires
        lo <= hi <= cs.len(),
        y < usize::MAX,
    ensures
        r matches Ok(v) ==> forall|i: int| 0 <= i < v.len() ==> #[trigger] v@[i].x < usize::MAX && v@[i].y < usize::MAX,
        result_is(r, parse_row(row_tokens(cs@.subrange(lo as int, hi as int)), y as int)),
{
    let (a, b) = trim_range(cs, lo, hi);
    let toks = split_ranges(cs, a, b, ' ');
    let ghost tv = ranges_view(cs@, toks@);
    assert(tv == row_tokens(cs@.subrange(lo as int, hi as int)));
    let mut out: Vec<Placed> = Vec::new();
    let mut k: usize = 0;
    assert(tv.take(0) =~= Seq::<Seq<char>>::empty());
    while k < toks.len()
        invariant
            k <= toks.len(),
            tv == ranges_view(cs@, toks@),
            tv == row_tokens(cs@.subrange(lo as int, hi as int)),
            forall|j: int| 0 <= j < toks.len() ==> #[trigger] toks@[j].0 <= toks@[j].1 <= cs.len(),
            parse_row(tv.take(k as int), y as int) == Ok::<Seq<Placed>, BadToken>(out@),
            y < usize::MAX,
            forall|i: int| 0 <= i < out.len() ==> #[trigger] out@[i].x < usize::MAX && out@[i].y < usize::MAX,
        decreases toks.len() - k,
    {
        let (ta, tb) = toks[k];
        assert(toks@[k as int].0 <= toks@[k as int].1 <= cs.len());
        assert(tv.take(k + 1).drop_last() =~= tv.take(k as int));
        assert(tv.take(k + 1).last() == cs@.subrange(ta as int, tb as int));
        match tile_of_range(cs, ta, tb) {
            None => {
                let token_chars = copy_range(cs, ta, tb);
                let token = string_of(&token_chars);
                assert(parse_row(tv.take(k + 1), y as int) == Err::<Seq<Placed>, BadToken>(
                    (token@, y as int, k as int),
                ));
                assert(parse_row(tv, y as int) == Err::<Seq<Placed>, BadToken>(
                    (token@, y as int, k as int),
                )) by {
                    lemma_parse_row_err_prefix(tv, k as int + 1, y as int);
                }
                return Err(MapError::UnrecognizedToken { token, row: y, column: k });
            },
            Some(t) => {
                out.push(Placed { tile: t, x: k, y });
            },
        }
        k = k + 1;
    }
    assert(tv.take(k as int) =~= tv);
    Ok(out)
}

/// An error in the first `n` tokens of a row is the row's error.
proof fn lemma_parse_row_err_prefix(toks: Seq<Seq<char>>, n: int, y: int)
    requires
        0 <= n <= toks.len(),
        parse_row(toks.take(n), y) is Err,
    ensures
        parse_row(toks, y) == parse_row(toks.take(n), y),
    decreases toks.len() - n,
{
    if n < toks.len() {
        assert(toks.take(n + 1).drop_last() =~= toks.take(n));
        lemma_parse_row_err_prefix(toks, n + 1, y);
    } else {
        assert(toks.take(n) =~= toks);
    }
}

/// An error in the first `n` rows is the map's error.
proof fn lemma_parse_rows_err_prefix(rows: Seq<Seq<char>>, n: int)
    requires
        0 <= n <= rows.len(),
        parse_rows(rows.take(n)) is Err,
    ensures
        parse_rows(rows) == parse_rows(rows.take(n)),
    decreases rows.len() - n,
{
    if n < rows.len() {
        assert(rows.take(n + 1).drop_last() =~= rows.take(n));
        lemma_parse_rows_err_prefix(rows, n + 1);
    } else {
        assert(rows.take(n) =~= rows);
    }
}

/// Parses a map text into its cells, in row-major order. Rows are separated by line feeds
/// and tokens within a row by single spaces; the text and each row are trimmed first.
pub fn parse_map(text: &str) -> (r: Result<Vec<Placed>, MapError>)
    ensures
        r matches Ok(v) ==> forall|i: int| 0 <= i < v.len() ==> #[trigger] v@[i].x < usize::MAX && v@[i].y < usize::MAX,
        result_is(r, parse_text(text@)),
{
    let cs = chars_of(text);
    let (a, b) = trim_range(&cs, 0, cs.len());
    proof {
        assert(cs@.subrange(0, cs@.len() as int) =~= text@);
    }
    let rows = split_ranges(&cs, a, b, '\n');
    let ghost rv = ranges_view(cs@, rows@);
    assert(rv == map_rows(text@));
    let mut out: Vec<Placed> = Vec::new();
    let mut y: usize = 0;
    assert(rv.take(0) =~= Seq::<Seq<char>>::empty());
    while y < rows.len()
        invariant
            y <= rows.len(),
            rv == ranges_view(cs@, rows@),
            rv == map_rows(text@),
            forall|j: int| 0 <= j < rows.len() ==> #[trigger] rows@[j].0 <= rows@[j].1 <= cs.len(),
            parse_rows(rv.take(y as int)) == Ok::<Seq<Placed>, BadToken>(out@),
            forall|i: int| 0 <= i < out.len() ==> #[trigger] out@[i].x < usize::MAX && out@[i].y < usize::MAX,
        decreases rows.len() - y,
    {
        let (ra, rb) = rows[y];
        assert(rows@[y as int].0 <= rows@[y as int].1 <= cs.len());
        assert(rv.take(y + 1).drop_last() =~= rv.take(y as int));
        assert(rv.take(y + 1).last() == cs@.subrange(ra as int, rb as int));
        match parse_row_range(&cs, ra, rb, y) {
            Err(e) => {
                assert(parse_rows(rv.take(y + 1)) is Err);
                proof {
                    lemma_parse_rows_err_prefix(rv, y as int + 1);
                }
                return Err(e);
            },
            Ok(mut v) => {
                let ghost before = out@;
                out.append(&mut v);
                assert(out@ == before + parse_row(row_tokens(rv[y as int]), y as int)->Ok_0);
            },
        }
        y = y + 1;
    }
    assert(rv.take(y as int) =~= rv);
    Ok(out)
}

} // verus!
