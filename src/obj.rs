use vstd::prelude::*;
use vstd::slice::slice_subrange;
use vstd::string::StringSliceAdditionalSpecFns;
use vstd::utf8::encode_utf8;

verus! {

/// Index parsing saturates at this bound: any magnitude past it is out of
/// the `i32` range on either side.
const SATURATION: i64 = 2147483649;

pub open spec fn is_digit(b: u8) -> bool {
    48 <= b <= 57
}

pub open spec fn all_digits(d: Seq<u8>) -> bool {
    forall|k: int| 0 <= k < d.len() ==> is_digit(#[trigger] d[k])
}

/// The number that a run of decimal digits writes.
pub open spec fn digits_value(d: Seq<u8>) -> int
    decreases d.len(),
{
    if d.len() == 0 {
        0
    } else {
        digits_value(d.drop_last()) * 10 + (d.last() - 48)
    }
}

pub open spec fn has_sign(s: Seq<u8>) -> bool {
    s.len() > 0 && (s[0] == 45 || s[0] == 43)
}

/// The digits of `s` after an optional sign.
pub open spec fn unsigned_part(s: Seq<u8>) -> Seq<u8> {
    if has_sign(s) { s.drop_first() } else { s }
}

/// An index field read as a decimal `i32`: an optional `+` or `-`, then one
/// or more digits. Any other text, and any value outside `i32`, reads as 0.
pub open spec fn index_value(s: Seq<u8>) -> i32 {
    let d = unsigned_part(s);
    let v = if s.len() > 0 && s[0] == 45 { -digits_value(d) } else { digits_value(d) };
    if d.len() > 0 && all_digits(d) && i32::MIN <= v <= i32::MAX {
        v as i32
    } else {
        0
    }
}

/// Reads an index field, as `index_value` says.
pub fn parse_index(field: &[u8]) -> (r: i32)
    ensures
        r == index_value(field@),
{
    let n: usize = field.len();
    if n == 0 {
        return 0;
    }
    let negative: bool = field[0] == 45;
    let start: usize = if field[0] == 45 || field[0] == 43 { 1 } else { 0 };
    let ghost d = unsigned_part(field@);
    assert(d =~= field@.subrange(start as int, n as int));
    if start == n {
        return 0;
    }
    let mut i: usize = start;
    let mut acc: i64 = 0;
    while i < n
        invariant
            start <= i <= n,
            n == field@.len(),
            d == field@.subrange(start as int, n as int),
            d == unsigned_part(field@),
            all_digits(field@.subrange(start as int, i as int)),
            0 <= acc <= SATURATION,
            acc == if digits_value(field@.subrange(start as int, i as int)) < SATURATION {
                digits_value(field@.subrange(start as int, i as int))
            } else {
                SATURATION as int
            },
        decreases n - i,
    {
        let b: u8 = field[i];
        let ghost pre = field@.subrange(start as int, i as int);
        let ghost post = field@.subrange(start as int, i + 1);
        assert(post.drop_last() =~= pre);
        if b < 48 || b > 57 {
            assert(d[i - start] == b);
            assert(!is_digit(d[i - start]));
            return 0;
        }
        proof {
            assert(digits_value(pre) >= 0) by {
                lemma_digits_value_nonneg(pre);
            }
        }
        acc = acc * 10 + (b - 48) as i64;
        if acc > SATURATION {
            acc = SATURATION;
        }
        i = i + 1;
    }
    assert(field@.subrange(start as int, n as int) =~= d);
    assert(d.len() > 0 && all_digits(d));
    if negative {
        if acc <= 2147483648 {
            (0 - acc) as i32
        } else {
            0
        }
    } else {
        if acc <= 2147483647 {
            acc as i32
        } else {
            0
        }
    }
}

proof fn lemma_digits_value_nonneg(d: Seq<u8>)
    requires
        all_digits(d),
    ensures
        digits_value(d) >= 0,
    decreases d.len(),
{
    if d.len() > 0 {
        assert(is_digit(d[d.len() - 1]));
        assert(all_digits(d.drop_last()));
        lemma_digits_value_nonneg(d.drop_last());
    }
}

/// A face index made zero-based: `k > 0` is the `k`-th element (1-based);
/// `k < 0` counts back from the `count` elements read so far; 0 names none.
/// The result may lie outside `0..count`: such a face is rejected when it is
/// triangulated.
pub open spec fn resolved(raw: i32, count: int) -> Option<int> {
    if raw > 0 {
        Some(raw - 1)
    } else if raw < 0 {
        Some(count + raw)
    } else {
        None
    }
}

/// Makes a face index zero-based, as `resolved` says.
pub fn resolve_index(raw: i32, count: usize) -> (r: Option<i64>)
    requires
        count <= i64::MAX,
    ensures
        r matches Some(i) ==> resolved(raw, count as int) == Some(i as int),
        r is None ==> resolved(raw, count as int) is None,
{
    if raw > 0 {
        Some(raw as i64 - 1)
    } else if raw < 0 {
        Some(count as i64 + raw as i64)
    } else {
        None
    }
}

/// Position of the first `/` in `s` at or after `from`, or `s.len()`.
pub open spec fn slash_from(s: Seq<u8>, from: int) -> int
    decreases s.len() - from,
{
    if from >= s.len() {
        s.len() as int
    } else if s[from] == 47 {
        from
    } else {
        slash_from(s, from + 1)
    }
}

fn find_slash(s: &[u8], from: usize) -> (p: usize)
    requires
        from <= s@.len(),
    ensures
        p == slash_from(s@, from as int),
        from <= p <= s@.len(),
{
    let mut i: usize = from;
    while i < s.len()
        invariant
            from <= i <= s@.len(),
            slash_from(s@, from as int) == slash_from(s@, i as int),
        decreases s@.len() - i,
    {
        if s[i] == 47 {
            return i;
        }
        i = i + 1;
    }
    i
}

/// One corner of a face: a zero-based position index and, where the face
/// gives one, a zero-based texture-coordinate index.
#[derive(Clone, Copy, Debug, PartialEq, Eq, Structural)]
pub struct FaceCorner {
    pub vertex: i64,
    pub uv: Option<i64>,
}

/// The index written in field `s` (0 when the field is empty), resolved
/// against `count`.
pub open spec fn field_index(s: Seq<u8>, count: int) -> Option<int> {
    if s.len() > 0 {
        resolved(index_value(s), count)
    } else {
        None
    }
}

pub open spec fn opt_as_int(o: Option<i64>) -> Option<int> {
    match o {
        Some(i) => Some(i as int),
        None => None,
    }
}

/// The corner that a face token such as `7`, `7/3`, `7//2` or `-1/-1`
/// names, given how many positions and texture coordinates were read so
/// far. The first `/`-separated field is the position, the second the
/// texture coordinate; a token without a position names no corner.
pub open spec fn corner_of(s: Seq<u8>, n_positions: int, n_uvs: int) -> Option<(int, Option<int>)> {
    let p = slash_from(s, 0);
    let v = field_index(s.subrange(0, p), n_positions);
    let uv = if p < s.len() {
        field_index(s.subrange(p + 1, slash_from(s, p + 1)), n_uvs)
    } else {
        None
    };
    match v {
        Some(vi) => Some((vi, uv)),
        None => None,
    }
}

/// Reads one face token, as `corner_of` says.
pub fn parse_corner(token: &str, n_positions: usize, n_uvs: usize) -> (r: Option<FaceCorner>)
    requires
        n_positions <= i64::MAX,
        n_uvs <= i64::MAX,
    ensures
        match r {
            Some(c) => corner_of(token.spec_bytes(), n_positions as int, n_uvs as int)
                == Some((c.vertex as int, opt_as_int(c.uv))),
            None => corner_of(token.spec_bytes(), n_positions as int, n_uvs as int) is None,
        },
{
    let s: &[u8] = token.as_bytes();
    let p: usize = find_slash(s, 0);
    let first: &[u8] = slice_subrange(s, 0, p);
    let vertex: Option<i64> = if first.len() > 0 {
        resolve_index(parse_index(first), n_positions)
    } else {
        None
    };
    let uv: Option<i64> = if p < s.len() {
        let q: usize = find_slash(s, p + 1);
        let second: &[u8] = slice_subrange(s, p + 1, q);
        if second.len() > 0 {
            resolve_index(parse_index(second), n_uvs)
        } else {
            None
        }
    } else {
        None
    };
    match vertex {
        Some(v) => Some(FaceCorner { vertex: v, uv }),
        None => None,
    }
}

/// A face refers to a position or texture coordinate that does not exist.
#[derive(Clone, Copy, Debug, PartialEq, Eq, Structural)]
pub enum ObjError {
    IndexOutOfRange,
}

pub open spec fn corner_view(c: FaceCorner) -> (int, Option<int>) {
    (c.vertex as int, opt_as_int(c.uv))
}

/// The corner's indices lie among the positions and texture coordinates
/// that exist.
pub open spec fn corner_in_range(c: (int, Option<int>), n_positions: int, n_uvs: int) -> bool {
    &&& 0 <= c.0 < n_positions
    &&& c.1 matches Some(t) ==> 0 <= t < n_uvs
}

/// Number of triangles in the fan over `n` corners.
pub open spec fn fan_len(n: int) -> int {
    if n >= 3 { n - 2 } else { 0 }
}

/// Triangle `j` of the fan over `cs`: the first corner and corners `j + 1`
/// and `j + 2`.
pub open spec fn fan_triangle<T>(cs: Seq<T>, j: int) -> (T, T, T) {
    (cs[0], cs[j + 1], cs[j + 2])
}

/// Splits a polygon into the fan of triangles around its first corner. A
/// polygon with fewer than three corners gives none; one that names a
/// missing position or texture coordinate is an error.
pub fn triangulate(corners: &Vec<FaceCorner>, n_positions: usize, n_uvs: usize)
    -> (r: Result<Vec<(FaceCorner, FaceCorner, FaceCorner)>, ObjError>)
    requires
        n_positions <= i64::MAX,
        n_uvs <= i64::MAX,
    ensures
        r is Err <==> (corners@.len() >= 3 && exists|i: int| 0 <= i < corners@.len()
            && !corner_in_range(corner_view(#[trigger] corners@[i]), n_positions as int, n_uvs as int)),
        r matches Ok(v) ==> {
            &&& v@.len() == fan_len(corners@.len() as int)
            &&& forall|j: int| 0 <= j < v@.len() ==> #[trigger] v@[j] == fan_triangle(corners@, j)
        },
{
    let mut out: Vec<(FaceCorner, FaceCorner, FaceCorner)> = Vec::new();
    let n: usize = corners.len();
    if n < 3 {
        return Ok(out);
    }
    let mut i: usize = 0;
    while i < n
        invariant
            i <= n,
            n == corners@.len(),
            n >= 3,
            n_positions <= i64::MAX,
            n_uvs <= i64::MAX,
            forall|k: int| 0 <= k < i ==> corner_in_range(corner_view(#[trigger] corners@[k]), n_positions as int, n_uvs as int),
        decreases n - i,
    {
        let c: FaceCorner = corners[i];
        let uv_ok: bool = match c.uv {
            Some(t) => 0 <= t && t < n_uvs as i64,
            None => true,
        };
        if !(0 <= c.vertex && c.vertex < n_positions as i64 && uv_ok) {
            assert(!corner_in_range(corner_view(corners@[i as int]), n_positions as int, n_uvs as int));
            return Err(ObjError::IndexOutOfRange);
        }
        i = i + 1;
    }
    let mut k: usize = 1;
    while k + 1 < n
        invariant
            1 <= k <= n - 1,
            n == corners@.len(),
            n >= 3,
            out@.len() == k - 1,
            forall|m: int| 0 <= m < n ==> corner_in_range(corner_view(#[trigger] corners@[m]), n_positions as int, n_uvs as int),
            forall|j: int| 0 <= j < out@.len() ==> #[trigger] out@[j] == fan_triangle(corners@, j),
        decreases n - k,
    {
        out.push((corners[0], corners[k], corners[k + 1]));
        k = k + 1;
    }
    Ok(out)
}

/// The corners that the tokens of a face record name, in order; tokens
/// that name no corner are left out.
pub open spec fn corners_of(tokens: Seq<Seq<char>>, n_positions: int, n_uvs: int) -> Seq<(int, Option<int>)>
    decreases tokens.len(),
{
    if tokens.len() == 0 {
        Seq::empty()
    } else {
        let rest = corners_of(tokens.drop_last(), n_positions, n_uvs);
        match corner_of(encode_utf8(tokens.last()), n_positions, n_uvs) {
            Some(c) => rest.push(c),
            None => rest,
        }
    }
}

pub open spec fn token_views(tokens: Seq<&str>) -> Seq<Seq<char>> {
    tokens.map_values(|t: &str| t@)
}

/// `r` is what the face record with `tokens` after its `f` gives: an error
/// when a corner it uses is out of range, else the fan over its corners. A
/// record with fewer than three tokens or corners gives no triangle.
pub open spec fn face_outcome(
    tokens: Seq<Seq<char>>,
    n_positions: int,
    n_uvs: int,
    r: Result<Vec<(FaceCorner, FaceCorner, FaceCorner)>, ObjError>,
) -> bool {
    let cs = corners_of(tokens, n_positions, n_uvs);
    let used = tokens.len() >= 3 && cs.len() >= 3;
    &&& r is Err <==> (used && exists|i: int| 0 <= i < cs.len()
        && !corner_in_range(#[trigger] cs[i], n_positions, n_uvs))
    &&& r matches Ok(v) ==> {
        &&& v@.len() == (if used { cs.len() - 2 } else { 0 })
        &&& forall|j: int| 0 <= j < v@.len() ==> {
            let t = #[trigger] v@[j];
            (corner_view(t.0), corner_view(t.1), corner_view(t.2)) == fan_triangle(cs, j)
        }
    }
}

/// The triangles of a face record, given the tokens after its `f` and how
/// many positions and texture coordinates were read before it. A record
/// with fewer than three tokens gives none.
pub fn face_triangles(tokens: &Vec<&str>, n_positions: usize, n_uvs: usize)
    -> (r: Result<Vec<(FaceCorner, FaceCorner, FaceCorner)>, ObjError>)
    requires
        n_positions <= i64::MAX,
        n_uvs <= i64::MAX,
    ensures
        face_outcome(token_views(tokens@), n_positions as int, n_uvs as int, r),
{
    let ghost cs_all = corners_of(token_views(tokens@), n_positions as int, n_uvs as int);
    if tokens.len() < 3 {
        return Ok(Vec::new());
    }
    let mut corners: Vec<FaceCorner> = Vec::new();
    let mut i: usize = 0;
    while i < tokens.len()
        invariant
            i <= tokens@.len(),
            n_positions <= i64::MAX,
            n_uvs <= i64::MAX,
            corners@.map_values(|c: FaceCorner| corner_view(c))
                == corners_of(token_views(tokens@.subrange(0, i as int)), n_positions as int, n_uvs as int),
        decreases tokens@.len() - i,
    {
        let ghost pre = tokens@.subrange(0, i as int);
        assert(token_views(tokens@.subrange(0, i + 1)).drop_last() =~= token_views(pre));
        match parse_corner(tokens[i], n_positions, n_uvs) {
            Some(c) => {
                corners.push(c);
                assert(corners@.map_values(|c: FaceCorner| corner_view(c))
                    =~= corners_of(token_views(pre), n_positions as int, n_uvs as int).push(corner_view(c)));
            },
            None => {},
        }
        i = i + 1;
    }
    assert(tokens@.subrange(0, tokens@.len() as int) =~= tokens@);
    let ghost cv = corners@.map_values(|c: FaceCorner| corner_view(c));
    assert(cv == cs_all);
    let r = triangulate(&corners, n_positions, n_uvs);
    proof {
        if r is Err {
            let i = choose|i: int| 0 <= i < corners@.len()
                && !corner_in_range(corner_view(#[trigger] corners@[i]), n_positions as int, n_uvs as int);
            assert(cv[i] == corner_view(corners@[i]));
        } else if corners@.len() >= 3 {
            assert forall|i: int| 0 <= i < cs_all.len()
                implies corner_in_range(#[trigger] cs_all[i], n_positions as int, n_uvs as int) by {
                assert(cv[i] == corner_view(corners@[i]));
                if !corner_in_range(corner_view(corners@[i]), n_positions as int, n_uvs as int) {
                    assert(r is Err);
                }
            }
        }
    }
    r
}

/// What a line of a mesh file holds, judged on the line with surrounding
/// whitespace removed.
#[derive(Clone, Copy, Debug, PartialEq, Eq, Structural)]
pub enum ObjLine {
    /// Nothing.
    Blank,
    /// A remark, starting with `#`.
    Comment,
    /// A vertex position, starting with `v `.
    Position,
    /// A texture coordinate, starting with `vt `.
    TexCoord,
    /// A polygon, starting with `f `.
    Face,
    /// Any other record, which is ignored.
    Other,
}

pub open spec fn starts_with(s: Seq<u8>, p: Seq<u8>) -> bool {
    s.len() >= p.len() && s.subrange(0, p.len() as int) == p
}

pub open spec fn line_kind(s: Seq<u8>) -> ObjLine {
    if s.len() == 0 {
        ObjLine::Blank
    } else if s[0] == 35 {
        ObjLine::Comment
    } else if starts_with(s, seq![118u8, 32u8]) {
        ObjLine::Position
    } else if starts_with(s, seq![118u8, 116u8, 32u8]) {
        ObjLine::TexCoord
    } else if starts_with(s, seq![102u8, 32u8]) {
        ObjLine::Face
    } else {
        ObjLine::Other
    }
}

/// Classifies a trimmed line, as `line_kind` says.
pub fn classify_line(line: &str) -> (k: ObjLine)
    ensures
        k == line_kind(line.spec_bytes()),
{
    let s: &[u8] = line.as_bytes();
    let n: usize = s.len();
    if n == 0 {
        ObjLine::Blank
    } else if s[0] == 35 {
        ObjLine::Comment
    } else if n >= 2 && s[0] == 118 && s[1] == 32 {
        assert(s@.subrange(0, 2) =~= seq![118u8, 32u8]);
        ObjLine::Position
    } else if n >= 3 && s[0] == 118 && s[1] == 116 && s[2] == 32 {
        assert(!starts_with(s@, seq![118u8, 32u8]));
        assert(s@.subrange(0, 3) =~= seq![118u8, 116u8, 32u8]);
        ObjLine::TexCoord
    } else if n >= 2 && s[0] == 102 && s[1] == 32 {
        assert(s@.subrange(0, 2) =~= seq![102u8, 32u8]);
        ObjLine::Face
    } else {
        assert(!starts_with(s@, seq![118u8, 32u8]) || s@.subrange(0, 2)[1] != 32u8);
        assert(!starts_with(s@, seq![118u8, 116u8, 32u8]) || s@.subrange(0, 3)[2] != 32u8);
        assert(!starts_with(s@, seq![102u8, 32u8]) || s@.subrange(0, 2)[0] != 102u8);
        ObjLine::Other
    }
}

/// Unicode White_Space, the characters that `str::trim` and
/// `str::split_whitespace` treat as white space.
pub open spec fn is_white_space(c: char) -> bool {
    ||| '\u{9}' <= c <= '\u{D}'
    ||| c == ' '
    ||| c == '\u{85}'
    ||| c == '\u{A0}'
    ||| c == '\u{1680}'
    ||| '\u{2000}' <= c <= '\u{200A}'
    ||| c == '\u{2028}'
    ||| c == '\u{2029}'
    ||| c == '\u{202F}'
    ||| c == '\u{205F}'
    ||| c == '\u{3000}'
}

/// `s` without its leading white space.
pub open spec fn trim_start(s: Seq<char>) -> Seq<char>
    decreases s.len(),
{
    if s.len() > 0 && is_white_space(s[0]) { trim_start(s.drop_first()) } else { s }
}

/// `s` without its trailing white space.
pub open spec fn trim_end(s: Seq<char>) -> Seq<char>
    decreases s.len(),
{
    if s.len() > 0 && is_white_space(s.last()) { trim_end(s.drop_last()) } else { s }
}

/// `s` without leading and trailing white space.
pub open spec fn trimmed(s: Seq<char>) -> Seq<char> {
    trim_end(trim_start(s))
}

/// The fields of `s`: its maximal runs of characters other than white
/// space, in order.
pub open spec fn whitespace_fields(s: Seq<char>) -> Seq<Seq<char>>
    decreases s.len(),
{
    if s.len() == 0 {
        Seq::empty()
    } else {
        let f = whitespace_fields(s.drop_last());
        if is_white_space(s.last()) {
            f
        } else if s.len() >= 2 && !is_white_space(s[s.len() - 2]) {
            f.update(f.len() - 1, f.last().push(s.last()))
        } else {
            f.push(seq![s.last()])
        }
    }
}

/// Relies on `str::trim`: the line without leading and trailing Unicode
/// White_Space, as `trimmed` states.
#[verifier::external_body]
fn trim_line(s: &str) -> (r: &str)
    ensures
        r@ == trimmed(s@),
{
    s.trim()
}

/// Relies on `str::split_whitespace`: the maximal runs of characters other
/// than Unicode White_Space, in order, as `whitespace_fields` states.
#[verifier::external_body]
fn split_fields(s: &str) -> (r: Vec<&str>)
    ensures
        token_views(r@) == whitespace_fields(s@),
{
    s.split_whitespace().collect()
}

/// One line of a mesh file, read. Coordinates stay text: they are decimal
/// numbers for the caller to read.
#[derive(Debug)]
pub enum ObjRecord<'a> {
    /// A vertex position: its `x`, `y` and `z` fields.
    Position(&'a str, &'a str, &'a str),
    /// A texture coordinate: its `u` and `v` fields.
    TexCoord(&'a str, &'a str),
    /// The triangles of a polygon.
    Face(Vec<(FaceCorner, FaceCorner, FaceCorner)>),
    /// A line that adds nothing.
    Skip,
}

/// `r` is the record that a line of kind `kind` with fields `f` gives,
/// given how many positions and texture coordinates came before it. A
/// position needs three fields after its `v`, a texture coordinate two after
/// its `vt`; shorter ones are skipped.
pub open spec fn record_outcome<'a>(
    kind: ObjLine,
    f: Seq<Seq<char>>,
    n_positions: int,
    n_uvs: int,
    r: Result<ObjRecord<'a>, ObjError>,
) -> bool {
    match kind {
        ObjLine::Position => if f.len() >= 4 {
            r matches Ok(ObjRecord::Position(x, y, z)) && x@ == f[1] && y@ == f[2] && z@ == f[3]
        } else {
            r matches Ok(ObjRecord::Skip)
        },
        ObjLine::TexCoord => if f.len() >= 3 {
            r matches Ok(ObjRecord::TexCoord(u, v)) && u@ == f[1] && v@ == f[2]
        } else {
            r matches Ok(ObjRecord::Skip)
        },
        ObjLine::Face => {
            let tokens = if f.len() > 0 { f.drop_first() } else { f };
            match r {
                Ok(ObjRecord::Face(v)) => face_outcome(tokens, n_positions, n_uvs, Ok(v)),
                Err(e) => face_outcome(tokens, n_positions, n_uvs, Err(e)),
                _ => false,
            }
        },
        _ => r matches Ok(ObjRecord::Skip),
    }
}

/// The record that a line of kind `kind` with fields `fields` gives, as
/// `record_outcome` says.
pub fn record_from_fields<'a>(kind: ObjLine, fields: &Vec<&'a str>, n_positions: usize, n_uvs: usize)
    -> (r: Result<ObjRecord<'a>, ObjError>)
    requires
        n_positions <= i64::MAX,
        n_uvs <= i64::MAX,
    ensures
        record_outcome(kind, token_views(fields@), n_positions as int, n_uvs as int, r),
{
    let ghost f = token_views(fields@);
    match kind {
        ObjLine::Position => {
            if fields.len() >= 4 {
                Ok(ObjRecord::Position(fields[1], fields[2], fields[3]))
            } else {
                Ok(ObjRecord::Skip)
            }
        },
        ObjLine::TexCoord => {
            if fields.len() >= 3 {
                Ok(ObjRecord::TexCoord(fields[1], fields[2]))
            } else {
                Ok(ObjRecord::Skip)
            }
        },
        ObjLine::Face => {
            let mut tokens: Vec<&str> = Vec::new();
            let start: usize = if fields.len() > 0 { 1 } else { 0 };
            let mut i: usize = start;
            assert(tokens@ =~= fields@.subrange(start as int, i as int));
            while i < fields.len()
                invariant
                    start <= i <= fields@.len(),
                    start == if fields@.len() > 0 { 1int } else { 0int },
                    tokens@ == fields@.subrange(start as int, i as int),
                decreases fields@.len() - i,
            {
                tokens.push(fields[i]);
                i = i + 1;
                assert(tokens@ =~= fields@.subrange(start as int, i as int));
            }
            proof {
                let tk = if f.len() > 0 { f.drop_first() } else { f };
                assert(token_views(tokens@) =~= tk);
            }
            match face_triangles(&tokens, n_positions, n_uvs) {
                Ok(v) => Ok(ObjRecord::Face(v)),
                Err(e) => Err(e),
            }
        },
        _ => Ok(ObjRecord::Skip),
    }
}

/// Reads one line of a mesh file, given how many positions and texture
/// coordinates came before it: the line is trimmed, classified and split
/// into fields, as `record_outcome` says.
pub fn parse_record<'a>(line: &'a str, n_positions: usize, n_uvs: usize) -> (r: Result<ObjRecord<'a>, ObjError>)
    requires
        n_positions <= i64::MAX,
        n_uvs <= i64::MAX,
    ensures
        record_outcome(
            line_kind(encode_utf8(trimmed(line@))),
            whitespace_fields(trimmed(line@)),
            n_positions as int,
            n_uvs as int,
            r,
        ),
{
    let t: &str = trim_line(line);
    let fields: Vec<&str> = split_fields(t);
    let kind = classify_line(t);
    record_from_fields(kind, &fields, n_positions, n_uvs)
}

} // verus!
