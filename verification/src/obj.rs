//! The structure of mesh texts: lines of vertices, of normals and of faces
//! with three corners. Numbers are left as pieces of the text.
use vstd::prelude::*;
use crate::ascii::{CR, DIGIT_0, DIGIT_9, LF, LOWER_F, LOWER_N, LOWER_V, PLUS, SLASH, SPACE};
use vstd::string::StringSliceAdditionalSpecFns;

verus! {

/// A piece of the text: the bytes from `start` up to, not including, `end`.
#[derive(Clone, Copy, Debug, PartialEq, Eq)]
pub struct Span {
    pub start: usize,
    pub end: usize,
}

/// Where the piece that starts at `from` ends: at the first `sep` from there
/// on, or at `to` where there is none before it.
pub open spec fn piece_end(text: Seq<u8>, sep: u8, from: int, to: int) -> int
    decreases to - from,
{
    if from >= to {
        to
    } else if text[from] == sep {
        from
    } else {
        piece_end(text, sep, from + 1, to)
    }
}

/// `piece_end` is the least place of `sep` from `from` on, or `to`.
pub proof fn lemma_piece_end(text: Seq<u8>, sep: u8, from: int, to: int)
    requires
        from <= to,
    ensures
        from <= piece_end(text, sep, from, to) <= to,
        piece_end(text, sep, from, to) < to ==> text[piece_end(text, sep, from, to)] == sep,
        forall|i: int| from <= i < piece_end(text, sep, from, to) ==> text[i] != sep,
    decreases to - from,
{
    if from < to && text[from] != sep {
        lemma_piece_end(text, sep, from + 1, to);
    }
}

/// Finds the end of the piece that starts at `from`.
fn scan(text: &[u8], sep: u8, from: usize, to: usize) -> (end: usize)
    requires
        from <= to <= text@.len(),
    ensures
        end == piece_end(text@, sep, from as int, to as int),
        from <= end <= to,
{
    let mut end: usize = from;
    while end < to && text[end] != sep
        invariant
            from <= end <= to <= text@.len(),
            piece_end(text@, sep, from as int, to as int) == piece_end(
                text@,
                sep,
                end as int,
                to as int,
            ),
        decreases to - end,
    {
        end = end + 1;
    }
    end
}

/// The number that the digits of `text` from `from` to `to` spell in base ten.
pub open spec fn digits_value(text: Seq<u8>, from: int, to: int) -> nat
    decreases to - from,
{
    if from >= to {
        0
    } else {
        (digits_value(text, from, to - 1) * 10 + (text[to - 1] - DIGIT_0)) as nat
    }
}

/// Whether every byte of `text` from `from` to `to` is a digit.
pub open spec fn all_digits(text: Seq<u8>, from: int, to: int) -> bool {
    forall|i: int| from <= i < to ==> DIGIT_0 <= #[trigger] text[i] <= DIGIT_9
}

/// The number that a piece spells as an index, if it spells one: an optional
/// `+`, then one digit at least and nothing but digits, and a value that a
/// `usize` can hold.
pub open spec fn index_value(text: Seq<u8>, from: int, to: int) -> Option<nat> {
    let first = if from < to && text[from] == PLUS {
        from + 1
    } else {
        from
    };
    if first < to && all_digits(text, first, to) && digits_value(text, first, to) <= usize::MAX {
        Some(digits_value(text, first, to))
    } else {
        None
    }
}

/// A number grows with every digit that is added to it.
pub proof fn lemma_digits_grow(text: Seq<u8>, from: int, mid: int, to: int)
    requires
        from <= mid <= to,
        all_digits(text, from, to),
    ensures
        digits_value(text, from, mid) <= digits_value(text, from, to),
    decreases to - mid,
{
    if mid < to {
        lemma_digits_grow(text, from, mid, to - 1);
        assert(DIGIT_0 <= text[to - 1]);
    }
}

/// Reads a piece as an index: see `index_value`.
fn parse_index(text: &[u8], from: usize, to: usize) -> (value: Option<usize>)
    requires
        from <= to <= text@.len(),
    ensures
        match value {
            Some(v) => index_value(text@, from as int, to as int) == Some(v as nat),
            None => index_value(text@, from as int, to as int) is None,
        },
{
    let first: usize = if from < to && text[from] == PLUS {
        from + 1
    } else {
        from
    };
    if first >= to {
        return None;
    }
    let mut value: usize = 0;
    let mut i: usize = first;
    while i < to
        invariant
            first <= i <= to <= text@.len(),
            first == (if from < to && text@[from as int] == PLUS {
                from + 1
            } else {
                from as int
            }),
            all_digits(text@, first as int, i as int),
            value == digits_value(text@, first as int, i as int),
        decreases to - i,
    {
        let c = text[i];
        if c < DIGIT_0 || c > DIGIT_9 {
            assert(!(DIGIT_0 <= text@[i as int] <= DIGIT_9));
            return None;
        }
        let digit: usize = (c - DIGIT_0) as usize;
        let next = match value.checked_mul(10) {
            Some(tens) => tens.checked_add(digit),
            None => None,
        };
        match next {
            Some(n) => {
                value = n;
            },
            None => {
                proof {
                    assert(digits_value(text@, first as int, i as int + 1) == value * 10 + digit);
                    if all_digits(text@, first as int, to as int) {
                        lemma_digits_grow(text@, first as int, i as int + 1, to as int);
                    }
                }
                return None;
            },
        }
        i = i + 1;
    }
    Some(value)
}

/// The three pieces of text that hold the coordinates of a vertex or of a
/// normal. What number a piece spells is for the reader of numbers to say.
#[derive(Clone, Copy, Debug, PartialEq, Eq)]
pub struct Coords {
    pub x: Span,
    pub y: Span,
    pub z: Span,
}

/// One triangle: for each of its three corners the place of its vertex among
/// the vertices and of its normal among the normals, both counted from 0.
#[derive(Clone, Copy, Debug, PartialEq, Eq)]
pub struct TriData {
    pub p: [usize; 3],
    pub n: [usize; 3],
}

/// What a mesh text holds.
#[derive(Clone, Debug)]
pub struct Mesh {
    pub vertices: Vec<Coords>,
    pub normals: Vec<Coords>,
    pub triangles: Vec<TriData>,
}

/// Why a text is no mesh.
#[derive(Clone, Copy, Debug, PartialEq, Eq)]
pub enum ObjError {
    /// A vertex or a normal has fewer than three coordinates.
    MissingNumber,
    /// A face has fewer than three corners.
    MissingCorner,
    /// A corner of a face names no normal.
    MissingIndex,
    /// An index is no number that counts from 1.
    BadIndex,
    /// A corner names a vertex that the text has not given yet.
    UnknownVertex,
    /// A corner names a normal that the text has not given yet.
    UnknownNormal,
}

/// A mesh as plain sequences.
pub struct MeshModel {
    pub vertices: Seq<Coords>,
    pub normals: Seq<Coords>,
    pub triangles: Seq<TriData>,
}

impl View for Mesh {
    type V = MeshModel;

    open spec fn view(&self) -> MeshModel {
        MeshModel {
            vertices: self.vertices@,
            normals: self.normals@,
            triangles: self.triangles@,
        }
    }
}

/// Piece `k` of the text from `from` to `to`, split at every `sep`, as where
/// it starts and where it ends; `None` where there are not so many pieces.
pub open spec fn piece(text: Seq<u8>, sep: u8, from: int, to: int, k: nat) -> Option<(int, int)>
    decreases k,
{
    if k == 0 {
        Some((from, piece_end(text, sep, from, to)))
    } else {
        match piece(text, sep, from, to, (k - 1) as nat) {
            Some((_, end)) => if end < to {
                Some((end + 1, piece_end(text, sep, end + 1, to)))
            } else {
                None
            },
            None => None,
        }
    }
}

/// The piece `at` as a span.
pub open spec fn span_of(at: (int, int)) -> Span {
    Span { start: at.0 as usize, end: at.1 as usize }
}

/// The coordinates on a line: its pieces 1, 2 and 3 between spaces. `None`
/// where the line has fewer pieces.
pub open spec fn coords_of(text: Seq<u8>, from: int, to: int) -> Option<Coords> {
    match piece(text, SPACE, from, to, 3) {
        Some(z) => Some(
            Coords {
                x: span_of(piece(text, SPACE, from, to, 1).unwrap()),
                y: span_of(piece(text, SPACE, from, to, 2).unwrap()),
                z: span_of(z),
            },
        ),
        None => None,
    }
}

/// What the index in a piece names, counted from 0: one less than the number
/// it spells. `None` where it spells none, or spells 0.
pub open spec fn named(text: Seq<u8>, at: (int, int)) -> Option<nat> {
    match index_value(text, at.0, at.1) {
        Some(v) => if v > 0 {
            Some((v - 1) as nat)
        } else {
            None
        },
        None => None,
    }
}

/// The vertex and the normal that a corner names. The corner is split at
/// every `/`: its piece 0 names the vertex, its piece 2 the normal, and both
/// have to be among those that the text has given so far.
pub open spec fn corner_of(text: Seq<u8>, from: int, to: int, vertices: nat, normals: nat) -> Result<
    (nat, nat),
    ObjError,
> {
    let vertex = named(text, (from, piece_end(text, SLASH, from, to)));
    if vertex is None {
        Err(ObjError::BadIndex)
    } else {
        match piece(text, SLASH, from, to, 2) {
            None => Err(ObjError::MissingIndex),
            Some(at) => {
                let normal = named(text, at);
                if normal is None {
                    Err(ObjError::BadIndex)
                } else if vertex.unwrap() >= vertices {
                    Err(ObjError::UnknownVertex)
                } else if normal.unwrap() >= normals {
                    Err(ObjError::UnknownNormal)
                } else {
                    Ok((vertex.unwrap(), normal.unwrap()))
                }
            },
        }
    }
}

/// Corner `k` of the face on a line: piece `k + 1` of the line between spaces.
pub open spec fn face_corner(
    text: Seq<u8>,
    from: int,
    to: int,
    vertices: nat,
    normals: nat,
    k: nat,
) -> Result<(nat, nat), ObjError> {
    match piece(text, SPACE, from, to, k + 1) {
        None => Err(ObjError::MissingCorner),
        Some(at) => corner_of(text, at.0, at.1, vertices, normals),
    }
}

/// The triangle that the face on a line gives, or the error of its first
/// corner that fails. The corners stand in the triangle in reversed order:
/// corner `k` of the face stands at place `2 - k`.
pub open spec fn face_of(text: Seq<u8>, from: int, to: int, vertices: nat, normals: nat) -> Result<
    TriData,
    ObjError,
> {
    match face_corner(text, from, to, vertices, normals, 0) {
        Err(e) => Err(e),
        Ok(c0) => match face_corner(text, from, to, vertices, normals, 1) {
            Err(e) => Err(e),
            Ok(c1) => match face_corner(text, from, to, vertices, normals, 2) {
                Err(e) => Err(e),
                Ok(c2) => Ok(
                    TriData {
                        p: [c2.0 as usize, c1.0 as usize, c0.0 as usize],
                        n: [c2.1 as usize, c1.1 as usize, c0.1 as usize],
                    },
                ),
            },
        },
    }
}

/// Whether piece 0 of the line is the word `v`.
pub open spec fn is_vertex_line(text: Seq<u8>, from: int, to: int) -> bool {
    let end = piece_end(text, SPACE, from, to);
    end - from == 1 && text[from] == LOWER_V
}

/// Whether piece 0 of the line is the word `vn`.
pub open spec fn is_normal_line(text: Seq<u8>, from: int, to: int) -> bool {
    let end = piece_end(text, SPACE, from, to);
    end - from == 2 && text[from] == LOWER_V && text[from + 1] == LOWER_N
}

/// Whether piece 0 of the line is the word `f`.
pub open spec fn is_face_line(text: Seq<u8>, from: int, to: int) -> bool {
    let end = piece_end(text, SPACE, from, to);
    end - from == 1 && text[from] == LOWER_F
}

/// The mesh after the line from `from` to `to`, or why the line fails. A
/// vertex line adds a vertex, a normal line a normal, a face line the one
/// triangle of `face_of`. Every other line adds nothing.
#[verifier::opaque]
pub open spec fn line_result(text: Seq<u8>, from: int, to: int, before: MeshModel) -> Result<
    MeshModel,
    ObjError,
> {
    if is_vertex_line(text, from, to) {
        match coords_of(text, from, to) {
            Some(c) => Ok(
                MeshModel {
                    vertices: before.vertices.push(c),
                    normals: before.normals,
                    triangles: before.triangles,
                },
            ),
            None => Err(ObjError::MissingNumber),
        }
    } else if is_normal_line(text, from, to) {
        match coords_of(text, from, to) {
            Some(c) => Ok(
                MeshModel {
                    vertices: before.vertices,
                    normals: before.normals.push(c),
                    triangles: before.triangles,
                },
            ),
            None => Err(ObjError::MissingNumber),
        }
    } else if is_face_line(text, from, to) {
        match face_of(text, from, to, before.vertices.len(), before.normals.len()) {
            Ok(triangle) => Ok(
                MeshModel {
                    vertices: before.vertices,
                    normals: before.normals,
                    triangles: before.triangles.push(triangle),
                },
            ),
            Err(e) => Err(e),
        }
    } else {
        Ok(before)
    }
}

/// Where the line that starts at `start` ends: before the line feed that
/// follows it, and before the carriage return in front of that line feed
/// where there is one; at the end of the text where no line feed follows.
pub open spec fn line_end(text: Seq<u8>, start: int) -> int {
    let lf = piece_end(text, LF, start, text.len() as int);
    if lf < text.len() && start < lf && text[lf - 1] == CR {
        lf - 1
    } else {
        lf
    }
}

/// The mesh after the lines of the text from `start` on, or the error of the
/// first line that fails. A text that ends with a line feed has no line
/// after it.
pub open spec fn parse_result(text: Seq<u8>, start: int, before: MeshModel) -> Result<
    MeshModel,
    ObjError,
>
    decreases text.len() - start,
{
    if start < 0 || start >= text.len() {
        Ok(before)
    } else {
        match line_result(text, start, line_end(text, start), before) {
            Ok(after) => {
                proof {
                    lemma_piece_end(text, LF, start, text.len() as int);
                }
                let lf = piece_end(text, LF, start, text.len() as int);
                if lf < text.len() {
                    parse_result(text, lf + 1, after)
                } else {
                    Ok(after)
                }
            },
            Err(e) => Err(e),
        }
    }
}

/// The piece after the one that ended at `end`.
fn next_piece(text: &[u8], sep: u8, end: usize, to: usize) -> (next: Option<Span>)
    requires
        end <= to <= text@.len(),
    ensures
        match next {
            Some(s) => end < to && s.start == end + 1 && s.end == piece_end(
                text@,
                sep,
                end + 1,
                to as int,
            ) && s.start <= s.end <= to,
            None => end >= to,
        },
{
    if end < to {
        let stop = scan(text, sep, end + 1, to);
        Some(Span { start: end + 1, end: stop })
    } else {
        None
    }
}

/// Reads the three coordinates of a line: see `coords_of`.
fn coords(text: &[u8], from: usize, to: usize) -> (found: Option<Coords>)
    requires
        from <= to <= text@.len(),
    ensures
        found == coords_of(text@, from as int, to as int),
{
    let ghost f = from as int;
    let ghost t = to as int;
    proof {
        reveal_with_fuel(piece, 4);
    }
    let word_end = scan(text, SPACE, from, to);
    assert(piece(text@, SPACE, f, t, 0) == Some((f, word_end as int)));
    let x = match next_piece(text, SPACE, word_end, to) {
        Some(x) => x,
        None => {
            assert(piece(text@, SPACE, f, t, 1) is None);
            return None;
        },
    };
    assert(piece(text@, SPACE, f, t, 1) == Some((x.start as int, x.end as int)));
    let y = match next_piece(text, SPACE, x.end, to) {
        Some(y) => y,
        None => {
            assert(piece(text@, SPACE, f, t, 2) is None);
            return None;
        },
    };
    assert(piece(text@, SPACE, f, t, 2) == Some((y.start as int, y.end as int)));
    let z = match next_piece(text, SPACE, y.end, to) {
        Some(z) => z,
        None => {
            assert(piece(text@, SPACE, f, t, 3) is None);
            return None;
        },
    };
    assert(piece(text@, SPACE, f, t, 3) == Some((z.start as int, z.end as int)));
    Some(Coords { x, y, z })
}

/// Reads what the index in a piece names: see `named`.
fn read_named(text: &[u8], from: usize, to: usize) -> (found: Option<usize>)
    requires
        from <= to <= text@.len(),
    ensures
        match found {
            Some(v) => named(text@, (from as int, to as int)) == Some(v as nat),
            None => named(text@, (from as int, to as int)) is None,
        },
{
    match parse_index(text, from, to) {
        Some(v) => if v > 0 {
            Some(v - 1)
        } else {
            None
        },
        None => None,
    }
}

/// Reads a corner of a face: see `corner_of`.
fn corner(text: &[u8], from: usize, to: usize, vertices: usize, normals: usize) -> (found: Result<
    (usize, usize),
    ObjError,
>)
    requires
        from <= to <= text@.len(),
    ensures
        match found {
            Ok(c) => corner_of(text@, from as int, to as int, vertices as nat, normals as nat) == Ok::<
                (nat, nat),
                ObjError,
            >((c.0 as nat, c.1 as nat)),
            Err(e) => corner_of(text@, from as int, to as int, vertices as nat, normals as nat)
                == Err::<(nat, nat), ObjError>(e),
        },
{
    let ghost f = from as int;
    let ghost t = to as int;
    proof {
        reveal_with_fuel(piece, 3);
    }
    let first_end = scan(text, SLASH, from, to);
    assert(piece(text@, SLASH, f, t, 0) == Some((f, first_end as int)));
    let vertex_idx = match read_named(text, from, first_end) {
        Some(v) => v,
        None => {
            return Err(ObjError::BadIndex);
        },
    };
    let second = match next_piece(text, SLASH, first_end, to) {
        Some(s) => s,
        None => {
            assert(piece(text@, SLASH, f, t, 1) is None);
            assert(piece(text@, SLASH, f, t, 2) is None);
            return Err(ObjError::MissingIndex);
        },
    };
    assert(piece(text@, SLASH, f, t, 1) == Some((second.start as int, second.end as int)));
    let third = match next_piece(text, SLASH, second.end, to) {
        Some(s) => s,
        None => {
            assert(piece(text@, SLASH, f, t, 2) is None);
            return Err(ObjError::MissingIndex);
        },
    };
    assert(piece(text@, SLASH, f, t, 2) == Some((third.start as int, third.end as int)));
    let normal_idx = match read_named(text, third.start, third.end) {
        Some(v) => v,
        None => {
            return Err(ObjError::BadIndex);
        },
    };
    if vertex_idx >= vertices {
        return Err(ObjError::UnknownVertex);
    }
    if normal_idx >= normals {
        return Err(ObjError::UnknownNormal);
    }
    Ok((vertex_idx, normal_idx))
}

/// Reads the corner of a face that follows the piece that ended at `end`,
/// which was piece `k` of the line: see `face_corner`. Returns the vertex
/// and the normal that the corner names, and where its piece ends.
fn read_face_corner(
    text: &[u8],
    from: usize,
    to: usize,
    end: usize,
    vertices: usize,
    normals: usize,
    Ghost(k): Ghost<nat>,
) -> (found: Result<(usize, usize, usize), ObjError>)
    requires
        from <= end <= to <= text@.len(),
        piece(text@, SPACE, from as int, to as int, k) matches Some(at) && at.1 == end,
    ensures
        match found {
            Ok(c) => {
                &&& face_corner(text@, from as int, to as int, vertices as nat, normals as nat, k)
                    == Ok::<(nat, nat), ObjError>((c.0 as nat, c.1 as nat))
                &&& piece(text@, SPACE, from as int, to as int, k + 1) matches Some(at) && at.1
                    == c.2
                &&& from <= c.2 <= to
            },
            Err(e) => face_corner(text@, from as int, to as int, vertices as nat, normals as nat, k)
                == Err::<(nat, nat), ObjError>(e),
        },
{
    let ghost f = from as int;
    let ghost t = to as int;
    proof {
        reveal_with_fuel(piece, 2);
    }
    let vertex_token = match next_piece(text, SPACE, end, to) {
        Some(s) => s,
        None => {
            assert(piece(text@, SPACE, f, t, k + 1) is None);
            return Err(ObjError::MissingCorner);
        },
    };
    assert(piece(text@, SPACE, f, t, k + 1) == Some(
        (vertex_token.start as int, vertex_token.end as int),
    ));
    match corner(text, vertex_token.start, vertex_token.end, vertices, normals) {
        Ok(c) => Ok((c.0, c.1, vertex_token.end)),
        Err(e) => Err(e),
    }
}

/// Reads the face on a line: see `face_of`.
fn face(text: &[u8], from: usize, to: usize, vertices: usize, normals: usize) -> (found: Result<
    TriData,
    ObjError,
>)
    requires
        from <= to <= text@.len(),
    ensures
        found == face_of(text@, from as int, to as int, vertices as nat, normals as nat),
{
    let word_end: usize = scan(text, SPACE, from, to);
    let first = match read_face_corner(text, from, to, word_end, vertices, normals, Ghost(0)) {
        Ok(c) => c,
        Err(e) => {
            return Err(e);
        },
    };
    let second = match read_face_corner(text, from, to, first.2, vertices, normals, Ghost(1)) {
        Ok(c) => c,
        Err(e) => {
            return Err(e);
        },
    };
    let third = match read_face_corner(text, from, to, second.2, vertices, normals, Ghost(2)) {
        Ok(c) => c,
        Err(e) => {
            return Err(e);
        },
    };
    let mut new_tri_data = TriData { p: [0, 0, 0], n: [0, 0, 0] };
    new_tri_data.p[2] = first.0;
    new_tri_data.n[2] = first.1;
    new_tri_data.p[1] = second.0;
    new_tri_data.n[1] = second.1;
    new_tri_data.p[0] = third.0;
    new_tri_data.n[0] = third.1;
    proof {
        assert(new_tri_data.p =~= [third.0, second.0, first.0]);
        assert(new_tri_data.n =~= [third.1, second.1, first.1]);
    }
    Ok(new_tri_data)
}

/// The mesh without anything in it.
pub open spec fn empty_mesh() -> MeshModel {
    MeshModel { vertices: Seq::empty(), normals: Seq::empty(), triangles: Seq::empty() }
}

/// Whether every corner of every triangle names a vertex and a normal that
/// the mesh holds.
pub open spec fn corners_known(mesh: MeshModel) -> bool {
    forall|i: int, k: int|
        #![trigger mesh.triangles[i].p[k]]
        #![trigger mesh.triangles[i].n[k]]
        0 <= i < mesh.triangles.len() && 0 <= k < 3 ==> {
            &&& mesh.triangles[i].p[k] < mesh.vertices.len()
            &&& mesh.triangles[i].n[k] < mesh.normals.len()
        }
}

/// A line keeps what the mesh holds and keeps the corners known.
pub proof fn lemma_line_keeps_corners_known(text: Seq<u8>, from: int, to: int, before: MeshModel)
    requires
        corners_known(before),
        line_result(text, from, to, before) is Ok,
        before.vertices.len() <= usize::MAX,
        before.normals.len() <= usize::MAX,
    ensures
        corners_known(line_result(text, from, to, before)->Ok_0),
        before.vertices.len() <= line_result(text, from, to, before)->Ok_0.vertices.len(),
        before.normals.len() <= line_result(text, from, to, before)->Ok_0.normals.len(),
        line_result(text, from, to, before)->Ok_0.vertices.len() <= before.vertices.len() + 1,
        line_result(text, from, to, before)->Ok_0.normals.len() <= before.normals.len() + 1,
{
    reveal(line_result);
    let after = line_result(text, from, to, before)->Ok_0;
    if is_vertex_line(text, from, to) || is_normal_line(text, from, to) {
        assert forall|i: int, k: int|
            #![trigger after.triangles[i].p[k]]
            #![trigger after.triangles[i].n[k]]
            0 <= i < after.triangles.len() && 0 <= k < 3 implies {
            &&& after.triangles[i].p[k] < after.vertices.len()
            &&& after.triangles[i].n[k] < after.normals.len()
        } by {
            assert(after.triangles[i] == before.triangles[i]);
            assert(before.triangles[i].p[k] < before.vertices.len());
            assert(before.triangles[i].n[k] < before.normals.len());
        }
    } else if is_face_line(text, from, to) {
        let v = before.vertices.len();
        let n = before.normals.len();
        let added = face_of(text, from, to, v, n)->Ok_0;
        let c0 = face_corner(text, from, to, v, n, 0)->Ok_0;
        let c1 = face_corner(text, from, to, v, n, 1)->Ok_0;
        let c2 = face_corner(text, from, to, v, n, 2)->Ok_0;
        assert(c0.0 < v && c0.1 < n && c1.0 < v && c1.1 < n && c2.0 < v && c2.1 < n);
        assert forall|i: int, k: int|
            #![trigger after.triangles[i].p[k]]
            #![trigger after.triangles[i].n[k]]
            0 <= i < after.triangles.len() && 0 <= k < 3 implies {
            &&& after.triangles[i].p[k] < after.vertices.len()
            &&& after.triangles[i].n[k] < after.normals.len()
        } by {
            if i < before.triangles.len() {
                assert(after.triangles[i] == before.triangles[i]);
                assert(before.triangles[i].p[k] < before.vertices.len());
                assert(before.triangles[i].n[k] < before.normals.len());
            } else {
                assert(after.triangles[i] == added);
            }
        }
    }
}

/// In a mesh that was read from a text, every corner of every triangle
/// names a vertex and a normal that the mesh holds. The text is to be so
/// short that a `usize` can count the vertices and the normals: each line
/// adds one of them at most.
pub proof fn lemma_parsed_corners_known(text: Seq<u8>, start: int, before: MeshModel)
    requires
        corners_known(before),
        parse_result(text, start, before) is Ok,
        0 <= start <= text.len(),
        before.vertices.len() + (text.len() - start) <= usize::MAX,
        before.normals.len() + (text.len() - start) <= usize::MAX,
    ensures
        corners_known(parse_result(text, start, before)->Ok_0),
    decreases text.len() - start,
{
    if 0 <= start < text.len() {
        let after = line_result(text, start, line_end(text, start), before);
        lemma_line_keeps_corners_known(text, start, line_end(text, start), before);
        lemma_piece_end(text, LF, start, text.len() as int);
        let lf = piece_end(text, LF, start, text.len() as int);
        if lf < text.len() {
            lemma_parsed_corners_known(text, lf + 1, after->Ok_0);
        }
    }
}

/// Reads one line into the mesh: see `line_result`.
fn read_line(text: &[u8], from: usize, to: usize, mesh: &mut Mesh) -> (done: Result<(), ObjError>)
    requires
        from <= to <= text@.len(),
    ensures
        match done {
            Ok(_) => line_result(text@, from as int, to as int, old(mesh)@) == Ok::<
                MeshModel,
                ObjError,
            >(final(mesh)@),
            Err(e) => line_result(text@, from as int, to as int, old(mesh)@) == Err::<
                MeshModel,
                ObjError,
            >(e),
        },
{
    reveal(line_result);
    let word_end = scan(text, SPACE, from, to);
    if word_end - from == 1 && text[from] == LOWER_V {
        match coords(text, from, to) {
            Some(c) => {
                mesh.vertices.push(c);
                Ok(())
            },
            None => Err(ObjError::MissingNumber),
        }
    } else if word_end - from == 2 && text[from] == LOWER_V && text[from + 1] == LOWER_N {
        match coords(text, from, to) {
            Some(c) => {
                mesh.normals.push(c);
                Ok(())
            },
            None => Err(ObjError::MissingNumber),
        }
    } else if word_end - from == 1 && text[from] == LOWER_F {
        let vertices = mesh.vertices.len();
        let normals = mesh.normals.len();
        match face(text, from, to, vertices, normals) {
            Ok(triangle) => {
                mesh.triangles.push(triangle);
                Ok(())
            },
            Err(e) => Err(e),
        }
    } else {
        Ok(())
    }
}

/// Reads a mesh from its text, line by line: see `parse_result`. Every face
/// line gives one triangle. Numbers are not read here: the mesh holds the
/// pieces of the text that spell them.
pub fn parse_obj(contents: &str) -> (parsed: Result<Mesh, ObjError>)
    ensures
        match parsed {
            Ok(mesh) => parse_result(contents.spec_bytes(), 0, empty_mesh()) == Ok::<
                MeshModel,
                ObjError,
            >(mesh@),
            Err(e) => parse_result(contents.spec_bytes(), 0, empty_mesh()) == Err::<
                MeshModel,
                ObjError,
            >(e),
        },
        parsed matches Ok(mesh) ==> corners_known(mesh@),
{
    let text = contents.as_bytes();
    let len: usize = text.len();
    proof {
        if parse_result(text@, 0, empty_mesh()) is Ok {
            lemma_parsed_corners_known(text@, 0, empty_mesh());
        }
    }
    let mut mesh = Mesh { vertices: Vec::new(), normals: Vec::new(), triangles: Vec::new() };
    assert(mesh@ == empty_mesh());
    let mut start: usize = 0;
    while start < len
        invariant
            start <= len,
            len == text@.len(),
            text@ == contents.spec_bytes(),
            parse_result(text@, 0, empty_mesh()) == parse_result(text@, start as int, mesh@),
        decreases len - start,
    {
        let lf = scan(text, LF, start, len);
        let end: usize = if lf < len && start < lf && text[lf - 1] == CR {
            lf - 1
        } else {
            lf
        };
        let ghost before = mesh@;
        assert(end == line_end(text@, start as int));
        match read_line(text, start, end, &mut mesh) {
            Ok(_) => {},
            Err(e) => {
                assert(parse_result(text@, start as int, before) == Err::<MeshModel, ObjError>(e));
                return Err(e);
            },
        }
        if lf < len {
            start = lf + 1;
        } else {
            start = len;
        }
    }
    Ok(mesh)
}

} // verus!
