use vstd::prelude::*;
use crate::mesh::FaceElement;

verus! {

pub open spec fn is_digit(b: u8) -> bool {
    48 <= b <= 57
}

/// The number that a string of decimal digits spells.
pub open spec fn digits_value(s: Seq<u8>) -> int
    decreases s.len(),
{
    if s.len() == 0 {
        0
    } else {
        digits_value(s.drop_last()) * 10 + (s.last() - 48)
    }
}

/// The digits of an unsigned number: the text without one leading `+`.
pub open spec fn unsigned_digits(s: Seq<u8>) -> Seq<u8> {
    if s.len() > 0 && s[0] == 43 {
        s.subrange(1, s.len() as int)
    } else {
        s
    }
}

/// The `usize` that `s` spells: an optional `+` then one or more decimal
/// digits, of a value that fits; `None` for any other text.
pub open spec fn usize_of(s: Seq<u8>) -> Option<usize> {
    let d = unsigned_digits(s);
    if d.len() > 0 && (forall|i: int| 0 <= i < d.len() ==> is_digit(#[trigger] d[i])) && digits_value(
        d,
    ) <= usize::MAX {
        Some(digits_value(d) as usize)
    } else {
        None
    }
}

/// A longer string of digits spells a number no smaller than its prefix.
proof fn lemma_digits_value_grows(s: Seq<u8>, k: int)
    requires
        0 <= k <= s.len(),
        forall|i: int| 0 <= i < s.len() ==> is_digit(#[trigger] s[i]),
    ensures
        digits_value(s.take(k)) <= digits_value(s),
        digits_value(s) >= 0,
    decreases s.len(),
{
    if s.len() > 0 {
        let t = s.drop_last();
        assert forall|i: int| 0 <= i < t.len() implies is_digit(#[trigger] t[i]) by {
            assert(t[i] == s[i]);
        }
        if k == s.len() {
            assert(s.take(k) =~= s);
            lemma_digits_value_grows(t, 0);
        } else {
            lemma_digits_value_grows(t, k);
            assert(t.take(k) =~= s.take(k));
        }
    } else {
        assert(s.take(k) =~= s);
    }
}

/// Reads an unsigned decimal number the way `str::parse::<usize>` does: an
/// optional `+`, then at least one digit, and nothing else; a value too large
/// for `usize` is refused.
pub fn parse_usize(s: &[u8]) -> (r: Option<usize>)
    ensures
        r == usize_of(s@),
{
    let ghost d = unsigned_digits(s@);
    let start: usize = if s.len() > 0 && s[0] == 43 {
        1
    } else {
        0
    };
    assert(d =~= s@.subrange(start as int, s@.len() as int));
    if start >= s.len() {
        return None;
    }
    let mut value: usize = 0;
    let mut i: usize = start;
    while i < s.len()
        invariant
            start <= i <= s@.len(),
            start < s@.len(),
            d =~= s@.subrange(start as int, s@.len() as int),
            d == unsigned_digits(s@),
            forall|k: int| 0 <= k < i - start ==> is_digit(#[trigger] d[k]),
            value == digits_value(d.take(i - start)),
        decreases s@.len() - i,
    {
        let b = s[i];
        if b < 48 || b > 57 {
            assert(!is_digit(d[i - start]));
            return None;
        }
        let ghost prefix = d.take(i - start + 1);
        assert(prefix.drop_last() =~= d.take(i - start));
        assert(prefix.last() == b);
        let digit = (b - 48) as usize;
        match value.checked_mul(10) {
            Some(tens) => match tens.checked_add(digit) {
                Some(next) => {
                    value = next;
                },
                None => {
                    proof {
                        lemma_rest_digits(d, (i - start) as int);
                    }
                    return None;
                },
            },
            None => {
                proof {
                    lemma_rest_digits(d, (i - start) as int);
                }
                return None;
            },
        }
        i = i + 1;
    }
    assert(d.take(i - start) =~= d);
    Some(value)
}

/// If the digits up to `k` already spell more than `usize::MAX`, or the whole
/// text is not digits, `usize_of` refuses the text.
proof fn lemma_rest_digits(d: Seq<u8>, k: int)
    requires
        0 <= k < d.len(),
        forall|j: int| 0 <= j <= k ==> is_digit(#[trigger] d[j]),
        digits_value(d.take(k)) * 10 + (d[k] - 48) > usize::MAX,
    ensures
        !(d.len() > 0 && (forall|i: int| 0 <= i < d.len() ==> is_digit(#[trigger] d[i]))
            && digits_value(d) <= usize::MAX),
{
    if forall|i: int| 0 <= i < d.len() ==> is_digit(#[trigger] d[i]) {
        lemma_digits_value_grows(d, k + 1);
        assert(d.take(k + 1).drop_last() =~= d.take(k));
    }
}

/// The fields of `s` separated by `/`, as `str::split('/')` gives them: always
/// at least one, possibly empty.
pub open spec fn slash_fields(s: Seq<u8>) -> Seq<Seq<u8>>
    decreases s.len(),
{
    if s.len() == 0 {
        seq![Seq::empty()]
    } else {
        let before = slash_fields(s.drop_last());
        if s.last() == 47 {
            before.push(Seq::empty())
        } else {
            before.update(before.len() - 1, before.last().push(s.last()))
        }
    }
}

proof fn lemma_slash_fields_nonempty(s: Seq<u8>)
    ensures
        slash_fields(s).len() >= 1,
    decreases s.len(),
{
    if s.len() > 0 {
        lemma_slash_fields_nonempty(s.drop_last());
    }
}

/// Splits `s` at every `/`.
pub fn split_slashes(s: &[u8]) -> (r: Vec<Vec<u8>>)
    ensures
        r@.len() == slash_fields(s@).len(),
        forall|k: int| 0 <= k < r@.len() ==> (#[trigger] r@[k])@ == slash_fields(s@)[k],
{
    let mut fields: Vec<Vec<u8>> = Vec::new();
    let mut current: Vec<u8> = Vec::new();
    let mut i: usize = 0;
    assert(s@.take(0) =~= Seq::<u8>::empty());
    while i < s.len()
        invariant
            i <= s@.len(),
            fields@.len() + 1 == slash_fields(s@.take(i as int)).len(),
            forall|k: int| 0 <= k < fields@.len() ==> (#[trigger] fields@[k])@ == slash_fields(
                s@.take(i as int),
            )[k],
            current@ == slash_fields(s@.take(i as int)).last(),
        decreases s@.len() - i,
    {
        proof {
            lemma_slash_fields_nonempty(s@.take(i as int));
        }
        assert(s@.take(i + 1).drop_last() =~= s@.take(i as int));
        if s[i] == 47 {
            fields.push(current);
            current = Vec::new();
        } else {
            current.push(s[i]);
        }
        i = i + 1;
    }
    assert(s@.take(i as int) =~= s@);
    fields.push(current);
    fields
}

/// Why a mesh description was refused.
#[derive(Debug, Clone, Copy, PartialEq, Eq, Structural)]
pub enum ObjError {
    /// A face corner whose vertex index is not a number.
    InvalidVertexIndex,
    /// A face corner whose texture index is not a number.
    InvalidTextureIndex,
    /// A face corner whose normal index is not a number.
    InvalidNormalIndex,
    /// A vertex index (counted from 1, as written) that names no vertex.
    VertexIndexOutOfBounds(usize),
    /// A texture index (counted from 1, as written) that names no texture coordinate.
    TextureIndexOutOfBounds(usize),
    /// A normal index (counted from 1, as written) that names no normal.
    NormalIndexOutOfBounds(usize),
    /// A line whose keyword is not one the format knows.
    UnknownCommand,
}

/// Which list a face index points into.
#[derive(Debug, Clone, Copy, PartialEq, Eq, Structural)]
pub enum IndexKind {
    Vertex,
    Texture,
    Normal,
}

impl IndexKind {
    pub open spec fn invalid(self) -> ObjError {
        match self {
            IndexKind::Vertex => ObjError::InvalidVertexIndex,
            IndexKind::Texture => ObjError::InvalidTextureIndex,
            IndexKind::Normal => ObjError::InvalidNormalIndex,
        }
    }

    pub open spec fn out_of_bounds(self, written: usize) -> ObjError {
        match self {
            IndexKind::Vertex => ObjError::VertexIndexOutOfBounds(written),
            IndexKind::Texture => ObjError::TextureIndexOutOfBounds(written),
            IndexKind::Normal => ObjError::NormalIndexOutOfBounds(written),
        }
    }
}

/// The 0-based index that the written 1-based index `s` names among `count`
/// items of the given kind, or why it names none.
pub open spec fn index_of(s: Seq<u8>, count: int, kind: IndexKind) -> Result<usize, ObjError> {
    match usize_of(s) {
        None => Err(kind.invalid()),
        Some(v) => if 1 <= v <= count {
            Ok((v - 1) as usize)
        } else {
            Err(kind.out_of_bounds(v))
        },
    }
}

/// The index of an optional field: none where the field is missing or empty.
pub open spec fn optional_index_of(fields: Seq<Seq<u8>>, k: int, count: int, kind: IndexKind) -> Result<
    Option<usize>,
    ObjError,
> {
    if fields.len() > k && fields[k].len() > 0 {
        match index_of(fields[k], count, kind) {
            Ok(i) => Ok(Some(i)),
            Err(e) => Err(e),
        }
    } else {
        Ok(None)
    }
}

/// What one face corner `v[/t[/n]]` names: its vertex, and its texture
/// coordinate and normal where written, all as 0-based indices; or the first
/// problem met reading the vertex, then the texture, then the normal index.
pub open spec fn corner_of(part: Seq<u8>, vertex_count: int, texture_count: int, normal_count: int) -> Result<
    (usize, Option<usize>, Option<usize>),
    ObjError,
> {
    let f = slash_fields(part);
    match index_of(f[0], vertex_count, IndexKind::Vertex) {
        Err(e) => Err(e),
        Ok(v) => match optional_index_of(f, 1, texture_count, IndexKind::Texture) {
            Err(e) => Err(e),
            Ok(t) => match optional_index_of(f, 2, normal_count, IndexKind::Normal) {
                Err(e) => Err(e),
                Ok(n) => Ok((v, t, n)),
            },
        },
    }
}

/// Reads a written 1-based index of the given kind, as `index_of` says.
fn parse_index(s: &[u8], count: usize, kind: IndexKind) -> (r: Result<usize, ObjError>)
    ensures
        r == index_of(s@, count as int, kind),
{
    match parse_usize(s) {
        None => Err(
            match kind {
                IndexKind::Vertex => ObjError::InvalidVertexIndex,
                IndexKind::Texture => ObjError::InvalidTextureIndex,
                IndexKind::Normal => ObjError::InvalidNormalIndex,
            },
        ),
        Some(v) => if 1 <= v && v <= count {
            Ok(v - 1)
        } else {
            Err(
                match kind {
                    IndexKind::Vertex => ObjError::VertexIndexOutOfBounds(v),
                    IndexKind::Texture => ObjError::TextureIndexOutOfBounds(v),
                    IndexKind::Normal => ObjError::NormalIndexOutOfBounds(v),
                },
            )
        },
    }
}

fn parse_optional_index(fields: &Vec<Vec<u8>>, k: usize, count: usize, kind: IndexKind) -> (r: Result<
    Option<usize>,
    ObjError,
>)
    ensures
        r == optional_index_of(fields@.map_values(|f: Vec<u8>| f@), k as int, count as int, kind),
{
    let ghost views = fields@.map_values(|f: Vec<u8>| f@);
    if fields.len() > k && fields[k].len() > 0 {
        assert(views[k as int] == fields@[k as int]@);
        match parse_index(fields[k].as_slice(), count, kind) {
            Ok(i) => Ok(Some(i)),
            Err(e) => Err(e),
        }
    } else {
        Ok(None)
    }
}

/// Reads one face corner `v[/t[/n]]`, as `corner_of` says.
pub fn parse_corner(part: &[u8], vertex_count: usize, texture_count: usize, normal_count: usize) -> (r:
    Result<(usize, Option<usize>, Option<usize>), ObjError>)
    ensures
        r == corner_of(part@, vertex_count as int, texture_count as int, normal_count as int),
{
    let fields = split_slashes(part);
    proof {
        lemma_slash_fields_nonempty(part@);
    }
    let ghost views = fields@.map_values(|f: Vec<u8>| f@);
    assert(views =~= slash_fields(part@));
    assert(fields@[0]@ == views[0]);
    let v = match parse_index(fields[0].as_slice(), vertex_count, IndexKind::Vertex) {
        Ok(v) => v,
        Err(e) => {
            return Err(e);
        },
    };
    let t = match parse_optional_index(&fields, 1, texture_count, IndexKind::Texture) {
        Ok(t) => t,
        Err(e) => {
            return Err(e);
        },
    };
    let n = match parse_optional_index(&fields, 2, normal_count, IndexKind::Normal) {
        Ok(n) => n,
        Err(e) => {
            return Err(e);
        },
    };
    Ok((v, t, n))
}

/// `list` with `item` added at its end, where there is an item; the list comes
/// into being with its first item.
pub open spec fn extend_optional(list: Option<Seq<usize>>, item: Option<usize>) -> Option<Seq<usize>> {
    match item {
        None => list,
        Some(i) => match list {
            None => Some(seq![i]),
            Some(l) => Some(l.push(i)),
        },
    }
}

/// The corners of a face line, `parts` being its fields after the keyword:
/// the vertex indices of all corners in order, and the texture and normal
/// indices of the corners that give them (none at all where no corner does);
/// or the first problem met, corner by corner.
pub open spec fn face_of(parts: Seq<Seq<u8>>, vertex_count: int, texture_count: int, normal_count: int) -> Result<
    (Seq<usize>, Option<Seq<usize>>, Option<Seq<usize>>),
    ObjError,
>
    decreases parts.len(),
{
    if parts.len() == 0 {
        Ok((Seq::empty(), None, None))
    } else {
        match face_of(parts.drop_last(), vertex_count, texture_count, normal_count) {
            Err(e) => Err(e),
            Ok((vs, ts, ns)) => match corner_of(parts.last(), vertex_count, texture_count, normal_count) {
                Err(e) => Err(e),
                Ok((v, t, n)) => Ok((vs.push(v), extend_optional(ts, t), extend_optional(ns, n))),
            },
        }
    }
}

pub open spec fn optional_view(v: Option<Vec<usize>>) -> Option<Seq<usize>> {
    match v {
        None => None,
        Some(l) => Some(l@),
    }
}

/// Every vertex index of a successfully read face is below the vertex count.
proof fn lemma_face_indices_in_bounds(parts: Seq<Seq<u8>>, vertex_count: int, texture_count: int, normal_count: int)
    requires
        face_of(parts, vertex_count, texture_count, normal_count) is Ok,
    ensures
        forall|i: int|
            0 <= i < face_of(parts, vertex_count, texture_count, normal_count)->Ok_0.0.len()
                ==> #[trigger] face_of(parts, vertex_count, texture_count, normal_count)->Ok_0.0[i]
                < vertex_count,
    decreases parts.len(),
{
    if parts.len() > 0 {
        lemma_face_indices_in_bounds(parts.drop_last(), vertex_count, texture_count, normal_count);
    }
}

/// Reads the corners of a face line (its fields after the keyword `f`), each
/// `v`, `v/t`, `v//n` or `v/t/n` with indices counted from 1, against the
/// numbers of vertices, texture coordinates and normals read so far.
pub fn parse_face_element(
    parts: &Vec<Vec<u8>>,
    vertex_count: usize,
    texture_count: usize,
    normal_count: usize,
) -> (r: Result<FaceElement, ObjError>)
    ensures
        match r {
            Ok(face) => face_of(
                parts@.map_values(|p: Vec<u8>| p@),
                vertex_count as int,
                texture_count as int,
                normal_count as int,
            ) == Ok::<(Seq<usize>, Option<Seq<usize>>, Option<Seq<usize>>), ObjError>((
                face.vertex_indices@,
                optional_view(face.texture_indices),
                optional_view(face.normal_indices),
            )) && face.refers_within(vertex_count as int),
            Err(e) => face_of(
                parts@.map_values(|p: Vec<u8>| p@),
                vertex_count as int,
                texture_count as int,
                normal_count as int,
            ) == Err::<(Seq<usize>, Option<Seq<usize>>, Option<Seq<usize>>), ObjError>(e),
        },
{
    let ghost views = parts@.map_values(|p: Vec<u8>| p@);
    let mut vertex_indices: Vec<usize> = Vec::new();
    let mut texture_indices: Vec<usize> = Vec::new();
    let mut normal_indices: Vec<usize> = Vec::new();
    let mut has_texture = false;
    let mut has_normal = false;
    let mut k: usize = 0;
    assert(views.take(0) =~= Seq::<Seq<u8>>::empty());
    while k < parts.len()
        invariant
            k <= parts@.len(),
            views == parts@.map_values(|p: Vec<u8>| p@),
            face_of(views.take(k as int), vertex_count as int, texture_count as int, normal_count as int)
                == Ok::<(Seq<usize>, Option<Seq<usize>>, Option<Seq<usize>>), ObjError>((
                vertex_indices@,
                if has_texture {
                    Some(texture_indices@)
                } else {
                    None
                },
                if has_normal {
                    Some(normal_indices@)
                } else {
                    None
                },
            )),
            !has_texture ==> texture_indices@.len() == 0,
            !has_normal ==> normal_indices@.len() == 0,
        decreases parts@.len() - k,
    {
        assert(views.take(k + 1).drop_last() =~= views.take(k as int));
        assert(views.take(k + 1).last() == parts@[k as int]@);
        match parse_corner(parts[k].as_slice(), vertex_count, texture_count, normal_count) {
            Err(e) => {
                proof {
                    lemma_face_error_stays(views, (k + 1) as int, vertex_count as int, texture_count as int, normal_count as int);
                }
                return Err(e);
            },
            Ok((v, t, n)) => {
                vertex_indices.push(v);
                match t {
                    Some(i) => {
                        if !has_texture {
                            assert(texture_indices@.push(i) =~= seq![i]);
                        }
                        texture_indices.push(i);
                        has_texture = true;
                    },
                    None => {},
                }
                match n {
                    Some(i) => {
                        if !has_normal {
                            assert(normal_indices@.push(i) =~= seq![i]);
                        }
                        normal_indices.push(i);
                        has_normal = true;
                    },
                    None => {},
                }
            },
        }
        k = k + 1;
    }
    assert(views.take(k as int) =~= views);
    proof {
        lemma_face_indices_in_bounds(views, vertex_count as int, texture_count as int, normal_count as int);
    }
    let face = FaceElement {
        vertex_indices,
        texture_indices: if has_texture {
            Some(texture_indices)
        } else {
            None
        },
        normal_indices: if has_normal {
            Some(normal_indices)
        } else {
            None
        },
    };
    assert(face.vertex_indices@ == face_of(views, vertex_count as int, texture_count as int, normal_count as int)->Ok_0.0);
    assert(face.refers_within(vertex_count as int));
    Ok(face)
}

/// Once a prefix of the corners fails, every longer prefix fails the same way.
proof fn lemma_face_error_stays(parts: Seq<Seq<u8>>, k: int, vertex_count: int, texture_count: int, normal_count: int)
    requires
        0 < k <= parts.len(),
        face_of(parts.take(k), vertex_count, texture_count, normal_count) is Err,
    ensures
        face_of(parts, vertex_count, texture_count, normal_count) == face_of(
            parts.take(k),
            vertex_count,
            texture_count,
            normal_count,
        ),
    decreases parts.len() - k,
{
    if k < parts.len() {
        assert(parts.take(k + 1).drop_last() =~= parts.take(k));
        lemma_face_error_stays(parts, k + 1, vertex_count, texture_count, normal_count);
    } else {
        assert(parts.take(k) =~= parts);
    }
}

/// The kinds of line a mesh description holds, by keyword.
#[derive(Debug, Clone, Copy, PartialEq, Eq, Structural)]
pub enum ObjCommand {
    /// `o`: an object name.
    Object,
    /// `v`: a vertex position, with an optional scale.
    Vertex,
    /// `vn`: a normal.
    Normal,
    /// `vt`: a texture coordinate.
    TextureCoordinate,
    /// `s`: a smoothing group.
    SmoothingGroup,
    /// `mtllib`: a material library.
    MaterialLibrary,
    /// `usemtl`: a material to use.
    UseMaterial,
    /// `f`: a face.
    Face,
}

/// The command that a line's keyword names; other keywords are refused.
pub open spec fn command_of(k: Seq<u8>) -> Result<ObjCommand, ObjError> {
    if k == seq![111u8] {
        Ok(ObjCommand::Object)
    } else if k == seq![118u8] {
        Ok(ObjCommand::Vertex)
    } else if k == seq![118u8, 110u8] {
        Ok(ObjCommand::Normal)
    } else if k == seq![118u8, 116u8] {
        Ok(ObjCommand::TextureCoordinate)
    } else if k == seq![115u8] {
        Ok(ObjCommand::SmoothingGroup)
    } else if k == seq![109u8, 116u8, 108u8, 108u8, 105u8, 98u8] {
        Ok(ObjCommand::MaterialLibrary)
    } else if k == seq![117u8, 115u8, 101u8, 109u8, 116u8, 108u8] {
        Ok(ObjCommand::UseMaterial)
    } else if k == seq![102u8] {
        Ok(ObjCommand::Face)
    } else {
        Err(ObjError::UnknownCommand)
    }
}

/// Whether `a` holds exactly the bytes of `b`.
fn bytes_equal(a: &[u8], b: &[u8]) -> (r: bool)
    ensures
        r == (a@ == b@),
{
    if a.len() != b.len() {
        return false;
    }
    let mut i: usize = 0;
    while i < a.len()
        invariant
            i <= a@.len(),
            a@.len() == b@.len(),
            a@.take(i as int) == b@.take(i as int),
        decreases a@.len() - i,
    {
        if a[i] != b[i] {
            return false;
        }
        assert(a@.take(i + 1) =~= a@.take(i as int).push(a@[i as int]));
        assert(b@.take(i + 1) =~= b@.take(i as int).push(b@[i as int]));
        i = i + 1;
    }
    assert(a@.take(i as int) =~= a@);
    assert(b@.take(i as int) =~= b@);
    true
}

/// Reads a line's keyword, as `command_of` says.
pub fn parse_command(keyword: &[u8]) -> (r: Result<ObjCommand, ObjError>)
    ensures
        r == command_of(keyword@),
{
    let o: [u8; 1] = [111];
    let v: [u8; 1] = [118];
    let vn: [u8; 2] = [118, 110];
    let vt: [u8; 2] = [118, 116];
    let sg: [u8; 1] = [115];
    let mtllib: [u8; 6] = [109, 116, 108, 108, 105, 98];
    let usemtl: [u8; 6] = [117, 115, 101, 109, 116, 108];
    let f: [u8; 1] = [102];
    assert(o@ =~= seq![111u8]);
    assert(v@ =~= seq![118u8]);
    assert(vn@ =~= seq![118u8, 110u8]);
    assert(vt@ =~= seq![118u8, 116u8]);
    assert(sg@ =~= seq![115u8]);
    assert(mtllib@ =~= seq![109u8, 116u8, 108u8, 108u8, 105u8, 98u8]);
    assert(usemtl@ =~= seq![117u8, 115u8, 101u8, 109u8, 116u8, 108u8]);
    assert(f@ =~= seq![102u8]);
    if bytes_equal(keyword, o.as_slice()) {
        Ok(ObjCommand::Object)
    } else if bytes_equal(keyword, v.as_slice()) {
        Ok(ObjCommand::Vertex)
    } else if bytes_equal(keyword, vn.as_slice()) {
        Ok(ObjCommand::Normal)
    } else if bytes_equal(keyword, vt.as_slice()) {
        Ok(ObjCommand::TextureCoordinate)
    } else if bytes_equal(keyword, sg.as_slice()) {
        Ok(ObjCommand::SmoothingGroup)
    } else if bytes_equal(keyword, mtllib.as_slice()) {
        Ok(ObjCommand::MaterialLibrary)
    } else if bytes_equal(keyword, usemtl.as_slice()) {
        Ok(ObjCommand::UseMaterial)
    } else if bytes_equal(keyword, f.as_slice()) {
        Ok(ObjCommand::Face)
    } else {
        Err(ObjError::UnknownCommand)
    }
}

/// A line, already trimmed, that carries nothing: empty, or a `#` comment.
pub open spec fn is_skipped(line: Seq<u8>) -> bool {
    line.len() == 0 || line[0] == 35
}

pub fn is_skipped_line(line: &[u8]) -> (r: bool)
    ensures
        r == is_skipped(line@),
{
    line.len() == 0 || line[0] == 35
}

/// A mesh as read from its description: vertices of type `V`, texture
/// coordinates and normals of type `C`, and faces that index into them.
pub struct Obj<V, C> {
    pub vertices: Vec<V>,
    pub texture_coordinates: Vec<C>,
    pub normals: Vec<C>,
    pub faces: Vec<FaceElement>,
}

impl<V, C> Obj<V, C> {
    /// Every face names only vertices that the mesh has.
    pub open spec fn faces_valid(&self) -> bool {
        forall|f: int|
            0 <= f < self.faces@.len() ==> (#[trigger] self.faces@[f]).refers_within(
                self.vertices@.len() as int,
            )
    }

    pub fn new() -> (o: Obj<V, C>)
        ensures
            o.vertices@.len() == 0,
            o.texture_coordinates@.len() == 0,
            o.normals@.len() == 0,
            o.faces@.len() == 0,
    {
        Obj { vertices: Vec::new(), texture_coordinates: Vec::new(), normals: Vec::new(), faces: Vec::new() }
    }

    /// Appends a vertex and returns its index.
    pub fn add_vertex(&mut self, vertex: V) -> (i: usize)
        requires
            old(self).vertices@.len() < usize::MAX,
        ensures
            final(self).vertices@ == old(self).vertices@.push(vertex),
            final(self).texture_coordinates@ == old(self).texture_coordinates@,
            final(self).normals@ == old(self).normals@,
            final(self).faces@ == old(self).faces@,
            i == old(self).vertices@.len(),
    {
        self.vertices.push(vertex);
        self.vertices.len() - 1
    }

    /// Appends a texture coordinate and returns its index.
    pub fn add_texture_coordinate(&mut self, texture_coordinate: C) -> (i: usize)
        requires
            old(self).texture_coordinates@.len() < usize::MAX,
        ensures
            final(self).texture_coordinates@ == old(self).texture_coordinates@.push(texture_coordinate),
            final(self).vertices@ == old(self).vertices@,
            final(self).normals@ == old(self).normals@,
            final(self).faces@ == old(self).faces@,
            i == old(self).texture_coordinates@.len(),
    {
        self.texture_coordinates.push(texture_coordinate);
        self.texture_coordinates.len() - 1
    }

    /// Appends a normal and returns its index.
    pub fn add_normal(&mut self, normal: C) -> (i: usize)
        requires
            old(self).normals@.len() < usize::MAX,
        ensures
            final(self).normals@ == old(self).normals@.push(normal),
            final(self).vertices@ == old(self).vertices@,
            final(self).texture_coordinates@ == old(self).texture_coordinates@,
            final(self).faces@ == old(self).faces@,
            i == old(self).normals@.len(),
    {
        self.normals.push(normal);
        self.normals.len() - 1
    }

    /// Appends a face made of the given index lists and returns its index.
    pub fn add_face(
        &mut self,
        vertex_indices: Vec<usize>,
        texture_indices: Option<Vec<usize>>,
        normal_indices: Option<Vec<usize>>,
    ) -> (i: usize)
        requires
            old(self).faces@.len() < usize::MAX,
        ensures
            final(self).faces@.len() == old(self).faces@.len() + 1,
            final(self).faces@.drop_last() == old(self).faces@,
            final(self).faces@.last().vertex_indices@ == vertex_indices@,
            optional_view(final(self).faces@.last().texture_indices) == optional_view(texture_indices),
            optional_view(final(self).faces@.last().normal_indices) == optional_view(normal_indices),
            final(self).vertices@ == old(self).vertices@,
            final(self).texture_coordinates@ == old(self).texture_coordinates@,
            final(self).normals@ == old(self).normals@,
            i == old(self).faces@.len(),
    {
        let face = FaceElement { vertex_indices, texture_indices, normal_indices };
        self.faces.push(face);
        assert(self.faces@.drop_last() =~= old(self).faces@);
        self.faces.len() - 1
    }

    /// Reads a face line (its fields after the keyword `f`) against what the
    /// mesh holds so far and appends the face; on a problem the mesh is left as
    /// it was and the problem returned.
    pub fn add_face_line(&mut self, parts: &Vec<Vec<u8>>) -> (r: Result<usize, ObjError>)
        requires
            old(self).faces@.len() < usize::MAX,
            old(self).faces_valid(),
        ensures
            final(self).faces_valid(),
            final(self).vertices@ == old(self).vertices@,
            final(self).texture_coordinates@ == old(self).texture_coordinates@,
            final(self).normals@ == old(self).normals@,
            match face_of(
                parts@.map_values(|p: Vec<u8>| p@),
                old(self).vertices@.len() as int,
                old(self).texture_coordinates@.len() as int,
                old(self).normals@.len() as int,
            ) {
                Ok((vs, ts, ns)) => r == Ok::<usize, ObjError>(old(self).faces@.len() as usize)
                    && final(self).faces@.drop_last() == old(self).faces@
                    && final(self).faces@.len() == old(self).faces@.len() + 1
                    && final(self).faces@.last().vertex_indices@ == vs
                    && optional_view(final(self).faces@.last().texture_indices) == ts
                    && optional_view(final(self).faces@.last().normal_indices) == ns,
                Err(e) => r == Err::<usize, ObjError>(e) && final(self).faces@ == old(self).faces@,
            },
    {
        match parse_face_element(
            parts,
            self.vertices.len(),
            self.texture_coordinates.len(),
            self.normals.len(),
        ) {
            Ok(face) => {
                self.faces.push(face);
                assert(self.faces@.drop_last() =~= old(self).faces@);
                assert forall|f: int| 0 <= f < self.faces@.len() implies (#[trigger] self.faces@[f]).refers_within(
                    self.vertices@.len() as int,
                ) by {
                    if f < old(self).faces@.len() {
                        assert(self.faces@[f] == old(self).faces@[f]);
                    }
                }
                Ok(self.faces.len() - 1)
            },
            Err(e) => Err(e),
        }
    }

    /// Empties every list.
    pub fn clear(&mut self)
        ensures
            final(self).vertices@.len() == 0,
            final(self).texture_coordinates@.len() == 0,
            final(self).normals@.len() == 0,
            final(self).faces@.len() == 0,
    {
        self.vertices.clear();
        self.texture_coordinates.clear();
        self.normals.clear();
        self.faces.clear();
    }
}

} // verus!
