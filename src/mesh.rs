use vstd::prelude::*;
use crate::color::Color;

verus! {

/// One polygonal face of a mesh: the indices (from 0) of its corners in the
/// vertex list, and, where given, of their texture coordinates and normals.
pub struct FaceElement {
    pub vertex_indices: Vec<usize>,
    pub texture_indices: Option<Vec<usize>>,
    pub normal_indices: Option<Vec<usize>>,
}

impl FaceElement {
    /// Every corner names one of the first `vertex_count` vertices.
    pub open spec fn refers_within(&self, vertex_count: int) -> bool {
        forall|i: int|
            0 <= i < self.vertex_indices@.len() ==> #[trigger] self.vertex_indices@[i] < vertex_count
    }
}

/// A triangle of a model, its corners given as vertex positions of type `V`.
#[derive(Debug, Clone, Copy, PartialEq, Eq)]
pub struct Triangle3D<V> {
    pub a: V,
    pub b: V,
    pub c: V,
    pub color: Color,
}

/// The `k`-th triangle of the fan over a face with corners `corners`:
/// `(v0, v(k+1), v(k+2))`.
pub open spec fn fan_triangle<V>(vertices: Seq<V>, corners: Seq<usize>, k: int) -> Triangle3D<V> {
    Triangle3D {
        a: vertices[corners[0] as int],
        b: vertices[corners[k + 1] as int],
        c: vertices[corners[k + 2] as int],
        color: Color { r: 255, g: 255, b: 255 },
    }
}

/// The white triangles of the fan over a face, in order; none for fewer than three corners.
pub open spec fn fan<V>(vertices: Seq<V>, corners: Seq<usize>) -> Seq<Triangle3D<V>> {
    if corners.len() < 3 {
        Seq::empty()
    } else {
        Seq::new((corners.len() - 2) as nat, |k: int| fan_triangle(vertices, corners, k))
    }
}

impl<V: Copy> Triangle3D<V> {
    /// A white triangle.
    pub fn new(a: V, b: V, c: V) -> (t: Triangle3D<V>)
        ensures
            t == (Triangle3D { a, b, c, color: Color { r: 255, g: 255, b: 255 } }),
    {
        Triangle3D { a, b, c, color: Color::new(255, 255, 255) }
    }

    pub fn set_color(&mut self, color: Color)
        ensures
            *final(self) == (Triangle3D { color, ..*old(self) }),
    {
        self.color = color;
    }

    /// Splits a face into a fan of triangles around its first corner: corners
    /// `0, 1, 2` make the first triangle, and each further corner `i` makes one
    /// with corners `0` and `i - 1`. A face with fewer than three corners gives none.
    pub fn create_triangles_from_face(vertices: &Vec<V>, face: &FaceElement) -> (r: Vec<Triangle3D<V>>)
        requires
            face.refers_within(vertices@.len() as int),
        ensures
            r@ == fan(vertices@, face.vertex_indices@),
    {
        let corners = &face.vertex_indices;
        let mut triangles: Vec<Triangle3D<V>> = Vec::new();
        if corners.len() < 3 {
            assert(triangles@ =~= fan(vertices@, corners@));
            return triangles;
        }
        let a = vertices[corners[0]];
        let b = vertices[corners[1]];
        let c = vertices[corners[2]];
        let mut triangle = Triangle3D::new(a, b, c);
        triangles.push(triangle);
        let mut i: usize = 3;
        while i < corners.len()
            invariant
                3 <= i <= corners@.len(),
                face.refers_within(vertices@.len() as int),
                corners == &face.vertex_indices,
                triangle == fan_triangle(vertices@, corners@, i - 3),
                triangles@ =~= Seq::new((i - 2) as nat, |k: int| fan_triangle(vertices@, corners@, k)),
            decreases corners@.len() - i,
        {
            triangle.b = triangle.c;
            triangle.c = vertices[corners[i]];
            triangles.push(triangle);
            i = i + 1;
        }
        triangles
    }
}

/// The triangles of all `faces`, face after face, each face fanned in order.
pub open spec fn fan_all<V>(vertices: Seq<V>, faces: Seq<FaceElement>) -> Seq<Triangle3D<V>>
    decreases faces.len(),
{
    if faces.len() == 0 {
        Seq::empty()
    } else {
        fan_all(vertices, faces.drop_last()) + fan(vertices, faces.last().vertex_indices@)
    }
}

/// Fans every face of a mesh into triangles, keeping the order of the faces and,
/// within each face, the order of its fan.
pub fn triangulate_faces<V: Copy>(vertices: &Vec<V>, faces: &Vec<FaceElement>) -> (r: Vec<
    Triangle3D<V>,
>)
    requires
        forall|f: int| 0 <= f < faces@.len() ==> (#[trigger] faces@[f]).refers_within(
            vertices@.len() as int,
        ),
    ensures
        r@ == fan_all(vertices@, faces@),
{
    let mut triangles: Vec<Triangle3D<V>> = Vec::new();
    let mut f: usize = 0;
    while f < faces.len()
        invariant
            f <= faces@.len(),
            forall|g: int| 0 <= g < faces@.len() ==> (#[trigger] faces@[g]).refers_within(
                vertices@.len() as int,
            ),
            triangles@ == fan_all(vertices@, faces@.take(f as int)),
        decreases faces@.len() - f,
    {
        let mut fanned = Triangle3D::create_triangles_from_face(vertices, &faces[f]);
        triangles.append(&mut fanned);
        assert(faces@.take(f + 1).drop_last() =~= faces@.take(f as int));
        f = f + 1;
    }
    assert(faces@.take(f as int) =~= faces@);
    triangles
}

} // verus!
