use vstd::prelude::*;
use crate::color::Color;
use crate::mesh::{Triangle3D, fan_all, triangulate_faces};
use crate::obj::Obj;

verus! {

/// An ordered list of coloured triangles with corners of type `V`, placed in
/// the world by a transform of type `X`.
pub struct Model<V, X> {
    pub triangles: Vec<Triangle3D<V>>,
    pub transform: X,
}

/// `t` has the corners of `s`, whatever its colour.
pub open spec fn same_corners<V>(t: Triangle3D<V>, s: Triangle3D<V>) -> bool {
    t.a == s.a && t.b == s.b && t.c == s.c
}

impl<V: Copy, X> Model<V, X> {
    /// A model with no triangles.
    pub fn new(transform: X) -> (m: Model<V, X>)
        ensures
            m.triangles@.len() == 0,
            m.transform == transform,
    {
        Model { triangles: Vec::new(), transform }
    }

    /// Appends a triangle and returns its index.
    pub fn add_triangle(&mut self, triangle: Triangle3D<V>) -> (i: usize)
        requires
            old(self).triangles@.len() < usize::MAX,
        ensures
            final(self).triangles@ == old(self).triangles@.push(triangle),
            final(self).transform == old(self).transform,
            i == old(self).triangles@.len(),
    {
        self.triangles.push(triangle);
        self.triangles.len() - 1
    }

    /// A model made of every face of `obj`, fanned into triangles in order
    /// (faces in turn, each face's fan in turn), each triangle given a random
    /// placeholder colour.
    pub fn from<W, C>(obj: &Obj<W, C>, positions: &Vec<V>, transform: X) -> (m: Model<V, X>)
        requires
            positions@.len() == obj.vertices@.len(),
            obj.faces_valid(),
        ensures
            m.transform == transform,
            m.triangles@.len() == fan_all(positions@, obj.faces@).len(),
            forall|k: int|
                0 <= k < m.triangles@.len() ==> same_corners(
                    #[trigger] m.triangles@[k],
                    fan_all(positions@, obj.faces@)[k],
                ),
    {
        let fanned = triangulate_faces(positions, &obj.faces);
        let mut model = Model::new(transform);
        let mut k: usize = 0;
        while k < fanned.len()
            invariant
                k <= fanned@.len(),
                fanned@ == fan_all(positions@, obj.faces@),
                model.transform == transform,
                model.triangles@.len() == k,
                forall|j: int| 0 <= j < k ==> same_corners(#[trigger] model.triangles@[j], fanned@[j]),
            decreases fanned@.len() - k,
        {
            let mut triangle = fanned[k];
            triangle.set_color(Color::random());
            model.add_triangle(triangle);
            k = k + 1;
        }
        model
    }
}

} // verus!
