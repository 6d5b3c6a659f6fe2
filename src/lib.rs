//! A small software rasterizer core: exact fixed-point screen geometry,
//! triangle coverage with barycentric weights, a colour and depth target,
//! depth-tested rasterization of projected triangles, fan triangulation of
//! mesh faces, and the index grammar of mesh face lines.
//!
//! Screen positions arrive already projected and quantised to subpixel units;
//! depths are kept as exact fractions, so coverage and depth tests never round.

pub mod color;
pub mod geometry;
pub mod triangle;
pub mod depth;
pub mod target;
pub mod raster;
pub mod mesh;
pub mod obj;
pub mod model;
pub mod animation;
