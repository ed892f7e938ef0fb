//! Building scene objects from the raw arrays a mesh file yields: vertex
//! positions, optional per-vertex normals, and face indices (three per
//! triangle). Reading the file itself happens outside; this module turns the
//! plain arrays into validated triangles.

use vstd::prelude::*;

use crate::fixed::SCALE;
use crate::fixed::iabs;
use crate::normal::Normal;
use crate::object::Object;
use crate::object::Shape;
use crate::point::Point;
use crate::scene::all_objects_wf;
use crate::triangle::Triangle;
use crate::vector::COORD_MAX;

verus! {

pub struct ObjectFile {
    pub path: String,
}

/// Whether vertex `v` can be read from the arrays: its three coordinates
/// exist and lie within the world range, and if normals are present, so do
/// its three normal components, within one unit.
pub open spec fn vertex_ok(positions: Seq<i64>, normals: Seq<i64>, v: int) -> bool {
    &&& 0 <= v
    &&& 3 * v + 3 <= positions.len()
    &&& iabs(positions[3 * v] as int) <= COORD_MAX as int
    &&& iabs(positions[3 * v + 1] as int) <= COORD_MAX as int
    &&& iabs(positions[3 * v + 2] as int) <= COORD_MAX as int
    &&& normals.len() > 0 ==> {
        &&& 3 * v + 3 <= normals.len()
        &&& iabs(normals[3 * v] as int) <= SCALE as int
        &&& iabs(normals[3 * v + 1] as int) <= SCALE as int
        &&& iabs(normals[3 * v + 2] as int) <= SCALE as int
    }
}

/// The triangle face `f` describes: its three vertices read at the indexed
/// positions, with the indexed per-vertex normals when the file carries
/// normals, and flat shading by the winding's face normal otherwise.
pub open spec fn face_triangle_spec(
    positions: Seq<i64>,
    normals: Seq<i64>,
    indices: Seq<usize>,
    f: int,
) -> Triangle {
    let i1 = indices[3 * f] as int;
    let i2 = indices[3 * f + 1] as int;
    let i3 = indices[3 * f + 2] as int;
    let a = crate::vector::Vector {
        x: positions[3 * i1],
        y: positions[3 * i1 + 1],
        z: positions[3 * i1 + 2],
    };
    let b = crate::vector::Vector {
        x: positions[3 * i2],
        y: positions[3 * i2 + 1],
        z: positions[3 * i2 + 2],
    };
    let c = crate::vector::Vector {
        x: positions[3 * i3],
        y: positions[3 * i3 + 1],
        z: positions[3 * i3 + 2],
    };
    if normals.len() > 0 {
        Triangle {
            a,
            b,
            c,
            na: Normal { x: normals[3 * i1], y: normals[3 * i1 + 1], z: normals[3 * i1 + 2] },
            nb: Normal { x: normals[3 * i2], y: normals[3 * i2 + 1], z: normals[3 * i2 + 2] },
            nc: Normal { x: normals[3 * i3], y: normals[3 * i3 + 1], z: normals[3 * i3 + 2] },
            per_vertex_normals: true,
        }
    } else {
        let face = crate::vector::normalize_spec(
            crate::vector::vcross(crate::vector::vsub(b, a), crate::vector::vsub(c, a)),
        );
        Triangle { a, b, c, na: face, nb: face, nc: face, per_vertex_normals: false }
    }
}

/// Whether every face of the index array refers to readable vertices.
pub open spec fn mesh_ok(positions: Seq<i64>, normals: Seq<i64>, indices: Seq<usize>) -> bool {
    forall|f: int|
        0 <= f < indices.len() / 3 ==> {
            &&& vertex_ok(positions, normals, #[trigger] indices[3 * f] as int)
            &&& vertex_ok(positions, normals, indices[3 * f + 1] as int)
            &&& vertex_ok(positions, normals, indices[3 * f + 2] as int)
        }
}

impl ObjectFile {
    pub fn new(path: String) -> (r: ObjectFile)
        ensures
            r.path == path,
    {
        ObjectFile { path }
    }

    /// Turn one mesh's arrays into triangle objects, one per three indices,
    /// all carrying `material_id`. Succeeds exactly when every face refers to
    /// vertices that exist and lie within the world range; a malformed mesh
    /// is reported to the caller instead of aborting.
    pub fn build_objects(
        positions: &Vec<i64>,
        normals: &Vec<i64>,
        indices: &Vec<usize>,
        material_id: usize,
    ) -> (res: Option<Vec<Object>>)
        ensures
            res is Some <==> mesh_ok(positions@, normals@, indices@),
            res matches Some(objects) ==> {
                &&& objects@.len() == indices@.len() / 3
                &&& all_objects_wf(objects@)
                &&& forall|k: int|
                    0 <= k < objects@.len() ==> (#[trigger] objects@[k]).material_id == material_id
                        && objects@[k].reflection == 0 && objects@[k].shape
                        == crate::object::Shape::Triangle(
                        face_triangle_spec(positions@, normals@, indices@, k),
                    )
            },
    {
        let total: usize = indices.len();
        let faces: usize = total / 3;
        let mut objects: Vec<Object> = Vec::new();
        let mut f: usize = 0;
        while f < faces
            invariant
                0 <= f <= faces,
                total == indices@.len(),
                faces == indices@.len() / 3,
                objects@.len() == f,
                all_objects_wf(objects@),
                forall|k: int|
                    0 <= k < objects@.len() ==> (#[trigger] objects@[k]).material_id == material_id
                        && objects@[k].reflection == 0 && objects@[k].shape
                        == crate::object::Shape::Triangle(
                        face_triangle_spec(positions@, normals@, indices@, k),
                    ),
                forall|g: int|
                    0 <= g < f ==> vertex_ok(positions@, normals@, #[trigger] indices@[3 * g] as int)
                        && vertex_ok(positions@, normals@, indices@[3 * g + 1] as int) && vertex_ok(
                        positions@,
                        normals@,
                        indices@[3 * g + 2] as int,
                    ),
            decreases faces - f,
        {
            proof {
                vstd::arithmetic::div_mod::lemma_fundamental_div_mod(indices@.len() as int, 3);
                vstd::arithmetic::div_mod::lemma_mod_bound(indices@.len() as int, 3);
            }
            let i1: usize = indices[3 * f];
            let i2: usize = indices[3 * f + 1];
            let i3: usize = indices[3 * f + 2];
            let p1: Option<Point> = read_point(positions, i1);
            let p2: Option<Point> = read_point(positions, i2);
            let p3: Option<Point> = read_point(positions, i3);
            let has_normals: bool = normals.len() > 0;
            let n1: Option<Normal> = if has_normals {
                read_normal(normals, i1)
            } else {
                None
            };
            let n2: Option<Normal> = if has_normals {
                read_normal(normals, i2)
            } else {
                None
            };
            let n3: Option<Normal> = if has_normals {
                read_normal(normals, i3)
            } else {
                None
            };
            let face_fine: bool = p1.is_some() && p2.is_some() && p3.is_some() && (!has_normals
                || (n1.is_some() && n2.is_some() && n3.is_some()));
            if !face_fine {
                proof {
                    assert(!(vertex_ok(positions@, normals@, indices@[3 * (f as int)] as int)
                        && vertex_ok(positions@, normals@, indices@[3 * (f as int) + 1] as int)
                        && vertex_ok(positions@, normals@, indices@[3 * (f as int) + 2] as int)));
                    assert(!mesh_ok(positions@, normals@, indices@));
                }
                return None;
            }
            let (a, b, c): (Point, Point, Point) = match (p1, p2, p3) {
                (Some(a), Some(b), Some(c)) => (a, b, c),
                _ => {
                    proof {
                        assert(false);
                    }
                    return None;
                },
            };
            let triangle: Triangle = if has_normals {
                match (n1, n2, n3) {
                    (Some(na), Some(nb), Some(nc)) => Triangle::with_normals(a, na, b, nb, c, nc),
                    _ => {
                        proof {
                            assert(false);
                        }
                        return None;
                    },
                }
            } else {
                Triangle::new(a, b, c)
            };
            proof {
                assert(triangle == face_triangle_spec(positions@, normals@, indices@, f as int));
            }
            objects.push(Object::new(Shape::Triangle(triangle), material_id));
            proof {
                assert(vertex_ok(positions@, normals@, indices@[3 * (f as int)] as int));
                assert(vertex_ok(positions@, normals@, indices@[3 * (f as int) + 1] as int));
                assert(vertex_ok(positions@, normals@, indices@[3 * (f as int) + 2] as int));
            }
            f += 1;
        }
        proof {
            assert(mesh_ok(positions@, normals@, indices@));
        }
        Some(objects)
    }
}

/// Read vertex `v` from the position array, if it exists and is in range.
fn read_point(positions: &Vec<i64>, v: usize) -> (res: Option<Point>)
    ensures
        res is Some <==> (3 * v + 3 <= positions@.len() && iabs(positions@[3 * v] as int)
            <= COORD_MAX as int && iabs(positions@[3 * v + 1] as int) <= COORD_MAX as int && iabs(
            positions@[3 * v + 2] as int,
        ) <= COORD_MAX as int),
        res matches Some(p) ==> p == (Point {
            x: positions@[3 * v],
            y: positions@[3 * v + 1],
            z: positions@[3 * v + 2],
        }) && p.wf(),
{
    if !index3_ok(positions.len(), v) {
        return None;
    }
    {
        let x: i64 = positions[3 * v];
        let y: i64 = positions[3 * v + 1];
        let z: i64 = positions[3 * v + 2];
        if -COORD_MAX <= x && x <= COORD_MAX && -COORD_MAX <= y && y <= COORD_MAX && -COORD_MAX
            <= z && z <= COORD_MAX {
            Some(Point::new(x, y, z))
        } else {
            None
        }
    }
}

/// Read vertex `v` from the normal array, if it exists and is in range.
fn read_normal(normals: &Vec<i64>, v: usize) -> (res: Option<Normal>)
    ensures
        res is Some <==> (3 * v + 3 <= normals@.len() && iabs(normals@[3 * v] as int)
            <= SCALE as int && iabs(normals@[3 * v + 1] as int) <= SCALE as int && iabs(
            normals@[3 * v + 2] as int,
        ) <= SCALE as int),
        res matches Some(n) ==> n == (Normal {
            x: normals@[3 * v],
            y: normals@[3 * v + 1],
            z: normals@[3 * v + 2],
        }) && n.wf(),
{
    if !index3_ok(normals.len(), v) {
        return None;
    }
    {
        let x: i64 = normals[3 * v];
        let y: i64 = normals[3 * v + 1];
        let z: i64 = normals[3 * v + 2];
        if -SCALE <= x && x <= SCALE && -SCALE <= y && y <= SCALE && -SCALE <= z && z <= SCALE {
            Some(Normal::new(x, y, z))
        } else {
            None
        }
    }
}

/// Whether three consecutive slots starting at `3 * v` fit within `len`,
/// decided without overflowing.
fn index3_ok(len: usize, v: usize) -> (b: bool)
    ensures
        b <==> 3 * v + 3 <= len,
{
    if len < 3 {
        return false;
    }
    proof {
        vstd::arithmetic::div_mod::lemma_fundamental_div_mod((len - 3) as int, 3);
        vstd::arithmetic::div_mod::lemma_mod_bound((len - 3) as int, 3);
    }
    v <= (len - 3) / 3
}

} // verus!
