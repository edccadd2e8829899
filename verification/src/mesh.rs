//! The mesh entity: raw vertex positions and triangular face connectivity,
//! with memoized derived geometric queries. Each cached slot is populated at
//! most once and, by the well-formedness invariant, always holds exactly the
//! value its spec function gives for the mesh's data, so repeated queries
//! return identical results.

use vstd::prelude::*;
use std::collections::HashMap;
use crate::scalar::{fdiv, fmin, fmax, feq, flt, facos, fadd, F_TWO, F_ZERO, F_ONE, F_NEG_ONE};
use crate::scalar::{div_f, min_f, max_f, eq_f, lt_f, acos_f, mul_f};
use crate::vec3::Point3;
use crate::attributes::{Attributes, UV};
use crate::attributes::LoadSource;
use crate::simplify::{simplify_mesh, face_references};

verus! {

broadcast use vstd::std_specs::hash::group_hash_axioms, vstd::std_specs::vec::group_vec_axioms;

/// The recoverable failures a mesh query can signal.
#[derive(Debug, Clone, Copy, PartialEq, Eq, Structural)]
pub enum MeshError {
    /// The mesh has no vertices at all.
    NoVertices,
    /// Every vertex of the mesh sits at the same point, so its bounding box
    /// has identical corners.
    DegenerateBounds,
    /// A flat buffer's length was not a multiple of three.
    NonTripleBuffer,
}

/// The memo table of the derived queries; every slot starts empty and is
/// populated at most once, with the pure function of the mesh data that the
/// well-formedness invariant names.
#[derive(Debug, Default)]
pub struct InnerCache {
    pub face_adjacency: Option<Vec<(usize, usize)>>,
    pub face_normals: Option<Vec<Point3>>,
    pub edges: Option<Vec<[usize; 2]>>,
    pub face_adjacency_angles: Option<Vec<u64>>,
    pub faces_cross: Option<Vec<Point3>>,
    pub faces_area: Option<Vec<u64>>,
    pub area: Option<u64>,
}

/// A triangle mesh: vertex positions, index-triple faces, optional flat
/// attributes, the source it was loaded from, and the derived-query cache.
#[derive(Debug, Default)]
pub struct Trimesh {
    pub vertices: Vec<Point3>,
    pub faces: Vec<(usize, usize, usize)>,
    pub attributes_vertex: Attributes,
    pub attributes_face: Attributes,
    pub source: LoadSource,
    pub _cache: InnerCache,
}

/// An attribute list with nothing in it.
pub open spec fn attributes_empty(a: Attributes) -> bool {
    a.uv@.len() == 0 && a.normals@.len() == 0 && a.colors@.len() == 0 && a.groupings@.len() == 0
}

/// The non-normalized cross product of one face's two edge vectors from its
/// first vertex.
pub open spec fn spec_face_cross(vs: Seq<Point3>, f: (usize, usize, usize)) -> Point3 {
    let v0 = vs[f.0 as int];
    let v1 = vs[f.1 as int];
    let v2 = vs[f.2 as int];
    v1.spec_minus(v0).spec_cross(v2.spec_minus(v0))
}

/// The per-face cross products, in face order.
pub open spec fn spec_faces_cross(vs: Seq<Point3>, fs: Seq<(usize, usize, usize)>) -> Seq<Point3> {
    Seq::new(fs.len(), |i: int| spec_face_cross(vs, fs[i]))
}

/// The per-face unit normals: each cross product normalized.
pub open spec fn spec_face_normals(vs: Seq<Point3>, fs: Seq<(usize, usize, usize)>) -> Seq<
    Point3,
> {
    Seq::new(fs.len(), |i: int| spec_face_cross(vs, fs[i]).spec_normalized())
}

/// The per-face areas: half the norm of each cross product.
pub open spec fn spec_faces_area(vs: Seq<Point3>, fs: Seq<(usize, usize, usize)>) -> Seq<u64> {
    Seq::new(fs.len(), |i: int| fdiv(spec_face_cross(vs, fs[i]).spec_norm(), F_TWO))
}

/// A left-to-right sum of scalars starting from zero, as the standard
/// summing of an iterator performs it.
pub open spec fn spec_sum(s: Seq<u64>) -> u64
    decreases s.len(),
{
    if s.len() == 0 {
        F_ZERO
    } else {
        fadd(spec_sum(s.drop_last()), s.last())
    }
}

/// The total surface area: the per-face areas summed left to right.
pub open spec fn spec_area(vs: Seq<Point3>, fs: Seq<(usize, usize, usize)>) -> u64 {
    spec_sum(spec_faces_area(vs, fs))
}

/// The three directed edges of a face, in triangle order.
pub open spec fn face_edge(f: (usize, usize, usize), e: int) -> [usize; 2] {
    if e == 0 {
        [f.0, f.1]
    } else if e == 1 {
        [f.1, f.2]
    } else {
        [f.2, f.0]
    }
}

/// All edges of all faces: three entries per face, in face order.
pub open spec fn spec_edges(fs: Seq<(usize, usize, usize)>) -> Seq<[usize; 2]> {
    Seq::new(3 * fs.len(), |k: int| face_edge(fs[k / 3], k % 3))
}

/// An undirected edge as a single map key: the smaller endpoint in the high
/// 64 bits, the larger in the low 64 bits.
pub open spec fn spec_edge_key(e: [usize; 2]) -> u128 {
    let a = if e[0] <= e[1] {
        e[0]
    } else {
        e[1]
    };
    let b = if e[0] <= e[1] {
        e[1]
    } else {
        e[0]
    };
    ((a as u128) * 0x1_0000_0000_0000_0000 + (b as u128)) as u128
}

/// The adjacency fold over the first `i` edges: a map from each undirected
/// edge to the first face it was seen in and whether it has already paired,
/// and the pairs emitted when an edge was seen the second time. A third or
/// later occurrence of the same edge (non-manifold) is silently dropped, so
/// an edge pairs only its first two faces.
pub open spec fn spec_adj_fold(edges: Seq<[usize; 2]>, i: int) -> (
    Map<u128, (usize, bool)>,
    Seq<(usize, usize)>,
)
    decreases i,
{
    if i <= 0 {
        (Map::empty(), Seq::empty())
    } else {
        let prev = spec_adj_fold(edges, i - 1);
        let key = spec_edge_key(edges[i - 1]);
        let face = ((i - 1) / 3) as usize;
        if prev.0.contains_key(key) {
            if prev.0[key].1 {
                prev
            } else {
                (prev.0.insert(key, (prev.0[key].0, true)), prev.1.push((prev.0[key].0, face)))
            }
        } else {
            (prev.0.insert(key, (face, false)), prev.1)
        }
    }
}

/// The pairs of face indices sharing an edge, in discovery order.
pub open spec fn spec_face_adjacency(fs: Seq<(usize, usize, usize)>) -> Seq<(usize, usize)> {
    spec_adj_fold(spec_edges(fs), 3 * (fs.len() as int)).1
}

/// The angle between two unit vectors, as the norm-guarded clamped arc
/// cosine of their dot product.
pub open spec fn spec_angle(a: Point3, b: Point3) -> u64 {
    let prod = a.spec_dot(b);
    let n1 = a.spec_norm();
    let n2 = b.spec_norm();
    if feq(n1, F_ZERO) || feq(n2, F_ZERO) {
        F_ZERO
    } else {
        let c = fdiv(prod, crate::scalar::fmul(n1, n2));
        let clamped = if flt(c, F_NEG_ONE) {
            F_NEG_ONE
        } else if flt(F_ONE, c) {
            F_ONE
        } else {
            c
        };
        facos(clamped)
    }
}

/// The angles between the normals of each adjacent face pair.
pub open spec fn spec_face_adjacency_angles(
    vs: Seq<Point3>,
    fs: Seq<(usize, usize, usize)>,
) -> Seq<u64> {
    let adjacency = spec_face_adjacency(fs);
    let normals = spec_face_normals(vs, fs);
    Seq::new(
        adjacency.len(),
        |i: int| spec_angle(normals[adjacency[i].0 as int], normals[adjacency[i].1 as int]),
    )
}

/// The componentwise minimum of the first `n` vertices.
pub open spec fn spec_lower(vs: Seq<Point3>, n: int) -> Point3
    decreases n,
{
    if n <= 1 {
        vs[0]
    } else {
        let p = spec_lower(vs, n - 1);
        let v = vs[n - 1];
        Point3 { x: fmin(p.x, v.x), y: fmin(p.y, v.y), z: fmin(p.z, v.z) }
    }
}

/// The componentwise maximum of the first `n` vertices.
pub open spec fn spec_upper(vs: Seq<Point3>, n: int) -> Point3
    decreases n,
{
    if n <= 1 {
        vs[0]
    } else {
        let p = spec_upper(vs, n - 1);
        let v = vs[n - 1];
        Point3 { x: fmax(p.x, v.x), y: fmax(p.y, v.y), z: fmax(p.z, v.z) }
    }
}

/// Whether two points compare equal under IEEE equality, component by
/// component.
pub open spec fn spec_points_eq(a: Point3, b: Point3) -> bool {
    feq(a.x, b.x) && feq(a.y, b.y) && feq(a.z, b.z)
}

impl Trimesh {
    /// Every face's three indices lie inside the vertex list.
    pub open spec fn faces_valid(self) -> bool {
        forall|i: int|
            0 <= i < self.faces@.len() ==> ((#[trigger] self.faces@[i]).0 < self.vertices@.len()
                && self.faces@[i].1 < self.vertices@.len() && self.faces@[i].2
                < self.vertices@.len())
    }

    /// Every populated cache slot holds exactly the derived value of the
    /// mesh's current data, so a populated slot always answers with the same
    /// value the computation would give.
    pub open spec fn wf(self) -> bool {
        &&& (self._cache.edges matches Some(e) ==> e@ == spec_edges(self.faces@))
        &&& (self._cache.faces_cross matches Some(c) ==> c@ == spec_faces_cross(
            self.vertices@,
            self.faces@,
        ))
        &&& (self._cache.face_normals matches Some(n) ==> n@ == spec_face_normals(
            self.vertices@,
            self.faces@,
        ))
        &&& (self._cache.faces_area matches Some(a) ==> a@ == spec_faces_area(
            self.vertices@,
            self.faces@,
        ))
        &&& (self._cache.area matches Some(a) ==> a == spec_area(self.vertices@, self.faces@))
        &&& (self._cache.face_adjacency matches Some(a) ==> a@ == spec_face_adjacency(self.faces@))
        &&& (self._cache.face_adjacency_angles matches Some(a) ==> a@
            == spec_face_adjacency_angles(self.vertices@, self.faces@))
    }

    /// The raw mesh data and attributes agree; only the cache may differ.
    pub open spec fn same_data(self, o: Trimesh) -> bool {
        self.vertices == o.vertices && self.faces == o.faces && self.attributes_vertex
            == o.attributes_vertex && self.attributes_face == o.attributes_face && self.source
            == o.source
    }

    /// An entirely empty cache.
    pub open spec fn cache_empty(self) -> bool {
        self._cache.edges is None && self._cache.faces_cross is None
            && self._cache.face_normals is None && self._cache.faces_area is None
            && self._cache.area is None && self._cache.face_adjacency is None
            && self._cache.face_adjacency_angles is None
    }

    /// Create a new mesh from explicit vertex and face lists; the cache
    /// starts empty.
    pub fn new(
        vertices: Vec<Point3>,
        faces: Vec<(usize, usize, usize)>,
        attributes_vertex: Option<Attributes>,
        attributes_face: Option<Attributes>,
    ) -> (r: Result<Trimesh, MeshError>)
        ensures
            r matches Ok(m) && {
                &&& m.vertices == vertices
                &&& m.faces == faces
                &&& m.wf()
                &&& m.cache_empty()
                &&& (attributes_vertex matches Some(a) ==> m.attributes_vertex == a)
                &&& (attributes_vertex is None ==> attributes_empty(m.attributes_vertex))
                &&& (attributes_face matches Some(a) ==> m.attributes_face == a)
                &&& (attributes_face is None ==> attributes_empty(m.attributes_face))
                &&& m.source.format is None
                &&& m.source.header is None
            },
    {
        let av = match attributes_vertex {
            Some(a) => a,
            None => Attributes::default(),
        };
        let af = match attributes_face {
            Some(a) => a,
            None => Attributes::default(),
        };
        Ok(
            Trimesh {
                vertices,
                faces,
                attributes_vertex: av,
                attributes_face: af,
                source: LoadSource::default(),
                _cache: InnerCache::empty(),
            },
        )
    }

    /// Create a mesh from flat buffers: triples of scalars for the vertices
    /// and triples of indices for the faces. A buffer whose length is not a
    /// multiple of three is rejected.
    pub fn from_slice(vertices: &Vec<u64>, faces: &Vec<usize>) -> (r: Result<Trimesh, MeshError>)
        ensures
            (vertices@.len() % 3 == 0 && faces@.len() % 3 == 0) <==> r is Ok,
            r matches Ok(m) ==> {
                &&& m.wf()
                &&& m.cache_empty()
                &&& attributes_empty(m.attributes_vertex)
                &&& attributes_empty(m.attributes_face)
                &&& m.source.format is None
                &&& m.source.header is None
                &&& m.vertices@.len() == vertices@.len() / 3
                &&& m.faces@.len() == faces@.len() / 3
                &&& forall|i: int|
                    0 <= i < m.vertices@.len() ==> #[trigger] m.vertices@[i] == (Point3 {
                        x: vertices@[3 * i],
                        y: vertices@[3 * i + 1],
                        z: vertices@[3 * i + 2],
                    })
                &&& forall|i: int|
                    0 <= i < m.faces@.len() ==> #[trigger] m.faces@[i] == (
                    faces@[3 * i],
                    faces@[3 * i + 1],
                    faces@[3 * i + 2],
                    )
            },
            r is Err ==> r == Err::<Trimesh, MeshError>(MeshError::NonTripleBuffer),
    {
        if vertices.len() % 3 != 0 || faces.len() % 3 != 0 {
            return Err(MeshError::NonTripleBuffer);
        }
        let nv = vertices.len() / 3;
        proof {
            vstd::arithmetic::div_mod::lemma_fundamental_div_mod(vertices@.len() as int, 3);
        }
        let mut vs: Vec<Point3> = Vec::new();
        let mut i: usize = 0;
        while i < nv
            invariant
                i <= nv,
                nv == vertices@.len() / 3,
                3 * nv == vertices.len(),
                vs@.len() == i,
                forall|k: int|
                    0 <= k < i ==> #[trigger] vs@[k] == (Point3 {
                        x: vertices@[3 * k],
                        y: vertices@[3 * k + 1],
                        z: vertices@[3 * k + 2],
                    }),
            decreases nv - i,
        {
            vs.push(
                Point3 { x: vertices[3 * i], y: vertices[3 * i + 1], z: vertices[3 * i + 2] },
            );
            i = i + 1;
        }
        let nf = faces.len() / 3;
        proof {
            vstd::arithmetic::div_mod::lemma_fundamental_div_mod(faces@.len() as int, 3);
        }
        let mut fs: Vec<(usize, usize, usize)> = Vec::new();
        let mut j: usize = 0;
        while j < nf
            invariant
                j <= nf,
                nf == faces@.len() / 3,
                3 * nf == faces.len(),
                fs@.len() == j,
                forall|k: int|
                    0 <= k < j ==> #[trigger] fs@[k] == (
                    faces@[3 * k],
                    faces@[3 * k + 1],
                    faces@[3 * k + 2],
                    ),
            decreases nf - j,
        {
            fs.push((faces[3 * j], faces[3 * j + 1], faces[3 * j + 2]));
            j = j + 1;
        }
        Ok(
            Trimesh {
                vertices: vs,
                faces: fs,
                attributes_vertex: Attributes::default(),
                attributes_face: Attributes::default(),
                source: LoadSource::default(),
                _cache: InnerCache::empty(),
            },
        )
    }

    /// Reduce the mesh toward `target_count` faces with the quadric-error
    /// decimation engine; the result is a fresh mesh whose cache starts
    /// empty and is never derived from this mesh's cache.
    pub fn simplify(&self, target_count: usize, aggressiveness: u64) -> (r: Trimesh)
        requires
            (0 < target_count < self.faces@.len() && self.vertices@.len() >= 3) ==> (
            self.faces_valid() && 3 * self.faces@.len() <= usize::MAX),
        ensures
            r.wf(),
            r.cache_empty(),
            attributes_empty(r.attributes_vertex),
            attributes_empty(r.attributes_face),
            r.source.format is None,
            r.source.header is None,
            (target_count >= self.faces@.len() || self.vertices@.len() < 3) ==> (r.vertices@
                == self.vertices@ && r.faces@ == self.faces@),
            (target_count == 0 && self.faces@.len() > 0 && self.vertices@.len() >= 3) ==> (
            r.vertices@.len() == 0 && r.faces@.len() == 0),
            r.faces@.len() <= self.faces@.len(),
            (0 < target_count < self.faces@.len() && self.vertices@.len() >= 3) ==> {
                &&& r.vertices@.len() <= self.vertices@.len()
                &&& r.vertices@.len() <= 3 * r.faces@.len()
                &&& r.faces_valid()
                &&& forall|j: int| 0 <= j < r.vertices@.len() ==> face_references(r.faces@, j)
            },
    {
        let (vertices, faces) = simplify_mesh(
            &self.vertices,
            &self.faces,
            target_count,
            aggressiveness,
        );
        Trimesh {
            vertices,
            faces,
            attributes_vertex: Attributes::default(),
            attributes_face: Attributes::default(),
            source: LoadSource::default(),
            _cache: InnerCache::empty(),
        }
    }

    /// The texture coordinates stored first in the vertex attributes, if
    /// any.
    pub fn uv(&self) -> (r: Option<&UV>)
        ensures
            self.attributes_vertex.uv@.len() > 0 <==> r is Some,
            r matches Some(u) ==> u == &self.attributes_vertex.uv@[0],
    {
        if self.attributes_vertex.uv.len() > 0 {
            Some(&self.attributes_vertex.uv[0])
        } else {
            None
        }
    }

    /// An axis-aligned bounding box: the componentwise minimum and maximum
    /// over all vertices. A mesh with no vertices, or one whose corners
    /// coincide (every vertex at the same point), signals its own failure.
    pub fn bounds(&self) -> (r: Result<(Point3, Point3), MeshError>)
        ensures
            self.vertices@.len() == 0 ==> r == Err::<(Point3, Point3), MeshError>(
                MeshError::NoVertices,
            ),
            self.vertices@.len() > 0 ==> {
                let l = spec_lower(self.vertices@, self.vertices@.len() as int);
                let u = spec_upper(self.vertices@, self.vertices@.len() as int);
                if spec_points_eq(l, u) {
                    r == Err::<(Point3, Point3), MeshError>(MeshError::DegenerateBounds)
                } else {
                    r == Ok::<(Point3, Point3), MeshError>((l, u))
                }
            },
    {
        let n = self.vertices.len();
        if n == 0 {
            return Err(MeshError::NoVertices);
        }
        let mut lower = self.vertices[0];
        let mut upper = self.vertices[0];
        let mut i: usize = 1;
        while i < n
            invariant
                1 <= i <= n,
                n == self.vertices@.len(),
                lower == spec_lower(self.vertices@, i as int),
                upper == spec_upper(self.vertices@, i as int),
            decreases n - i,
        {
            let v = self.vertices[i];
            lower =
            Point3 {
                x: min_f(lower.x, v.x),
                y: min_f(lower.y, v.y),
                z: min_f(lower.z, v.z),
            };
            upper =
            Point3 {
                x: max_f(upper.x, v.x),
                y: max_f(upper.y, v.y),
                z: max_f(upper.z, v.z),
            };
            i = i + 1;
        }
        if eq_f(lower.x, upper.x) && eq_f(lower.y, upper.y) && eq_f(lower.z, upper.z) {
            return Err(MeshError::DegenerateBounds);
        }
        Ok((lower, upper))
    }

    /// The three directed edges of every face, as vertex-index pairs in
    /// triangle order; cached.
    pub fn edges(&mut self) -> (r: Vec<[usize; 2]>)
        requires
            old(self).wf(),
        ensures
            final(self).wf(),
            final(self).same_data(*old(self)),
            r@ == spec_edges(old(self).faces@),
            final(self)._cache.edges is Some,
            final(self)._cache.faces_cross == old(self)._cache.faces_cross,
            final(self)._cache.face_normals == old(self)._cache.face_normals,
            final(self)._cache.faces_area == old(self)._cache.faces_area,
            final(self)._cache.area == old(self)._cache.area,
            final(self)._cache.face_adjacency == old(self)._cache.face_adjacency,
    {
        if let Some(e) = &self._cache.edges {
            return copy_vec(e);
        }
        let e = compute_edges(&self.faces);
        let r = copy_vec(&e);
        self._cache.edges = Some(e);
        r
    }

    /// The non-normalized cross product of every face's two edge vectors
    /// from its first vertex; cached.
    pub fn faces_cross(&mut self) -> (r: Vec<Point3>)
        requires
            old(self).wf(),
            old(self).faces_valid(),
        ensures
            final(self).wf(),
            final(self).same_data(*old(self)),
            r@ == spec_faces_cross(old(self).vertices@, old(self).faces@),
            final(self)._cache.edges == old(self)._cache.edges,
            final(self)._cache.face_normals == old(self)._cache.face_normals,
            final(self)._cache.faces_area == old(self)._cache.faces_area,
            final(self)._cache.area == old(self)._cache.area,
            final(self)._cache.face_adjacency == old(self)._cache.face_adjacency,
    {
        if let Some(c) = &self._cache.faces_cross {
            return copy_vec(c);
        }
        let nf = self.faces.len();
        let mut c: Vec<Point3> = Vec::new();
        let mut i: usize = 0;
        while i < nf
            invariant
                i <= nf,
                nf == self.faces@.len(),
                self == old(self),
                old(self).faces_valid(),
                c@.len() == i,
                forall|k: int|
                    0 <= k < i ==> #[trigger] c@[k] == spec_face_cross(
                        self.vertices@,
                        self.faces@[k],
                    ),
            decreases nf - i,
        {
            let f = self.faces[i];
            let v0 = self.vertices[f.0];
            let v1 = self.vertices[f.1];
            let v2 = self.vertices[f.2];
            c.push(v1.minus(&v0).cross(&v2.minus(&v0)));
            i = i + 1;
        }
        proof {
            assert(c@ =~= spec_faces_cross(self.vertices@, self.faces@));
        }
        let r = copy_vec(&c);
        self._cache.faces_cross = Some(c);
        r
    }

    /// Every face's unit normal: the cached cross products, normalized;
    /// cached itself.
    pub fn face_normals(&mut self) -> (r: Vec<Point3>)
        requires
            old(self).wf(),
            old(self).faces_valid(),
        ensures
            final(self).wf(),
            final(self).same_data(*old(self)),
            r@ == spec_face_normals(old(self).vertices@, old(self).faces@),
            final(self)._cache.face_normals is Some,
            final(self)._cache.edges == old(self)._cache.edges,
            final(self)._cache.area == old(self)._cache.area,
            final(self)._cache.face_adjacency == old(self)._cache.face_adjacency,
    {
        if let Some(n) = &self._cache.face_normals {
            return copy_vec(n);
        }
        let cross = self.faces_cross();
        let nf = cross.len();
        let mut ns: Vec<Point3> = Vec::new();
        let mut i: usize = 0;
        while i < nf
            invariant
                i <= nf,
                nf == cross@.len(),
                cross@ == spec_faces_cross(old(self).vertices@, old(self).faces@),
                ns@.len() == i,
                forall|k: int| 0 <= k < i ==> #[trigger] ns@[k] == cross@[k].spec_normalized(),
            decreases nf - i,
        {
            ns.push(cross[i].normalized());
            i = i + 1;
        }
        proof {
            assert(ns@ =~= spec_face_normals(old(self).vertices@, old(self).faces@));
        }
        let r = copy_vec(&ns);
        self._cache.face_normals = Some(ns);
        r
    }

    /// The area of each face: half the norm of its cross product; cached.
    pub fn faces_area(&mut self) -> (r: Vec<u64>)
        requires
            old(self).wf(),
            old(self).faces_valid(),
        ensures
            final(self).wf(),
            final(self).same_data(*old(self)),
            r@ == spec_faces_area(old(self).vertices@, old(self).faces@),
            final(self)._cache.edges == old(self)._cache.edges,
            final(self)._cache.face_normals == old(self)._cache.face_normals,
            final(self)._cache.face_adjacency == old(self)._cache.face_adjacency,
    {
        if let Some(a) = &self._cache.faces_area {
            return copy_vec(a);
        }
        let cross = self.faces_cross();
        let nf = cross.len();
        let mut areas: Vec<u64> = Vec::new();
        let mut i: usize = 0;
        while i < nf
            invariant
                i <= nf,
                nf == cross@.len(),
                cross@ == spec_faces_cross(old(self).vertices@, old(self).faces@),
                areas@.len() == i,
                forall|k: int|
                    0 <= k < i ==> #[trigger] areas@[k] == fdiv(cross@[k].spec_norm(), F_TWO),
            decreases nf - i,
        {
            areas.push(div_f(cross[i].norm(), F_TWO));
            i = i + 1;
        }
        proof {
            assert(areas@ =~= spec_faces_area(old(self).vertices@, old(self).faces@));
        }
        let r = copy_vec(&areas);
        self._cache.faces_area = Some(areas);
        r
    }

    /// The summed area of every face; cached.
    pub fn area(&mut self) -> (r: u64)
        requires
            old(self).wf(),
            old(self).faces_valid(),
        ensures
            final(self).wf(),
            final(self).same_data(*old(self)),
            r == spec_area(old(self).vertices@, old(self).faces@),
            final(self)._cache.edges == old(self)._cache.edges,
            final(self)._cache.face_normals == old(self)._cache.face_normals,
            final(self)._cache.face_adjacency == old(self)._cache.face_adjacency,
    {
        if let Some(a) = &self._cache.area {
            return *a;
        }
        let areas = self.faces_area();
        let n = areas.len();
        let mut total: u64 = F_ZERO;
        let mut i: usize = 0;
        while i < n
            invariant
                i <= n,
                n == areas@.len(),
                total == spec_sum(areas@.take(i as int)),
            decreases n - i,
        {
            proof {
                assert(areas@.take(i + 1).drop_last() =~= areas@.take(i as int));
            }
            total = crate::scalar::add_f(total, areas[i]);
            i = i + 1;
        }
        proof {
            assert(areas@.take(n as int) =~= areas@);
        }
        self._cache.area = Some(total);
        total
    }

    /// The pairs of face indices sharing an undirected edge, emitted in the
    /// order the second occurrence of each edge is seen; an edge held by
    /// more than two faces pairs only its first two. Cached.
    pub fn face_adjacency(&mut self) -> (r: Vec<(usize, usize)>)
        requires
            old(self).wf(),
        ensures
            final(self).wf(),
            final(self).same_data(*old(self)),
            r@ == spec_face_adjacency(old(self).faces@),
            final(self)._cache.face_normals == old(self)._cache.face_normals,
            final(self)._cache.faces_cross == old(self)._cache.faces_cross,
            final(self)._cache.faces_area == old(self)._cache.faces_area,
            final(self)._cache.area == old(self)._cache.area,
    {
        if let Some(a) = &self._cache.face_adjacency {
            return copy_vec(a);
        }
        let edges = self.edges();
        let ne = edges.len();
        let mut edge_map: HashMap<u128, (usize, bool)> = HashMap::new();
        let mut adjacency: Vec<(usize, usize)> = Vec::new();
        let mut i: usize = 0;
        while i < ne
            invariant
                i <= ne,
                ne == edges@.len(),
                edges@ == spec_edges(old(self).faces@),
                edge_map@ == spec_adj_fold(edges@, i as int).0,
                adjacency@ == spec_adj_fold(edges@, i as int).1,
            decreases ne - i,
        {
            let e = edges[i];
            let face_index = i / 3;
            let a = if e[0] <= e[1] {
                e[0]
            } else {
                e[1]
            };
            let b = if e[0] <= e[1] {
                e[1]
            } else {
                e[0]
            };
            let key: u128 = (a as u128) * 0x1_0000_0000_0000_0000 + (b as u128);
            assert(key == spec_edge_key(edges@[i as int]));
            match edge_map.get(&key) {
                Some(entry) => {
                    let (first, paired) = *entry;
                    if !paired {
                        adjacency.push((first, face_index));
                        edge_map.insert(key, (first, true));
                    }
                },
                None => {
                    edge_map.insert(key, (face_index, false));
                },
            }
            i = i + 1;
        }
        proof {
            assert(3 * old(self).faces@.len() == ne);
        }
        let r = copy_vec(&adjacency);
        self._cache.face_adjacency = Some(adjacency);
        r
    }

    /// The angle, in radians, between the normals of each adjacent face
    /// pair.
    pub fn face_adjacency_angles(&mut self) -> (r: Vec<u64>)
        requires
            old(self).wf(),
            old(self).faces_valid(),
        ensures
            final(self).wf(),
            final(self).same_data(*old(self)),
            r@ == spec_face_adjacency_angles(old(self).vertices@, old(self).faces@),
    {
        let adjacency = self.face_adjacency();
        let normals = self.face_normals();
        proof {
            lemma_adjacency_in_range(spec_edges(old(self).faces@), 3 * (old(self).faces@.len() as int));
        }
        let n = adjacency.len();
        let mut angles: Vec<u64> = Vec::new();
        let mut i: usize = 0;
        while i < n
            invariant
                i <= n,
                n == adjacency@.len(),
                adjacency@ == spec_face_adjacency(old(self).faces@),
                normals@ == spec_face_normals(old(self).vertices@, old(self).faces@),
                normals@.len() == old(self).faces@.len(),
                forall|k: int|
                    0 <= k < adjacency@.len() ==> ((#[trigger] adjacency@[k]).0
                        < old(self).faces@.len() && adjacency@[k].1 < old(self).faces@.len()),
                angles@.len() == i,
                forall|k: int|
                    0 <= k < i ==> #[trigger] angles@[k] == spec_angle(
                        normals@[adjacency@[k].0 as int],
                        normals@[adjacency@[k].1 as int],
                    ),
            decreases n - i,
        {
            let adj = adjacency[i];
            angles.push(angle_between(&normals[adj.0], &normals[adj.1]));
            i = i + 1;
        }
        proof {
            assert(angles@ =~= spec_face_adjacency_angles(old(self).vertices@, old(self).faces@));
        }
        angles
    }
}

impl InnerCache {
    /// A cache with every slot empty.
    pub fn empty() -> (r: InnerCache)
        ensures
            r.face_adjacency is None,
            r.face_normals is None,
            r.edges is None,
            r.face_adjacency_angles is None,
            r.faces_cross is None,
            r.faces_area is None,
            r.area is None,
    {
        InnerCache {
            face_adjacency: None,
            face_normals: None,
            edges: None,
            face_adjacency_angles: None,
            faces_cross: None,
            faces_area: None,
            area: None,
        }
    }
}

/// Derived queries are deterministic functions of the mesh data alone: two
/// meshes with the same vertices and faces have identical derived values,
/// whatever their caches hold. Together with each query's contract, a query
/// repeated on an untouched mesh returns a bit-identical result, and a mesh
/// produced by simplification (whose cache starts empty) derives nothing
/// from its source's cache.
pub proof fn lemma_derived_queries_deterministic(a: Trimesh, b: Trimesh)
    requires
        a.vertices@ == b.vertices@,
        a.faces@ == b.faces@,
    ensures
        spec_edges(a.faces@) == spec_edges(b.faces@),
        spec_faces_cross(a.vertices@, a.faces@) == spec_faces_cross(b.vertices@, b.faces@),
        spec_face_normals(a.vertices@, a.faces@) == spec_face_normals(b.vertices@, b.faces@),
        spec_faces_area(a.vertices@, a.faces@) == spec_faces_area(b.vertices@, b.faces@),
        spec_area(a.vertices@, a.faces@) == spec_area(b.vertices@, b.faces@),
        spec_face_adjacency(a.faces@) == spec_face_adjacency(b.faces@),
{
}

/// The angle between two vectors: zero when either norm compares equal to
/// zero, otherwise the arc cosine of their clamped normalized dot product.
fn angle_between(a: &Point3, b: &Point3) -> (r: u64)
    ensures
        r == spec_angle(*a, *b),
{
    let prod = a.dot(b);
    let n1 = a.norm();
    let n2 = b.norm();
    if eq_f(n1, F_ZERO) || eq_f(n2, F_ZERO) {
        F_ZERO
    } else {
        let c = div_f(prod, mul_f(n1, n2));
        let clamped = if lt_f(c, F_NEG_ONE) {
            F_NEG_ONE
        } else if lt_f(F_ONE, c) {
            F_ONE
        } else {
            c
        };
        acos_f(clamped)
    }
}

/// An element-for-element copy of a vector of plain values.
fn copy_vec<T: Copy>(v: &Vec<T>) -> (r: Vec<T>)
    ensures
        r@ == v@,
{
    let n = v.len();
    let mut r: Vec<T> = Vec::new();
    let mut i: usize = 0;
    while i < n
        invariant
            i <= n,
            n == v@.len(),
            r@ == v@.take(i as int),
        decreases n - i,
    {
        r.push(v[i]);
        proof {
            assert(r@ =~= v@.take(i + 1));
        }
        i = i + 1;
    }
    proof {
        assert(v@.take(n as int) =~= v@);
    }
    r
}

/// The three edges of every face, in face order.
fn compute_edges(faces: &Vec<(usize, usize, usize)>) -> (r: Vec<[usize; 2]>)
    ensures
        r@ == spec_edges(faces@),
        r@.len() == 3 * faces@.len(),
{
    let nf = faces.len();
    let mut r: Vec<[usize; 2]> = Vec::new();
    let mut i: usize = 0;
    while i < nf
        invariant
            i <= nf,
            nf == faces@.len(),
            r@.len() == 3 * i,
            forall|k: int| 0 <= k < 3 * i ==> #[trigger] r@[k] == face_edge(faces@[k / 3], k % 3),
        decreases nf - i,
    {
        let f = faces[i];
        r.push([f.0, f.1]);
        r.push([f.1, f.2]);
        r.push([f.2, f.0]);
        i = i + 1;
    }
    proof {
        assert(r@ =~= spec_edges(faces@));
    }
    r
}

/// Every face index the adjacency fold emits or remembers stays below a
/// third of the edge count.
proof fn lemma_adjacency_in_range(edges: Seq<[usize; 2]>, i: int)
    requires
        0 <= i <= edges.len(),
    ensures
        forall|key: u128|
            spec_adj_fold(edges, i).0.contains_key(key) ==> 3 * ((#[trigger] spec_adj_fold(
                edges,
                i,
            ).0[key]).0 as int) < i,
        forall|k: int|
            0 <= k < spec_adj_fold(edges, i).1.len() ==> (3 * ((#[trigger] spec_adj_fold(
                edges,
                i,
            ).1[k]).0 as int) < i && 3 * (spec_adj_fold(edges, i).1[k].1 as int) < i),
    decreases i,
{
    if i > 0 {
        lemma_adjacency_in_range(edges, i - 1);
        vstd::arithmetic::div_mod::lemma_fundamental_div_mod(i - 1, 3);
        assert(3 * ((i - 1) / 3) <= i - 1);
        let prev = spec_adj_fold(edges, i - 1);
        let key = spec_edge_key(edges[i - 1]);
        let face = ((i - 1) / 3) as usize;
        assert(3 * (face as int) < i);
        if prev.0.contains_key(key) && !prev.0[key].1 {
            let cur = spec_adj_fold(edges, i);
            assert(cur.1 == prev.1.push((prev.0[key].0, face)));
            assert forall|k: int| 0 <= k < cur.1.len() implies (3 * ((#[trigger] cur.1[k]).0 as int)
                < i && 3 * (cur.1[k].1 as int) < i) by {
                if k < prev.1.len() {
                    assert(cur.1[k] == prev.1[k]);
                } else {
                    assert(cur.1[k] == (prev.0[key].0, face));
                }
            }
        }
    }
}

} // verus!
