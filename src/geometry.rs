use vstd::prelude::*;
use kasane_logic::{Coordinate, CoverSingleIds, Ecef, Triangle};

verus! {

/// A point of the spatial-indexing library: latitude, longitude and altitude,
/// held opaquely and handed through to the rasterisation.
#[verifier::external_type_specification]
#[verifier::external_body]
pub struct ExCoordinate(Coordinate);

/// A spatial-index identifier: zoom level `z`, vertical index `f` and the
/// horizontal tile indices `x`, `y`. Its canonical form is `z/f/x/y`.
#[derive(Clone, Copy, PartialEq, Eq, Structural, Debug, Hash)]
pub struct SpatialId {
    pub z: u8,
    pub f: i32,
    pub x: u32,
    pub y: u32,
}

impl SpatialId {
    pub fn new(z: u8, f: i32, x: u32, y: u32) -> (r: SpatialId)
        ensures
            r == (SpatialId { z, f, x, y }),
    {
        SpatialId { z, f, x, y }
    }
}

/// The deepest subdivision that the spatial-indexing library defines.
pub const MAX_DEPTH: u8 = 30;

/// The identifiers that cover triangle `(a, b, c)` at depth `z`, or `None`
/// where the rasterisation fails.
pub uninterp spec fn triangle_cover(z: u8, a: Coordinate, b: Coordinate, c: Coordinate) -> Option<Set<SpatialId>>;

/// Whether a point survives conversion to earth-centred coordinates and
/// back: the recovered latitude, longitude and altitude are in range.
pub uninterp spec fn round_trips(a: Coordinate) -> bool;

/// Relies on kasane_logic's `Ecef::from` (a `Coordinate` conversion) and
/// `Coordinate::try_from(Ecef)`: whether the conversion back succeeds depends
/// on the point alone.
#[verifier::external_body]
fn corner_round_trips(a: Coordinate) -> (r: bool)
    ensures
        r == round_trips(a),
{
    Coordinate::try_from(Ecef::from(a)).is_ok()
}

/// Relies on kasane_logic's `Triangle::cover_single_ids`: a function of the
/// depth and the three corners, whose identifiers come out without repeats
/// (it filters through a set of those seen), in an order that is not fixed.
/// The depth is bounded by the library's deepest level. The library converts
/// the first corner to earth-centred coordinates and back, and panics where
/// that conversion fails; the first corner is required to survive it.
#[verifier::external_body]
fn cover_triangle(z: u8, a: Coordinate, b: Coordinate, c: Coordinate) -> (r: Option<Vec<SpatialId>>)
    requires
        z <= MAX_DEPTH,
        round_trips(a),
    ensures
        r is None <==> triangle_cover(z, a, b, c) is None,
        r matches Some(v) ==> v@.no_duplicates() && v@.to_set() == triangle_cover(z, a, b, c)->0,
{
    let triangle = Triangle::new([a, b, c]);
    let ids = triangle.cover_single_ids(z).ok()?;
    Some(ids.map(|id| SpatialId::new(id.z(), id.f(), id.x(), id.y())).collect())
}

/// What a triangle contributes to a footprint: its cover, or nothing where
/// rasterisation fails or its first corner does not survive the conversion
/// to earth-centred coordinates and back.
pub open spec fn cover_or_empty(z: u8, t: (Coordinate, Coordinate, Coordinate)) -> Set<SpatialId> {
    if !round_trips(t.0) {
        Set::empty()
    } else {
        match triangle_cover(z, t.0, t.1, t.2) {
            Some(s) => s,
            None => Set::empty(),
        }
    }
}

/// The union of the covers of the triangles of `s`.
pub open spec fn covers_union(z: u8, s: Seq<(Coordinate, Coordinate, Coordinate)>) -> Set<SpatialId>
    decreases s.len(),
{
    if s.len() == 0 {
        Set::empty()
    } else {
        covers_union(z, s.drop_last()).union(cover_or_empty(z, s.last()))
    }
}

proof fn lemma_push_to_set<A>(s: Seq<A>, x: A)
    ensures
        s.push(x).to_set() == s.to_set().insert(x),
{
    assert forall|a: A| #[trigger] s.push(x).contains(a) <==> (s.contains(a) || a == x) by {
        if s.contains(a) {
            let j = choose|j: int| 0 <= j < s.len() && s[j] == a;
            assert(s.push(x)[j] == a);
        }
        if a == x {
            assert(s.push(x)[s.len() as int] == a);
        }
        if s.push(x).contains(a) {
            let j = choose|j: int| 0 <= j < s.push(x).len() && s.push(x)[j] == a;
            if j < s.len() {
                assert(s[j] == a);
            }
        }
    }
    assert(s.push(x).to_set() =~= s.to_set().insert(x));
}

/// A deduplicated set of spatial identifiers.
pub struct Footprint {
    ids: Vec<SpatialId>,
}

impl View for Footprint {
    type V = Set<SpatialId>;

    closed spec fn view(&self) -> Set<SpatialId> {
        self.ids@.to_set()
    }
}

impl Footprint {
    #[verifier::type_invariant]
    spec fn inv(&self) -> bool {
        self.ids@.no_duplicates()
    }

    pub fn new() -> (r: Footprint)
        ensures
            r@ == Set::<SpatialId>::empty(),
    {
        let r = Footprint { ids: Vec::new() };
        proof {
            assert(r@ =~= Set::<SpatialId>::empty());
        }
        r
    }

    pub fn contains(&self, id: SpatialId) -> (r: bool)
        ensures
            r == self@.contains(id),
    {
        let mut i: usize = 0;
        while i < self.ids.len()
            invariant
                i <= self.ids@.len(),
                forall|j: int| 0 <= j < i ==> self.ids@[j] != id,
            decreases self.ids@.len() - i,
        {
            if self.ids[i] == id {
                return true;
            }
            i = i + 1;
        }
        false
    }

    pub fn insert(&mut self, id: SpatialId)
        ensures
            final(self)@ == old(self)@.insert(id),
    {
        proof {
            use_type_invariant(&*self);
        }
        if !self.contains(id) {
            let ghost before = self.ids@;
            let mut ids = Vec::new();
            std::mem::swap(&mut ids, &mut self.ids);
            ids.push(id);
            proof {
                assert(ids@ == before.push(id));
                assert(ids@.no_duplicates()) by {
                    assert forall|a: int, b: int| 0 <= a < b < ids@.len() implies ids@[a] != ids@[b] by {
                        if b == before.len() {
                            assert(before.contains(before[a]));
                        }
                    }
                }
                lemma_push_to_set(before, id);
            }
            *self = Footprint { ids };
        } else {
            proof {
                assert(old(self)@.insert(id) =~= old(self)@);
            }
        }
    }

    /// Adds every identifier of `ids`.
    pub fn extend(&mut self, ids: &Vec<SpatialId>)
        ensures
            final(self)@ == old(self)@.union(ids@.to_set()),
    {
        let mut i: usize = 0;
        while i < ids.len()
            invariant
                i <= ids@.len(),
                self@ == old(self)@.union(ids@.subrange(0, i as int).to_set()),
            decreases ids@.len() - i,
        {
            proof {
                assert(ids@.subrange(0, i + 1) =~= ids@.subrange(0, i as int).push(ids@[i as int]));
                lemma_push_to_set(ids@.subrange(0, i as int), ids@[i as int]);
            }
            self.insert(ids[i]);
            proof {
                assert(self@ =~= old(self)@.union(ids@.subrange(0, i + 1).to_set()));
            }
            i = i + 1;
        }
        proof {
            assert(ids@.subrange(0, ids@.len() as int) =~= ids@);
        }
    }

    /// Adds every identifier of `other`.
    pub fn union_with(&mut self, other: &Footprint)
        ensures
            final(self)@ == old(self)@.union(other@),
    {
        self.extend(&other.ids);
    }

    /// The identifiers, each once, in the order in which they were added.
    pub fn to_vec(&self) -> (r: Vec<SpatialId>)
        ensures
            r@.to_set() == self@,
            r@.no_duplicates(),
    {
        proof {
            use_type_invariant(self);
        }
        let mut r: Vec<SpatialId> = Vec::new();
        let mut i: usize = 0;
        while i < self.ids.len()
            invariant
                i <= self.ids@.len(),
                r@ == self.ids@.subrange(0, i as int),
                self.ids@.no_duplicates(),
            decreases self.ids@.len() - i,
        {
            r.push(self.ids[i]);
            i = i + 1;
            proof {
                assert(r@ =~= self.ids@.subrange(0, i as int));
            }
        }
        proof {
            assert(r@ =~= self.ids@);
        }
        r
    }

    pub fn len(&self) -> (r: usize)
        ensures
            r == self@.len(),
    {
        proof {
            use_type_invariant(self);
            self.ids@.unique_seq_to_set();
        }
        self.ids.len()
    }
}

/// The triangles that an index list names, three indices to a triangle; a
/// trailing incomplete group is ignored.
pub open spec fn index_triangles<V>(v: Seq<V>, idx: Seq<usize>) -> Seq<(V, V, V)> {
    Seq::new(
        idx.len() / 3,
        |k: int| (v[idx[3 * k] as int], v[idx[3 * k + 1] as int], v[idx[3 * k + 2] as int]),
    )
}

/// Every index of a complete group names a vertex.
pub open spec fn indices_in_range(n: nat, idx: Seq<usize>) -> bool {
    forall|i: int| 0 <= i < 3 * (idx.len() / 3) ==> #[trigger] idx[i] < n
}

pub open spec fn opt_seq(t: Option<Vec<usize>>) -> Option<Seq<usize>> {
    match t {
        Some(v) => Some(v@),
        None => None,
    }
}

/// The triangles of a ring: none for fewer than three vertices, none where
/// triangulation failed or named a vertex that is not there, otherwise the
/// index triples mapped back to the ring's vertices in their order.
pub open spec fn prepared_triangles<V>(v: Seq<V>, triangulation: Option<Seq<usize>>) -> Seq<(V, V, V)> {
    if v.len() < 3 {
        Seq::empty()
    } else {
        match triangulation {
            Some(idx) => if indices_in_range(v.len(), idx) {
                index_triangles(v, idx)
            } else {
                Seq::empty()
            },
            None => Seq::empty(),
        }
    }
}

/// The fan of a ring around its first vertex.
pub open spec fn fan_triangles<V>(v: Seq<V>) -> Seq<(V, V, V)> {
    if v.len() < 3 {
        Seq::empty()
    } else {
        Seq::new((v.len() - 2) as nat, |k: int| (v[0], v[k + 1], v[k + 2]))
    }
}

/// Maps the index triples of an ear-clipping triangulation of `vertices` back
/// to the vertices. `triangulation` is `None` where triangulation failed.
pub fn prepare_surface<V: Copy>(vertices: &Vec<V>, triangulation: &Option<Vec<usize>>) -> (r: Vec<(V, V, V)>)
    ensures
        r@ == prepared_triangles(vertices@, opt_seq(*triangulation)),
        vertices@.len() < 3 ==> r@.len() == 0,
{
    if vertices.len() < 3 {
        return Vec::new();
    }
    let idx = match triangulation {
        Some(idx) => idx,
        None => return Vec::new(),
    };
    let ghost n = idx@.len() / 3;
    let mut r: Vec<(V, V, V)> = Vec::new();
    let mut i: usize = 0;
    while idx.len() - i >= 3
        invariant
            n == idx@.len() / 3,
            opt_seq(*triangulation) == Some(idx@),
            vertices@.len() >= 3,
            i % 3 == 0,
            i <= idx@.len(),
            r@.len() == i / 3,
            forall|j: int| 0 <= j < i ==> #[trigger] idx@[j] < vertices@.len(),
            forall|j: int| 0 <= j < i / 3 ==> #[trigger] r@[j] == index_triangles(vertices@, idx@)[j],
        decreases idx@.len() - i,
    {
        proof {
            assert(i / 3 < n);
            assert(i + 2 < 3 * n);
        }
        if idx[i] >= vertices.len() || idx[i + 1] >= vertices.len() || idx[i + 2] >= vertices.len() {
            proof {
                let j = if idx@[i as int] >= vertices@.len() {
                    i as int
                } else if idx@[i + 1] >= vertices@.len() {
                    i + 1
                } else {
                    i + 2
                };
                assert(0 <= j < 3 * (idx@.len() / 3) && idx@[j] >= vertices@.len());
                assert(!indices_in_range(vertices@.len(), idx@));
                assert(prepared_triangles(vertices@, opt_seq(*triangulation)) =~= Seq::<(V, V, V)>::empty());
            }
            return Vec::new();
        }
        r.push((vertices[idx[i]], vertices[idx[i + 1]], vertices[idx[i + 2]]));
        i = i + 3;
    }
    proof {
        assert(i / 3 == n);
    }
    proof {
        assert(r@ =~= index_triangles(vertices@, idx@));
    }
    r
}

/// Fans a ring into triangles around its first vertex.
pub fn fan_triangulate<V: Copy>(vertices: &Vec<V>) -> (r: Vec<(V, V, V)>)
    ensures
        r@ == fan_triangles(vertices@),
{
    if vertices.len() < 3 {
        return Vec::new();
    }
    let mut r: Vec<(V, V, V)> = Vec::new();
    let mut i: usize = 1;
    while i < vertices.len() - 1
        invariant
            vertices@.len() >= 3,
            1 <= i <= vertices@.len() - 1,
            r@.len() == i - 1,
            forall|j: int| 0 <= j < i - 1 ==> #[trigger] r@[j] == fan_triangles(vertices@)[j],
        decreases vertices@.len() - i,
    {
        r.push((vertices[0], vertices[i], vertices[i + 1]));
        i = i + 1;
    }
    proof {
        assert(r@ =~= fan_triangles(vertices@));
    }
    r
}

/// The footprint of a list of triangles: the union of their covers at depth `z`.
pub fn triangles_to_ids(z: u8, triangles: &Vec<(Coordinate, Coordinate, Coordinate)>) -> (r: Footprint)
    requires
        z <= MAX_DEPTH,
    ensures
        r@ == covers_union(z, triangles@),
{
    let mut fp = Footprint::new();
    let mut i: usize = 0;
    while i < triangles.len()
        invariant
            z <= MAX_DEPTH,
            i <= triangles@.len(),
            fp@ == covers_union(z, triangles@.subrange(0, i as int)),
        decreases triangles@.len() - i,
    {
        let t = triangles[i];
        proof {
            assert(triangles@.subrange(0, i + 1).drop_last() =~= triangles@.subrange(0, i as int));
        }
        let cover = if corner_round_trips(t.0) {
            cover_triangle(z, t.0, t.1, t.2)
        } else {
            None
        };
        match cover {
            Some(ids) => {
                fp.extend(&ids);
            },
            None => {
                proof {
                    assert(fp@.union(Set::empty()) =~= fp@);
                }
            },
        }
        i = i + 1;
    }
    proof {
        assert(triangles@.subrange(0, triangles@.len() as int) =~= triangles@);
    }
    fp
}

/// The footprint of one surface: its ear-clipped triangles (see
/// `prepare_surface`) rasterised at depth `z`.
pub fn surface_to_ids(z: u8, vertices: &Vec<Coordinate>, triangulation: &Option<Vec<usize>>) -> (r: Footprint)
    requires
        z <= MAX_DEPTH,
    ensures
        r@ == covers_union(z, prepared_triangles(vertices@, opt_seq(*triangulation))),
        vertices@.len() < 3 ==> r@ == Set::<SpatialId>::empty(),
{
    let triangles = prepare_surface(vertices, triangulation);
    triangles_to_ids(z, &triangles)
}

/// The union of the footprints of the surfaces of `s`, each with the
/// triangulation at the same position of `t`.
pub open spec fn surfaces_union(z: u8, s: Seq<Vec<Coordinate>>, t: Seq<Option<Vec<usize>>>) -> Set<SpatialId>
    decreases s.len(),
{
    if s.len() == 0 || t.len() != s.len() {
        Set::empty()
    } else {
        surfaces_union(z, s.drop_last(), t.drop_last()).union(
            covers_union(z, prepared_triangles(s.last()@, opt_seq(t.last()))),
        )
    }
}

/// The footprint of a solid given as surfaces, each with its triangulation.
pub fn polygon(z: u8, surfaces: &Vec<Vec<Coordinate>>, triangulations: &Vec<Option<Vec<usize>>>) -> (r: Footprint)
    requires
        z <= MAX_DEPTH,
        surfaces@.len() == triangulations@.len(),
    ensures
        r@ == surfaces_union(z, surfaces@, triangulations@),
{
    let mut fp = Footprint::new();
    let mut i: usize = 0;
    while i < surfaces.len()
        invariant
            z <= MAX_DEPTH,
            surfaces@.len() == triangulations@.len(),
            i <= surfaces@.len(),
            fp@ == surfaces_union(z, surfaces@.subrange(0, i as int), triangulations@.subrange(0, i as int)),
        decreases surfaces@.len() - i,
    {
        let part = surface_to_ids(z, &surfaces[i], &triangulations[i]);
        fp.union_with(&part);
        proof {
            assert(surfaces@.subrange(0, i + 1).drop_last() =~= surfaces@.subrange(0, i as int));
            assert(triangulations@.subrange(0, i + 1).drop_last() =~= triangulations@.subrange(0, i as int));
        }
        i = i + 1;
    }
    proof {
        assert(surfaces@.subrange(0, surfaces@.len() as int) =~= surfaces@);
        assert(triangulations@.subrange(0, surfaces@.len() as int) =~= triangulations@);
    }
    fp
}

/// The footprint of a ring under the ungrounded policy (see
/// `citygml_polygon_to_ids`).
pub open spec fn ring_footprint(z: u8, v: Seq<Coordinate>, has_zero_altitude: bool) -> Set<SpatialId> {
    if v.len() < 3 || has_zero_altitude {
        Set::empty()
    } else {
        covers_union(z, fan_triangles(v))
    }
}

/// A ring of fewer than three vertices yields no triangle, whether fanned or
/// ear-clipped with any triangulation, and so no identifier at any depth; a
/// solid made of such rings has an empty footprint.
pub proof fn lemma_short_rings_yield_nothing(
    z: u8,
    v: Seq<Coordinate>,
    t: Option<Seq<usize>>,
    surfaces: Seq<Vec<Coordinate>>,
    triangulations: Seq<Option<Vec<usize>>>,
)
    requires
        v.len() < 3,
        forall|i: int| 0 <= i < surfaces.len() ==> #[trigger] surfaces[i]@.len() < 3,
    ensures
        prepared_triangles(v, t).len() == 0,
        fan_triangles(v).len() == 0,
        covers_union(z, prepared_triangles(v, t)) == Set::<SpatialId>::empty(),
        ring_footprint(z, v, false) == Set::<SpatialId>::empty(),
        surfaces_union(z, surfaces, triangulations) == Set::<SpatialId>::empty(),
    decreases surfaces.len(),
{
    assert(prepared_triangles(v, t) =~= Seq::empty());
    if surfaces.len() > 0 && triangulations.len() == surfaces.len() {
        let last = surfaces.last();
        assert(surfaces[surfaces.len() - 1]@.len() < 3);
        lemma_short_rings_yield_nothing(z, v, t, surfaces.drop_last(), triangulations.drop_last());
        assert(prepared_triangles(last@, opt_seq(triangulations.last())) =~= Seq::empty());
        assert(surfaces_union(z, surfaces, triangulations) =~= Set::<SpatialId>::empty());
    }
}

/// A ring with a vertex at altitude exactly zero contributes nothing, at any
/// depth and whatever its other vertices.
pub proof fn lemma_ungrounded_ring_yields_nothing(z: u8, v: Seq<Coordinate>)
    ensures
        ring_footprint(z, v, true) == Set::<SpatialId>::empty(),
{
}

/// The footprint of a ring under the ungrounded policy: a ring with fewer
/// than three vertices, or with a vertex at altitude exactly zero
/// (`has_zero_altitude`), contributes nothing; otherwise its fan triangles
/// are rasterised at depth `z`.
pub fn citygml_polygon_to_ids(z: u8, vertices: &Vec<Coordinate>, has_zero_altitude: bool) -> (r: Footprint)
    requires
        z <= MAX_DEPTH,
    ensures
        r@ == ring_footprint(z, vertices@, has_zero_altitude),
        has_zero_altitude ==> r@ == Set::<SpatialId>::empty(),
{
    if vertices.len() < 3 || has_zero_altitude {
        return Footprint::new();
    }
    let triangles = fan_triangulate(vertices);
    triangles_to_ids(z, &triangles)
}

/// A coordinate list whose number count is not a multiple of three.
#[derive(Clone, Copy, PartialEq, Eq, Structural, Debug)]
pub struct GeometryFormatError {
    pub count: usize,
}

/// The consecutive triples of `s`.
pub open spec fn triples<T>(s: Seq<T>) -> Seq<(T, T, T)> {
    Seq::new(s.len() / 3, |k: int| (s[3 * k], s[3 * k + 1], s[3 * k + 2]))
}

/// Groups the numbers of a coordinate list into vertices (latitude,
/// longitude, altitude); a count that is not a multiple of three is an error.
pub fn group_triples<T: Copy>(values: &Vec<T>) -> (r: Result<Vec<(T, T, T)>, GeometryFormatError>)
    ensures
        values@.len() % 3 != 0 <==> r is Err,
        r matches Err(e) ==> e.count == values@.len(),
        r matches Ok(v) ==> v@ == triples(values@),
{
    if values.len() % 3 != 0 {
        return Err(GeometryFormatError { count: values.len() });
    }
    let mut r: Vec<(T, T, T)> = Vec::new();
    let mut i: usize = 0;
    while i < values.len()
        invariant
            values@.len() % 3 == 0,
            i % 3 == 0,
            i <= values@.len(),
            r@.len() == i / 3,
            forall|j: int| 0 <= j < i / 3 ==> #[trigger] r@[j] == triples(values@)[j],
        decreases values@.len() - i,
    {
        r.push((values[i], values[i + 1], values[i + 2]));
        i = i + 3;
    }
    proof {
        assert(r@ =~= triples(values@));
    }
    Ok(r)
}

} // verus!
