//! Flattening a document into render-ready buffers.
//!
//! One pass produces four artifacts: the contiguous triangle buffer (types
//! merged in the fixed declared order), the type-range table, the per-vertex
//! color buffer, and the reverse index of object ids and triangle-triple
//! intervals.  The merge order is the 21 known types in their declared
//! order, then the unknown-type slot last, so group boundaries are
//! deterministic across runs.

use vstd::prelude::*;
use vstd::arithmetic::div_mod::{lemma_add_mod_noop, lemma_div_is_ordered};
use crate::colors::{
    base_colors,
    build_colors,
    group_references,
    lemma_vertex_color,
    paint_groups,
    spec_color_of,
};
use crate::model::{
    CityModel,
    CityObject,
    FlattenError,
    ObjectIndex,
    TypeGroup,
    Surface,
    Shell,
    Geometry,
    Vertex,
    SLOT_COUNT,
    spec_slot_of,
    spec_slot_type,
    slot_of,
    slot_type,
    surface_triangles,
    surfaces_triangles,
    shell_triangles,
    shells_triangles,
    solids_triangles,
    geometry_triangles,
    geometries_triangles,
    object_triangles,
    lemma_object_len,
};

verus! {

/// Triangles of the first `n` objects that fall in slot `s`, concatenated in
/// object order.
pub open spec fn slot_triangles_prefix(objs: Seq<CityObject>, s: int, n: int) -> Seq<u32>
    decreases n,
{
    if n <= 0 {
        Seq::<u32>::empty()
    } else {
        slot_triangles_prefix(objs, s, n - 1) + (if spec_slot_of(objs[n - 1].co_type) == s {
            object_triangles(objs[n - 1])
        } else {
            Seq::<u32>::empty()
        })
    }
}

/// Triangles of every object in slot `s`, in object order.
pub open spec fn slot_triangles(objs: Seq<CityObject>, s: int) -> Seq<u32> {
    slot_triangles_prefix(objs, s, objs.len() as int)
}

/// The triangle buffer of all slots before `s`, in merge order.
pub open spec fn triangles_to_slot(objs: Seq<CityObject>, s: int) -> Seq<u32>
    decreases s,
{
    if s <= 0 {
        Seq::<u32>::empty()
    } else {
        triangles_to_slot(objs, s - 1) + slot_triangles(objs, s - 1)
    }
}

/// The whole triangle buffer of a document.
pub open spec fn spec_triangles(m: CityModel) -> Seq<u32> {
    triangles_to_slot(m.objects@, SLOT_COUNT as int)
}

/// Ids of the first `n` objects that fall in slot `s`, in object order.
/// Every object of the slot contributes its id, whether or not it emitted
/// any triangle.
pub open spec fn slot_ids_prefix(objs: Seq<CityObject>, s: int, n: int) -> Seq<String>
    decreases n,
{
    if n <= 0 {
        Seq::<String>::empty()
    } else {
        slot_ids_prefix(objs, s, n - 1) + (if spec_slot_of(objs[n - 1].co_type) == s {
            seq![objs[n - 1].id]
        } else {
            Seq::<String>::empty()
        })
    }
}

/// Ids of every object in slot `s`.
pub open spec fn slot_ids(objs: Seq<CityObject>, s: int) -> Seq<String> {
    slot_ids_prefix(objs, s, objs.len() as int)
}

/// Ids of all slots before `s`, in merge order.
pub open spec fn ids_to_slot(objs: Seq<CityObject>, s: int) -> Seq<String>
    decreases s,
{
    if s <= 0 {
        Seq::<String>::empty()
    } else {
        ids_to_slot(objs, s - 1) + slot_ids(objs, s - 1)
    }
}

/// The id sequence of the reverse index.
pub open spec fn spec_ids(m: CityModel) -> Seq<String> {
    ids_to_slot(m.objects@, SLOT_COUNT as int)
}

/// Interval entries of the first `n` objects that fall in slot `s`: each
/// such object contributes the cumulative triangle-triple count of the
/// buffer up to and including its own geometry.  An object that emitted
/// nothing repeats the previous cumulative value, making its range
/// zero-width.
pub open spec fn slot_intervals_prefix(objs: Seq<CityObject>, s: int, n: int) -> Seq<u32>
    decreases n,
{
    if n <= 0 {
        Seq::<u32>::empty()
    } else {
        slot_intervals_prefix(objs, s, n - 1) + (if spec_slot_of(objs[n - 1].co_type) == s {
            seq![
                (((triangles_to_slot(objs, s).len() + slot_triangles_prefix(objs, s, n).len())
                    / 3) as u32),
            ]
        } else {
            Seq::<u32>::empty()
        })
    }
}

/// Interval entries of every object in slot `s`.
pub open spec fn slot_intervals(objs: Seq<CityObject>, s: int) -> Seq<u32> {
    slot_intervals_prefix(objs, s, objs.len() as int)
}

/// Interval entries of all slots before `s`, in merge order.
pub open spec fn intervals_to_slot(objs: Seq<CityObject>, s: int) -> Seq<u32>
    decreases s,
{
    if s <= 0 {
        Seq::<u32>::empty()
    } else {
        intervals_to_slot(objs, s - 1) + slot_intervals(objs, s - 1)
    }
}

/// The interval sequence of the reverse index, seeded with a leading zero.
pub open spec fn spec_intervals(m: CityModel) -> Seq<u32> {
    seq![0u32] + intervals_to_slot(m.objects@, SLOT_COUNT as int)
}

/// The type-range table of all slots before `s`: one entry per slot that
/// contributed at least one triangle, in merge order, measured in vertex
/// indices of the triangle buffer.
pub open spec fn groups_to_slot(objs: Seq<CityObject>, s: int) -> Seq<TypeGroup>
    decreases s,
{
    if s <= 0 {
        Seq::<TypeGroup>::empty()
    } else {
        groups_to_slot(objs, s - 1) + (if slot_triangles(objs, s - 1).len() > 0 {
            seq![
                TypeGroup {
                    co_type: spec_slot_type(s - 1),
                    start: triangles_to_slot(objs, s - 1).len() as u32,
                    count: slot_triangles(objs, s - 1).len() as u32,
                },
            ]
        } else {
            Seq::<TypeGroup>::empty()
        })
    }
}

/// The whole type-range table of a document.
pub open spec fn spec_groups(m: CityModel) -> Seq<TypeGroup> {
    groups_to_slot(m.objects@, SLOT_COUNT as int)
}

/// Sum of the `count` fields of a type-range table.
pub open spec fn sum_group_counts(groups: Seq<TypeGroup>) -> int
    decreases groups.len(),
{
    if groups.len() == 0 {
        0
    } else {
        sum_group_counts(groups.drop_last()) + groups.last().count as int
    }
}

/// The vertex table flattened into coordinate order: x, y, z of each vertex
/// in turn.
pub open spec fn spec_flat_vertices(vs: Seq<Vertex>) -> Seq<u32>
    decreases vs.len(),
{
    if vs.len() == 0 {
        Seq::<u32>::empty()
    } else {
        spec_flat_vertices(vs.drop_last()) + seq![vs.last().x, vs.last().y, vs.last().z]
    }
}

/// Why flattening a document fails, if it does: the conditions are checked
/// in this order.  Both are machine limits of the buffer interface, not
/// properties of the document's content — in particular a triangle may
/// reference a vertex outside the vertex table; it is emitted all the same
/// and merely paints no color.
pub open spec fn spec_flatten_error(m: CityModel) -> Option<FlattenError> {
    if spec_triangles(m).len() > u32::MAX {
        Some(FlattenError::TooManyTriangles)
    } else if m.vertices@.len() * 3 > usize::MAX {
        Some(FlattenError::VertexTableTooLarge)
    } else {
        None
    }
}

// ---------------------------------------------------------------------------
// Verified traversal: appending the triangles a piece of geometry emits.
// ---------------------------------------------------------------------------

/// Appends the triangle of one surface: its outer ring, exactly when that
/// ring has three vertex indices.  Other rings are skipped by design.
fn append_surface(tri: &mut Vec<u32>, srf: &Surface)
    ensures
        final(tri)@ == old(tri)@ + surface_triangles(*srf),
{
    if srf.rings.len() > 0 {
        let ring = &srf.rings[0];
        if ring.len() == 3 {
            tri.push(ring[0]);
            tri.push(ring[1]);
            tri.push(ring[2]);
            proof {
                assert(tri@ =~= old(tri)@ + surface_triangles(*srf));
            }
            return;
        }
    }
    proof {
        assert(tri@ =~= old(tri)@ + surface_triangles(*srf));
    }
}

/// Appends the triangles of a list of surfaces, in order.
fn append_surfaces(tri: &mut Vec<u32>, srfs: &Vec<Surface>)
    ensures
        final(tri)@ == old(tri)@ + surfaces_triangles(srfs@),
{
    let ghost orig = old(tri)@;
    let mut i: usize = 0;
    while i < srfs.len()
        invariant
            0 <= i <= srfs@.len(),
            tri@ == orig + surfaces_triangles(srfs@.take(i as int)),
        decreases srfs@.len() - i,
    {
        append_surface(tri, &srfs[i]);
        proof {
            assert(srfs@.take(i as int + 1).drop_last() =~= srfs@.take(i as int));
            assert(srfs@.take(i as int + 1).last() == srfs@[i as int]);
            assert((orig + surfaces_triangles(srfs@.take(i as int))) + surface_triangles(
                srfs@[i as int],
            ) =~= orig + surfaces_triangles(srfs@.take(i as int + 1)));
        }
        i += 1;
    }
    proof {
        assert(srfs@.take(srfs@.len() as int) =~= srfs@);
    }
}

/// Appends the triangles of a list of shells, in order.
fn append_shells(tri: &mut Vec<u32>, shs: &Vec<Shell>)
    ensures
        final(tri)@ == old(tri)@ + shells_triangles(shs@),
{
    let ghost orig = old(tri)@;
    let mut i: usize = 0;
    while i < shs.len()
        invariant
            0 <= i <= shs@.len(),
            tri@ == orig + shells_triangles(shs@.take(i as int)),
        decreases shs@.len() - i,
    {
        append_surfaces(tri, &shs[i].surfaces);
        proof {
            assert(shs@.take(i as int + 1).drop_last() =~= shs@.take(i as int));
            assert(shs@.take(i as int + 1).last() == shs@[i as int]);
            assert((orig + shells_triangles(shs@.take(i as int))) + shell_triangles(
                shs@[i as int],
            ) =~= orig + shells_triangles(shs@.take(i as int + 1)));
        }
        i += 1;
    }
    proof {
        assert(shs@.take(shs@.len() as int) =~= shs@);
    }
}

/// Appends the triangles of a list of solids, each a list of shells.
fn append_solids(tri: &mut Vec<u32>, sols: &Vec<Vec<Shell>>)
    ensures
        final(tri)@ == old(tri)@ + solids_triangles(sols@),
{
    let ghost orig = old(tri)@;
    let mut i: usize = 0;
    while i < sols.len()
        invariant
            0 <= i <= sols@.len(),
            tri@ == orig + solids_triangles(sols@.take(i as int)),
        decreases sols@.len() - i,
    {
        append_shells(tri, &sols[i]);
        proof {
            assert(sols@.take(i as int + 1).drop_last() =~= sols@.take(i as int));
            assert(sols@.take(i as int + 1).last() == sols@[i as int]);
            assert((orig + solids_triangles(sols@.take(i as int))) + shells_triangles(
                sols@[i as int]@,
            ) =~= orig + solids_triangles(sols@.take(i as int + 1)));
        }
        i += 1;
    }
    proof {
        assert(sols@.take(sols@.len() as int) =~= sols@);
    }
}

/// Appends the triangles one geometry emits, per its kind.
fn append_geometry(tri: &mut Vec<u32>, g: &Geometry)
    ensures
        final(tri)@ == old(tri)@ + geometry_triangles(*g),
{
    match g {
        Geometry::MultiSurface { surfaces } => append_surfaces(tri, surfaces),
        Geometry::CompositeSurface { surfaces } => append_surfaces(tri, surfaces),
        Geometry::Solid { shells } => append_shells(tri, shells),
        Geometry::MultiSolid { solids } => append_solids(tri, solids),
        Geometry::CompositeSolid { solids } => append_solids(tri, solids),
    }
}

/// Appends every triangle one object emits.  An object without geometry
/// appends nothing; that is not an error.
fn append_object(tri: &mut Vec<u32>, o: &CityObject)
    ensures
        final(tri)@ == old(tri)@ + object_triangles(*o),
{
    let ghost orig = old(tri)@;
    let mut i: usize = 0;
    while i < o.geometry.len()
        invariant
            0 <= i <= o.geometry@.len(),
            tri@ == orig + geometries_triangles(o.geometry@.take(i as int)),
        decreases o.geometry@.len() - i,
    {
        append_geometry(tri, &o.geometry[i]);
        proof {
            assert(o.geometry@.take(i as int + 1).drop_last() =~= o.geometry@.take(i as int));
            assert(o.geometry@.take(i as int + 1).last() == o.geometry@[i as int]);
            assert((orig + geometries_triangles(o.geometry@.take(i as int))) + geometry_triangles(
                o.geometry@[i as int],
            ) =~= orig + geometries_triangles(o.geometry@.take(i as int + 1)));
        }
        i += 1;
    }
    proof {
        assert(o.geometry@.take(o.geometry@.len() as int) =~= o.geometry@);
    }
}

// ---------------------------------------------------------------------------
// The merged buffers.
// ---------------------------------------------------------------------------

/// No entry of the sequence is smaller than the one before it.
pub open spec fn nondecreasing(s: Seq<u32>) -> bool {
    forall|i: int| 0 <= i < s.len() - 1 ==> #[trigger] s[i] <= s[i + 1]
}

/// The buffer never shrinks as later slots are merged.
proof fn lemma_to_slot_mono(objs: Seq<CityObject>, a: int, b: int)
    requires
        0 <= a <= b,
    ensures
        triangles_to_slot(objs, a).len() <= triangles_to_slot(objs, b).len(),
    decreases b - a,
{
    if a < b {
        lemma_to_slot_mono(objs, a, b - 1);
    }
}

/// Every entry of the type-range table stays inside the buffer it describes.
proof fn lemma_groups_wf(objs: Seq<CityObject>, s: int)
    requires
        0 <= s,
        triangles_to_slot(objs, s).len() <= u32::MAX,
    ensures
        forall|k: int|
            0 <= k < groups_to_slot(objs, s).len()
                ==> (#[trigger] groups_to_slot(objs, s)[k]).start as int + groups_to_slot(
                objs,
                s,
            )[k].count as int <= triangles_to_slot(objs, s).len(),
    decreases s,
{
    if s > 0 {
        lemma_to_slot_mono(objs, s - 1, s);
        lemma_groups_wf(objs, s - 1);
        assert forall|k: int| 0 <= k < groups_to_slot(objs, s).len() implies (
        #[trigger] groups_to_slot(objs, s)[k]).start as int + groups_to_slot(objs, s)[k].count
            as int <= triangles_to_slot(objs, s).len() by {
            if k < groups_to_slot(objs, s - 1).len() {
                assert(groups_to_slot(objs, s)[k] == groups_to_slot(objs, s - 1)[k]);
            } else {
                assert(slot_triangles(objs, s - 1).len() > 0);
                assert(groups_to_slot(objs, s)[k] == TypeGroup {
                    co_type: spec_slot_type(s - 1),
                    start: triangles_to_slot(objs, s - 1).len() as u32,
                    count: slot_triangles(objs, s - 1).len() as u32,
                });
            }
        }
    }
}

/// The counts of the type-range table add up to the buffer's length.
proof fn lemma_sum_groups(objs: Seq<CityObject>, s: int)
    requires
        0 <= s,
        triangles_to_slot(objs, s).len() <= u32::MAX,
    ensures
        sum_group_counts(groups_to_slot(objs, s)) == triangles_to_slot(objs, s).len(),
    decreases s,
{
    if s > 0 {
        lemma_to_slot_mono(objs, s - 1, s);
        lemma_sum_groups(objs, s - 1);
        if slot_triangles(objs, s - 1).len() > 0 {
            let entry = TypeGroup {
                co_type: spec_slot_type(s - 1),
                start: triangles_to_slot(objs, s - 1).len() as u32,
                count: slot_triangles(objs, s - 1).len() as u32,
            };
            assert((groups_to_slot(objs, s - 1) + seq![entry]).drop_last() =~= groups_to_slot(
                objs,
                s - 1,
            ));
            assert((groups_to_slot(objs, s - 1) + seq![entry]).last() == entry);
        } else {
            assert(groups_to_slot(objs, s) =~= groups_to_slot(objs, s - 1));
        }
    }
}

/// The flattening result: the contiguous triangle buffer, its per-vertex
/// color buffer, the type-range table, and the reverse index.
pub struct FlattenOutput {
    pub triangles: Vec<u32>,
    pub colors: Vec<u8>,
    pub groups: Vec<TypeGroup>,
    pub index: ObjectIndex,
}

/// The per-vertex color buffer of a document: the fallback everywhere, then
/// each group's run of triangles painted with its type's color.
pub open spec fn spec_colors(m: CityModel) -> Seq<u8> {
    paint_groups(base_colors(m.vertices@.len() as int), spec_groups(m), spec_triangles(m))
}

/// What a successful flattening returns: the four artifacts exactly as the
/// specification functions give them, together with the structural
/// invariants every valid output satisfies.
pub open spec fn flatten_ok(m: CityModel, out: FlattenOutput) -> bool {
    &&& out.triangles@ == spec_triangles(m)
    &&& out.groups@ == spec_groups(m)
    &&& out.colors@ == spec_colors(m)
    &&& out.index.ids@ == spec_ids(m)
    &&& out.index.intervals@ == spec_intervals(m)
    &&& out.index.wf()
    &&& out.triangles@.len() % 3 == 0
    &&& out.triangles@.len() <= u32::MAX
    &&& sum_group_counts(out.groups@) == out.triangles@.len()
    &&& out.index.intervals@.last() == (out.triangles@.len() / 3) as u32
    &&& out.colors@.len() == 3 * m.vertices@.len()
}

/// Flattens a document: merges every object's triangles slot by slot in the
/// fixed order, records one id and one cumulative interval entry per object,
/// one range per contributing type, and paints the color buffer.  Fails
/// exactly when a 32-bit buffer interface cannot carry the result, as
/// `spec_flatten_error` states; a failure rejects only this document.
pub fn parse_cityobjects(model: &CityModel) -> (r: Result<FlattenOutput, FlattenError>)
    ensures
        match r {
            Ok(out) => spec_flatten_error(*model) is None && flatten_ok(*model, out),
            Err(e) => spec_flatten_error(*model) == Some(e),
        },
{
    let ghost objs = model.objects@;
    let mut triangles: Vec<u32> = Vec::new();
    let mut ids: Vec<String> = Vec::new();
    let mut intervals: Vec<u32> = Vec::new();
    intervals.push(0);
    let mut groups: Vec<TypeGroup> = Vec::new();
    proof {
        assert(triangles@ =~= triangles_to_slot(objs, 0));
        assert(ids@ =~= ids_to_slot(objs, 0));
        assert(intervals@ =~= seq![0u32] + intervals_to_slot(objs, 0));
        assert(groups@ =~= groups_to_slot(objs, 0));
    }
    let mut s: usize = 0;
    while s < SLOT_COUNT
        invariant
            objs == model.objects@,
            0 <= s <= SLOT_COUNT,
            triangles@ == triangles_to_slot(objs, s as int),
            ids@ == ids_to_slot(objs, s as int),
            intervals@ == seq![0u32] + intervals_to_slot(objs, s as int),
            groups@ == groups_to_slot(objs, s as int),
            triangles@.len() % 3 == 0,
            intervals@.len() == ids@.len() + 1,
            intervals@.last() == ((triangles@.len() / 3) as u32),
            triangles@.len() <= u32::MAX ==> nondecreasing(intervals@),
        decreases SLOT_COUNT - s,
    {
        let start = triangles.len();
        let mut i: usize = 0;
        while i < model.objects.len()
            invariant
                objs == model.objects@,
                0 <= s < SLOT_COUNT,
                0 <= i <= objs.len(),
                start == triangles_to_slot(objs, s as int).len(),
                triangles@ == triangles_to_slot(objs, s as int) + slot_triangles_prefix(
                    objs,
                    s as int,
                    i as int,
                ),
                ids@ == ids_to_slot(objs, s as int) + slot_ids_prefix(objs, s as int, i as int),
                intervals@ == seq![0u32] + intervals_to_slot(objs, s as int)
                    + slot_intervals_prefix(objs, s as int, i as int),
                groups@ == groups_to_slot(objs, s as int),
                triangles@.len() % 3 == 0,
                intervals@.len() == ids@.len() + 1,
                intervals@.last() == ((triangles@.len() / 3) as u32),
                triangles@.len() <= u32::MAX ==> nondecreasing(intervals@),
            decreases objs.len() - i,
        {
            let ghost si = s as int;
            let ghost ii = i as int;
            let o = &model.objects[i];
            if slot_of(&o.co_type) == s {
                let ghost len_before = triangles@.len();
                append_object(&mut triangles, o);
                ids.push(o.id.clone());
                let entry = (triangles.len() / 3) as u32;
                intervals.push(entry);
                proof {
                    lemma_object_len(objs[ii]);
                    lemma_add_mod_noop(len_before as int, object_triangles(objs[ii]).len() as int, 3);
                    assert(slot_triangles_prefix(objs, si, ii + 1) == slot_triangles_prefix(
                        objs,
                        si,
                        ii,
                    ) + object_triangles(objs[ii]));
                    assert(triangles@ =~= triangles_to_slot(objs, si) + slot_triangles_prefix(
                        objs,
                        si,
                        ii + 1,
                    ));
                    assert(slot_ids_prefix(objs, si, ii + 1) == slot_ids_prefix(objs, si, ii)
                        + seq![objs[ii].id]);
                    assert(ids@ =~= ids_to_slot(objs, si) + slot_ids_prefix(objs, si, ii + 1));
                    assert(slot_intervals_prefix(objs, si, ii + 1) == slot_intervals_prefix(
                        objs,
                        si,
                        ii,
                    ) + seq![
                        (((triangles_to_slot(objs, si).len() + slot_triangles_prefix(
                            objs,
                            si,
                            ii + 1,
                        ).len()) / 3) as u32),
                    ]);
                    assert(triangles@.len() == triangles_to_slot(objs, si).len()
                        + slot_triangles_prefix(objs, si, ii + 1).len());
                    assert(intervals@ =~= seq![0u32] + intervals_to_slot(objs, si)
                        + slot_intervals_prefix(objs, si, ii + 1));
                    if triangles@.len() <= u32::MAX {
                        lemma_div_is_ordered(len_before as int, triangles@.len() as int, 3);
                        assert(nondecreasing(intervals@));
                    }
                }
            } else {
                proof {
                    assert(slot_triangles_prefix(objs, si, ii + 1) =~= slot_triangles_prefix(
                        objs,
                        si,
                        ii,
                    ));
                    assert(slot_ids_prefix(objs, si, ii + 1) =~= slot_ids_prefix(objs, si, ii));
                    assert(slot_intervals_prefix(objs, si, ii + 1) =~= slot_intervals_prefix(
                        objs,
                        si,
                        ii,
                    ));
                }
            }
            i += 1;
        }
        let count = triangles.len() - start;
        let ghost si = s as int;
        proof {
            assert(triangles@ == triangles_to_slot(objs, si) + slot_triangles(objs, si));
            assert(count == slot_triangles(objs, si).len());
            assert(triangles_to_slot(objs, si + 1) == triangles_to_slot(objs, si)
                + slot_triangles(objs, si));
            assert(ids_to_slot(objs, si + 1) == ids_to_slot(objs, si) + slot_ids(objs, si));
            assert(intervals_to_slot(objs, si + 1) == intervals_to_slot(objs, si) + slot_intervals(
                objs,
                si,
            ));
            assert(intervals@ =~= seq![0u32] + intervals_to_slot(objs, si + 1));
        }
        if count > 0 {
            let g = TypeGroup { co_type: slot_type(s), start: start as u32, count: count as u32 };
            groups.push(g);
            proof {
                assert(groups@ =~= groups_to_slot(objs, si) + seq![
                    TypeGroup {
                        co_type: spec_slot_type(si),
                        start: triangles_to_slot(objs, si).len() as u32,
                        count: slot_triangles(objs, si).len() as u32,
                    },
                ]);
                assert(groups@ == groups_to_slot(objs, si + 1));
            }
        } else {
            proof {
                assert(groups_to_slot(objs, si + 1) =~= groups_to_slot(objs, si));
            }
        }
        s += 1;
    }
    proof {
        assert(triangles@ == spec_triangles(*model));
        assert(ids@ == spec_ids(*model));
        assert(intervals@ == spec_intervals(*model));
        assert(groups@ == spec_groups(*model));
    }
    if triangles.len() > u32::MAX as usize {
        return Err(FlattenError::TooManyTriangles);
    }
    proof {
        lemma_groups_wf(objs, SLOT_COUNT as int);
    }
    let nv = model.vertices.len();
    match build_colors(&triangles, &groups, nv) {
        Err(e) => Err(e),
        Ok(colors) => {
            let index = ObjectIndex { ids, intervals };
            proof {
                lemma_sum_groups(objs, SLOT_COUNT as int);
                assert(index.intervals@[0] == 0);
                assert(index.wf());
            }
            Ok(FlattenOutput { triangles, colors, groups, index })
        },
    }
}

/// Flattens the vertex table into coordinate order: x, y, z of each vertex
/// in turn.
pub fn parse_vertices(vertices: &Vec<Vertex>) -> (r: Vec<u32>)
    ensures
        r@ == spec_flat_vertices(vertices@),
        r@.len() == 3 * vertices@.len(),
{
    let mut r: Vec<u32> = Vec::new();
    let mut i: usize = 0;
    while i < vertices.len()
        invariant
            0 <= i <= vertices@.len(),
            r@ == spec_flat_vertices(vertices@.take(i as int)),
            r@.len() == 3 * i,
        decreases vertices@.len() - i,
    {
        let v = &vertices[i];
        r.push(v.x);
        r.push(v.y);
        r.push(v.z);
        proof {
            assert(vertices@.take(i as int + 1).drop_last() =~= vertices@.take(i as int));
            assert(vertices@.take(i as int + 1).last() == vertices@[i as int]);
            assert(r@ =~= spec_flat_vertices(vertices@.take(i as int + 1)));
        }
        i += 1;
    }
    proof {
        assert(vertices@.take(vertices@.len() as int) =~= vertices@);
    }
    r
}

/// The color law of a flattened document: a vertex of the table that the
/// triangles of group `k` reference, and that no later group's triangles
/// reference, has its three channel cells holding the color of `k`'s type.
/// (A vertex shared with a later group carries that later group's color
/// instead; a reference outside the vertex table paints nothing.)
pub proof fn lemma_flatten_vertex_color(m: CityModel, k: int, v: u32)
    requires
        spec_flatten_error(m) is None,
        0 <= k < spec_groups(m).len(),
        group_references(spec_groups(m), spec_triangles(m), k, v),
        forall|j: int|
            k < j < spec_groups(m).len() ==> !group_references(spec_groups(m), spec_triangles(m), j, v),
        (v as int) < m.vertices@.len(),
    ensures
        spec_colors(m)[3 * (v as int)] == spec_color_of(spec_groups(m)[k].co_type).r,
        spec_colors(m)[3 * (v as int) + 1] == spec_color_of(spec_groups(m)[k].co_type).g,
        spec_colors(m)[3 * (v as int) + 2] == spec_color_of(spec_groups(m)[k].co_type).b,
{
    let nv = m.vertices@.len() as int;
    lemma_groups_wf(m.objects@, SLOT_COUNT as int);
    lemma_vertex_color(nv, spec_groups(m), spec_triangles(m), k, v);
}

/// The ids of a prefix do not depend on the objects after it.
proof fn lemma_slot_ids_prefix_stable(objs: Seq<CityObject>, s: int, n: int)
    requires
        0 <= n <= objs.len() - 1,
    ensures
        slot_ids_prefix(objs, s, n) == slot_ids_prefix(objs.drop_last(), s, n),
    decreases n,
{
    if n > 0 {
        lemma_slot_ids_prefix_stable(objs, s, n - 1);
        assert(objs.drop_last()[n - 1] == objs[n - 1]);
    }
}

/// Dropping the final object removes exactly its own id entry.
proof fn lemma_ids_to_slot_drop(objs: Seq<CityObject>, s: int)
    requires
        objs.len() > 0,
        0 <= s,
    ensures
        ids_to_slot(objs, s).len() == ids_to_slot(objs.drop_last(), s).len() + (
        if spec_slot_of(objs.last().co_type) < s {
            1int
        } else {
            0int
        }),
    decreases s,
{
    if s > 0 {
        lemma_ids_to_slot_drop(objs, s - 1);
        lemma_slot_ids_prefix_stable(objs, s - 1, objs.len() - 1);
        assert(objs.drop_last().len() as int == objs.len() - 1);
        assert(slot_ids(objs, s - 1) == slot_ids_prefix(objs, s - 1, objs.len() - 1) + (
        if spec_slot_of(objs[objs.len() - 1].co_type) == s - 1 {
            seq![objs[objs.len() - 1].id]
        } else {
            Seq::<String>::empty()
        }));
    }
}

/// With no objects there are no id entries, however many slots are merged.
proof fn lemma_ids_to_slot_empty(objs: Seq<CityObject>, s: int)
    requires
        objs.len() == 0,
        0 <= s,
    ensures
        ids_to_slot(objs, s).len() == 0,
    decreases s,
{
    if s > 0 {
        lemma_ids_to_slot_empty(objs, s - 1);
    }
}

/// Every object counts once in the reverse index's ids, whether or not it
/// emitted any triangle.
proof fn lemma_ids_complete(objs: Seq<CityObject>)
    ensures
        ids_to_slot(objs, SLOT_COUNT as int).len() == objs.len(),
    decreases objs.len(),
{
    if objs.len() == 0 {
        lemma_ids_to_slot_empty(objs, SLOT_COUNT as int);
    } else {
        lemma_ids_complete(objs.drop_last());
        lemma_ids_to_slot_drop(objs, SLOT_COUNT as int);
        assert(spec_slot_of(objs.last().co_type) < SLOT_COUNT as int);
    }
}

/// One id per object: the reverse index of a document lists exactly as many
/// ids as the document has objects, and one more interval entry.
pub proof fn lemma_one_id_per_object(m: CityModel, out: FlattenOutput)
    requires
        flatten_ok(m, out),
    ensures
        out.index.ids@.len() == m.objects@.len(),
        out.index.intervals@.len() == m.objects@.len() + 1,
{
    lemma_ids_complete(m.objects@);
}

/// Everything one pass over a document yields: the flattened vertex table
/// and the four flattening artifacts.
pub struct AllBuffers {
    pub vertices: Vec<u32>,
    pub buffers: FlattenOutput,
}

/// Flattens the vertex table and the city objects of one document in a
/// single call.
pub fn parse_all(model: &CityModel) -> (r: Result<AllBuffers, FlattenError>)
    ensures
        match r {
            Ok(a) => spec_flatten_error(*model) is None && a.vertices@ == spec_flat_vertices(
                model.vertices@,
            ) && flatten_ok(*model, a.buffers),
            Err(e) => spec_flatten_error(*model) == Some(e),
        },
{
    let vertices = parse_vertices(&model.vertices);
    match parse_cityobjects(model) {
        Ok(buffers) => Ok(AllBuffers { vertices, buffers }),
        Err(e) => Err(e),
    }
}

} // verus!
