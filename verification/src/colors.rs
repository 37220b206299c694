//! The fixed type/color table and the per-vertex color buffer.
//!
//! Each semantic type owns one RGB color.  The color buffer holds three
//! channel cells per entry of the vertex table; painting walks the triangle
//! buffer group by group and writes the group's color over every vertex its
//! triangles reference.  Vertices nothing references keep the fallback
//! color, as do objects of unknown type.

use vstd::prelude::*;
use crate::model::{CoType, TypeGroup, FlattenError};

verus! {

/// An RGB color; the components are 8-bit channel values.
#[derive(Clone, Copy, PartialEq, Eq, Structural, Debug)]
pub struct Color {
    pub r: u8,
    pub g: u8,
    pub b: u8,
}

/// Channel value of the neutral fallback color, whose three channels are
/// alike.  It colors vertices no triangle references, and objects whose
/// type is unknown — an unknown type is rendered, not rejected.
pub const FALLBACK_CHANNEL: u8 = 120;

/// The compiled-in color of each semantic type.
pub open spec fn spec_color_of(t: CoType) -> Color {
    match t {
        CoType::Building => Color { r: 204, g: 119, b: 34 },
        CoType::BuildingPart => Color { r: 214, g: 139, b: 54 },
        CoType::BuildingInstallation => Color { r: 224, g: 159, b: 74 },
        CoType::Bridge => Color { r: 128, g: 128, b: 144 },
        CoType::BridgePart => Color { r: 138, g: 138, b: 154 },
        CoType::BridgeInstallation => Color { r: 148, g: 148, b: 164 },
        CoType::BridgeConstructionElement => Color { r: 158, g: 158, b: 174 },
        CoType::CityObjectGroup => Color { r: 255, g: 255, b: 183 },
        CoType::CityFurniture => Color { r: 186, g: 85, b: 211 },
        CoType::GenericCityObject => Color { r: 205, g: 92, b: 92 },
        CoType::LandUse => Color { r: 222, g: 184, b: 135 },
        CoType::PlantCover => Color { r: 34, g: 139, b: 34 },
        CoType::Railway => Color { r: 90, g: 90, b: 90 },
        CoType::Road => Color { r: 70, g: 70, b: 70 },
        CoType::SolitaryVegetationObject => Color { r: 60, g: 179, b: 113 },
        CoType::TINRelief => Color { r: 143, g: 188, b: 143 },
        CoType::TransportSquare => Color { r: 105, g: 105, b: 105 },
        CoType::Tunnel => Color { r: 75, g: 0, b: 130 },
        CoType::TunnelPart => Color { r: 85, g: 10, b: 140 },
        CoType::TunnelInstallation => Color { r: 95, g: 20, b: 150 },
        CoType::WaterBody => Color { r: 64, g: 164, b: 223 },
        CoType::Unknown => Color {
            r: FALLBACK_CHANNEL,
            g: FALLBACK_CHANNEL,
            b: FALLBACK_CHANNEL,
        },
    }
}

/// Looks a type's color up in the fixed table.  Unknown types get the
/// fallback color instead of failing.
pub fn color_of(t: &CoType) -> (c: Color)
    ensures
        c == spec_color_of(*t),
{
    match t {
        CoType::Building => Color { r: 204, g: 119, b: 34 },
        CoType::BuildingPart => Color { r: 214, g: 139, b: 54 },
        CoType::BuildingInstallation => Color { r: 224, g: 159, b: 74 },
        CoType::Bridge => Color { r: 128, g: 128, b: 144 },
        CoType::BridgePart => Color { r: 138, g: 138, b: 154 },
        CoType::BridgeInstallation => Color { r: 148, g: 148, b: 164 },
        CoType::BridgeConstructionElement => Color { r: 158, g: 158, b: 174 },
        CoType::CityObjectGroup => Color { r: 255, g: 255, b: 183 },
        CoType::CityFurniture => Color { r: 186, g: 85, b: 211 },
        CoType::GenericCityObject => Color { r: 205, g: 92, b: 92 },
        CoType::LandUse => Color { r: 222, g: 184, b: 135 },
        CoType::PlantCover => Color { r: 34, g: 139, b: 34 },
        CoType::Railway => Color { r: 90, g: 90, b: 90 },
        CoType::Road => Color { r: 70, g: 70, b: 70 },
        CoType::SolitaryVegetationObject => Color { r: 60, g: 179, b: 113 },
        CoType::TINRelief => Color { r: 143, g: 188, b: 143 },
        CoType::TransportSquare => Color { r: 105, g: 105, b: 105 },
        CoType::Tunnel => Color { r: 75, g: 0, b: 130 },
        CoType::TunnelPart => Color { r: 85, g: 10, b: 140 },
        CoType::TunnelInstallation => Color { r: 95, g: 20, b: 150 },
        CoType::WaterBody => Color { r: 64, g: 164, b: 223 },
        CoType::Unknown => Color {
            r: FALLBACK_CHANNEL,
            g: FALLBACK_CHANNEL,
            b: FALLBACK_CHANNEL,
        },
    }
}

/// The untouched color buffer: three fallback channel cells per vertex.
pub open spec fn base_colors(nv: int) -> Seq<u8> {
    Seq::new((3 * nv) as nat, |i: int| FALLBACK_CHANNEL)
}

/// Painting one triangle-buffer entry: the three channel cells of vertex
/// `v` take the color `c`.  A reference to a vertex whose cells the buffer
/// does not hold paints nothing — a dangling index loses its color, it does
/// not reject the document.
pub open spec fn apply_vertex(colors: Seq<u8>, v: u32, c: Color) -> Seq<u8> {
    if 3 * (v as int) + 2 < colors.len() {
        colors.update(3 * (v as int), c.r).update(3 * (v as int) + 1, c.g).update(
            3 * (v as int) + 2,
            c.b,
        )
    } else {
        colors
    }
}

/// Painting a run of triangle-buffer entries, left to right, with one color.
pub open spec fn paint(colors: Seq<u8>, tris: Seq<u32>, c: Color) -> Seq<u8>
    decreases tris.len(),
{
    if tris.len() == 0 {
        colors
    } else {
        apply_vertex(paint(colors, tris.drop_last(), c), tris.last(), c)
    }
}

/// Painting the triangle buffer group by group, each group's run of entries
/// with its type's color.
pub open spec fn paint_groups(colors: Seq<u8>, groups: Seq<TypeGroup>, tris: Seq<u32>) -> Seq<u8>
    decreases groups.len(),
{
    if groups.len() == 0 {
        colors
    } else {
        let g = groups.last();
        paint(
            paint_groups(colors, groups.drop_last(), tris),
            tris.subrange(g.start as int, g.start as int + g.count as int),
            spec_color_of(g.co_type),
        )
    }
}

/// Whether the run of triangle-buffer entries owned by group `k` references
/// vertex `v`.
pub open spec fn group_references(groups: Seq<TypeGroup>, tris: Seq<u32>, k: int, v: u32) -> bool {
    exists|p: int|
        groups[k].start as int <= p < groups[k].start as int + groups[k].count as int && 0 <= p
            < tris.len() && (#[trigger] tris[p]) == v
}

/// Painting keeps the buffer's length, whatever the run references.
proof fn lemma_paint_len(colors: Seq<u8>, seg: Seq<u32>, c: Color)
    ensures
        paint(colors, seg, c).len() == colors.len(),
    decreases seg.len(),
{
    if seg.len() > 0 {
        lemma_paint_len(colors, seg.drop_last(), c);
    }
}

/// A run that never references `v` leaves the three channel cells of `v`
/// unchanged.
proof fn lemma_paint_untouched(colors: Seq<u8>, seg: Seq<u32>, c: Color, v: u32)
    requires
        0 <= 3 * (v as int) + 2 < colors.len(),
        forall|p: int| 0 <= p < seg.len() ==> (#[trigger] seg[p]) != v,
    ensures
        paint(colors, seg, c).len() == colors.len(),
        paint(colors, seg, c)[3 * (v as int)] == colors[3 * (v as int)],
        paint(colors, seg, c)[3 * (v as int) + 1] == colors[3 * (v as int) + 1],
        paint(colors, seg, c)[3 * (v as int) + 2] == colors[3 * (v as int) + 2],
    decreases seg.len(),
{
    if seg.len() > 0 {
        lemma_paint_untouched(colors, seg.drop_last(), c, v);
    }
}

/// A run that references `v` leaves `v`'s three channel cells holding the
/// run's color.
proof fn lemma_paint_sets(colors: Seq<u8>, seg: Seq<u32>, c: Color, v: u32)
    requires
        0 <= 3 * (v as int) + 2 < colors.len(),
        exists|p: int| 0 <= p < seg.len() && (#[trigger] seg[p]) == v,
    ensures
        paint(colors, seg, c).len() == colors.len(),
        paint(colors, seg, c)[3 * (v as int)] == c.r,
        paint(colors, seg, c)[3 * (v as int) + 1] == c.g,
        paint(colors, seg, c)[3 * (v as int) + 2] == c.b,
    decreases seg.len(),
{
    lemma_paint_len(colors, seg.drop_last(), c);
    if seg.last() == v {
    } else {
        let p = choose|p: int| 0 <= p < seg.len() && (#[trigger] seg[p]) == v;
        assert(seg.drop_last()[p] == v);
        lemma_paint_sets(colors, seg.drop_last(), c, v);
    }
}

/// Painting group by group keeps the buffer's length.
proof fn lemma_paint_groups_len(colors: Seq<u8>, groups: Seq<TypeGroup>, tris: Seq<u32>)
    ensures
        paint_groups(colors, groups, tris).len() == colors.len(),
    decreases groups.len(),
{
    if groups.len() > 0 {
        lemma_paint_groups_len(colors, groups.drop_last(), tris);
        let g = groups.last();
        let seg = tris.subrange(g.start as int, g.start as int + g.count as int);
        lemma_paint_len(paint_groups(colors, groups.drop_last(), tris), seg, spec_color_of(
            g.co_type,
        ));
    }
}

/// The color law of the painted buffer: a vertex of the table that the run
/// of group `k` references, and that no later group references, carries the
/// color of `k`'s type in its three channel cells.  (A vertex that later
/// groups also reference carries the last such group's color instead.)
pub proof fn lemma_vertex_color(nv: int, groups: Seq<TypeGroup>, tris: Seq<u32>, k: int, v: u32)
    requires
        forall|j: int|
            0 <= j < groups.len() ==> (#[trigger] groups[j]).start as int + groups[j].count as int
                <= tris.len(),
        0 <= k < groups.len(),
        group_references(groups, tris, k, v),
        forall|j: int| k < j < groups.len() ==> !group_references(groups, tris, j, v),
        0 <= (v as int) < nv,
    ensures
        paint_groups(base_colors(nv), groups, tris).len() == 3 * nv,
        paint_groups(base_colors(nv), groups, tris)[3 * (v as int)] == spec_color_of(
            groups[k].co_type,
        ).r,
        paint_groups(base_colors(nv), groups, tris)[3 * (v as int) + 1] == spec_color_of(
            groups[k].co_type,
        ).g,
        paint_groups(base_colors(nv), groups, tris)[3 * (v as int) + 2] == spec_color_of(
            groups[k].co_type,
        ).b,
    decreases groups.len(),
{
    lemma_paint_groups_len(base_colors(nv), groups.drop_last(), tris);
    let g = groups.last();
    let seg = tris.subrange(g.start as int, g.start as int + g.count as int);
    let prev = paint_groups(base_colors(nv), groups.drop_last(), tris);
    if k == groups.len() - 1 {
        let p = choose|p: int|
            groups[k].start as int <= p < groups[k].start as int + groups[k].count as int && 0 <= p
                < tris.len() && (#[trigger] tris[p]) == v;
        assert(seg[p - g.start as int] == v);
        lemma_paint_sets(prev, seg, spec_color_of(g.co_type), v);
    } else {
        assert(!group_references(groups, tris, groups.len() - 1, v));
        assert forall|q: int| 0 <= q < seg.len() implies (#[trigger] seg[q]) != v by {
            assert(seg[q] == tris[g.start as int + q]);
        }
        assert forall|j: int| k < j < groups.drop_last().len() implies !group_references(
            groups.drop_last(),
            tris,
            j,
            v,
        ) by {
            assert(groups.drop_last()[j] == groups[j]);
            assert(!group_references(groups, tris, j, v));
        }
        assert(groups.drop_last()[k] == groups[k]);
        assert(group_references(groups.drop_last(), tris, k, v));
        lemma_vertex_color(nv, groups.drop_last(), tris, k, v);
        lemma_paint_untouched(prev, seg, spec_color_of(g.co_type), v);
    }
}

/// Builds the color buffer for a triangle buffer and its type-range table,
/// over a vertex table of `nv` entries.  A triangle entry referencing a
/// vertex outside the table paints nothing; it does not reject the
/// document.
pub fn build_colors(tris: &Vec<u32>, groups: &Vec<TypeGroup>, nv: usize) -> (r: Result<
    Vec<u8>,
    FlattenError,
>)
    requires
        forall|k: int|
            0 <= k < groups@.len()
                ==> groups@[k].start as int + groups@[k].count as int <= tris@.len(),
    ensures
        nv * 3 > usize::MAX ==> r == Result::<Vec<u8>, FlattenError>::Err(
            FlattenError::VertexTableTooLarge,
        ),
        nv * 3 <= usize::MAX ==> {
            &&& r matches Ok(c)
            &&& r matches Ok(c) ==> c@ == paint_groups(base_colors(nv as int), groups@, tris@)
                && c@.len() == nv * 3
        },
{
    let total = match nv.checked_mul(3) {
        Some(t) => t,
        None => {
            return Err(FlattenError::VertexTableTooLarge);
        },
    };
    let n = tris.len();
    let mut colors: Vec<u8> = Vec::new();
    let mut j: usize = 0;
    while j < total
        invariant
            0 <= j <= total,
            colors@.len() == j,
            forall|p: int| 0 <= p < j ==> colors@[p] == FALLBACK_CHANNEL,
        decreases total - j,
    {
        colors.push(FALLBACK_CHANNEL);
        j += 1;
    }
    proof {
        assert(colors@ =~= base_colors(nv as int));
    }
    let mut k: usize = 0;
    while k < groups.len()
        invariant
            n == tris@.len(),
            total == nv * 3,
            forall|q: int|
                0 <= q < groups@.len()
                    ==> groups@[q].start as int + groups@[q].count as int <= tris@.len(),
            0 <= k <= groups@.len(),
            colors@ == paint_groups(base_colors(nv as int), groups@.take(k as int), tris@),
            colors@.len() == total,
        decreases groups@.len() - k,
    {
        let g = groups[k];
        let c = color_of(&g.co_type);
        let gstart = g.start as usize;
        let gcount = g.count as usize;
        let ghost seg = tris@.subrange(gstart as int, gstart as int + gcount as int);
        let mut p: usize = 0;
        while p < gcount
            invariant
                n == tris@.len(),
                total == nv * 3,
                gstart + gcount <= n,
                c == spec_color_of(g.co_type),
                seg == tris@.subrange(gstart as int, gstart as int + gcount as int),
                0 <= p <= gcount,
                colors@ == paint(
                    paint_groups(base_colors(nv as int), groups@.take(k as int), tris@),
                    seg.take(p as int),
                    c,
                ),
                colors@.len() == total,
            decreases gcount - p,
        {
            let v = tris[gstart + p] as usize;
            let ghost before = colors@;
            if v < nv {
                colors[3 * v] = c.r;
                colors[3 * v + 1] = c.g;
                colors[3 * v + 2] = c.b;
            }
            proof {
                assert(seg.take(p as int + 1).drop_last() =~= seg.take(p as int));
                assert(seg.take(p as int + 1).last() == tris@[gstart as int + p]);
                assert(colors@ == apply_vertex(before, tris@[gstart as int + p], c));
            }
            p += 1;
        }
        proof {
            assert(seg.take(gcount as int) =~= seg);
            assert(groups@.take(k as int + 1).drop_last() =~= groups@.take(k as int));
            assert(groups@.take(k as int + 1).last() == groups@[k as int]);
        }
        k += 1;
    }
    proof {
        assert(groups@.take(groups@.len() as int) =~= groups@);
    }
    Ok(colors)
}

} // verus!
