//! Data model of a city-model document: vertices, nested geometry, objects,
//! and the spec-level meaning of "the triangles a piece of geometry emits".
//!
//! A surface carries a list of rings of vertex indices; only the first ring
//! (the outer ring) is consumed, and only when it has exactly three indices —
//! no polygon triangulation is performed, rings of any other size are skipped
//! by design.  Holes (further rings) are discarded.

use vstd::prelude::*;

verus! {

/// Declares serde_json's JSON value type so that a field can hold one.
/// Relied on only as an opaque payload carrying an object's non-geometry
/// fields: nothing in this crate reads inside such a value.
#[verifier::external_type_specification]
#[verifier::external_body]
pub struct ExValue(serde_json::Value);

/// One entry of the shared vertex table: an integer-valued coordinate triple.
#[derive(Clone, Copy, PartialEq, Eq, Structural, Debug)]
pub struct Vertex {
    pub x: u32,
    pub y: u32,
    pub z: u32,
}

/// One face of a shell: a list of rings of vertex indices.  Ring 0 is the
/// outer ring; any further rings are holes, which are discarded by design.
#[derive(Clone, PartialEq, Eq, Debug)]
pub struct Surface {
    pub rings: Vec<Vec<u32>>,
}

/// One closed boundary of a solid: a list of surfaces.
#[derive(Clone, PartialEq, Eq, Debug)]
pub struct Shell {
    pub surfaces: Vec<Surface>,
}

/// Geometry of a city object, structured per kind.
#[derive(Clone, PartialEq, Eq, Debug)]
pub enum Geometry {
    /// A bag of surfaces, treated directly as one shell.
    MultiSurface { surfaces: Vec<Surface> },
    /// Like `MultiSurface`: one shell of surfaces.
    CompositeSurface { surfaces: Vec<Surface> },
    /// A list of shells (the first is the exterior, the rest are cavities);
    /// every shell's surfaces are traversed alike.
    Solid { shells: Vec<Shell> },
    /// A list of solids, each a list of shells.
    MultiSolid { solids: Vec<Vec<Shell>> },
    /// Like `MultiSolid`: a list of solids.
    CompositeSolid { solids: Vec<Vec<Shell>> },
}

/// The semantic types a city object can carry.  The 21 known type tags are
/// listed in their fixed, declared order; everything else maps to `Unknown`,
/// which is rendered with the fallback color rather than rejected.
#[derive(Clone, Copy, PartialEq, Eq, Structural, Debug)]
pub enum CoType {
    Building,
    BuildingPart,
    BuildingInstallation,
    Bridge,
    BridgePart,
    BridgeInstallation,
    BridgeConstructionElement,
    CityObjectGroup,
    CityFurniture,
    GenericCityObject,
    LandUse,
    PlantCover,
    Railway,
    Road,
    SolitaryVegetationObject,
    TINRelief,
    TransportSquare,
    Tunnel,
    TunnelPart,
    TunnelInstallation,
    WaterBody,
    Unknown,
}

/// Number of slots in the fixed merge order: the 21 known types, then
/// `Unknown` last.
pub const SLOT_COUNT: usize = 22;

/// Position of a type in the fixed merge order.
pub open spec fn spec_slot_of(t: CoType) -> int {
    match t {
        CoType::Building => 0,
        CoType::BuildingPart => 1,
        CoType::BuildingInstallation => 2,
        CoType::Bridge => 3,
        CoType::BridgePart => 4,
        CoType::BridgeInstallation => 5,
        CoType::BridgeConstructionElement => 6,
        CoType::CityObjectGroup => 7,
        CoType::CityFurniture => 8,
        CoType::GenericCityObject => 9,
        CoType::LandUse => 10,
        CoType::PlantCover => 11,
        CoType::Railway => 12,
        CoType::Road => 13,
        CoType::SolitaryVegetationObject => 14,
        CoType::TINRelief => 15,
        CoType::TransportSquare => 16,
        CoType::Tunnel => 17,
        CoType::TunnelPart => 18,
        CoType::TunnelInstallation => 19,
        CoType::WaterBody => 20,
        CoType::Unknown => 21,
    }
}

/// The type standing at a slot of the merge order.
pub open spec fn spec_slot_type(s: int) -> CoType {
    if s == 0 { CoType::Building }
    else if s == 1 { CoType::BuildingPart }
    else if s == 2 { CoType::BuildingInstallation }
    else if s == 3 { CoType::Bridge }
    else if s == 4 { CoType::BridgePart }
    else if s == 5 { CoType::BridgeInstallation }
    else if s == 6 { CoType::BridgeConstructionElement }
    else if s == 7 { CoType::CityObjectGroup }
    else if s == 8 { CoType::CityFurniture }
    else if s == 9 { CoType::GenericCityObject }
    else if s == 10 { CoType::LandUse }
    else if s == 11 { CoType::PlantCover }
    else if s == 12 { CoType::Railway }
    else if s == 13 { CoType::Road }
    else if s == 14 { CoType::SolitaryVegetationObject }
    else if s == 15 { CoType::TINRelief }
    else if s == 16 { CoType::TransportSquare }
    else if s == 17 { CoType::Tunnel }
    else if s == 18 { CoType::TunnelPart }
    else if s == 19 { CoType::TunnelInstallation }
    else if s == 20 { CoType::WaterBody }
    else { CoType::Unknown }
}

/// Position of a type in the fixed merge order.
pub fn slot_of(t: &CoType) -> (s: usize)
    ensures
        s == spec_slot_of(*t),
        s < SLOT_COUNT,
{
    match t {
        CoType::Building => 0,
        CoType::BuildingPart => 1,
        CoType::BuildingInstallation => 2,
        CoType::Bridge => 3,
        CoType::BridgePart => 4,
        CoType::BridgeInstallation => 5,
        CoType::BridgeConstructionElement => 6,
        CoType::CityObjectGroup => 7,
        CoType::CityFurniture => 8,
        CoType::GenericCityObject => 9,
        CoType::LandUse => 10,
        CoType::PlantCover => 11,
        CoType::Railway => 12,
        CoType::Road => 13,
        CoType::SolitaryVegetationObject => 14,
        CoType::TINRelief => 15,
        CoType::TransportSquare => 16,
        CoType::Tunnel => 17,
        CoType::TunnelPart => 18,
        CoType::TunnelInstallation => 19,
        CoType::WaterBody => 20,
        CoType::Unknown => 21,
    }
}

/// The type standing at a slot of the merge order.
pub fn slot_type(s: usize) -> (t: CoType)
    requires
        s < SLOT_COUNT,
    ensures
        t == spec_slot_type(s as int),
{
    if s == 0 { CoType::Building }
    else if s == 1 { CoType::BuildingPart }
    else if s == 2 { CoType::BuildingInstallation }
    else if s == 3 { CoType::Bridge }
    else if s == 4 { CoType::BridgePart }
    else if s == 5 { CoType::BridgeInstallation }
    else if s == 6 { CoType::BridgeConstructionElement }
    else if s == 7 { CoType::CityObjectGroup }
    else if s == 8 { CoType::CityFurniture }
    else if s == 9 { CoType::GenericCityObject }
    else if s == 10 { CoType::LandUse }
    else if s == 11 { CoType::PlantCover }
    else if s == 12 { CoType::Railway }
    else if s == 13 { CoType::Road }
    else if s == 14 { CoType::SolitaryVegetationObject }
    else if s == 15 { CoType::TINRelief }
    else if s == 16 { CoType::TransportSquare }
    else if s == 17 { CoType::Tunnel }
    else if s == 18 { CoType::TunnelPart }
    else if s == 19 { CoType::TunnelInstallation }
    else if s == 20 { CoType::WaterBody }
    else { CoType::Unknown }
}

/// The display name of a semantic type: the document's type tag for the 21
/// known types.
pub open spec fn spec_type_name(t: CoType) -> Seq<char> {
    match t {
        CoType::Building => "Building"@,
        CoType::BuildingPart => "BuildingPart"@,
        CoType::BuildingInstallation => "BuildingInstallation"@,
        CoType::Bridge => "Bridge"@,
        CoType::BridgePart => "BridgePart"@,
        CoType::BridgeInstallation => "BridgeInstallation"@,
        CoType::BridgeConstructionElement => "BridgeConstructionElement"@,
        CoType::CityObjectGroup => "CityObjectGroup"@,
        CoType::CityFurniture => "CityFurniture"@,
        CoType::GenericCityObject => "GenericCityObject"@,
        CoType::LandUse => "LandUse"@,
        CoType::PlantCover => "PlantCover"@,
        CoType::Railway => "Railway"@,
        CoType::Road => "Road"@,
        CoType::SolitaryVegetationObject => "SolitaryVegetationObject"@,
        CoType::TINRelief => "TINRelief"@,
        CoType::TransportSquare => "TransportSquare"@,
        CoType::Tunnel => "Tunnel"@,
        CoType::TunnelPart => "TunnelPart"@,
        CoType::TunnelInstallation => "TunnelInstallation"@,
        CoType::WaterBody => "WaterBody"@,
        CoType::Unknown => "Unknown"@,
    }
}

impl CoType {
    /// The display name of the type, as the document writes it.
    pub fn name(&self) -> (r: &'static str)
        ensures
            r@ == spec_type_name(*self),
    {
        match self {
            CoType::Building => "Building",
            CoType::BuildingPart => "BuildingPart",
            CoType::BuildingInstallation => "BuildingInstallation",
            CoType::Bridge => "Bridge",
            CoType::BridgePart => "BridgePart",
            CoType::BridgeInstallation => "BridgeInstallation",
            CoType::BridgeConstructionElement => "BridgeConstructionElement",
            CoType::CityObjectGroup => "CityObjectGroup",
            CoType::CityFurniture => "CityFurniture",
            CoType::GenericCityObject => "GenericCityObject",
            CoType::LandUse => "LandUse",
            CoType::PlantCover => "PlantCover",
            CoType::Railway => "Railway",
            CoType::Road => "Road",
            CoType::SolitaryVegetationObject => "SolitaryVegetationObject",
            CoType::TINRelief => "TINRelief",
            CoType::TransportSquare => "TransportSquare",
            CoType::Tunnel => "Tunnel",
            CoType::TunnelPart => "TunnelPart",
            CoType::TunnelInstallation => "TunnelInstallation",
            CoType::WaterBody => "WaterBody",
            CoType::Unknown => "Unknown",
        }
    }
}

/// One named entity of the document.  `attributes` carries the object's
/// non-geometry fields as an opaque JSON value, split off when the document
/// was decoded; the library hands it back unread on an attribute query.
pub struct CityObject {
    pub id: String,
    pub co_type: CoType,
    pub geometry: Vec<Geometry>,
    pub attributes: serde_json::Value,
}

/// A decoded document: the shared vertex table and the city objects in
/// source-map order.
pub struct CityModel {
    pub vertices: Vec<Vertex>,
    pub objects: Vec<CityObject>,
}

/// One entry of the type-range table: the `count` vertex indices of the
/// triangle buffer starting at `start` belong to objects of type `co_type`.
/// Units are vertex indices, so `count` is a multiple of three.
#[derive(Clone, Copy, PartialEq, Eq, Structural, Debug)]
pub struct TypeGroup {
    pub co_type: CoType,
    pub start: u32,
    pub count: u32,
}

/// The reverse index: parallel sequences `ids` (one per object) and
/// `intervals` (one longer, non-decreasing, counted in triangle triples).
/// Object `i` owns the triple range `[intervals[i], intervals[i+1])`; an
/// object that emitted no triangles owns a zero-width range, which no
/// picking query can match — intentionally, not as an error.
pub struct ObjectIndex {
    pub ids: Vec<String>,
    pub intervals: Vec<u32>,
}

impl ObjectIndex {
    /// Well-formedness: the two sequences are parallel, the interval table
    /// starts at zero and never decreases.
    pub open spec fn wf(self) -> bool {
        &&& self.intervals@.len() == self.ids@.len() + 1
        &&& self.intervals@[0] == 0
        &&& forall|i: int|
            0 <= i < self.ids@.len() ==> #[trigger] self.intervals@[i] <= self.intervals@[i + 1]
    }
}

/// Why a document could not be flattened.  Every condition here is a machine
/// limit of the buffer interface, not a property of the document's content;
/// the caller keeps the rest of its documents.
#[derive(Clone, Copy, PartialEq, Eq, Structural, Debug)]
pub enum FlattenError {
    /// The document emits more vertex indices than a 32-bit buffer offset
    /// can address.
    TooManyTriangles,
    /// The vertex table is too large for a color buffer of three channel
    /// cells per vertex to be addressed.
    VertexTableTooLarge,
}

/// The triangle a surface emits: its outer ring, exactly when that ring has
/// three vertex indices; otherwise nothing.
pub open spec fn surface_triangles(srf: Surface) -> Seq<u32> {
    if srf.rings@.len() > 0 && srf.rings@[0]@.len() == 3 {
        srf.rings@[0]@
    } else {
        Seq::<u32>::empty()
    }
}

/// Triangles of a list of surfaces, in order.
pub open spec fn surfaces_triangles(srfs: Seq<Surface>) -> Seq<u32>
    decreases srfs.len(),
{
    if srfs.len() == 0 {
        Seq::<u32>::empty()
    } else {
        surfaces_triangles(srfs.drop_last()) + surface_triangles(srfs.last())
    }
}

/// Triangles of one shell: those of its surfaces, in order.
pub open spec fn shell_triangles(sh: Shell) -> Seq<u32> {
    surfaces_triangles(sh.surfaces@)
}

/// Triangles of a list of shells, in order.
pub open spec fn shells_triangles(shs: Seq<Shell>) -> Seq<u32>
    decreases shs.len(),
{
    if shs.len() == 0 {
        Seq::<u32>::empty()
    } else {
        shells_triangles(shs.drop_last()) + shell_triangles(shs.last())
    }
}

/// Triangles of a list of solids (each a list of shells), in order.
pub open spec fn solids_triangles(sols: Seq<Vec<Shell>>) -> Seq<u32>
    decreases sols.len(),
{
    if sols.len() == 0 {
        Seq::<u32>::empty()
    } else {
        solids_triangles(sols.drop_last()) + shells_triangles(sols.last()@)
    }
}

/// Triangles one geometry emits, per kind: a surface bag is one shell, a
/// solid iterates its shells, a solid bag iterates solids then shells.
pub open spec fn geometry_triangles(g: Geometry) -> Seq<u32> {
    match g {
        Geometry::MultiSurface { surfaces } => surfaces_triangles(surfaces@),
        Geometry::CompositeSurface { surfaces } => surfaces_triangles(surfaces@),
        Geometry::Solid { shells } => shells_triangles(shells@),
        Geometry::MultiSolid { solids } => solids_triangles(solids@),
        Geometry::CompositeSolid { solids } => solids_triangles(solids@),
    }
}

/// Triangles of a list of geometries, in order.
pub open spec fn geometries_triangles(gs: Seq<Geometry>) -> Seq<u32>
    decreases gs.len(),
{
    if gs.len() == 0 {
        Seq::<u32>::empty()
    } else {
        geometries_triangles(gs.drop_last()) + geometry_triangles(gs.last())
    }
}

/// All triangles one object emits.  An object with no geometry emits none;
/// that is not an error.
pub open spec fn object_triangles(o: CityObject) -> Seq<u32> {
    geometries_triangles(o.geometry@)
}

/// A surface emits zero or three indices.
pub proof fn lemma_surface_len(srf: Surface)
    ensures
        surface_triangles(srf).len() % 3 == 0,
{
}

/// A surface list emits a multiple of three indices.
pub proof fn lemma_surfaces_len(srfs: Seq<Surface>)
    ensures
        surfaces_triangles(srfs).len() % 3 == 0,
    decreases srfs.len(),
{
    if srfs.len() > 0 {
        lemma_surfaces_len(srfs.drop_last());
        lemma_surface_len(srfs.last());
    }
}

/// A shell list emits a multiple of three indices.
pub proof fn lemma_shells_len(shs: Seq<Shell>)
    ensures
        shells_triangles(shs).len() % 3 == 0,
    decreases shs.len(),
{
    if shs.len() > 0 {
        lemma_shells_len(shs.drop_last());
        lemma_surfaces_len(shs.last().surfaces@);
    }
}

/// A solid list emits a multiple of three indices.
pub proof fn lemma_solids_len(sols: Seq<Vec<Shell>>)
    ensures
        solids_triangles(sols).len() % 3 == 0,
    decreases sols.len(),
{
    if sols.len() > 0 {
        lemma_solids_len(sols.drop_last());
        lemma_shells_len(sols.last()@);
    }
}

/// A geometry emits a multiple of three indices.
pub proof fn lemma_geometry_len(g: Geometry)
    ensures
        geometry_triangles(g).len() % 3 == 0,
{
    match g {
        Geometry::MultiSurface { surfaces } => lemma_surfaces_len(surfaces@),
        Geometry::CompositeSurface { surfaces } => lemma_surfaces_len(surfaces@),
        Geometry::Solid { shells } => lemma_shells_len(shells@),
        Geometry::MultiSolid { solids } => lemma_solids_len(solids@),
        Geometry::CompositeSolid { solids } => lemma_solids_len(solids@),
    }
}

/// A geometry list emits a multiple of three indices.
pub proof fn lemma_geometries_len(gs: Seq<Geometry>)
    ensures
        geometries_triangles(gs).len() % 3 == 0,
    decreases gs.len(),
{
    if gs.len() > 0 {
        lemma_geometries_len(gs.drop_last());
        lemma_geometry_len(gs.last());
    }
}

/// An object emits a multiple of three indices: one triple per triangle.
pub proof fn lemma_object_len(o: CityObject)
    ensures
        object_triangles(o).len() % 3 == 0,
{
    lemma_geometries_len(o.geometry@);
}

} // verus!
