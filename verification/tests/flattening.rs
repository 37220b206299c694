use citybuf::colors::color_of;
use citybuf::flatten::{parse_all, parse_cityobjects, parse_vertices};
use citybuf::model::{CityModel, CityObject, CoType, Geometry, Shell, Surface, Vertex};

fn vertex(x: u32, y: u32, z: u32) -> Vertex {
    Vertex { x, y, z }
}

fn object(id: &str, co_type: CoType, geometry: Vec<Geometry>) -> CityObject {
    CityObject {
        id: id.to_string(),
        co_type,
        geometry,
        attributes: serde_json::Value::Null,
    }
}

fn multi_surface(rings: Vec<Vec<u32>>) -> Geometry {
    Geometry::MultiSurface {
        surfaces: rings.into_iter().map(|r| Surface { rings: vec![r] }).collect(),
    }
}

fn default_vertices(n: u32) -> Vec<Vertex> {
    (0..n).map(|i| vertex(i, i + 1, i + 2)).collect()
}

#[test]
fn type_names_match_document_tags() {
    assert_eq!(CoType::Building.name(), "Building");
    assert_eq!(CoType::TINRelief.name(), "TINRelief");
    assert_eq!(CoType::SolitaryVegetationObject.name(), "SolitaryVegetationObject");
    assert_eq!(CoType::Unknown.name(), "Unknown");
}

#[test]
fn one_building_one_triangle() {
    // The document carries no vertex table; flattening still succeeds.
    let model = CityModel {
        vertices: vec![],
        objects: vec![object("b1", CoType::Building, vec![multi_surface(vec![vec![0, 1, 2]])])],
    };
    let out = parse_cityobjects(&model).unwrap();
    assert_eq!(out.triangles, vec![0, 1, 2]);
    assert_eq!(out.groups.len(), 1);
    assert_eq!(out.groups[0].co_type, CoType::Building);
    assert_eq!(out.groups[0].start, 0);
    assert_eq!(out.groups[0].count, 3);
    assert_eq!(out.index.ids, vec!["b1".to_string()]);
    assert_eq!(out.index.intervals, vec![0, 1]);
}

#[test]
fn solid_with_two_triangular_shells() {
    let shell = |a: u32, b: u32, c: u32| Shell {
        surfaces: vec![Surface { rings: vec![vec![a, b, c]] }],
    };
    let model = CityModel {
        vertices: vec![],
        objects: vec![object(
            "s1",
            CoType::Building,
            vec![Geometry::Solid { shells: vec![shell(0, 1, 2), shell(3, 4, 5)] }],
        )],
    };
    let out = parse_cityobjects(&model).unwrap();
    assert_eq!(out.triangles, vec![0, 1, 2, 3, 4, 5]);
    assert_eq!(out.index.ids.len(), 1);
    assert_eq!(out.index.intervals, vec![0, 2]);
}

#[test]
fn quad_ring_emits_nothing_but_keeps_interval_entry() {
    let model = CityModel {
        vertices: vec![],
        objects: vec![object("q1", CoType::Building, vec![multi_surface(vec![vec![0, 1, 2, 3]])])],
    };
    let out = parse_cityobjects(&model).unwrap();
    assert_eq!(out.triangles, Vec::<u32>::new());
    assert_eq!(out.groups.len(), 0);
    assert_eq!(out.index.ids, vec!["q1".to_string()]);
    assert_eq!(out.index.intervals, vec![0, 0]);
}

#[test]
fn quad_ring_after_triangle_gets_zero_width_range() {
    let model = CityModel {
        vertices: vec![],
        objects: vec![
            object("b1", CoType::Building, vec![multi_surface(vec![vec![0, 1, 2]])]),
            object("b2", CoType::Building, vec![multi_surface(vec![vec![3, 4, 5, 6]])]),
        ],
    };
    let out = parse_cityobjects(&model).unwrap();
    assert_eq!(out.triangles, vec![0, 1, 2]);
    assert_eq!(out.index.ids, vec!["b1".to_string(), "b2".to_string()]);
    // b2's entry repeats the preceding cumulative value: a zero-width range.
    assert_eq!(out.index.intervals, vec![0, 1, 1]);
}

#[test]
fn groups_follow_declared_order_not_source_order() {
    let model = CityModel {
        vertices: default_vertices(6),
        objects: vec![
            object("road", CoType::Road, vec![multi_surface(vec![vec![3, 4, 5]])]),
            object("bldg", CoType::Building, vec![multi_surface(vec![vec![0, 1, 2]])]),
        ],
    };
    let out = parse_cityobjects(&model).unwrap();
    // Building is merged before Road whatever the source order.
    assert_eq!(out.triangles, vec![0, 1, 2, 3, 4, 5]);
    assert_eq!(out.groups.len(), 2);
    assert_eq!(out.groups[0].co_type, CoType::Building);
    assert_eq!(out.groups[0].start, 0);
    assert_eq!(out.groups[0].count, 3);
    assert_eq!(out.groups[1].co_type, CoType::Road);
    assert_eq!(out.groups[1].start, 3);
    assert_eq!(out.groups[1].count, 3);
    assert_eq!(out.index.ids, vec!["bldg".to_string(), "road".to_string()]);
    assert_eq!(out.index.intervals, vec![0, 1, 2]);
}

#[test]
fn flatten_invariants_hold_on_mixed_document() {
    let model = CityModel {
        vertices: default_vertices(9),
        objects: vec![
            object("a", CoType::Road, vec![multi_surface(vec![vec![0, 1, 2], vec![3, 4, 5]])]),
            object("b", CoType::WaterBody, vec![]),
            object(
                "c",
                CoType::Building,
                vec![Geometry::CompositeSurface {
                    surfaces: vec![Surface { rings: vec![vec![6, 7, 8]] }],
                }],
            ),
        ],
    };
    let out = parse_cityobjects(&model).unwrap();
    assert_eq!(out.index.intervals.len(), out.index.ids.len() + 1);
    assert!(out.index.intervals.windows(2).all(|w| w[0] <= w[1]));
    assert_eq!(out.triangles.len() % 3, 0);
    let total: u32 = out.groups.iter().map(|g| g.count).sum();
    assert_eq!(total as usize, out.triangles.len());
    assert_eq!(*out.index.intervals.last().unwrap() as usize, out.triangles.len() / 3);
    assert_eq!(out.colors.len(), 3 * model.vertices.len());
}

#[test]
fn multi_solid_traverses_solids_then_shells() {
    let shell = |a: u32, b: u32, c: u32| Shell {
        surfaces: vec![Surface { rings: vec![vec![a, b, c]] }],
    };
    let model = CityModel {
        vertices: default_vertices(9),
        objects: vec![object(
            "m1",
            CoType::GenericCityObject,
            vec![Geometry::MultiSolid {
                solids: vec![vec![shell(0, 1, 2)], vec![shell(3, 4, 5), shell(6, 7, 8)]],
            }],
        )],
    };
    let out = parse_cityobjects(&model).unwrap();
    assert_eq!(out.triangles, vec![0, 1, 2, 3, 4, 5, 6, 7, 8]);
    assert_eq!(out.index.intervals, vec![0, 3]);
}

#[test]
fn composite_solid_counts_like_multi_solid() {
    let shell = |a: u32, b: u32, c: u32| Shell {
        surfaces: vec![Surface { rings: vec![vec![a, b, c]] }],
    };
    let model = CityModel {
        vertices: default_vertices(6),
        objects: vec![object(
            "cs",
            CoType::Bridge,
            vec![Geometry::CompositeSolid { solids: vec![vec![shell(0, 1, 2), shell(3, 4, 5)]] }],
        )],
    };
    let out = parse_cityobjects(&model).unwrap();
    assert_eq!(out.triangles, vec![0, 1, 2, 3, 4, 5]);
    assert_eq!(out.index.intervals, vec![0, 2]);
}

#[test]
fn surface_without_rings_is_skipped() {
    let model = CityModel {
        vertices: default_vertices(3),
        objects: vec![object(
            "empty",
            CoType::Building,
            vec![Geometry::MultiSurface {
                surfaces: vec![
                    Surface { rings: vec![] },
                    Surface { rings: vec![vec![0, 1, 2]] },
                ],
            }],
        )],
    };
    let out = parse_cityobjects(&model).unwrap();
    assert_eq!(out.triangles, vec![0, 1, 2]);
}

#[test]
fn holes_are_discarded_outer_ring_kept() {
    let model = CityModel {
        vertices: default_vertices(6),
        objects: vec![object(
            "h1",
            CoType::Building,
            vec![Geometry::MultiSurface {
                surfaces: vec![Surface { rings: vec![vec![0, 1, 2], vec![3, 4, 5]] }],
            }],
        )],
    };
    let out = parse_cityobjects(&model).unwrap();
    // Only the outer ring is consumed; the hole contributes nothing.
    assert_eq!(out.triangles, vec![0, 1, 2]);
}

#[test]
fn multiple_geometries_one_interval_step() {
    let model = CityModel {
        vertices: default_vertices(6),
        objects: vec![object(
            "two",
            CoType::Building,
            vec![multi_surface(vec![vec![0, 1, 2]]), multi_surface(vec![vec![3, 4, 5]])],
        )],
    };
    let out = parse_cityobjects(&model).unwrap();
    // One object, two geometries: still a single id and interval step.
    assert_eq!(out.index.ids.len(), 1);
    assert_eq!(out.index.intervals, vec![0, 2]);
}

#[test]
fn empty_document_flattens_to_empty_buffers() {
    let model = CityModel { vertices: vec![], objects: vec![] };
    let out = parse_cityobjects(&model).unwrap();
    assert_eq!(out.triangles, Vec::<u32>::new());
    assert_eq!(out.colors, Vec::<u8>::new());
    assert_eq!(out.groups.len(), 0);
    assert_eq!(out.index.ids.len(), 0);
    assert_eq!(out.index.intervals, vec![0]);
}

#[test]
fn dangling_vertex_reference_is_emitted_but_unpainted() {
    // Vertex 2 lies outside the two-entry table: the triangle is still
    // emitted and indexed, only its third corner gets no color cells.
    let model = CityModel {
        vertices: default_vertices(2),
        objects: vec![object("b", CoType::Building, vec![multi_surface(vec![vec![0, 1, 2]])])],
    };
    let out = parse_cityobjects(&model).unwrap();
    assert_eq!(out.triangles, vec![0, 1, 2]);
    assert_eq!(out.index.ids, vec!["b".to_string()]);
    assert_eq!(out.index.intervals, vec![0, 1]);
    assert_eq!(out.colors.len(), 6);
    let c = color_of(&CoType::Building);
    assert_eq!(&out.colors[0..6], &[c.r, c.g, c.b, c.r, c.g, c.b]);
}

#[test]
fn vertices_flatten_in_coordinate_order() {
    let vs = vec![vertex(1, 2, 3), vertex(4, 5, 6)];
    assert_eq!(parse_vertices(&vs), vec![1, 2, 3, 4, 5, 6]);
}

#[test]
fn parse_all_returns_both_buffers() {
    let model = CityModel {
        vertices: vec![vertex(10, 20, 30), vertex(11, 21, 31), vertex(12, 22, 32)],
        objects: vec![object("b1", CoType::Building, vec![multi_surface(vec![vec![0, 1, 2]])])],
    };
    let all = parse_all(&model).unwrap();
    assert_eq!(all.vertices, vec![10, 20, 30, 11, 21, 31, 12, 22, 32]);
    assert_eq!(all.buffers.triangles, vec![0, 1, 2]);
}

#[test]
fn referenced_vertices_take_the_type_color() {
    let model = CityModel {
        vertices: default_vertices(4),
        objects: vec![object("b1", CoType::Building, vec![multi_surface(vec![vec![0, 1, 2]])])],
    };
    let out = parse_cityobjects(&model).unwrap();
    let c = color_of(&CoType::Building);
    for v in 0..3usize {
        assert_eq!(out.colors[3 * v], c.r);
        assert_eq!(out.colors[3 * v + 1], c.g);
        assert_eq!(out.colors[3 * v + 2], c.b);
    }
    // Vertex 3 is never referenced and keeps the fallback color.
    let f = citybuf::colors::FALLBACK_CHANNEL;
    assert_eq!(&out.colors[9..12], &[f, f, f]);
}

#[test]
fn shared_vertex_takes_the_later_group_color() {
    let model = CityModel {
        vertices: default_vertices(5),
        objects: vec![
            object("b", CoType::Building, vec![multi_surface(vec![vec![0, 1, 2]])]),
            object("r", CoType::Road, vec![multi_surface(vec![vec![2, 3, 4]])]),
        ],
    };
    let out = parse_cityobjects(&model).unwrap();
    let road = color_of(&CoType::Road);
    let bldg = color_of(&CoType::Building);
    // Vertex 2 is shared; Road is painted after Building and wins.
    assert_eq!(out.colors[6], road.r);
    assert_eq!(out.colors[7], road.g);
    assert_eq!(out.colors[8], road.b);
    // Vertex 0 is Building-only.
    assert_eq!(out.colors[0], bldg.r);
    assert_eq!(out.colors[1], bldg.g);
    assert_eq!(out.colors[2], bldg.b);
}

#[test]
fn unknown_type_gets_fallback_color_and_last_group() {
    let model = CityModel {
        vertices: default_vertices(6),
        objects: vec![
            object("u", CoType::Unknown, vec![multi_surface(vec![vec![3, 4, 5]])]),
            object("w", CoType::WaterBody, vec![multi_surface(vec![vec![0, 1, 2]])]),
        ],
    };
    let out = parse_cityobjects(&model).unwrap();
    // The unknown slot is merged after every known type.
    assert_eq!(out.groups[0].co_type, CoType::WaterBody);
    assert_eq!(out.groups[1].co_type, CoType::Unknown);
    let f = citybuf::colors::FALLBACK_CHANNEL;
    assert_eq!(&out.colors[9..12], &[f, f, f]);
}
