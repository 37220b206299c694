use citybuf::flatten::parse_cityobjects;
use citybuf::model::{CityModel, CityObject, CoType, Geometry, ObjectIndex, Surface};
use citybuf::pick::get_interval_and_id;

fn index(ids: &[&str], intervals: &[u32]) -> ObjectIndex {
    ObjectIndex {
        ids: ids.iter().map(|s| s.to_string()).collect(),
        intervals: intervals.to_vec(),
    }
}

#[test]
fn pick_resolves_each_range() {
    let idx = index(&["a", "b", "c"], &[0, 2, 2, 5]);
    let p = get_interval_and_id(&idx, 0).unwrap();
    assert_eq!(p.id, "a");
    assert_eq!((p.start, p.end), (0, 1));
    let p = get_interval_and_id(&idx, 1).unwrap();
    assert_eq!(p.id, "a");
    let p = get_interval_and_id(&idx, 2).unwrap();
    assert_eq!(p.id, "c");
    assert_eq!((p.start, p.end), (2, 4));
    let p = get_interval_and_id(&idx, 4).unwrap();
    assert_eq!(p.id, "c");
}

#[test]
fn pick_outside_every_range_is_not_found() {
    let idx = index(&["a", "b"], &[0, 2, 3]);
    assert!(get_interval_and_id(&idx, 3).is_none());
    assert!(get_interval_and_id(&idx, 100).is_none());
}

#[test]
fn pick_never_selects_a_zero_width_range() {
    // "b" owns the zero-width range [2, 2): no query can land in it.
    let idx = index(&["a", "b", "c"], &[0, 2, 2, 4]);
    for q in 0..4u32 {
        let p = get_interval_and_id(&idx, q).unwrap();
        assert_ne!(p.id, "b");
    }
}

#[test]
fn pick_on_empty_index_is_not_found() {
    let idx = index(&[], &[0]);
    assert!(get_interval_and_id(&idx, 0).is_none());
}

#[test]
fn every_emitted_triangle_resolves_to_its_object() {
    let tri = |a: u32, b: u32, c: u32| Geometry::MultiSurface {
        surfaces: vec![Surface { rings: vec![vec![a, b, c]] }],
    };
    let object = |id: &str, co_type: CoType, geometry: Vec<Geometry>| CityObject {
        id: id.to_string(),
        co_type,
        geometry,
        attributes: serde_json::Value::Null,
    };
    let model = CityModel {
        vertices: (0..9u32).map(|i| citybuf::model::Vertex { x: i, y: i, z: i }).collect(),
        objects: vec![
            object("road", CoType::Road, vec![tri(0, 1, 2), tri(3, 4, 5)]),
            object("none", CoType::LandUse, vec![]),
            object("bldg", CoType::Building, vec![tri(6, 7, 8)]),
        ],
    };
    let out = parse_cityobjects(&model).unwrap();
    let owners = ["bldg", "road", "road"];
    for t in 0..(out.triangles.len() / 3) as u32 {
        let p = get_interval_and_id(&out.index, t).unwrap();
        assert_eq!(p.id, owners[t as usize]);
        assert!(p.start <= t && t <= p.end);
    }
    assert!(get_interval_and_id(&out.index, 3).is_none());
}
