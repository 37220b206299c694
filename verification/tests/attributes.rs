use citybuf::attrs::get_attributes;
use citybuf::model::{CityModel, CityObject, CoType};
use serde_json::Value;

fn object_with(id: &str, attributes: Value) -> CityObject {
    CityObject {
        id: id.to_string(),
        co_type: CoType::Building,
        geometry: vec![],
        attributes,
    }
}

fn string_value(s: &str) -> Value {
    Value::String(s.to_string())
}

#[test]
fn attributes_of_present_id() {
    let mut fields = serde_json::Map::new();
    fields.insert("name".to_string(), string_value("town hall"));
    fields.insert("storeys".to_string(), Value::from(3u32));
    let model = CityModel {
        vertices: vec![],
        objects: vec![
            object_with("a", Value::Null),
            object_with("b", Value::Object(fields.clone())),
        ],
    };
    let got = get_attributes(&model, &"b".to_string()).unwrap();
    assert_eq!(got, &Value::Object(fields));
}

#[test]
fn attributes_of_absent_id_is_empty() {
    let model = CityModel {
        vertices: vec![],
        objects: vec![object_with("a", string_value("x"))],
    };
    assert!(get_attributes(&model, &"missing".to_string()).is_none());
}

#[test]
fn duplicate_ids_last_entry_wins() {
    let model = CityModel {
        vertices: vec![],
        objects: vec![
            object_with("dup", string_value("first")),
            object_with("other", string_value("middle")),
            object_with("dup", string_value("second")),
        ],
    };
    let got = get_attributes(&model, &"dup".to_string()).unwrap();
    assert_eq!(got, &string_value("second"));
}

#[test]
fn attributes_on_empty_document() {
    let model = CityModel { vertices: vec![], objects: vec![] };
    assert!(get_attributes(&model, &"a".to_string()).is_none());
}
