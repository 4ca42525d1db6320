use entity_access::entity::{Entity, Scalar};
use entity_access::json::Json;
use entity_access::null::Null;
use entity_access::schema::{FieldSpec, Kind, Sanitize, Schema};
use entity_access::wire::{camel_case, to_ascii_lower, to_ascii_upper};

fn text(s: &str) -> Scalar {
    Scalar::Text(s.to_string())
}

fn schema() -> Schema {
    let field = |name: &str, kind: Kind| FieldSpec {
        name: name.to_string(),
        kind,
        ciphered: false,
        sanitize: Sanitize::Keep,
    };
    Schema {
        entity: "User".to_string(),
        fields: vec![
            field("id", Kind::Text),
            field("first_name", Kind::Text),
            field("login_count", Kind::Int),
            field("nick", Kind::Text),
        ],
    }
}

#[test]
fn keys_are_in_camel_case() {
    assert_eq!(camel_case("first_name"), "firstName");
    assert_eq!(camel_case("id"), "id");
    assert_eq!(camel_case("a_b_c"), "aBC");
    assert_eq!(camel_case("_lead"), "lead");
    assert_eq!(camel_case("trail_"), "trail");
    assert_eq!(camel_case("two__bars"), "twoBars");
    assert_eq!(camel_case("Title"), "title");
    assert_eq!(camel_case("x9_y"), "x9Y");
    assert_eq!(camel_case(""), "");
    assert_eq!(camel_case("_"), "");
    assert_eq!(to_ascii_upper('a'), 'A');
    assert_eq!(to_ascii_upper('z'), 'Z');
    assert_eq!(to_ascii_upper('A'), 'A');
    assert_eq!(to_ascii_upper('1'), '1');
    assert_eq!(to_ascii_upper('\u{e9}'), '\u{e9}');
    assert_eq!(to_ascii_lower('Q'), 'q');
    assert_eq!(to_ascii_lower('q'), 'q');
    assert_eq!(to_ascii_lower('_'), '_');
}

#[test]
fn undefined_fields_are_left_out() {
    let e = Entity {
        fields: vec![
            Null::Value(text("u1")),
            Null::Undefined,
            Null::Value(Scalar::Int(-3)),
            Null::Null,
        ],
    };
    let json = e.to_json(&schema());
    assert_eq!(
        json,
        Json::Object(vec![
            ("id".to_string(), Json::Text("u1".to_string())),
            ("loginCount".to_string(), Json::Number("-3".to_string())),
            ("nick".to_string(), Json::Null),
        ])
    );
    assert_eq!(json.render(), "{\"id\":\"u1\",\"loginCount\":-3,\"nick\":null}");
    assert_eq!(Entity::new(4).to_json(&schema()), Json::Object(vec![]));
}

#[test]
fn missing_members_are_undefined() {
    let json = Json::parse("{\"firstName\":null,\"loginCount\":12,\"other\":[1]}").unwrap();
    let e = Entity::from_json(&schema(), &json).unwrap();
    assert_eq!(
        e.fields,
        vec![Null::Undefined, Null::Null, Null::Value(Scalar::Int(12)), Null::Undefined]
    );
    let e = Entity::from_json(&schema(), &Json::parse("{}").unwrap()).unwrap();
    assert!(e.is_empty());
    assert_eq!(e.len(), 4);
}

#[test]
fn members_of_another_kind_are_refused() {
    for raw in [
        "[]",
        "null",
        "\"id\"",
        "{\"id\":5}",
        "{\"loginCount\":\"5\"}",
        "{\"loginCount\":1.5}",
        "{\"loginCount\":9223372036854775808}",
        "{\"nick\":true}",
        "{\"firstName\":{}}",
    ] {
        let json = Json::parse(raw).unwrap();
        assert_eq!(Entity::from_json(&schema(), &json), None);
    }
    let json = Json::parse("{\"loginCount\":-9223372036854775808}").unwrap();
    let e = Entity::from_json(&schema(), &json).unwrap();
    assert_eq!(e.get(2), Some(Scalar::Int(i64::MIN)));
}

#[test]
fn reading_what_was_written_gives_the_entity_back() {
    let entities = vec![
        Entity::new(4),
        Entity {
            fields: vec![
                Null::Value(text("")),
                Null::Null,
                Null::Value(Scalar::Int(0)),
                Null::Undefined,
            ],
        },
        Entity {
            fields: vec![
                Null::Value(text("u\"1\\")),
                Null::Value(text("\u{e9}\n")),
                Null::Value(Scalar::Int(i64::MAX)),
                Null::Value(text("null")),
            ],
        },
    ];
    for e in entities {
        let json = e.to_json(&schema());
        assert_eq!(Entity::from_json(&schema(), &json), Some(e.clone()));
        let text = json.render();
        let back = Json::parse(&text).unwrap();
        assert_eq!(Entity::from_json(&schema(), &back), Some(e));
    }
}

#[test]
fn scalars_and_their_json_forms() {
    assert_eq!(text("a").to_json(), Json::Text("a".to_string()));
    assert_eq!(Scalar::Int(7).to_json(), Json::Number("7".to_string()));
    assert_eq!(Scalar::from_json(&Json::Text("a".to_string()), Kind::Text), Some(text("a")));
    assert_eq!(Scalar::from_json(&Json::Text("7".to_string()), Kind::Int), None);
    assert_eq!(Scalar::from_json(&Json::Number("7".to_string()), Kind::Int), Some(Scalar::Int(7)));
    assert_eq!(Scalar::from_json(&Json::Number("7".to_string()), Kind::Text), None);
    assert_eq!(Scalar::from_json(&Json::Null, Kind::Text), None);
}
