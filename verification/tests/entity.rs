use entity_access::codec::{transform, CryptoError};
use entity_access::entity::{copy_field, Entity, Scalar};
use entity_access::null::Null;
use entity_access::schema::{FieldSpec, Kind, Sanitize, Schema};

fn text(s: &str) -> Scalar {
    Scalar::Text(s.to_string())
}

fn spec(name: &str, kind: Kind, ciphered: bool, sanitize: Sanitize) -> FieldSpec {
    FieldSpec { name: name.to_string(), kind, ciphered, sanitize }
}

fn schema() -> Schema {
    Schema {
        entity: "UserAccount".to_string(),
        fields: vec![
            spec("id", Kind::Text, false, Sanitize::Keep),
            spec("email", Kind::Text, true, Sanitize::Lowercase),
            spec("pin", Kind::Int, true, Sanitize::Keep),
            spec("full_name", Kind::Text, false, Sanitize::NormalizeName),
            spec("site", Kind::Text, true, Sanitize::TrimSlash),
        ],
    }
}

fn seal(v: &Scalar) -> Result<Scalar, String> {
    match v {
        Scalar::Text(t) => Ok(Scalar::Text(format!("enc:{}", t.chars().rev().collect::<String>()))),
        Scalar::Int(n) => Ok(Scalar::Text(format!("enc#{}", n))),
    }
}

fn open(v: &Scalar) -> Result<Scalar, String> {
    match v {
        Scalar::Text(t) => {
            if let Some(rest) = t.strip_prefix("enc:") {
                Ok(Scalar::Text(rest.chars().rev().collect()))
            } else if let Some(rest) = t.strip_prefix("enc#") {
                rest.parse::<i64>().map(Scalar::Int).map_err(|e| e.to_string())
            } else {
                Err(format!("not a ciphertext: {}", t))
            }
        }
        Scalar::Int(n) => Err(format!("not a ciphertext: {}", n)),
    }
}

fn sample() -> Entity {
    Entity {
        fields: vec![
            Null::Value(text("u1")),
            Null::Value(text("a@b.c")),
            Null::Value(Scalar::Int(1234)),
            Null::Null,
            Null::Undefined,
        ],
    }
}

#[test]
fn default_entity_is_empty() {
    let e = Entity::new(4);
    assert_eq!(e.len(), 4);
    assert!(e.is_empty());
    assert_eq!(e.fields, vec![Null::Undefined, Null::Undefined, Null::Undefined, Null::Undefined]);
    assert!(Entity::new(0).is_empty());
}

#[test]
fn setting_a_field_makes_it_not_empty() {
    for index in 0..3 {
        let e = Entity::new(3).set(index, text("v"));
        assert!(!e.is_empty());
        assert_eq!(e.get(index), Some(text("v")));
    }
    let e = Entity::new(3).set(1, text(""));
    assert!(!e.is_empty());
    let e = Entity::new(3).with_field(2, Null::Null);
    assert!(!e.is_empty());
}

#[test]
fn set_outside_the_entity_changes_nothing() {
    let e = Entity::new(2).set(2, text("v"));
    assert!(e.is_empty());
    assert_eq!(e.len(), 2);
    assert_eq!(e.get(2), None);
    assert_eq!(e.get(100), None);
}

#[test]
fn get_gives_only_values() {
    let e = sample();
    assert_eq!(e.get(0), Some(text("u1")));
    assert_eq!(e.get(2), Some(Scalar::Int(1234)));
    assert_eq!(e.get(3), None);
    assert_eq!(e.get(4), None);
}

#[test]
fn set_insert_keeps_a_value_that_is_there() {
    let e = sample().set_insert(0, text("other"));
    assert_eq!(e.get(0), Some(text("u1")));
    let e = sample().set_insert(3, text("n"));
    assert_eq!(e.get(3), Some(text("n")));
    let e = sample().set_insert(4, text("s"));
    assert_eq!(e.get(4), Some(text("s")));
    let e = sample().set(0, text("")).set_insert(0, text("fresh"));
    assert_eq!(e.get(0), Some(text("fresh")));
    let e = sample().set_insert(9, text("s"));
    assert_eq!(e, sample());
}

#[test]
fn nulls_become_undefined() {
    let e = sample().nulls_to_undefined();
    assert_eq!(
        e.fields,
        vec![
            Null::Value(text("u1")),
            Null::Value(text("a@b.c")),
            Null::Value(Scalar::Int(1234)),
            Null::Undefined,
            Null::Undefined,
        ]
    );
    let e = sample().field_to_undefined(0);
    assert_eq!(e.fields[0], Null::Undefined);
    assert_eq!(e.fields[1], Null::Value(text("a@b.c")));
    assert_eq!(sample().field_to_undefined(7), sample());
}

#[test]
fn clone_keeps_every_field() {
    assert_eq!(sample().clone(), sample());
    assert_eq!(copy_field(&Null::Value(text("x"))), Null::Value(text("x")));
    assert_eq!(copy_field(&Null::Null), Null::Null);
    assert_eq!(copy_field(&Null::Undefined), Null::Undefined);
    assert!(text("").is_empty());
    assert!(Scalar::Int(0).is_empty());
    assert!(!text(" ").is_empty());
    assert!(!Scalar::Int(-1).is_empty());
}

#[test]
fn encrypt_changes_only_ciphered_values() {
    let out = sample().encrypt_with(&schema(), &seal).unwrap();
    assert_eq!(
        out.fields,
        vec![
            Null::Value(text("u1")),
            Null::Value(text("enc:c.b@a")),
            Null::Value(text("enc#1234")),
            Null::Null,
            Null::Undefined,
        ]
    );
}

#[test]
fn decrypt_undoes_encrypt() {
    let sealed = sample().encrypt_with(&schema(), &seal).unwrap();
    let opened = sealed.decrypt_with(&schema(), &open).unwrap();
    assert_eq!(opened, sample());
}

#[test]
fn empty_and_missing_values_pass_through() {
    let e = Entity {
        fields: vec![
            Null::Undefined,
            Null::Value(text("")),
            Null::Value(Scalar::Int(0)),
            Null::Undefined,
            Null::Null,
        ],
    };
    let out = e.encrypt_with(&schema(), &seal).unwrap();
    assert_eq!(out, e);
    let out = Entity::new(5).encrypt_with(&schema(), &seal).unwrap();
    assert!(out.is_empty());
}

#[test]
fn a_failure_fails_the_whole_call() {
    let e = Entity {
        fields: vec![
            Null::Value(text("u1")),
            Null::Value(text("enc:c.b@a")),
            Null::Value(text("plain")),
            Null::Null,
            Null::Value(text("enc:x")),
        ],
    };
    let out = e.decrypt_with(&schema(), &open);
    assert_eq!(
        out,
        Err(CryptoError { field: 2, reason: "not a ciphertext: plain".to_string() })
    );
}

#[test]
fn fields_beyond_the_schema_are_not_ciphered() {
    let short = Schema { entity: "T".to_string(), fields: vec![spec("a", Kind::Text, true, Sanitize::Keep)] };
    let e = Entity { fields: vec![Null::Value(text("x")), Null::Value(text("y"))] };
    let out = transform(&e, &short, &seal).unwrap();
    assert_eq!(out.fields, vec![Null::Value(text("enc:x")), Null::Value(text("y"))]);
    assert!(short.is_ciphered(0));
    assert!(!short.is_ciphered(1));
    assert_eq!(short.len(), 1);
    assert_eq!(short.kind(0), Kind::Text);
    assert_eq!(short.kind(5), Kind::Text);
    assert_eq!(schema().kind(2), Kind::Int);
    assert_eq!(schema().position("pin"), Some(2));
    assert_eq!(schema().position("nope"), None);
}

#[test]
fn responses_show_typed_values() {
    let e = Entity {
        fields: vec![
            Null::Value(text("")),
            Null::Value(text("")),
            Null::Value(text("0042")),
            Null::Null,
            Null::Value(Scalar::Int(-7)),
        ],
    };
    let shown = e.to_response(&schema());
    assert_eq!(
        shown.fields,
        vec![
            Null::Value(text("")),
            Null::Undefined,
            Null::Value(Scalar::Int(42)),
            Null::Null,
            Null::Value(text("-7")),
        ]
    );
    assert_eq!(e.to_form(&schema()), shown);
    let e = sample().set(2, text("twelve"));
    assert_eq!(e.to_response(&schema()).fields[2], Null::Value(Scalar::Int(0)));
}

#[test]
fn forms_give_nothing_for_empty_or_zero() {
    let form = Entity {
        fields: vec![
            Null::Value(text("")),
            Null::Value(text("")),
            Null::Value(Scalar::Int(0)),
            Null::Null,
            Null::Null,
        ],
    };
    let taken = Entity::from_form(&form, &schema());
    assert_eq!(
        taken.fields,
        vec![
            Null::Value(text("")),
            Null::Undefined,
            Null::Undefined,
            Null::Null,
            Null::Undefined,
        ]
    );
    let form = Entity {
        fields: vec![
            Null::Undefined,
            Null::Value(text("a@b.c")),
            Null::Value(Scalar::Int(-3)),
            Null::Value(text("n")),
            Null::Undefined,
        ],
    };
    let taken = Entity::from_form(&form, &schema());
    assert_eq!(
        taken.fields,
        vec![
            Null::Undefined,
            Null::Value(text("a@b.c")),
            Null::Undefined,
            Null::Value(text("n")),
            Null::Undefined,
        ]
    );
    let form = sample().set(2, Scalar::Int(5));
    assert_eq!(Entity::from_form(&form, &schema()).fields[2], Null::Value(Scalar::Int(5)));
}

#[test]
fn typed_reads_fall_back_to_a_default() {
    let sealed = sample().encrypt_with(&schema(), &seal).unwrap();
    assert_eq!(sealed.text_with(&schema(), 1, &open), "a@b.c");
    assert_eq!(sealed.integer_with(&schema(), 2, &open), 1234);
    assert_eq!(sealed.text_with(&schema(), 3, &open), "");
    assert_eq!(sealed.integer_with(&schema(), 4, &open), 0);
    assert_eq!(sealed.text_with(&schema(), 0, &open), "u1");
    assert_eq!(sample().text_with(&schema(), 0, &open), "");
    assert_eq!(sample().integer_with(&schema(), 2, &open), 0);
    assert_eq!(sample().text(1), "a@b.c");
    assert_eq!(sample().text(2), "1234");
    assert_eq!(sample().integer(2), 1234);
    assert_eq!(sample().integer(1), 0);
    assert_eq!(sample().integer(9), 0);
    assert_eq!(sample().text(9), "");
}

#[test]
fn scalars_read_as_numbers_and_texts() {
    assert_eq!(text("17").to_i32(), 17);
    assert_eq!(text("-17").to_i32(), -17);
    assert_eq!(text("x").to_i32(), 0);
    assert_eq!(Scalar::Int(5_000_000_000).to_i32(), 0);
    assert_eq!(Scalar::Int(i32::MIN as i64).to_i32(), i32::MIN);
    assert_eq!(Scalar::Int(-12).to_text(), "-12");
    assert_eq!(text("t").to_text(), "t");
}

#[test]
fn validation_passes_on_an_empty_record() {
    assert_eq!(Entity::new(3).validate(), Ok(()));
    assert_eq!(Entity::new(0).validate(), Ok(()));
    let errors = Entity::new(3).set(1, text("is required"));
    assert_eq!(errors.clone().validate(), Err(errors));
    let errors = Entity::new(2).with_field(0, Null::Null);
    assert_eq!(errors.clone().validate(), Err(errors));
}

#[test]
fn mutate_takes_only_ciphered_fields() {
    let mut e = sample();
    let form = Entity {
        fields: vec![
            Null::Value(text("other")),
            Null::Value(text("new@b.c")),
            Null::Undefined,
        ],
    };
    e.mutate(&schema(), &form);
    assert_eq!(
        e.fields,
        vec![
            Null::Value(text("u1")),
            Null::Value(text("new@b.c")),
            Null::Undefined,
            Null::Null,
            Null::Undefined,
        ]
    );
    let mut e = sample();
    e.mutate(&schema(), &Entity::new(0));
    assert_eq!(e, sample());
}

#[test]
fn projection_shows_only_the_marked_fields() {
    let shown = sample().project(&vec![true, false, true]);
    assert_eq!(
        shown.fields,
        vec![
            Null::Value(text("u1")),
            Null::Undefined,
            Null::Value(Scalar::Int(1234)),
            Null::Undefined,
            Null::Undefined,
        ]
    );
    assert!(sample().project(&vec![]).is_empty());
    assert_eq!(sample().project(&vec![true; 9]), sample());
}
