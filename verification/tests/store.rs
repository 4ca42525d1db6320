use entity_access::entity::{Entity, Scalar};
use entity_access::naming::{aliased, plain, prefix, renamed, styled, tabled, Style};
use entity_access::null::Null;
use entity_access::row::{Cell, Fetched, Row, StoreError};
use entity_access::schema::{FieldSpec, Kind, Sanitize, Schema};

fn text(s: &str) -> Scalar {
    Scalar::Text(s.to_string())
}

fn cell(column: &str, value: Option<Scalar>) -> Cell {
    Cell { column: column.to_string(), value }
}

fn schema() -> Schema {
    let field = |name: &str, kind: Kind| FieldSpec {
        name: name.to_string(),
        kind,
        ciphered: false,
        sanitize: Sanitize::Keep,
    };
    Schema {
        entity: "UserAccount".to_string(),
        fields: vec![field("id", Kind::Text), field("Age", Kind::Int), field("nick_name", Kind::Text)],
    }
}

#[test]
fn prefix_is_snake_case() {
    assert_eq!(prefix("UserAccount"), "user_account");
    assert_eq!(prefix("User"), "user");
    assert_eq!(prefix("HTTPRequest"), stringcase::snake_case("HTTPRequest").to_lowercase());
    assert_eq!(prefix(""), "");
}

#[test]
fn names_follow_the_conventions() {
    assert_eq!(aliased("user", "id"), "user.id AS user_id");
    assert_eq!(plain("Age"), "age");
    assert_eq!(renamed("user", "id"), "user_id");
    assert_eq!(tabled("user", "id"), "user.id");
    assert_eq!(styled(Style::Aliased, "t", "c"), "t.c AS t_c");
    assert_eq!(styled(Style::Plain, "t", "C"), "c");
    assert_eq!(styled(Style::Renamed, "t", "c"), "t_c");
    assert_eq!(styled(Style::Tabled, "t", "c"), "t.c");
}

#[test]
fn column_lists_of_a_schema() {
    let s = schema();
    assert_eq!(
        s.all(Style::Aliased),
        "user_account.id AS user_account_id,user_account.Age AS user_account_Age,user_account.nick_name AS user_account_nick_name"
    );
    assert_eq!(s.all(Style::Plain), "id,age,nick_name");
    assert_eq!(s.all(Style::Renamed), "user_account_id,user_account_Age,user_account_nick_name");
    assert_eq!(s.all(Style::Tabled), "user_account.id,user_account.Age,user_account.nick_name");
    assert_eq!(s.names(Style::Plain), vec!["id", "age", "nick_name"]);
    let none = Schema { entity: "X".to_string(), fields: vec![] };
    assert_eq!(none.all(Style::Plain), "");
    assert!(none.names(Style::Tabled).is_empty());
}

#[test]
fn parse_reads_each_column() {
    let row = Row {
        cells: vec![
            cell("other", Some(text("x"))),
            cell("user_account_Age", Some(Scalar::Int(41))),
            cell("user_account_id", Some(text("u1"))),
            cell("user_account_id", Some(text("u2"))),
            cell("user_account_nick_name", None),
        ],
    };
    let e = Entity::parse(&schema(), &row);
    assert_eq!(e.fields, vec![Null::Value(text("u1")), Null::Value(Scalar::Int(41)), Null::Null]);
    assert_eq!(row.get("user_account_id"), Some(Some(text("u1"))));
    assert_eq!(row.get("user_account_nick_name"), Some(None));
    assert_eq!(row.get("id"), None);
}

#[test]
fn parse_never_leaves_a_field_undefined_in_a_matching_row() {
    let row = Row { cells: vec![cell("user_account_id", Some(text("u1")))] };
    let e = Entity::parse(&schema(), &row);
    assert_eq!(e.fields, vec![Null::Value(text("u1")), Null::Null, Null::Null]);
    assert!(e.fields.iter().all(|f| !f.is_undefined()));
    let row = Row { cells: vec![cell("user_account_Age", None)] };
    let e = Entity::parse(&schema(), &row);
    assert_eq!(e.fields, vec![Null::Null, Null::Null, Null::Null]);
    assert!(!e.is_empty());
}

#[test]
fn parse_of_a_foreign_row_is_the_default_entity() {
    let row = Row { cells: vec![cell("post_id", Some(text("p1"))), cell("id", Some(text("u1")))] };
    let e = Entity::parse(&schema(), &row);
    assert!(e.is_empty());
    assert_eq!(e.len(), 3);
    assert!(Entity::parse(&schema(), &Row { cells: vec![] }).is_empty());
}

#[test]
fn result_tells_a_missing_row_from_an_empty_entity() {
    let found = Row { cells: vec![cell("user_account_id", Some(text("u1")))] };
    let e = Entity::result(&schema(), Fetched::Found(found)).unwrap();
    assert_eq!(e.get(0), Some(text("u1")));
    let foreign = Row { cells: vec![cell("post_id", Some(text("p1")))] };
    let e = Entity::result(&schema(), Fetched::Found(foreign)).unwrap();
    assert!(e.is_empty());
    assert_eq!(Entity::result(&schema(), Fetched::Missing), Err(StoreError::NotFound));
    assert_eq!(
        Entity::result(&schema(), Fetched::Failed("connection reset".to_string())),
        Err(StoreError::Query("connection reset".to_string()))
    );
}

#[test]
fn relational_is_undefined_for_a_foreign_row() {
    let found = Row { cells: vec![cell("user_account_id", None)] };
    match Entity::relational(&schema(), &found) {
        Null::Value(e) => assert_eq!(e.fields, vec![Null::Null, Null::Null, Null::Null]),
        other => panic!("{:?}", other),
    }
    let foreign = Row { cells: vec![cell("post_id", Some(text("p1")))] };
    assert_eq!(Entity::relational(&schema(), &foreign), Null::Undefined);
}

#[test]
fn parse_list_reads_every_row() {
    let rows = Ok(vec![
        Row { cells: vec![cell("user_account_id", Some(text("a")))] },
        Row { cells: vec![] },
        Row { cells: vec![cell("user_account_id", Some(text("b")))] },
    ]);
    let list = Entity::parse_list(&schema(), &rows);
    assert_eq!(list.len(), 3);
    assert_eq!(list[0].get(0), Some(text("a")));
    assert!(list[1].is_empty());
    assert_eq!(list[2].get(0), Some(text("b")));
    assert!(Entity::parse_list(&schema(), &Err("down".to_string())).is_empty());
}
