use entity_access::filter::{compile_filters, decode_filters, filter_op_of, Filter, FilterOp};
use entity_access::json::Json;
use entity_access::order::{compile_orders, decode_orders, order_op_of, Order, OrderOp};
use entity_access::page::Page;
use entity_access::query::{parse_filters, parse_orders};
use entity_access::text::sanitize_column;

fn with_query(filters: Option<&str>, orders: Option<&str>) -> Page<u8> {
    Page {
        page: None,
        per_page: None,
        filtered_count: None,
        total_count: None,
        search: None,
        filters: filters.map(|s| s.to_string()),
        orders: orders.map(|s| s.to_string()),
        records: None,
    }
}

fn text(s: &str) -> Json {
    Json::Text(s.to_string())
}

#[test]
fn equality_filter_binds_its_value() {
    let page = with_query(Some(r#"[{"cols":"name","ops":"Eq","vals":"Alice"}]"#), None);
    let (conds, vals, next) = page.filters();
    assert_eq!(conds, vec!["name = $1".to_string()]);
    assert_eq!(vals, vec![text("Alice")]);
    assert_eq!(next, 2);
}

#[test]
fn column_names_are_sanitized() {
    let page = with_query(
        Some(r#"[{"cols":"name; DROP TABLE x","ops":"Eq","vals":"a"}]"#),
        None,
    );
    let (conds, vals, next) = page.filters();
    assert_eq!(conds, vec!["nameDROPTABLEx = $1".to_string()]);
    assert_eq!(vals, vec![text("a")]);
    assert_eq!(next, 2);
    assert_eq!(sanitize_column("name; DROP TABLE x"), "nameDROPTABLEx");
    assert_eq!(sanitize_column("users.first_name9"), "users.first_name9");
    assert_eq!(sanitize_column("a\"b'c--d/*e*/ \u{e9}\u{4e2d}"), "abcde");
    assert_eq!(sanitize_column(""), "");
}

#[test]
fn like_filter_wraps_a_number() {
    let page = with_query(Some(r#"[{"cols":"bio","ops":"Like","vals":42}]"#), None);
    let (conds, vals, next) = page.filters();
    assert_eq!(conds, vec!["bio LIKE $1".to_string()]);
    assert_eq!(vals, vec![text("%42%")]);
    assert_eq!(next, 2);
}

#[test]
fn like_patterns_by_value_type() {
    let page = with_query(
        Some(
            r#"[
            {"cols":"a","ops":"Like","vals":null},
            {"cols":"b","ops":"LikeLeft","vals":true},
            {"cols":"c","ops":"LikeRight","vals":false},
            {"cols":"d","ops":"Like","vals":"x y"},
            {"cols":"e","ops":"LikeLeft","vals":[1,"a",null]},
            {"cols":"f","ops":"LikeRight","vals":{"k":"v","a":[true]}},
            {"cols":"g","ops":"Like","vals":-1.5},
            {"cols":"h","ops":"LikeLeft"}
        ]"#,
        ),
        None,
    );
    let (conds, vals, next) = page.filters();
    assert_eq!(
        conds,
        vec![
            "a LIKE $1", "b LIKE $2", "c LIKE $3", "d LIKE $4", "e LIKE $5", "f LIKE $6",
            "g LIKE $7", "h LIKE $8"
        ]
    );
    assert_eq!(
        vals,
        vec![
            text("%NULL%"),
            text("%true"),
            text("false%"),
            text("%x y%"),
            text("%[1,\"a\",null]"),
            text("{\"a\":[true],\"k\":\"v\"}%"),
            text("%-1.5%"),
            text("%NULL"),
        ]
    );
    assert_eq!(next, 9);
}

#[test]
fn comparisons_pass_the_value_through() {
    let page = with_query(
        Some(
            r#"[
            {"cols":"age","ops":"Gt","vals":18},
            {"cols":"age","ops":"Lt","vals":65.5},
            {"cols":"tags","ops":"Eq","vals":["a",{"b":null}]},
            {"cols":"gone","ops":"Eq"}
        ]"#,
        ),
        None,
    );
    let (conds, vals, next) = page.filters();
    assert_eq!(conds, vec!["age > $1", "age < $2", "tags = $3", "gone = $4"]);
    assert_eq!(
        vals,
        vec![
            Json::Number("18".to_string()),
            Json::Number("65.5".to_string()),
            Json::Array(vec![
                text("a"),
                Json::Object(vec![("b".to_string(), Json::Null)])
            ]),
            Json::Null,
        ]
    );
    assert_eq!(next, 5);
}

#[test]
fn unknown_operators_take_no_index() {
    let page = with_query(
        Some(
            r#"[
            {"cols":"a","ops":"Between","vals":1},
            {"cols":"b","ops":"Eq","vals":2},
            {"cols":"c","vals":3},
            {"cols":"d","ops":7,"vals":3},
            "loose",
            {"cols":"e","ops":"Gt","vals":4},
            {"cols":"f","ops":"eq","vals":5}
        ]"#,
        ),
        None,
    );
    let (conds, vals, next) = page.filters();
    assert_eq!(conds, vec!["b = $1", "e > $2"]);
    assert_eq!(
        vals,
        vec![Json::Number("2".to_string()), Json::Number("4".to_string())]
    );
    assert_eq!(next, 3);
}

#[test]
fn index_runs_past_nine() {
    let entry = r#"{"cols":"c","ops":"Eq","vals":0}"#;
    let list = format!("[{}]", vec![entry; 12].join(","));
    let page = with_query(Some(&list), None);
    let (conds, vals, next) = page.filters();
    assert_eq!(conds.len(), 12);
    assert_eq!(vals.len(), 12);
    assert_eq!(conds[8], "c = $9");
    assert_eq!(conds[9], "c = $10");
    assert_eq!(conds[11], "c = $12");
    assert_eq!(next, 13);
}

#[test]
fn malformed_filters_are_an_empty_list() {
    for raw in [
        None,
        Some(""),
        Some("not json"),
        Some("[{\"cols\":"),
        Some("{\"cols\":\"a\",\"ops\":\"Eq\",\"vals\":1}"),
        Some("42"),
        Some("null"),
        Some("[]"),
    ] {
        let page = with_query(raw, None);
        let (conds, vals, next) = page.filters();
        assert!(conds.is_empty());
        assert!(vals.is_empty());
        assert_eq!(next, 1);
    }
}

#[test]
fn missing_column_is_empty() {
    let page = with_query(Some(r#"[{"ops":"Eq","vals":1},{"cols":5,"ops":"Lt","vals":2}]"#), None);
    let (conds, _, next) = page.filters();
    assert_eq!(conds, vec![" = $1", " < $2"]);
    assert_eq!(next, 3);
}

#[test]
fn filter_operators_by_name() {
    assert_eq!(filter_op_of("Gt"), FilterOp::Gt);
    assert_eq!(filter_op_of("Lt"), FilterOp::Lt);
    assert_eq!(filter_op_of("Like"), FilterOp::Like);
    assert_eq!(filter_op_of("LikeLeft"), FilterOp::LikeLeft);
    assert_eq!(filter_op_of("LikeRight"), FilterOp::LikeRight);
    assert_eq!(filter_op_of("Eq"), FilterOp::Eq);
    assert_eq!(filter_op_of("EQ"), FilterOp::Unknown);
    assert_eq!(filter_op_of(""), FilterOp::Unknown);
    assert_eq!(order_op_of("Asc"), OrderOp::Asc);
    assert_eq!(order_op_of("Desc"), OrderOp::Desc);
    assert_eq!(order_op_of("desc"), OrderOp::Unknown);
}

#[test]
fn compile_filters_on_values() {
    let filters = vec![
        Filter { cols: "a b".to_string(), ops: FilterOp::Like, vals: Json::Bool(true) },
        Filter { cols: "x".to_string(), ops: FilterOp::Unknown, vals: Json::Null },
        Filter { cols: "t.c".to_string(), ops: FilterOp::Lt, vals: Json::Number("3".to_string()) },
    ];
    let (conds, vals, next) = compile_filters(&filters);
    assert_eq!(conds, vec!["ab LIKE $1", "t.c < $2"]);
    assert_eq!(vals, vec![text("%true%"), Json::Number("3".to_string())]);
    assert_eq!(next, 3);
    assert_eq!(filters[0].predicate(120), "ab LIKE $120");
    assert_eq!(filters[2].predicate(0), "t.c < $0");
    assert_eq!(filters[2].bound_value(), Json::Number("3".to_string()));
}

#[test]
fn decode_filters_reads_entries() {
    let value = Json::parse(r#"[{"cols":"n","ops":"Gt","vals":{"a":1},"more":1}, 3]"#).unwrap();
    let filters = decode_filters(&value);
    assert_eq!(
        filters,
        vec![
            Filter {
                cols: "n".to_string(),
                ops: FilterOp::Gt,
                vals: Json::Object(vec![("a".to_string(), Json::Number("1".to_string()))]),
            },
            Filter { cols: String::new(), ops: FilterOp::Unknown, vals: Json::Null },
        ]
    );
    assert!(decode_filters(&Json::Null).is_empty());
    assert_eq!(parse_filters(&Some(r#"[{"cols":"n"}]"#.to_string())).len(), 1);
    assert!(parse_filters(&None).is_empty());
}

#[test]
fn default_order_when_none_is_given() {
    assert_eq!(with_query(None, None).orders("id DESC"), "ORDER BY id DESC");
    assert_eq!(with_query(None, Some("[]")).orders("id DESC"), "ORDER BY id DESC");
    assert_eq!(with_query(None, Some("oops")).orders("id DESC"), "ORDER BY id DESC");
    assert_eq!(with_query(None, Some("{}")).orders("name ASC"), "ORDER BY name ASC");
    assert_eq!(
        with_query(None, Some(r#"[{"cols":"age","ops":"Sideways"}]"#)).orders("id DESC"),
        "ORDER BY id DESC"
    );
}

#[test]
fn orders_are_joined() {
    assert_eq!(
        with_query(None, Some(r#"[{"cols":"age","ops":"Desc"}]"#)).orders("id DESC"),
        "ORDER BY age DESC"
    );
    assert_eq!(
        with_query(
            None,
            Some(r#"[{"cols":"age","ops":"Desc"},{"cols":"u.name;--","ops":"Asc"},{"cols":"z"},{"cols":"id","ops":"Asc"}]"#)
        )
        .orders("id DESC"),
        "ORDER BY age DESC, u.name ASC, id ASC"
    );
}

#[test]
fn compile_orders_on_values() {
    let orders = vec![
        Order { cols: "a".to_string(), ops: OrderOp::Asc },
        Order { cols: "b".to_string(), ops: OrderOp::Unknown },
        Order { cols: "c d".to_string(), ops: OrderOp::Desc },
    ];
    assert_eq!(compile_orders(&orders, "id"), "ORDER BY a ASC, cd DESC");
    assert_eq!(compile_orders(&Vec::new(), "id"), "ORDER BY id");
    assert_eq!(orders[2].clause(), "cd DESC");
    let value = Json::parse(r#"[{"cols":"a","ops":"Asc"},{"ops":"Desc"}]"#).unwrap();
    assert_eq!(
        decode_orders(&value),
        vec![
            Order { cols: "a".to_string(), ops: OrderOp::Asc },
            Order { cols: String::new(), ops: OrderOp::Desc },
        ]
    );
    assert_eq!(parse_orders(&Some("[1,2]".to_string())).len(), 2);
}
