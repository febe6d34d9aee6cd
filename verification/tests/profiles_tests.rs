use insighta::json::{JsonNumber, JsonValue};
use insighta::profiles::{
    created_table, detail_table, export_error_message, export_filename, export_query,
    export_success_message, list_query, listing, profile_path, profile_row, search_query,
    str_val, ListOptions, Listing,
};

fn s(text: &str) -> JsonValue {
    JsonValue::Str(text.to_string())
}

fn n(v: u64) -> JsonValue {
    JsonValue::Number(JsonNumber::PosInt(v))
}

fn obj(entries: Vec<(&str, JsonValue)>) -> JsonValue {
    JsonValue::Object {
        entries: entries.into_iter().map(|(k, v)| (k.to_string(), v)).collect(),
        text: String::from("{\"k\":1}"),
    }
}

fn pairs(v: &[(&str, &str)]) -> Vec<(String, String)> {
    v.iter().map(|(a, b)| (a.to_string(), b.to_string())).collect()
}

fn profile() -> JsonValue {
    obj(vec![
        ("id", s("0190-uuid")),
        ("name", s("Ada")),
        ("gender", s("female")),
        ("gender_probability", JsonValue::Number(JsonNumber::Float("0.98".into()))),
        ("age", n(36)),
        ("age_group", s("adult")),
        ("country_name", s("Nigeria")),
        ("country_id", s("NG")),
        ("country_probability", JsonValue::Null),
        ("created_at", s("2026-01-01T00:00:00Z")),
    ])
}

#[test]
fn list_query_orders_parameters() {
    let o = ListOptions {
        gender: Some("male".into()),
        country: Some("NG".into()),
        age_group: None,
        min_age: Some(25),
        max_age: None,
        sort_by: Some("age".into()),
        order: Some("desc".into()),
        page: 2,
        limit: 20,
    };
    assert_eq!(
        list_query(&o),
        pairs(&[
            ("page", "2"),
            ("limit", "20"),
            ("gender", "male"),
            ("country_id", "NG"),
            ("min_age", "25"),
            ("sort_by", "age"),
            ("order", "desc"),
        ])
    );
}

#[test]
fn search_and_export_queries() {
    assert_eq!(
        search_query("young males from nigeria", 1, 10),
        pairs(&[("q", "young males from nigeria"), ("page", "1"), ("limit", "10")])
    );
    assert_eq!(
        export_query("csv", &None, &None, &Some("adult".into()), Some(25), Some(40), &None, &None),
        pairs(&[("format", "csv"), ("age_group", "adult"), ("min_age", "25"), ("max_age", "40")])
    );
}

#[test]
fn cell_values() {
    let p = obj(vec![
        ("t", JsonValue::Bool(true)),
        ("f", JsonValue::Bool(false)),
        ("neg", JsonValue::Number(JsonNumber::NegInt(-3))),
        ("arr", JsonValue::Array { items: vec![n(1)], text: "[1]".into() }),
        ("o", obj(vec![])),
        ("null", JsonValue::Null),
    ]);
    assert_eq!(str_val(&p, "t"), "true");
    assert_eq!(str_val(&p, "f"), "false");
    assert_eq!(str_val(&p, "neg"), "-3");
    assert_eq!(str_val(&p, "arr"), "[1]");
    assert_eq!(str_val(&p, "o"), "{\"k\":1}");
    assert_eq!(str_val(&p, "null"), "-");
    assert_eq!(str_val(&p, "absent"), "-");
    assert_eq!(str_val(&s("not an object"), "t"), "-");
}

#[test]
fn listing_rows_and_summary() {
    let reply = obj(vec![
        ("data", JsonValue::Array { items: vec![profile()], text: String::new() }),
        ("total", n(2026)),
        ("total_pages", n(203)),
    ]);
    match listing(1, &reply) {
        Listing::Page { summary, table } => {
            assert_eq!(summary, "Showing page 1 of 203 (2026 total)");
            assert_eq!(table.headers, vec!["ID", "Name", "Gender", "Age", "Age Group", "Country", "Created At"]);
            assert_eq!(
                table.rows,
                vec![vec!["0190-uuid", "Ada", "female", "36", "adult", "Nigeria", "2026-01-01T00:00:00Z"]]
            );
        }
        Listing::Empty => panic!("expected a page"),
    }
    assert_eq!(profile_row(&profile())[3], "36");
}

#[test]
fn listing_defaults_and_empty() {
    let reply = obj(vec![("data", JsonValue::Array { items: vec![obj(vec![])], text: String::new() })]);
    match listing(3, &reply) {
        Listing::Page { summary, .. } => assert_eq!(summary, "Showing page 3 of 1 (0 total)"),
        Listing::Empty => panic!("expected a page"),
    }
    assert_eq!(listing(1, &obj(vec![])), Listing::Empty);
    let empty = obj(vec![("data", JsonValue::Array { items: vec![], text: "[]".into() })]);
    assert_eq!(listing(1, &empty), Listing::Empty);
    assert_eq!(listing(1, &obj(vec![("data", s("x"))])), Listing::Empty);
}

#[test]
fn detail_and_created_tables() {
    let reply = obj(vec![("data", profile())]);
    let t = detail_table(&reply);
    assert_eq!(t.headers, vec!["Field", "Value"]);
    assert_eq!(t.rows.len(), 10);
    assert_eq!(t.rows[3], vec!["Gender Probability", "0.98"]);
    assert_eq!(t.rows[8], vec!["Country Probability", "-"]);
    assert_eq!(t.rows[9], vec!["Created At", "2026-01-01T00:00:00Z"]);
    let c = created_table(&reply);
    assert_eq!(c.rows.len(), 5);
    assert_eq!(c.rows[4], vec!["Country", "Nigeria"]);
    assert_eq!(detail_table(&obj(vec![])).rows[0], vec!["ID", "-"]);
}

#[test]
fn export_file_names() {
    assert_eq!(export_filename(None), "profiles_export.csv");
    assert_eq!(export_filename(Some("attachment")), "profiles_export.csv");
    assert_eq!(export_filename(Some("attachment; filename=\"profiles_2026.csv\"")), "profiles_2026.csv");
    assert_eq!(export_filename(Some("attachment; filename=a.csv")), "a.csv");
    assert_eq!(export_filename(Some("filename=\"x\"; filename=y")), "x\"; ");
    assert_eq!(export_filename(Some("filename=\"\"")), "");
}

#[test]
fn export_messages_and_paths() {
    assert_eq!(export_error_message(&None), "Export failed");
    assert_eq!(export_error_message(&Some(obj(vec![("message", s("Forbidden"))]))), "Forbidden");
    assert_eq!(export_success_message("a.csv"), "Exported to a.csv");
    assert_eq!(profile_path("abc"), "/api/profiles/abc");
}

#[test]
fn export_sends_list_filters_without_paging() {
    let o = ListOptions {
        gender: Some("female".into()),
        country: None,
        age_group: Some("senior".into()),
        min_age: None,
        max_age: Some(90),
        sort_by: None,
        order: Some("asc".into()),
        page: 7,
        limit: 50,
    };
    let list = list_query(&o);
    let export = export_query("csv", &o.gender, &o.country, &o.age_group, o.min_age, o.max_age, &o.sort_by, &o.order);
    assert_eq!(list[2..], export[1..]);
    assert_eq!(export[0], ("format".to_string(), "csv".to_string()));
}
