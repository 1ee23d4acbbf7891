use playlist_core::smart::{
    build_where, capped_count, order_clause, page_window, validate_rules, NumberReading,
    RuleValue, SmartRule, SmartRules, SmartSort, SqlParam,
};

fn text(s: &str) -> Option<RuleValue> {
    Some(RuleValue::Text {
        text: s.to_string(),
        reading: NumberReading::Invalid(format!("Rule value '{}' is not a number", s)),
    })
}

fn number(n: i64) -> Option<RuleValue> {
    Some(RuleValue::Number { shown: n.to_string(), reading: NumberReading::Whole(n) })
}

fn rule(field: &str, op: &str, value: Option<RuleValue>) -> SmartRule {
    SmartRule { field: field.to_string(), op: op.to_string(), value }
}

fn rules(mode: &str, list: Vec<SmartRule>) -> SmartRules {
    SmartRules { match_mode: mode.to_string(), rules: list, sort: None, limit: None }
}

fn sample(mode: &str) -> SmartRules {
    let mut r = rules(
        mode,
        vec![
            rule("genre", "contains", text("rock")),
            rule("year", "gt", number(1999)),
            rule("last_played_at", "in_last_days", number(30)),
            rule("artist", "is_null", None),
        ],
    );
    r.sort = Some(SmartSort { field: "play_count".to_string(), dir: "desc".to_string() });
    r.limit = Some(50);
    r
}

#[test]
fn builds_parameterized_where_for_valid_ops() {
    let rules = sample("all");
    let (where_sql, params) = build_where(&rules).expect("builder should accept valid rules");
    assert_eq!(params.len(), 3);
    assert!(where_sql.contains("t.genre LIKE '%' || ?1 || '%'"));
    assert!(where_sql.contains("t.year > ?2"));
    assert!(where_sql.contains("t.last_played_at >= datetime('now', ?3)"));
    assert!(where_sql.contains("(a.name IS NULL OR a.name = '')"));
    assert!(where_sql.contains(" AND "));
    assert!(!where_sql.contains("rock"));
    assert!(!where_sql.contains("1999"));

    let any_rules = sample("any");
    let (where_any, _) = build_where(&any_rules).unwrap();
    assert!(where_any.contains(" OR "));
    assert!(!where_any.contains(" AND "));
}

#[test]
fn rejects_unknown_fields_ops_and_bad_values() {
    let bad_field = rules("all", vec![rule("password", "equals", text("x"))]);
    assert!(build_where(&bad_field).unwrap_err().contains("Unknown rule field"));

    let bad_op = rules("all", vec![rule("title", "regex", text("x"))]);
    assert!(build_where(&bad_op).unwrap_err().contains("Unknown rule op"));

    let bad_match = rules("some", vec![]);
    assert!(build_where(&bad_match).unwrap_err().contains("Unknown match mode"));

    let bad_kind = rules("all", vec![rule("year", "contains", text("19"))]);
    assert!(build_where(&bad_kind).is_err());

    let bad_days = rules("all", vec![rule("date_added", "in_last_days", text("soon"))]);
    assert!(build_where(&bad_days).is_err());
}

#[test]
fn exact_sql_and_params() {
    let r = sample("all");
    let (where_sql, params) = build_where(&r).unwrap();
    assert_eq!(
        where_sql,
        "t.genre LIKE '%' || ?1 || '%' AND t.year > ?2 AND t.last_played_at >= datetime('now', ?3) AND (a.name IS NULL OR a.name = '')"
    );
    match &params[0] {
        SqlParam::Text(s) => assert_eq!(s, "rock"),
        _ => panic!("text expected"),
    }
    match &params[1] {
        SqlParam::Integer(n) => assert_eq!(*n, 1999),
        _ => panic!("integer expected"),
    }
    match &params[2] {
        SqlParam::Text(s) => assert_eq!(s, "-30 days"),
        _ => panic!("text expected"),
    }
    let empty = rules("any", vec![]);
    let (w, p) = build_where(&empty).unwrap();
    assert_eq!(w, "1=1");
    assert!(p.is_empty());
    assert_eq!(validate_rules(&r), Ok(()));
}

#[test]
fn every_error_message() {
    let e = build_where(&rules("all", vec![rule("title", "contains", None)])).unwrap_err();
    assert_eq!(e, "Rule value must be a string or number");
    let e = build_where(&rules("all", vec![rule("year", "equals", None)])).unwrap_err();
    assert_eq!(e, "Rule value must be a number");
    let e = build_where(&rules("all", vec![rule("year", "equals", text("abc"))])).unwrap_err();
    assert_eq!(e, "Rule value 'abc' is not a number");
    let e = build_where(&rules("all", vec![rule("title", "in_last_days", number(3))])).unwrap_err();
    assert_eq!(e, "Op 'in_last_days' requires a date field, got: title");
    let e = build_where(&rules("all", vec![rule("year", "contains", text("19"))])).unwrap_err();
    assert_eq!(e, "Op 'contains' requires a text field, got: year");
    let e = build_where(&rules("all", vec![rule("added", "not_in_last_days", number(100001))])).unwrap_err();
    assert_eq!(e, "Days value must be between 0 and 100000");
    let e = validate_rules(&rules("xor", vec![])).unwrap_err();
    assert_eq!(e, "Unknown match mode: xor");
    let frac = Some(RuleValue::Number {
        shown: "2.5".to_string(),
        reading: NumberReading::Fraction { truncated: 2, in_day_range: true },
    });
    let (w, p) = build_where(&rules("all", vec![
        rule("play_count", "lt", frac),
        rule("title", "not_equals", number(7)),
        rule("created_at", "not_in_last_days", number(0)),
    ])).unwrap();
    assert_eq!(
        w,
        "t.play_count < ?1 AND (t.title IS NULL OR t.title <> ?2) AND (t.date_added IS NULL OR t.date_added < datetime('now', ?3))"
    );
    match &p[0] {
        SqlParam::Real(k) => assert_eq!(*k, 0),
        _ => panic!("real expected"),
    }
    match &p[1] {
        SqlParam::Text(s) => assert_eq!(s, "7"),
        _ => panic!("text expected"),
    }
}

#[test]
fn sort_limit_and_paging() {
    assert_eq!(order_clause(&None), Ok("t.date_added DESC".to_string()));
    let s = Some(SmartSort { field: "title".to_string(), dir: "asc".to_string() });
    assert_eq!(order_clause(&s), Ok("t.title ASC".to_string()));
    let bad = Some(SmartSort { field: "title".to_string(), dir: "up".to_string() });
    assert_eq!(order_clause(&bad), Err("Unknown sort direction: up".to_string()));
    let badf = Some(SmartSort { field: "x".to_string(), dir: "asc".to_string() });
    assert_eq!(order_clause(&badf), Err("Unknown sort field: x".to_string()));
    assert_eq!(capped_count(10, Some(2)), 2);
    assert_eq!(capped_count(10, Some(-1)), 10);
    assert_eq!(capped_count(10, None), 10);
    assert_eq!(page_window(10, -5, 100), (0, 10));
    assert_eq!(page_window(10, 8, 100), (8, 2));
    assert_eq!(page_window(10, 12, 5), (12, 0));
    assert_eq!(page_window(10, 2, -3), (2, 0));
}

#[test]
fn values_change_only_the_parameters() {
    let a = rules("all", vec![rule("genre", "contains", text("rock")), rule("year", "gt", number(1999))]);
    let b = rules(
        "all",
        vec![rule("genre", "contains", text("'; DROP TABLE tracks; --")), rule("year", "gt", number(5))],
    );
    let (wa, pa) = build_where(&a).unwrap();
    let (wb, pb) = build_where(&b).unwrap();
    assert_eq!(wa, wb);
    assert_eq!(pa.len(), pb.len());
    assert!(!wb.contains("DROP"));
}
