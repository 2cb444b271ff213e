use kqr::names::{safe_segment, sql_table_name};

#[test]
fn sql_table_name_preserves_valid() {
    assert_eq!(sql_table_name("orders"), ("orders".to_string(), false));
    assert_eq!(
        sql_table_name("ord_42_v2"),
        ("ord_42_v2".to_string(), false)
    );
}

#[test]
fn sql_table_name_replaces_dashes() {
    assert_eq!(
        sql_table_name("user-events"),
        ("user_events".to_string(), true)
    );
}

#[test]
fn sql_table_name_replaces_dots_and_slashes() {
    assert_eq!(
        sql_table_name("svc.order/v1"),
        ("svc_order_v1".to_string(), true)
    );
}

#[test]
fn sql_table_name_handles_leading_digit() {
    let (n, changed) = sql_table_name("9lives");
    assert_eq!(n, "_9lives");
    assert!(changed);
}

#[test]
fn safe_segment_replaces_path_chars() {
    assert_eq!(safe_segment("ord/v1"), "ord_v1");
    assert_eq!(safe_segment("ord:test"), "ord_test");
    assert_eq!(safe_segment("user-events"), "user-events");
}

// Further cases.

#[test]
fn sql_table_name_edge_cases() {
    assert_eq!(sql_table_name(""), ("_".to_string(), true));
    assert_eq!(sql_table_name("-x"), ("_x".to_string(), true));
    assert_eq!(sql_table_name("_ok"), ("_ok".to_string(), false));
    assert_eq!(sql_table_name("café"), ("caf__".to_string(), true));
    assert_eq!(sql_table_name("é"), ("__".to_string(), true));
    assert_eq!(sql_table_name("日本"), ("______".to_string(), true));
}

#[test]
fn sql_table_name_is_idempotent() {
    for t in ["user-events", "9lives", "", "a.b/c", "ok_1"] {
        let (once, _) = sql_table_name(t);
        let (twice, changed) = sql_table_name(&once);
        assert_eq!(once, twice);
        assert!(!changed);
    }
}

#[test]
fn safe_segment_edge_cases() {
    assert_eq!(safe_segment(""), "_");
    assert_eq!(safe_segment("a b\0c\\d"), "a_b_c_d");
    assert_eq!(safe_segment("数据.v1"), "数据.v1");
}

#[test]
fn sql_table_name_flag_means_changed() {
    for t in ["orders", "user-events", "café", "", "_x", "9lives", "ok_1"] {
        let (out, changed) = sql_table_name(t);
        assert_eq!(changed, out != t);
    }
}
