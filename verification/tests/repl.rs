use kqr::output::OutputFormat;
use kqr::repl::{
    classify_line, decimal_string, handle_meta, on_off, parse_format, parse_on_off, sort_tables,
    table_lines, LineAction, MetaAction, SessionFlags,
};

#[test]
fn parse_on_off_recognised() {
    assert_eq!(parse_on_off(Some("on")), Some(true));
    assert_eq!(parse_on_off(Some("off")), Some(false));
    assert_eq!(parse_on_off(Some("YES")), Some(true));
    assert_eq!(parse_on_off(Some("nope")), None);
    assert_eq!(parse_on_off(None), None);
}

#[test]
fn parse_format_recognised() {
    assert!(matches!(parse_format("table"), Some(OutputFormat::Table)));
    assert!(matches!(parse_format("json"), Some(OutputFormat::Json)));
    assert!(matches!(parse_format("CSV"), Some(OutputFormat::Csv)));
    assert!(parse_format("ascii").is_none());
}

// Further cases.

#[test]
fn on_off_round_trip() {
    for b in [true, false] {
        assert_eq!(parse_on_off(Some(on_off(b))), Some(b));
    }
    assert_eq!(parse_on_off(Some("0")), Some(false));
    assert_eq!(parse_on_off(Some("True")), Some(true));
    assert_eq!(parse_format("NdJson"), Some(OutputFormat::Ndjson));
}

fn session() -> SessionFlags {
    SessionFlags { format: OutputFormat::Table, timing: false, reuse: false }
}

#[test]
fn meta_commands() {
    let mut s = session();
    assert_eq!(handle_meta("q", &mut s), MetaAction::Quit);
    assert_eq!(handle_meta("  exit  ", &mut s), MetaAction::Quit);
    assert_eq!(handle_meta("d", &mut s), MetaAction::ListTables);
    assert_eq!(handle_meta("d  orders extra", &mut s), MetaAction::DescribeTable("orders".to_string()));
    assert_eq!(handle_meta("format", &mut s), MetaAction::FormatShow);
    assert_eq!(handle_meta("format JSON", &mut s), MetaAction::FormatSet("JSON".to_string()));
    assert_eq!(s.format, OutputFormat::Json);
    assert_eq!(handle_meta("format ascii", &mut s), MetaAction::FormatUnknown("ascii".to_string()));
    assert_eq!(s.format, OutputFormat::Json);
    assert_eq!(handle_meta("timing", &mut s), MetaAction::TimingSet(true));
    assert_eq!(handle_meta("timing off", &mut s), MetaAction::TimingSet(false));
    assert_eq!(handle_meta("timing maybe", &mut s), MetaAction::TimingSet(true));
    assert!(s.timing);
    assert_eq!(handle_meta("reuse on", &mut s), MetaAction::ReuseSet(true));
    assert!(s.reuse);
    assert_eq!(handle_meta("?", &mut s), MetaAction::Help);
    assert_eq!(handle_meta("", &mut s), MetaAction::Unknown(String::new()));
    assert_eq!(handle_meta("Q", &mut s), MetaAction::Unknown("Q".to_string()));
}

#[test]
fn blank_lines_are_skipped() {
    assert_eq!(classify_line(""), LineAction::Skip);
    assert_eq!(classify_line(" \t \n"), LineAction::Skip);
}

#[test]
fn backslash_lines_are_meta_commands() {
    assert_eq!(classify_line("  \\d orders  "), LineAction::Meta("d orders".to_string()));
    assert_eq!(classify_line("\\q"), LineAction::Meta("q".to_string()));
    assert_eq!(classify_line("\\"), LineAction::Meta(String::new()));
}

#[test]
fn other_lines_are_trimmed_queries() {
    assert_eq!(
        classify_line("\tselect * from t limit 1  \n"),
        LineAction::Query("select * from t limit 1".to_string())
    );
    assert_eq!(classify_line("x \\d"), LineAction::Query("x \\d".to_string()));
}

#[test]
fn table_listing_is_sorted_with_column_counts() {
    let tables = vec![("orders".to_string(), 4), ("bids".to_string(), 12), ("a_b".to_string(), 0)];
    let lines = table_lines(&sort_tables(&tables));
    assert_eq!(lines, vec!["a_b\t0 cols", "bids\t12 cols", "orders\t4 cols"]);
    assert_eq!(table_lines(&sort_tables(&vec![])), vec!["(no tables)"]);
    assert_eq!(decimal_string(1234567), "1234567");
}
