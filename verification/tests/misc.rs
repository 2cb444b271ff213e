use std::path::PathBuf;

use arrow::datatypes::DataType;

use kqr::cache::ParquetCache;
use kqr::cli::{
    log_level, pick_format, require_profile, resolve_profile, resolve_window, Cli, OutputFormat,
    WindowArgs,
};
use kqr::config::{CacheConfig, Config, Profile};
use kqr::decode::{join_with_newlines, JsonDecoder, JsonKind};
use kqr::error::Error;
use kqr::names::safe_segment;
use kqr::output::{column_width, render_table, OutputFormat as ResultFormat};
use kqr::progress::{byte_unit_index, byte_unit_name, reporter_kind, ReporterKind};
use kqr::query::{format_explain, ExplainBatch};
use kqr::sample::hex_encode;
use kqr::source::RdkafkaSource;
use kqr::time::Span;
use kqr::topics::user_topics;
use kqr::window::TimeWindow;

#[test]
fn version_is_set() {
    assert!(!kqr::version().is_empty());
}

fn cache() -> ParquetCache {
    ParquetCache::new(PathBuf::from("/tmp/x"), Span::from_secs(3600))
}

#[test]
fn key_path_is_stable() {
    let cache = cache();
    let w = TimeWindow::Last(Span::from_secs(600));
    let p1 = cache.key_path("h:9092", "orders", &w);
    let p2 = cache.key_path("h:9092", "orders", &w);
    assert_eq!(p1, p2);
}

#[test]
fn key_path_changes_with_brokers() {
    let cache = cache();
    let w = TimeWindow::Last(Span::from_secs(600));
    let p1 = cache.key_path("a:9092", "orders", &w);
    let p2 = cache.key_path("b:9092", "orders", &w);
    assert_ne!(p1, p2);
}

#[test]
fn key_path_changes_with_window() {
    let cache = cache();
    let w1 = TimeWindow::Last(Span::from_secs(600));
    let w2 = TimeWindow::Last(Span::from_secs(900));
    let p1 = cache.key_path("h:9092", "orders", &w1);
    let p2 = cache.key_path("h:9092", "orders", &w2);
    assert_ne!(p1, p2);
}

#[test]
fn key_path_layout() {
    let cache = cache();
    let w = TimeWindow::Last(Span::from_secs(600));
    let key = cache.cache_key("h:9092", "ord/v1", &w);
    assert_eq!(key.broker_dir.len(), 16);
    assert!(key.broker_dir.chars().all(|c| c.is_ascii_hexdigit() && !c.is_ascii_uppercase()));
    assert_eq!(key.topic_dir, "ord_v1");
    assert!(key.file_name.ends_with(".parquet"));
    assert_eq!(key.file_name.len(), 16 + ".parquet".len());
    let p = cache.key_path("h:9092", "ord/v1", &w);
    assert_eq!(
        p,
        PathBuf::from("/tmp/x").join(&key.broker_dir).join("ord_v1").join(&key.file_name)
    );
    // SHA-256("abc") starts with ba7816bf8f01cfea
    assert_eq!(kqr::cache::short_hash("abc"), "ba7816bf8f01cfea");
}

#[test]
fn freshness_and_ttl() {
    let cache = cache();
    assert_eq!(cache.ttl(), Span::from_secs(3600));
    assert!(cache.is_fresh_age(Span::from_secs(3600)));
    assert!(!cache.is_fresh_age(Span { secs: 3600, nanos: 1 }));
}

#[test]
fn schema_inference_empty_errors() {
    let dec = JsonDecoder::new();
    let err = dec.infer_schema(&[]).unwrap_err();
    assert!(matches!(err, Error::DecodeSchemaInferEmpty));
}

#[test]
fn schema_inference_whitespace_only_errors() {
    let dec = JsonDecoder::new();
    let err = dec.infer_schema(&[b"   ".to_vec(), b"\n\n".to_vec()]).unwrap_err();
    assert!(matches!(err, Error::DecodeSchemaInferEmpty));
}

#[test]
fn schema_inference_basic_types() {
    let dec = JsonDecoder::new();
    let samples = vec![
        br#"{"id": 1, "price": 1.5, "side": "buy"}"#.to_vec(),
        br#"{"id": 2, "price": 2.5, "side": "sell"}"#.to_vec(),
    ];
    let schema = dec.infer_schema(&samples).unwrap();
    let id_field = schema.field_with_name("id").unwrap();
    let price_field = schema.field_with_name("price").unwrap();
    let side_field = schema.field_with_name("side").unwrap();
    assert!(matches!(id_field.data_type(), DataType::Int64));
    assert!(matches!(price_field.data_type(), DataType::Float64));
    assert!(matches!(side_field.data_type(), DataType::Utf8));
}

#[test]
fn schema_inference_reports_bad_json() {
    let dec = JsonDecoder::new();
    assert!(matches!(dec.infer_schema(&[b"{not json".to_vec()]), Err(Error::Arrow(_))));
}

#[test]
fn join_frames_each_message() {
    let out = join_with_newlines(&[b"{\"id\": 1}\n".to_vec(), b"{\"id\": 2}".to_vec(), Vec::new()]);
    assert_eq!(out, b"{\"id\": 1}\n{\"id\": 2}\n\n".to_vec());
}

#[test]
fn hex_is_lowercase_two_per_byte() {
    assert_eq!(hex_encode(&[0x00, 0x0f, 0xab, 0xff]), "000fabff");
    assert_eq!(hex_encode(&[]), "");
}

#[test]
fn explain_rendering() {
    let ok = ExplainBatch {
        num_columns: 2,
        plan_type: Some(vec![Some("logical_plan".to_string()), None]),
        plan: Some(vec![Some("Projection".to_string()), Some("Scan".to_string())]),
    };
    assert_eq!(
        format_explain(&[ok.clone()]).unwrap(),
        "=== logical_plan ===\nProjection\n\nScan\n\n"
    );
    let narrow = ExplainBatch { num_columns: 1, plan_type: None, plan: None };
    match format_explain(&[ok.clone(), narrow]).unwrap_err() {
        Error::Query(m) => assert_eq!(m, "EXPLAIN returned unexpected schema"),
        other => panic!("unexpected {:?}", other),
    }
    let bad_plan = ExplainBatch { num_columns: 2, plan_type: Some(vec![]), plan: None };
    match format_explain(&[bad_plan]).unwrap_err() {
        Error::Query(m) => assert_eq!(m, "EXPLAIN plan not Utf8"),
        other => panic!("unexpected {:?}", other),
    }
    assert_eq!(format_explain(&[]).unwrap(), "");
}

#[test]
fn missing_brokers_errors() {
    let p = Profile {
        brokers: "  ".to_string(),
        ..Profile::default()
    };
    match RdkafkaSource::new(&p, None, "kqr-throwaway") {
        Err(Error::KafkaBrokersMissing) => {}
        other => panic!("expected KafkaBrokersMissing, got {:?}", other.err()),
    }
}

#[test]
fn source_settings() {
    let p = Profile {
        brokers: " h:9092 ".to_string(),
        sasl_mechanism: Some("PLAIN".to_string()),
        sasl_username: Some("u".to_string()),
        sasl_password: Some("p".to_string()),
        ..Profile::default()
    };
    let s = RdkafkaSource::new(&p, None, "kqr-1").unwrap();
    let c = s.client_config();
    assert_eq!(c.get("bootstrap.servers"), Some("h:9092"));
    assert_eq!(c.get("group.id"), Some("kqr-1"));
    assert_eq!(c.get("enable.auto.commit"), Some("false"));
    assert_eq!(c.get("enable.auto.offset.store"), Some("false"));
    assert_eq!(c.get("security.protocol"), Some("SASL_PLAINTEXT"));
    assert!(!s.explicit_group);
    let g = RdkafkaSource::new(&Profile { brokers: "h".to_string(), ..Profile::default() }, Some("grp"), "kqr-1").unwrap();
    assert_eq!(g.client_config().get("group.id"), Some("grp"));
    assert_eq!(g.client_config().get("enable.auto.commit"), Some("true"));
    assert_eq!(g.client_config().get("enable.auto.offset.store"), None);
    assert_eq!(g.client_config().get("sasl.mechanism"), None);
    assert!(g.explicit_group);
}

#[test]
fn user_topics_hide_internal_and_sort() {
    let names: Vec<String> = ["orders", "__consumer_offsets", "bids", "_single", "Zeta", "bids"]
        .iter()
        .map(|s| s.to_string())
        .collect();
    assert_eq!(user_topics(&names), vec!["Zeta", "_single", "bids", "bids", "orders"]);
}

#[test]
fn cli_decisions() {
    assert_eq!(pick_format(OutputFormat::Table, true), ResultFormat::Table);
    assert_eq!(pick_format(OutputFormat::Table, false), ResultFormat::Csv);
    assert_eq!(pick_format(OutputFormat::Ndjson, false), ResultFormat::Ndjson);
    assert_eq!(log_level(0), "warn");
    assert_eq!(log_level(1), "info");
    assert_eq!(log_level(2), "debug");
    assert_eq!(log_level(9), "trace");
    assert!(matches!(require_profile(None, "topics"), Err(Error::ProfileRequired(ref c)) if c == "topics"));
    let w = resolve_window(&WindowArgs { last: Some("2h".to_string()), ..Default::default() }).unwrap();
    assert_eq!(w, TimeWindow::Last(Span::from_secs(7200)));
    assert!(matches!(kqr::cli::parse_progress_interval("5s"), Ok(d) if d == Span::from_secs(5)));
    assert!(matches!(kqr::cli::parse_progress_interval("x"), Err(Error::ProgressInterval(_, _))));
}

fn cli(brokers: Option<&str>, profile: Option<&str>, explicit_config: bool) -> Cli {
    Cli {
        profile: profile.map(|s| s.to_string()),
        config: if explicit_config { Some(PathBuf::from("c.toml")) } else { None },
        brokers: brokers.map(|s| s.to_string()),
        verbose: 0,
        command: None,
    }
}

fn cfg() -> Config {
    Config {
        default_profile: "x".to_string(),
        profiles: vec![(
            "x".to_string(),
            Profile { brokers: "x:9092".to_string(), sasl_username: Some("u".to_string()), ..Profile::default() },
        )],
        cache: CacheConfig::default(),
    }
}

#[test]
fn profile_resolution() {
    // --brokers overrides the profile's brokers but keeps the rest
    let p = resolve_profile(&cli(Some("b:1"), None, false), Some(cfg()), &[]).unwrap().unwrap();
    assert_eq!(p.brokers, "b:1");
    assert_eq!(p.sasl_username.as_deref(), Some("u"));
    // --brokers with an unknown profile falls back to the empty profile
    let p = resolve_profile(&cli(Some("b:1"), Some("nope"), false), Some(cfg()), &[]).unwrap().unwrap();
    assert_eq!(p.brokers, "b:1");
    assert!(p.sasl_username.is_none());
    // no --brokers: the profile is selected, errors surface
    let p = resolve_profile(&cli(None, None, false), Some(cfg()), &[]).unwrap().unwrap();
    assert_eq!(p.brokers, "x:9092");
    assert!(matches!(
        resolve_profile(&cli(None, Some("nope"), true), Some(cfg()), &[]),
        Err(Error::ConfigProfileMissing(_))
    ));
    // no config at all, or an empty default one: no profile
    assert!(resolve_profile(&cli(None, None, false), None, &[]).unwrap().is_none());
    assert!(resolve_profile(&cli(None, None, false), Some(Config::default()), &[]).unwrap().is_none());
    // an explicitly named but empty config still selects, and fails
    assert!(resolve_profile(&cli(None, None, true), Some(Config::default()), &[]).is_err());
    let _ = safe_segment("x");
}

#[test]
fn byte_units_step_at_powers_of_1024() {
    assert_eq!(byte_unit_index(0), 0);
    assert_eq!(byte_unit_index(1023), 0);
    assert_eq!(byte_unit_index(1024), 1);
    assert_eq!(byte_unit_index(1024 * 1024 - 1), 1);
    assert_eq!(byte_unit_index(1024 * 1024), 2);
    assert_eq!(byte_unit_index(1 << 30), 3);
    assert_eq!(byte_unit_index(1 << 40), 4);
    assert_eq!(byte_unit_index(u64::MAX), 4);
    assert_eq!(byte_unit_name(0), "B");
    assert_eq!(byte_unit_name(2), "MB");
    assert_eq!(byte_unit_name(4), "TB");
}

#[test]
fn column_width_is_the_widest_cell_or_the_default() {
    assert_eq!(column_width(&vec![], 4), 4);
    assert_eq!(column_width(&vec![2], 4), 2);
    assert_eq!(column_width(&vec![3, 11, 7], 8), 11);
    assert_eq!(column_width(&vec![5, 5], 0), 5);
}

#[test]
fn entries_older_than_a_tiny_ttl_are_stale() {
    let cache = ParquetCache::new(PathBuf::from("/tmp/kqr-cache"), Span { secs: 0, nanos: 1 });
    assert!(!cache.is_fresh_age(Span { secs: 0, nanos: 2_000_000 }));
    assert!(cache.is_fresh_age(Span { secs: 0, nanos: 0 }));
}

#[test]
fn reporter_follows_flag_and_terminal() {
    assert_eq!(reporter_kind(false, true), ReporterKind::Silent);
    assert_eq!(reporter_kind(false, false), ReporterKind::Silent);
    assert_eq!(reporter_kind(true, true), ReporterKind::Spinner);
    assert_eq!(reporter_kind(true, false), ReporterKind::Periodic);
}

#[test]
fn message_size_counts_key_and_value() {
    let with_key = kqr::consume::RawMessage {
        partition: 0,
        offset: 7,
        timestamp_ms: None,
        key: Some(b"id-1".to_vec()),
        value: b"{\"a\":1}".to_vec(),
    };
    assert_eq!(with_key.byte_size(), 11);
    let without_key = kqr::consume::RawMessage { key: None, ..with_key.clone() };
    assert_eq!(without_key.byte_size(), 7);
}

#[test]
fn inferred_fields_as_plain_values() {
    let dec = JsonDecoder::new();
    let samples = vec![
        br#"{"id": 1, "price": 1.5, "side": "buy"}"#.to_vec(),
        br#"{"id": 2, "price": 2.5, "side": "sell"}"#.to_vec(),
    ];
    let fields = dec.infer_fields(&samples).unwrap();
    let kinds: Vec<(String, JsonKind)> = fields.iter().map(|f| (f.name.clone(), f.kind)).collect();
    assert_eq!(
        kinds,
        vec![
            ("id".to_string(), JsonKind::Int64),
            ("price".to_string(), JsonKind::Float64),
            ("side".to_string(), JsonKind::Utf8),
        ]
    );
    assert!(matches!(dec.infer_fields(&[b"  ".to_vec()]), Err(Error::DecodeSchemaInferEmpty)));
}


#[test]
fn decode_batch_round_trip() {
    let dec = JsonDecoder::new();
    let samples = vec![
        br#"{"id": 1, "side": "buy"}"#.to_vec(),
        br#"{"id": 2, "side": "sell"}"#.to_vec(),
        br#"{"id": 3, "side": "buy"}"#.to_vec(),
    ];
    let schema = dec.infer_schema(&samples).unwrap();
    let batch = dec.decode_batch(schema.clone(), &samples).unwrap().batch;
    assert_eq!(batch.num_rows(), 3);
    assert_eq!(batch.schema().fields().len(), schema.fields().len());
}

#[test]
fn decode_batch_empty_returns_empty_batch() {
    let dec = JsonDecoder::new();
    let samples = vec![br#"{"id": 1}"#.to_vec()];
    let schema = dec.infer_schema(&samples).unwrap();
    let batch = dec.decode_batch(schema.clone(), &[]).unwrap().batch;
    assert_eq!(batch.num_rows(), 0);
}

#[test]
fn decode_batch_handles_already_newline_terminated() {
    let dec = JsonDecoder::new();
    let samples = vec![b"{\"id\": 1}\n".to_vec(), b"{\"id\": 2}\n".to_vec()];
    let schema = dec.infer_schema(&samples).unwrap();
    let batch = dec.decode_batch(schema, &samples).unwrap().batch;
    assert_eq!(batch.num_rows(), 2);
}

#[test]
fn table_emits_unicode_borders() {
    let header = vec!["id".to_string(), "side".to_string()];
    let rows = vec![
        vec![Some("1".to_string()), Some("buy".to_string())],
        vec![Some("2".to_string()), None],
    ];
    let s = render_table(Some(&header), &rows);
    assert!(s.contains("id"));
    assert!(s.contains("side"));
    assert!(s.contains("buy"));
    assert!(s.contains('│') || s.contains('─'));
    assert!(s.ends_with('\n'));
}

#[test]
fn empty_table_says_so() {
    assert_eq!(render_table(None, &vec![]), "(empty result)\n");
}

#[test]
fn cache_lookup_decisions() {
    let cache = ParquetCache::new(PathBuf::from("/tmp/kqr-cache"), Span::from_secs(60));
    assert_eq!(cache.lookup(None), kqr::cache::CacheLookup::Miss);
    assert_eq!(cache.lookup(Some(Span::from_secs(60))), kqr::cache::CacheLookup::Hit);
    assert_eq!(cache.lookup(Some(Span { secs: 60, nanos: 1 })), kqr::cache::CacheLookup::Stale);
    assert!(ParquetCache::store_after_fetch(1));
    assert!(!ParquetCache::store_after_fetch(0));
}

#[test]
fn schema_lines_lay_out_the_fields() {
    let fields = vec![
        ("id".to_string(), "Int64".to_string(), true),
        ("price_eur".to_string(), "Float64".to_string(), false),
    ];
    let lines = kqr::output::schema_lines(2, &fields);
    assert_eq!(
        lines,
        vec![
            "inferred from 2 samples:".to_string(),
            "  field      type     nullable".to_string(),
            format!("  {}", "-".repeat(9 + 7 + 12)),
            "  id         Int64    yes".to_string(),
            "  price_eur  Float64  no".to_string(),
        ]
    );
    let empty = kqr::output::schema_lines(0, &vec![]);
    assert_eq!(empty[1], "  field  type      nullable");
    assert_eq!(empty[2], format!("  {}", "-".repeat(4 + 8 + 12)));
}

#[test]
fn payloads_are_text_or_hex() {
    assert_eq!(kqr::sample::payload_text(b"{\"a\":1}"), kqr::sample::PayloadText::Text("{\"a\":1}".to_string()));
    assert_eq!(kqr::sample::payload_text(&[0xff, 0x00, 0x1f]), kqr::sample::PayloadText::Hex("ff001f".to_string()));
    assert!(matches!(kqr::cli::require_topics(&vec![]), Err(Error::TopicRequired)));
    assert!(kqr::cli::require_topics(&vec!["t".to_string()]).is_ok());
}

#[test]
fn periodic_lines_at_most_once_a_second() {
    let mut c = kqr::progress::ProgressClock::new(Span { secs: 0, nanos: 200_000_000 });
    assert!(!c.record_at(Span { secs: 0, nanos: 500_000_000 }));
    assert!(c.record_at(Span::from_secs(1)));
    assert_eq!(c.last_emit, Span::from_secs(1));
    assert!(!c.record_at(Span { secs: 1, nanos: 900_000_000 }));
    assert!(c.record_at(Span::from_secs(2)));
}
