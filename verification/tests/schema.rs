//! Tests for the schema descriptor builder and the fixed engine
//! configuration.

use calmbench::schema::{engine_config, make_schema, FieldOption, FieldType, Tokenizer};

#[test]
fn schema_has_the_two_benchmark_fields() {
    let s = make_schema("calmcore-bench");
    assert_eq!(s.name, "calmcore-bench");
    assert_eq!(s.fields.len(), 2);

    assert_eq!(s.fields[0].name, "id");
    assert_eq!(s.fields[0].field_type, FieldType::Str);
    match &s.fields[0].option {
        FieldOption::Term { no_index, no_store } => {
            assert!(!*no_index && !*no_store);
        }
        other => panic!("id must be a term field, got {:?}", other),
    }

    assert_eq!(s.fields[1].name, "text");
    assert_eq!(s.fields[1].field_type, FieldType::Text);
    match &s.fields[1].option {
        FieldOption::Fulltext { tokenizer, filters, stopwords, synonyms, no_store } => {
            assert_eq!(*tokenizer, Tokenizer::Standard);
            assert!(filters.is_empty());
            assert!(stopwords.is_none());
            assert!(synonyms.is_none());
            assert!(*no_store);
        }
        other => panic!("text must be a fulltext field, got {:?}", other),
    }
}

#[test]
fn engine_config_keeps_the_benchmark_constants() {
    let c = engine_config(String::from("/tmp/bench-data"));
    assert_eq!(c.data_path, "/tmp/bench-data");
    assert_eq!(c.segment_max_size, 500_000);
    assert_eq!(c.flush_interval_secs, 300);
}
