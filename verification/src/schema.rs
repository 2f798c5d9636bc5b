//! The schema descriptor builder: the minimal two-field schema handed to
//! the engine when the benchmark's index space is created, and the fixed
//! engine configuration the benchmark runs with.
//!
//! The descriptors here are plain values; the driver converts them into
//! the engine's own schema and configuration types at the boundary.

use vstd::prelude::*;
use vstd::string::StringExecFns;

verus! {

/// The value type of a schema field.
#[derive(Clone, Copy, Debug, PartialEq, Eq, Structural)]
pub enum FieldType {
    Str,
    Text,
}

/// How a fulltext field is tokenized.
#[derive(Clone, Copy, Debug, PartialEq, Eq, Structural)]
pub enum Tokenizer {
    Standard,
}

/// How a field is indexed: as a whole term, or analysed as fulltext.
#[derive(Debug)]
pub enum FieldOption {
    /// An identifier-style field indexed as one term.
    Term { no_index: bool, no_store: bool },
    /// A tokenized fulltext field.
    Fulltext {
        tokenizer: Tokenizer,
        filters: Vec<String>,
        stopwords: Option<String>,
        synonyms: Option<String>,
        no_store: bool,
    },
}

/// One field descriptor: name, value type, and indexing options.
#[derive(Debug)]
pub struct SchemaField {
    pub name: String,
    pub field_type: FieldType,
    pub option: FieldOption,
}

/// A named, ordered list of field descriptors, constructed once per run
/// and handed to the engine only at space creation.
#[derive(Debug)]
pub struct Schema {
    pub name: String,
    pub fields: Vec<SchemaField>,
}

/// Builds the benchmark's schema: an indexed-but-not-fulltext `id` field
/// (stored, empty for every inserted document) and a tokenized `text`
/// field holding each document's whole line (analysed with the standard
/// tokenizer, not stored).
pub fn make_schema(schema_name: &str) -> (s: Schema)
    ensures
        s.name@ == schema_name@,
        s.fields@.len() == 2,
        s.fields@[0].name@ == "id"@,
        s.fields@[0].field_type == FieldType::Str,
        s.fields@[0].option == (FieldOption::Term { no_index: false, no_store: false }),
        s.fields@[1].name@ == "text"@,
        s.fields@[1].field_type == FieldType::Text,
        (s.fields@[1].option matches FieldOption::Fulltext {
            tokenizer,
            filters,
            stopwords,
            synonyms,
            no_store,
        } && tokenizer == Tokenizer::Standard && filters@.len() == 0 && stopwords is None
            && synonyms is None && no_store),
{
    let id_field = SchemaField {
        name: String::from_str("id"),
        field_type: FieldType::Str,
        option: FieldOption::Term { no_index: false, no_store: false },
    };
    let text_field = SchemaField {
        name: String::from_str("text"),
        field_type: FieldType::Text,
        option: FieldOption::Fulltext {
            tokenizer: Tokenizer::Standard,
            filters: Vec::new(),
            stopwords: None,
            synonyms: None,
            no_store: true,
        },
    };
    let mut fields: Vec<SchemaField> = Vec::new();
    fields.push(id_field);
    fields.push(text_field);
    Schema { name: String::from_str(schema_name), fields }
}

/// The engine configuration the benchmark runs with.
#[derive(Debug)]
pub struct EngineConfig {
    pub data_path: String,
    pub segment_max_size: u64,
    pub flush_interval_secs: u64,
}

/// Builds the fixed benchmark configuration over the given data
/// directory: half-million-document segments, five-minute flush interval.
pub fn engine_config(data_path: String) -> (c: EngineConfig)
    ensures
        c.data_path == data_path,
        c.segment_max_size == 500000u64,
        c.flush_interval_secs == 300u64,
{
    EngineConfig { data_path, segment_max_size: 500000, flush_interval_secs: 300 }
}

} // verus!
