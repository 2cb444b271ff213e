//! JSON payloads: framing them for `arrow-json` and inferring their schema.
//!
//! Each message is expected to be a self-contained JSON object (one object
//! per Kafka record); newlines inside the JSON are tolerated.

use vstd::prelude::*;

use std::io::{BufReader, Cursor};
use std::sync::Arc;

use arrow::array::RecordBatch;
use arrow::datatypes::{DataType, Schema};
use arrow_json::reader::ReaderBuilder;
use arrow::error::ArrowError;

use crate::error::Error;

verus! {

/// `arrow::datatypes::Schema`, carried as an opaque value.
#[verifier::external_type_specification]
#[verifier::external_body]
pub struct ExSchema(arrow::datatypes::Schema);

/// The JSON type of an inferred field, as `arrow_json` infers them.
#[derive(Debug, Clone, Copy, PartialEq, Eq, Structural)]
pub enum JsonKind {
    Null,
    Boolean,
    Int64,
    Float64,
    Utf8,
    List,
    Struct,
    /// A type `arrow_json` does not infer from plain JSON.
    Other,
}

/// One field of an inferred schema, as plain values.
#[derive(Debug, Clone, PartialEq, Eq)]
pub struct FieldInfo {
    pub name: String,
    pub kind: JsonKind,
    pub nullable: bool,
}

impl View for FieldInfo {
    type V = (Seq<char>, JsonKind, bool);

    open spec fn view(&self) -> (Seq<char>, JsonKind, bool) {
        (self.name@, self.kind, self.nullable)
    }
}

/// The views of a list of fields.
pub open spec fn field_views(fields: Seq<FieldInfo>) -> Seq<(Seq<char>, JsonKind, bool)> {
    fields.map_values(|f: FieldInfo| f@)
}

/// Name for what `arrow_json::reader::infer_json_schema` infers from the
/// newline-delimited JSON `data`, reading at most `max_records` records:
/// the fields in order (name, kind, nullable), or `None` where it reports
/// an error.
pub uninterp spec fn json_inferred_fields(data: Seq<u8>, max_records: nat) -> Option<
    Seq<(Seq<char>, JsonKind, bool)>,
>;

/// Name for the fields of a schema, as `Schema::fields` lists them (name,
/// kind, nullable).
pub uninterp spec fn schema_fields(schema: Schema) -> Seq<(Seq<char>, JsonKind, bool)>;

/// Calls `arrow_json::reader::infer_json_schema` on `data` with a record
/// limit. Claimed: it fails exactly where the named [`json_inferred_fields`]
/// is `None`, and otherwise the schema's fields are the named ones (the
/// inference depends on the bytes and the limit alone).
#[verifier::external_body]
fn infer_json_schema_bytes(data: &[u8], max_records: usize) -> (r: Result<Schema, ArrowError>)
    ensures
        r is Err <==> json_inferred_fields(data@, max_records as nat) is None,
        r matches Ok(s) ==> json_inferred_fields(data@, max_records as nat) == Some(
            schema_fields(s),
        ),
{
    let mut reader = BufReader::new(Cursor::new(data));
    match arrow_json::reader::infer_json_schema(&mut reader, Some(max_records)) {
        Ok((schema, _records_read)) => Ok(schema),
        Err(e) => Err(e),
    }
}

/// Reads the fields of `schema` (`Schema::fields`, with each field's name,
/// data type and nullability). Claimed: the list is the named
/// [`schema_fields`] of the schema.
#[verifier::external_body]
fn schema_field_list(schema: &Schema) -> (r: Vec<FieldInfo>)
    ensures
        field_views(r@) == schema_fields(*schema),
{
    schema.fields().iter().map(|f| FieldInfo {
        name: f.name().clone(),
        kind: match f.data_type() {
            DataType::Null => JsonKind::Null,
            DataType::Boolean => JsonKind::Boolean,
            DataType::Int64 => JsonKind::Int64,
            DataType::Float64 => JsonKind::Float64,
            DataType::Utf8 => JsonKind::Utf8,
            DataType::List(_) => JsonKind::List,
            DataType::Struct(_) => JsonKind::Struct,
            _ => JsonKind::Other,
        },
        nullable: f.is_nullable(),
    }).collect()
}

/// A decoded Arrow `RecordBatch`: a collection of rows. Verus refuses to
/// declare `RecordBatch` itself (it needs arrow's `Array` trait), so the
/// batch is held in a field that Verus does not read; its row count is
/// named by [`batch_row_count`].
#[verifier::external_body]
pub struct DecodedBatch {
    pub batch: RecordBatch,
}

/// Name for the number of rows of a batch (`RecordBatch::num_rows`).
pub uninterp spec fn batch_row_count(b: DecodedBatch) -> nat;

/// Name for what `arrow_json`'s decoder makes of `data` against `schema`
/// with a batch size: `None` where building the decoder, decoding or
/// flushing reports an error; `Some(None)` where the flush gives no batch;
/// `Some(Some(n))` where it gives a batch of `n` rows.
pub uninterp spec fn json_decode_outcome(schema: Schema, data: Seq<u8>, batch_size: nat) -> Option<
    Option<nat>,
>;

/// Calls `RecordBatch::new_empty`. Claimed: the batch has no row.
#[verifier::external_body]
fn new_empty_batch(schema: Arc<Schema>) -> (r: DecodedBatch)
    ensures
        batch_row_count(r) == 0,
{
    DecodedBatch { batch: RecordBatch::new_empty(schema) }
}

/// Builds `arrow_json`'s decoder for `schema` with `batch_size`, feeds it
/// `data` and flushes it (`ReaderBuilder::build_decoder`,
/// `Decoder::decode`, `Decoder::flush`). Claimed: the outcome is the named
/// [`json_decode_outcome`] of the schema, the bytes and the batch size.
#[verifier::external_body]
fn decode_json_rows(schema: Arc<Schema>, data: &[u8], batch_size: usize) -> (r: Result<
    Option<DecodedBatch>,
    ArrowError,
>)
    ensures
        match json_decode_outcome(*schema, data@, batch_size as nat) {
            None => r is Err,
            Some(None) => r matches Ok(None),
            Some(Some(n)) => r matches Ok(Some(b)) && batch_row_count(b) == n,
        },
{
    let builder = ReaderBuilder::new(schema).with_batch_size(batch_size);
    let mut decoder = match builder.build_decoder() {
        Ok(d) => d,
        Err(e) => return Err(e),
    };
    if let Err(e) = decoder.decode(data) {
        return Err(e);
    }
    match decoder.flush() {
        Ok(b) => Ok(b.map(|batch| DecodedBatch { batch })),
        Err(e) => Err(e),
    }
}

/// `m` with a newline appended unless it already ends in one.
pub open spec fn framed(m: Seq<u8>) -> Seq<u8> {
    if m.len() > 0 && m.last() == 10u8 {
        m
    } else {
        m.push(10u8)
    }
}

/// The messages concatenated, each terminated by a newline.
pub open spec fn joined(messages: Seq<Vec<u8>>) -> Seq<u8>
    decreases messages.len(),
{
    if messages.len() == 0 {
        Seq::empty()
    } else {
        joined(messages.drop_last()) + framed(messages.last()@)
    }
}

/// ASCII whitespace as `u8::is_ascii_whitespace` has it: space, tab, line
/// feed, form feed and carriage return.
pub open spec fn ascii_whitespace(b: u8) -> bool {
    b == 32u8 || b == 9u8 || b == 10u8 || b == 12u8 || b == 13u8
}

/// Every byte of `s` is ASCII whitespace.
pub open spec fn all_whitespace(s: Seq<u8>) -> bool {
    forall|i: int| 0 <= i < s.len() ==> ascii_whitespace(#[trigger] s[i])
}

/// Concatenates `messages` into one newline-delimited buffer.
pub fn join_with_newlines(messages: &[Vec<u8>]) -> (out: Vec<u8>)
    ensures
        out@ == joined(messages@),
{
    let mut out: Vec<u8> = Vec::new();
    let mut i: usize = 0;
    while i < messages.len()
        invariant
            i <= messages@.len(),
            out@ == joined(messages@.take(i as int)),
        decreases messages@.len() - i,
    {
        assert(messages@.take(i + 1).drop_last() =~= messages@.take(i as int));
        let m = &messages[i];
        let ghost before = out@;
        let mut j: usize = 0;
        while j < m.len()
            invariant
                j <= m@.len(),
                out@ == before + m@.take(j as int),
            decreases m@.len() - j,
        {
            out.push(m[j]);
            assert(m@.take(j + 1) =~= m@.take(j as int).push(m@[j as int]));
            j = j + 1;
        }
        assert(m@.take(m@.len() as int) =~= m@);
        if !(m.len() > 0 && m[m.len() - 1] == 10u8) {
            out.push(10u8);
        }
        assert(out@ =~= before + framed(m@));
        i = i + 1;
    }
    assert(messages@.take(messages@.len() as int) =~= messages@);
    out
}

/// Whether every byte is ASCII whitespace.
fn is_all_whitespace(s: &Vec<u8>) -> (r: bool)
    ensures
        r == all_whitespace(s@),
{
    let mut i: usize = 0;
    while i < s.len()
        invariant
            i <= s@.len(),
            forall|k: int| 0 <= k < i ==> ascii_whitespace(#[trigger] s@[k]),
        decreases s@.len() - i,
    {
        let b = s[i];
        if !(b == 32u8 || b == 9u8 || b == 10u8 || b == 12u8 || b == 13u8) {
            assert(!ascii_whitespace(s@[i as int]));
            return false;
        }
        i = i + 1;
    }
    true
}

/// JSON decoder. Stateless; can be copied freely.
#[derive(Debug, Default, Clone, Copy)]
pub struct JsonDecoder;

impl JsonDecoder {
    /// The decoder.
    pub fn new() -> (r: Self)
        ensures
            r == JsonDecoder,
    {
        JsonDecoder
    }

    /// Infers the schema of the samples: no sample, or nothing but
    /// whitespace, is [`Error::DecodeSchemaInferEmpty`]; otherwise the
    /// newline-joined samples go to `arrow-json`, which reads at most as
    /// many records as there are samples.
    pub fn infer_schema(&self, samples: &[Vec<u8>]) -> (r: Result<Arc<Schema>, Error>)
        ensures
            samples@.len() == 0 ==> r matches Err(Error::DecodeSchemaInferEmpty),
            samples@.len() > 0 && all_whitespace(joined(samples@)) ==> r matches Err(
                Error::DecodeSchemaInferEmpty,
            ),
            samples@.len() > 0 && !all_whitespace(joined(samples@)) ==> {
                &&& (r is Ok <==> json_inferred_fields(joined(samples@), samples@.len()) is Some)
                &&& (r matches Ok(s) ==> json_inferred_fields(joined(samples@), samples@.len())
                    == Some(schema_fields(*s)))
                &&& (r matches Err(e) ==> e is Arrow)
            },
    {
        if samples.len() == 0 {
            return Err(Error::DecodeSchemaInferEmpty);
        }
        let combined = join_with_newlines(samples);
        if is_all_whitespace(&combined) {
            return Err(Error::DecodeSchemaInferEmpty);
        }
        match infer_json_schema_bytes(combined.as_slice(), samples.len()) {
            Ok(schema) => Ok(Arc::new(schema)),
            Err(e) => Err(Error::Arrow(e)),
        }
    }

    /// Infers the schema of the samples, as [`JsonDecoder::infer_schema`]
    /// does, and lists its fields as plain values.
    pub fn infer_fields(&self, samples: &[Vec<u8>]) -> (r: Result<Vec<FieldInfo>, Error>)
        ensures
            samples@.len() == 0 || all_whitespace(joined(samples@)) ==> r matches Err(
                Error::DecodeSchemaInferEmpty,
            ),
            samples@.len() > 0 && !all_whitespace(joined(samples@)) ==> match json_inferred_fields(
                joined(samples@),
                samples@.len(),
            ) {
                Some(fs) => r matches Ok(v) && field_views(v@) == fs,
                None => r matches Err(Error::Arrow(_)),
            },
    {
        match self.infer_schema(samples) {
            Ok(schema) => Ok(schema_field_list(&schema)),
            Err(e) => Err(e),
        }
    }

    /// Decodes `messages` against `schema` into one batch: no message gives
    /// an empty batch; otherwise the newline-joined messages go to
    /// `arrow-json` with a batch size of the message count, and a flush that
    /// yields no batch is [`Error::Decode`].
    pub fn decode_batch(&self, schema: Arc<Schema>, messages: &[Vec<u8>]) -> (r: Result<
        DecodedBatch,
        Error,
    >)
        ensures
            messages@.len() == 0 ==> (r matches Ok(b) && batch_row_count(b) == 0),
            messages@.len() > 0 ==> match json_decode_outcome(
                *schema,
                joined(messages@),
                messages@.len(),
            ) {
                None => r matches Err(Error::Arrow(_)),
                Some(None) => r matches Err(Error::Decode(_)),
                Some(Some(n)) => r matches Ok(b) && batch_row_count(b) == n,
            },
    {
        if messages.len() == 0 {
            return Ok(new_empty_batch(schema));
        }
        let combined = join_with_newlines(messages);
        match decode_json_rows(schema, combined.as_slice(), messages.len()) {
            Ok(Some(b)) => Ok(b),
            Ok(None) => Err(Error::Decode(String::from_str("decoder produced no batch from non-empty input"))),
            Err(e) => Err(Error::Arrow(e)),
        }
    }
}

} // verus!
