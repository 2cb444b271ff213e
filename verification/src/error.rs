//! Crate-wide error type.

use vstd::prelude::*;

verus! {

/// The error that `humantime::parse_duration` reports for a malformed
/// duration string. Carried through unchanged inside [`Error`].
#[verifier::external_type_specification]
#[verifier::external_body]
pub struct ExDurationError(humantime::DurationError);

/// The error that `chrono` reports for a malformed RFC 3339 timestamp.
/// Carried through unchanged inside [`Error`].
#[verifier::external_type_specification]
#[verifier::external_body]
pub struct ExChronoParseError(chrono::ParseError);

/// The error type of the `arrow` crates. Carried through unchanged.
#[verifier::external_type_specification]
#[verifier::external_body]
pub struct ExArrowError(arrow::error::ArrowError);

/// Top-level error returned by the library.
#[derive(Debug)]
pub enum Error {
    /// `[cache] ttl` is not a humantime duration.
    ConfigDuration(String, humantime::DurationError),
    /// The requested profile is not defined in the config.
    ConfigProfileMissing(String),
    /// A `${` placeholder is unterminated or names nothing.
    ConfigEnvSyntax,
    /// A `${VAR}` placeholder names an unset variable.
    ConfigEnvMissing(String),
    /// A profile without brokers cannot reach Kafka.
    KafkaBrokersMissing,
    /// The window resolved to no message on any partition.
    KafkaEmptyWindow,
    /// The topic is unknown to the cluster or has no partition.
    KafkaTopicMissing(String),
    /// More than one window group was given, or `--to` with `--last`.
    WindowConflict,
    /// A `--last` / `--since` value is not a humantime duration.
    WindowDuration(String, humantime::DurationError),
    /// `--offset` was given without `--limit`.
    WindowOffsetWithoutLimit,
    /// `--to` was given without a lower bound.
    WindowToWithoutFrom,
    /// A timestamp flag is not RFC 3339.
    WindowTimestamp(String, chrono::ParseError),
    /// The upper bound is not after the lower bound.
    WindowToBeforeFrom,
    /// `--since <duration>` reaches before the earliest representable instant.
    WindowSinceOutOfRange(String),
    /// Schema inference was handed nothing but whitespace.
    DecodeSchemaInferEmpty,
    /// Decoding produced no batch.
    Decode(String),
    /// An error reported by the `arrow` crates.
    Arrow(arrow::error::ArrowError),
    /// The query engine returned something unexpected.
    Query(String),
    /// A command that talks to Kafka was run without brokers.
    ProfileRequired(String),
    /// A duration's numbers are too large to parse (beyond hundreds of
    /// billions of units).
    DurationTooLarge(String),
    /// `query` or `repl` was run without any `--topic`.
    TopicRequired,
    /// `--progress-interval` is not a humantime duration.
    ProgressInterval(String, humantime::DurationError),
}

} // verus!
