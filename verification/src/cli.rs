//! The command-line surface as plain values, and the decisions the
//! commands make from it before any I/O: the time window, the output
//! format, the connection profile and the log level.

use vstd::prelude::*;

use std::path::PathBuf;

use crate::config::{fault_holds, opt_view, select_spec, Config, Profile, ProfileView};
use crate::error::Error;
use crate::output::OutputFormat as ResultFormat;
use crate::time::{
    duration_in_range, humantime_duration, parse_duration_guarded, DurationParse, Span, Timestamp,
};
use crate::window::{outcome_holds, resolve_spec, OffsetStart, TimeWindow, WindowParse};

verus! {

/// Global flags and the chosen subcommand.
#[derive(Debug)]
pub struct Cli {
    /// Connection profile from the config file.
    pub profile: Option<String>,
    /// Config file path overriding the default location.
    pub config: Option<PathBuf>,
    /// Comma-separated bootstrap brokers (overrides the profile's).
    pub brokers: Option<String>,
    /// Verbosity: 0 = warn, 1 = info, 2 = debug, more = trace.
    pub verbose: u8,
    pub command: Option<Command>,
}

/// Subcommands.
#[derive(Debug, Clone)]
pub enum Command {
    /// Run a one-shot SQL query against one or more topics.
    Query(QueryArgs),
    /// Start the interactive SQL REPL.
    Repl(ReplArgs),
    /// Print the inferred schema for a topic.
    Schema(SchemaArgs),
    /// Sample raw messages from a topic.
    Sample(SampleArgs),
    /// List Kafka topics.
    Topics,
}

/// Time-window flags shared by `query` / `repl` / `schema` / `sample`.
#[derive(Debug, Clone, Default)]
pub struct WindowArgs {
    pub last: Option<String>,
    pub since: Option<String>,
    pub from: Option<String>,
    pub to: Option<String>,
    pub offset: Option<OffsetStartArg>,
    pub limit: Option<u64>,
}

/// `--offset earliest|latest`.
#[derive(Debug, Clone, Copy, PartialEq, Eq, Structural)]
pub enum OffsetStartArg {
    Earliest,
    Latest,
}

/// Output format flags shared by `query` and `sample`.
#[derive(Debug, Clone, Default)]
pub struct FormatArgs {
    pub format: OutputFormat,
}

/// `--format`.
#[derive(Debug, Clone, Copy, Default, PartialEq, Eq, Structural)]
pub enum OutputFormat {
    #[default]
    Table,
    Json,
    Ndjson,
    Csv,
}

/// Progress-output flags shared by long-running commands.
#[derive(Debug, Clone, Default)]
pub struct ProgressArgs {
    pub progress: bool,
    pub progress_interval: String,
}

/// Shared Kafka-consumption knobs.
#[derive(Debug, Clone, Default)]
pub struct ConsumeArgs {
    /// Opt-in: join this consumer group (commits offsets).
    pub consumer_group_id: Option<String>,
    /// Limit schema inference to the first N messages.
    pub schema_sample: usize,
}

/// `kqr query`.
#[derive(Debug, Clone)]
pub struct QueryArgs {
    pub topics: Vec<String>,
    pub sql: String,
    pub explain: bool,
    pub reuse: bool,
    pub no_reuse: bool,
    pub window: WindowArgs,
    pub format: FormatArgs,
    pub progress: ProgressArgs,
    pub consume: ConsumeArgs,
}

/// `kqr repl`.
#[derive(Debug, Clone)]
pub struct ReplArgs {
    pub topics: Vec<String>,
    pub window: WindowArgs,
    pub progress: ProgressArgs,
    pub consume: ConsumeArgs,
}

/// `kqr schema`.
#[derive(Debug, Clone)]
pub struct SchemaArgs {
    pub topic: String,
    pub window: WindowArgs,
    pub consume: ConsumeArgs,
}

/// `kqr sample`.
#[derive(Debug, Clone)]
pub struct SampleArgs {
    pub topic: String,
    pub n: u64,
    pub window: WindowArgs,
    pub consume: ConsumeArgs,
}

/// The string inside an optional argument, borrowed.
fn opt_str(o: &Option<String>) -> (r: Option<&str>)
    ensures
        match o {
            Some(s) => r matches Some(x) && x@ == s@,
            None => r is None,
        },
{
    match o {
        Some(s) => Some(s.as_str()),
        None => None,
    }
}

/// The flags of `args` as a [`WindowParse`] has them.
pub open spec fn window_parse_of(args: WindowArgs, w: WindowParse) -> bool {
    &&& opt_view(args.last) == match w.last { Some(s) => Some(s@), None => None }
    &&& opt_view(args.since) == match w.since { Some(s) => Some(s@), None => None }
    &&& opt_view(args.from) == match w.from { Some(s) => Some(s@), None => None }
    &&& opt_view(args.to) == match w.to { Some(s) => Some(s@), None => None }
    &&& w.offset == match args.offset {
        Some(OffsetStartArg::Earliest) => Some(OffsetStart::Earliest),
        Some(OffsetStartArg::Latest) => Some(OffsetStart::Latest),
        None => None,
    }
    &&& w.limit == args.limit
}

/// Turns the window flags into a resolved [`TimeWindow`].
pub fn resolve_window(args: &WindowArgs) -> (r: Result<TimeWindow, Error>)
    ensures
        exists|w: WindowParse, now: Timestamp|
            window_parse_of(*args, w) && now.is_clock_reading() && outcome_holds(
                r,
                resolve_spec(w, now),
            ),
{
    let parsed = WindowParse {
        last: opt_str(&args.last),
        since: opt_str(&args.since),
        from: opt_str(&args.from),
        to: opt_str(&args.to),
        offset: match args.offset {
            Some(OffsetStartArg::Earliest) => Some(OffsetStart::Earliest),
            Some(OffsetStartArg::Latest) => Some(OffsetStart::Latest),
            None => None,
        },
        limit: args.limit,
    };
    let r = parsed.resolve();
    assert(window_parse_of(*args, parsed));
    r
}

/// Parses `--progress-interval`.
pub fn parse_progress_interval(s: &str) -> (r: Result<Span, Error>)
    ensures
        !duration_in_range(s@) ==> (r matches Err(Error::DurationTooLarge(m)) && m@ == s@),
        duration_in_range(s@) ==> match humantime_duration(s@) {
            Some((secs, nanos)) => r == Ok::<Span, Error>(Span { secs, nanos }),
            None => r matches Err(Error::ProgressInterval(m, _)) && m@ == s@,
        },
{
    match parse_duration_guarded(s) {
        DurationParse::Parsed(d) => Ok(d),
        DurationParse::Invalid(e) => Err(Error::ProgressInterval(s.to_owned(), e)),
        DurationParse::TooLarge => Err(Error::DurationTooLarge(s.to_owned())),
    }
}

/// The format results are written in: `table` falls back to `csv` when
/// stdout is not a terminal.
pub fn pick_format(requested: OutputFormat, stdout_is_tty: bool) -> (r: ResultFormat)
    ensures
        r == match requested {
            OutputFormat::Table => if stdout_is_tty {
                ResultFormat::Table
            } else {
                ResultFormat::Csv
            },
            OutputFormat::Json => ResultFormat::Json,
            OutputFormat::Ndjson => ResultFormat::Ndjson,
            OutputFormat::Csv => ResultFormat::Csv,
        },
{
    match requested {
        OutputFormat::Table => if stdout_is_tty {
            ResultFormat::Table
        } else {
            ResultFormat::Csv
        },
        OutputFormat::Json => ResultFormat::Json,
        OutputFormat::Ndjson => ResultFormat::Ndjson,
        OutputFormat::Csv => ResultFormat::Csv,
    }
}

/// `query` and `repl` need at least one `--topic`.
pub fn require_topics(topics: &Vec<String>) -> (r: Result<(), Error>)
    ensures
        topics@.len() == 0 <==> r matches Err(Error::TopicRequired),
        topics@.len() > 0 <==> r is Ok,
{
    if topics.len() == 0 {
        Err(Error::TopicRequired)
    } else {
        Ok(())
    }
}

/// A command that talks to Kafka needs a profile.
pub fn require_profile(p: Option<Profile>, cmd: &str) -> (r: Result<Profile, Error>)
    ensures
        match p {
            Some(q) => r == Ok::<Profile, Error>(q),
            None => r matches Err(Error::ProfileRequired(c)) && c@ == cmd@,
        },
{
    match p {
        Some(q) => Ok(q),
        None => Err(Error::ProfileRequired(cmd.to_owned())),
    }
}

/// The log level for a verbosity count.
pub open spec fn level_spec(verbose: u8) -> Seq<char> {
    if verbose == 0 {
        "warn"@
    } else if verbose == 1 {
        "info"@
    } else if verbose == 2 {
        "debug"@
    } else {
        "trace"@
    }
}

/// The log level for `-v` counted `verbose` times.
pub fn log_level(verbose: u8) -> (r: &'static str)
    ensures
        r@ == level_spec(verbose),
{
    match verbose {
        0 => "warn",
        1 => "info",
        2 => "debug",
        _ => "trace",
    }
}

/// The profile view of [`Profile::default`].
pub open spec fn empty_profile() -> ProfileView {
    ProfileView {
        brokers: Seq::empty(),
        sasl_mechanism: None,
        sasl_username: None,
        sasl_password: None,
        schema_registry_url: None,
    }
}

/// The config the profile is chosen from: a config found at the default
/// location counts only if it defines a profile.
pub open spec fn usable_config(cli: &Cli, cfg: Option<Config>) -> Option<Config> {
    match cfg {
        Some(c) => if cli.config is None && c.profiles@.len() == 0 {
            None
        } else {
            Some(c)
        },
        None => None,
    }
}

/// The connection profile, from the `--brokers` flag, the `--profile` flag
/// and the loaded config (`cfg`: the file named by `--config`, or the one at
/// the default location if it could be read), expanding `${ENV}` against `env`.
///
/// `--brokers` overrides the brokers of the selected profile and never
/// fails: a profile that cannot be selected counts as the empty profile.
/// Without `--brokers` and without a usable config there is no profile.
pub fn resolve_profile(cli: &Cli, cfg: Option<Config>, env: &[(String, String)]) -> (r: Result<
    Option<Profile>,
    Error,
>)
    ensures
        match cli.brokers {
            Some(b) => r matches Ok(Some(p)) && p@ == ProfileView {
                brokers: b@,
                ..match usable_config(cli, cfg) {
                    Some(c) => match select_spec(c, opt_view(cli.profile), env@) {
                        Ok(v) => v,
                        Err(_) => empty_profile(),
                    },
                    None => empty_profile(),
                }
            },
            None => match usable_config(cli, cfg) {
                None => r matches Ok(None),
                Some(c) => match select_spec(c, opt_view(cli.profile), env@) {
                    Ok(v) => r matches Ok(Some(p)) && p@ == v,
                    Err(f) => fault_holds(r, f),
                },
            },
        },
{
    let usable: Option<Config> = match cfg {
        Some(c) => if cli.config.is_none() && c.profiles.len() == 0 {
            None
        } else {
            Some(c)
        },
        None => None,
    };
    let name = opt_str(&cli.profile);
    match &cli.brokers {
        Some(b) => {
            let mut base = match &usable {
                Some(c) => match c.select_profile(name, env) {
                    Ok(p) => p,
                    Err(_) => Profile::default(),
                },
                None => Profile::default(),
            };
            base.brokers = b.clone();
            Ok(Some(base))
        },
        None => match &usable {
            None => Ok(None),
            Some(c) => match c.select_profile(name, env) {
                Ok(p) => Ok(Some(p)),
                Err(e) => Err(e),
            },
        },
    }
}

} // verus!
