//! The settings of a run, as the command line gives them.

use vstd::prelude::*;

use crate::session::{ProbeSession, SessionAction};
use crate::text::reads_as;

verus! {

/// Probes per target where none is asked for.
pub const DEFAULT_COUNT: u32 = 3;

/// Milliseconds between probes where none is asked for.
pub const DEFAULT_PERIOD_MS: u64 = 1000;

/// Milliseconds before a probe times out where none is asked for.
pub const DEFAULT_TIMEOUT_MS: u64 = 5000;

/// Retries of a failed probe where none is asked for.
pub const DEFAULT_RETRY: u32 = 1;

/// Octets in a request where none is asked for.
pub const DEFAULT_SIZE: usize = 56;

/// Time to live of a request where none is asked for.
pub const DEFAULT_TTL: u32 = 64;

/// Seconds between scan cycles where none is asked for.
pub const DEFAULT_SCAN_INTERVAL_SECS: u64 = 60;

/// What to do besides probing the targets.
#[derive(Debug)]
pub enum Commands {
    /// Print a summary report in the given format.
    Summary { format: String },
    /// Watch a network for devices that come and go.
    Monitor {
        network: String,
        interval: u64,
        format: String,
        changes_only: bool,
        resolve_mac: bool,
        ui: bool,
    },
}

/// The settings of a run.
#[derive(Debug)]
pub struct Cli {
    /// The targets, as addresses or names.
    pub hosts: Vec<String>,
    /// A file to read more targets from.
    pub file: Option<String>,
    /// Probes per target.
    pub count: u32,
    /// Milliseconds between probes.
    pub period: u64,
    /// Milliseconds before a probe times out.
    pub timeout: u64,
    /// Retries of a failed probe.
    pub retry: u32,
    /// Octets in a request.
    pub size: usize,
    /// Time to live of a request.
    pub ttl: u32,
    /// Whether only the summary is shown.
    pub quiet: bool,
    /// Whether outcomes are shown with the time of day.
    pub timestamp: bool,
    /// What to do besides probing.
    pub command: Option<Commands>,
}

/// The form of a summary report.
#[derive(Clone, Copy, Debug, PartialEq, Eq, Structural)]
pub enum SummaryFormat {
    /// Plain text.
    Text,
    /// One JSON object for each target.
    Json,
    /// One CSV line for each target, under one header.
    Csv,
}

/// The form that the text of a format option asks for: `json` and `csv`
/// by name, plain text for anything else.
pub open spec fn format_named(text: Seq<char>) -> SummaryFormat {
    if text == "json"@ {
        SummaryFormat::Json
    } else if text == "csv"@ {
        SummaryFormat::Csv
    } else {
        SummaryFormat::Text
    }
}

impl SummaryFormat {
    /// The form that the text of a format option asks for.
    pub fn from_text(text: &str) -> (format: SummaryFormat)
        ensures
            format == format_named(text@),
    {
        if reads_as(text, "json") {
            SummaryFormat::Json
        } else if reads_as(text, "csv") {
            SummaryFormat::Csv
        } else {
            SummaryFormat::Text
        }
    }
}

impl Cli {
    /// The settings for probing `hosts` with every option left alone.
    pub fn with_defaults(hosts: Vec<String>) -> (cli: Self)
        ensures
            cli.hosts == hosts,
            cli.file is None,
            cli.count == DEFAULT_COUNT,
            cli.period == DEFAULT_PERIOD_MS,
            cli.timeout == DEFAULT_TIMEOUT_MS,
            cli.retry == DEFAULT_RETRY,
            cli.size == DEFAULT_SIZE,
            cli.ttl == DEFAULT_TTL,
            !cli.quiet,
            !cli.timestamp,
            cli.command is None,
    {
        Cli {
            hosts,
            file: None,
            count: DEFAULT_COUNT,
            period: DEFAULT_PERIOD_MS,
            timeout: DEFAULT_TIMEOUT_MS,
            retry: DEFAULT_RETRY,
            size: DEFAULT_SIZE,
            ttl: DEFAULT_TTL,
            quiet: false,
            timestamp: false,
            command: None,
        }
    }

    /// Whether the run watches a network instead of probing targets.
    pub open spec fn is_monitor_spec(self) -> bool {
        self.command is Some && self.command->Some_0 is Monitor
    }

    /// Whether the run watches a network instead of probing targets.
    pub fn is_monitor(&self) -> (monitor: bool)
        ensures
            monitor == self.is_monitor_spec(),
    {
        match &self.command {
            Some(Commands::Monitor { .. }) => true,
            _ => false,
        }
    }

    /// Whether a run with `target_count` targets in all has nothing to
    /// probe though it should: only watching a network takes no targets.
    pub fn lacks_targets(&self, target_count: usize) -> (lacking: bool)
        ensures
            lacking == (target_count == 0 && !self.is_monitor_spec()),
    {
        target_count == 0 && !self.is_monitor()
    }

    /// The form of the summary that the run prints: the one its summary
    /// command names, plain text without such a command.
    pub fn summary_format(&self) -> (format: SummaryFormat)
        ensures
            format == match self.command {
                Some(Commands::Summary { format }) => format_named(format@),
                _ => SummaryFormat::Text,
            },
    {
        match &self.command {
            Some(Commands::Summary { format }) => SummaryFormat::from_text(format.as_str()),
            _ => SummaryFormat::Text,
        }
    }

    /// Starts the probe session of one target with the settings of the run.
    pub fn start_session(&self) -> (res: (ProbeSession, SessionAction))
        ensures
            res == ProbeSession::initial(self.count, self.period, self.timeout, self.retry),
            res.0.wf(),
    {
        ProbeSession::start(self.count, self.period, self.timeout, self.retry)
    }
}

} // verus!
