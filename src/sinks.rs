//! Where a snapshot goes on each tick: the rotating log file, the HTTP
//! endpoint and standard output.
use vstd::prelude::*;
use vstd::string::StringExecFns;
use crate::stats::{json_text, plain_text, ticked, Reading, Stats};
use crate::text::{padded, push_padded};
use crate::Format;

verus! {

/// The local wall-clock time of a tick, as far as file rotation reads it.
pub struct LocalTime {
    pub year: u32,
    pub month: u32,
    pub day: u32,
    pub hour: u32,
}

/// The configuration of a sampler, fixed at startup.
pub struct Config {
    /// The rendering written to standard output and to the log file.
    pub format: Format,
    /// Seconds between ticks.
    pub period_secs: u64,
    /// The directory of the rotating log file, if one is written.
    pub output: Option<String>,
    /// The URL that each snapshot is posted to, if any.
    pub url: Option<String>,
    /// The number of processes a snapshot lists.
    pub max_processes: usize,
    /// Whether the user name is redacted.
    pub hash_pii: bool,
}

/// One write that a tick asks of the outside world.
pub enum Action {
    /// Append `line` and a newline to the file at `path`, creating it if need be.
    AppendLine { path: String, line: String },
    /// Post `body` to `url` as `application/json`.
    Post { url: String, body: String },
    /// Write `line` and a newline to standard output.
    Print { line: String },
}

/// The hour bucket of a time: `YYYYMMDD_HH`.
pub open spec fn rotation_bucket(t: LocalTime) -> Seq<char> {
    padded(t.year as nat, 4) + padded(t.month as nat, 2) + padded(t.day as nat, 2) + "_"@ + padded(
        t.hour as nat,
        2,
    )
}

/// The name prefix of a host's log files.
pub open spec fn file_prefix_of(hostname: Seq<char>) -> Seq<char> {
    "statslogger_"@ + hostname
}

/// The log file of an hour: `<dir>/<prefix>_<YYYYMMDD_HH>`; with an empty
/// directory, the bare file name.
pub open spec fn log_path(dir: Seq<char>, prefix: Seq<char>, t: LocalTime) -> Seq<char> {
    if dir.len() == 0 {
        prefix + "_"@ + rotation_bucket(t)
    } else {
        dir + "/"@ + prefix + "_"@ + rotation_bucket(t)
    }
}

/// A snapshot in the chosen rendering.
pub open spec fn rendered(s: Stats, format: Format) -> Seq<char> {
    match format {
        Format::Plain => plain_text(s),
        Format::Json => json_text(s),
    }
}

pub open spec fn is_append(a: Action, path: Seq<char>, line: Seq<char>) -> bool {
    match a {
        Action::AppendLine { path: p, line: l } => p@ == path && l@ == line,
        _ => false,
    }
}

pub open spec fn is_post(a: Action, url: Seq<char>, body: Seq<char>) -> bool {
    match a {
        Action::Post { url: u, body: b } => u@ == url && b@ == body,
        _ => false,
    }
}

pub open spec fn is_print(a: Action, line: Seq<char>) -> bool {
    match a {
        Action::Print { line: l } => l@ == line,
        _ => false,
    }
}

/// The writes of one tick, in order: the log file line where a directory is
/// configured, the post where a URL is configured, and always the line on
/// standard output. The post always carries the JSON rendering.
pub open spec fn is_plan(r: Seq<Action>, s: Stats, config: Config, t: LocalTime) -> bool {
    let line = rendered(s, config.format);
    let n_file: int = if config.output is Some { 1 } else { 0 };
    let n_http: int = if config.url is Some { 1 } else { 0 };
    &&& r.len() == n_file + n_http + 1
    &&& config.output is Some ==> is_append(
        r[0],
        log_path(config.output->0@, file_prefix_of(s.hostname@), t),
        line,
    )
    &&& config.url is Some ==> is_post(r[n_file], config.url->0@, json_text(s))
    &&& is_print(r[n_file + n_http], line)
}

impl Format {
    /// Whether this is the plain rendering.
    pub fn is_plain(&self) -> (r: bool)
        ensures
            r == (*self is Plain),
    {
        match self {
            Format::Plain => true,
            Format::Json => false,
        }
    }
}

/// The hour bucket of `t` as text: `YYYYMMDD_HH`.
pub fn rotation_bucket_text(t: &LocalTime) -> (r: String)
    ensures
        r@ == rotation_bucket(*t),
{
    let mut out = String::new();
    push_padded(&mut out, t.year as u64, 4);
    push_padded(&mut out, t.month as u64, 2);
    push_padded(&mut out, t.day as u64, 2);
    out.append("_");
    push_padded(&mut out, t.hour as u64, 2);
    assert(out@ =~= rotation_bucket(*t));
    out
}

/// The name prefix of the log files of `hostname`.
pub fn file_prefix(hostname: &String) -> (r: String)
    ensures
        r@ == file_prefix_of(hostname@),
{
    let mut out = String::from_str("statslogger_");
    out.append(hostname.as_str());
    out
}

/// The log file that a line written at `t` goes to.
pub fn log_file_path(dir: &String, prefix: &String, t: &LocalTime) -> (r: String)
    ensures
        r@ == log_path(dir@, prefix@, *t),
{
    let mut out = String::new();
    if !dir.as_str().is_empty() {
        out.append(dir.as_str());
        out.append("/");
    }
    out.append(prefix.as_str());
    out.append("_");
    let bucket = rotation_bucket_text(t);
    out.append(bucket.as_str());
    assert(out@ =~= log_path(dir@, prefix@, *t));
    out
}

/// A snapshot in the configured rendering.
pub fn render(s: &Stats, format: &Format) -> (r: String)
    ensures
        r@ == rendered(*s, *format),
{
    if format.is_plain() {
        s.to_string()
    } else {
        s.to_json()
    }
}

/// The writes that report snapshot `s`, taken at `t`, to the configured sinks.
pub fn plan_dispatch(s: &Stats, config: &Config, t: &LocalTime) -> (r: Vec<Action>)
    ensures
        is_plan(r@, *s, *config, *t),
{
    let mut actions: Vec<Action> = Vec::new();
    match &config.output {
        Some(dir) => {
            let prefix = file_prefix(&s.hostname);
            let path = log_file_path(dir, &prefix, t);
            actions.push(Action::AppendLine { path, line: render(s, &config.format) });
        },
        None => {},
    }
    match &config.url {
        Some(url) => {
            actions.push(Action::Post { url: url.clone(), body: s.to_json() });
        },
        None => {},
    }
    actions.push(Action::Print { line: render(s, &config.format) });
    actions
}

/// A sampler: its configuration and the snapshot of the latest tick.
pub struct Sampler {
    pub config: Config,
    pub stats: Stats,
}

impl Sampler {
    /// A sampler for the host with the given identity, before its first tick.
    pub fn new(config: Config, username: String, hostname: String, platform: String, os: String) -> (r: Sampler)
        ensures
            r.config == config,
            r.stats.username@ == crate::redact::shown_username(username@, config.hash_pii),
            r.stats.hostname@ == hostname@,
            r.stats.platform@ == platform@,
            r.stats.os@ == os@,
            r.stats.cpu_temp is None,
            r.stats.cpu_usage is None,
            r.stats.top_processes.len() == 0,
    {
        let stats = Stats::create(config.hash_pii, username, hostname, platform, os);
        Sampler { config, stats }
    }

    /// One tick: takes in the metrics read at `t` and returns the writes that
    /// report the new snapshot.
    pub fn on_tick(&mut self, reading: Reading, t: &LocalTime) -> (r: Vec<Action>)
        ensures
            final(self).config == old(self).config,
            ticked(old(self).stats, final(self).stats, old(self).config.max_processes, reading),
            is_plan(r@, final(self).stats, final(self).config, *t),
    {
        self.stats.tick(self.config.max_processes, reading);
        plan_dispatch(&self.stats, &self.config, t)
    }
}

} // verus!
