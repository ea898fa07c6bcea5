use vstd::prelude::*;

use crate::naming::FilenameMode;

verus! {

/// Where the feed comes from: exactly one of a URL and a saved file.
#[derive(Clone, Debug)]
pub enum FeedSource {
    Url { url: String },
    File { path: String },
}

/// A validated configuration of a run.
#[derive(Clone, Debug)]
pub struct Config {
    pub source: FeedSource,
    pub output_directory: String,
    pub mode: FilenameMode,
    pub keep_feed: bool,
    pub workers: usize,
    /// Seconds after which one network request is given up; none waits
    /// without end.
    pub timeout_secs: Option<u64>,
}

/// Why the options of a run were refused.
#[derive(Clone, Copy, Debug, PartialEq, Eq, Structural)]
pub enum ConfigError {
    /// Neither a feed URL nor a feed file was given.
    NoSource,
    /// Both a feed URL and a feed file were given.
    TwoSources,
    /// The worker count is zero.
    NoWorkers,
    /// A request timeout of zero seconds.
    ZeroTimeout,
}

/// Whether `c` holds the given options, with the one source given.
pub open spec fn describes(
    c: Config,
    url: Option<String>,
    file: Option<String>,
    output_directory: String,
    use_remote_filename: bool,
    keep_rss_feed: bool,
    n_threads: usize,
    timeout_secs: Option<u64>,
) -> bool {
    &&& c.workers == n_threads
    &&& c.timeout_secs == timeout_secs
    &&& c.keep_feed == keep_rss_feed
    &&& c.output_directory@ == output_directory@
    &&& c.mode == if use_remote_filename {
        FilenameMode::RemoteName
    } else {
        FilenameMode::DateTitle
    }
    &&& match (url, file, c.source) {
        (Some(u), None, FeedSource::Url { url: cu }) => cu@ == u@,
        (None, Some(f), FeedSource::File { path: cp }) => cp@ == f@,
        _ => false,
    }
}

/// Checks the options of a run and gathers them into a configuration: one
/// feed source, a positive number of workers, a positive request timeout if
/// any, and a naming mode that defaults to date and title.
pub fn parse_args(
    url: Option<String>,
    file: Option<String>,
    output_directory: String,
    use_remote_filename: bool,
    keep_rss_feed: bool,
    n_threads: usize,
    timeout_secs: Option<u64>,
) -> (r: Result<Config, ConfigError>)
    ensures
        url is None && file is None ==> r == Err::<Config, ConfigError>(ConfigError::NoSource),
        url is Some && file is Some ==> r == Err::<Config, ConfigError>(ConfigError::TwoSources),
        (url is Some) != (file is Some) && n_threads == 0 ==> r == Err::<Config, ConfigError>(
            ConfigError::NoWorkers,
        ),
        (url is Some) != (file is Some) && n_threads > 0 && timeout_secs == Some(0u64) ==> r
            == Err::<Config, ConfigError>(ConfigError::ZeroTimeout),
        (url is Some) != (file is Some) && n_threads > 0 && timeout_secs != Some(0u64) ==> r is Ok
            && describes(
            r->Ok_0,
            url,
            file,
            output_directory,
            use_remote_filename,
            keep_rss_feed,
            n_threads,
            timeout_secs,
        ),
{
    let source = match (url, file) {
        (Some(u), None) => FeedSource::Url { url: u },
        (None, Some(f)) => FeedSource::File { path: f },
        (None, None) => return Err(ConfigError::NoSource),
        (Some(_), Some(_)) => return Err(ConfigError::TwoSources),
    };
    if n_threads == 0 {
        return Err(ConfigError::NoWorkers);
    }
    if let Some(0) = timeout_secs {
        return Err(ConfigError::ZeroTimeout);
    }
    let mode = if use_remote_filename {
        FilenameMode::RemoteName
    } else {
        FilenameMode::DateTitle
    };
    Ok(Config { source, output_directory, mode, keep_feed: keep_rss_feed, workers: n_threads, timeout_secs })
}

} // verus!
