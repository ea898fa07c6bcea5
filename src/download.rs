use vstd::prelude::*;

use crate::episode::EpisodeView;
use crate::naming::{filename_spec, FilenameMode};

verus! {

/// What came of creating the target file in "fail if it exists" mode.
#[derive(Clone, Copy, Debug, PartialEq, Eq, Structural)]
pub enum OpenOutcome {
    /// A new, empty file was created.
    Created,
    /// A file of that name is already there.
    AlreadyExists,
    /// Creation failed for another reason.
    Failed,
}

/// How the download of one episode ended.
#[derive(Clone, Copy, Debug, PartialEq, Eq, Structural)]
pub enum Outcome {
    /// The media was copied into a new file.
    Written,
    /// The file was already there and was left alone.
    Skipped,
    /// A network or file error stopped the download.
    Abandoned,
}

/// Where the download of one episode stands.
#[derive(Clone, Copy, Debug, PartialEq, Eq, Structural)]
pub enum DownloadState {
    /// The target file is to be created.
    Opening,
    /// The file was created; the enclosure is to be fetched.
    Fetching,
    /// The response is being copied; `expected` bytes are awaited.
    Copying { expected: u64 },
    /// Nothing is left to do.
    Done { outcome: Outcome },
}

/// What the worker reports back after doing what the state asked for.
#[derive(Clone, Copy, Debug, PartialEq, Eq, Structural)]
pub enum Event {
    /// The target file was opened, or not.
    Opened { outcome: OpenOutcome },
    /// The server answered, declaring a length or none.
    Responded { content_length: Option<u64> },
    /// The request failed.
    FetchFailed,
    /// The body was copied into the file.
    Copied { written: u64 },
    /// Reading the body or writing the file failed.
    CopyFailed,
}

/// A size that disagrees with another; it is reported and changes nothing.
#[derive(Clone, Copy, Debug, PartialEq, Eq, Structural)]
pub enum SizeWarning {
    /// The response declares another length than the feed.
    DeclaredMismatch { declared: u64, content_length: u64 },
    /// Another number of bytes was written than expected.
    WrittenMismatch { expected: u64, written: u64 },
}

/// The state after an event, and the warning to report, if any.
#[derive(Clone, Copy, Debug, PartialEq, Eq, Structural)]
pub struct Transition {
    pub state: DownloadState,
    pub warning: Option<SizeWarning>,
}

/// The state that follows `state` on `event`, for an episode that declares
/// `declared` bytes. An event that does not belong to the state leaves it
/// as it is.
pub open spec fn next_state(state: DownloadState, declared: u64, event: Event) -> DownloadState {
    match (state, event) {
        (DownloadState::Opening, Event::Opened { outcome }) => match outcome {
            OpenOutcome::Created => DownloadState::Fetching,
            OpenOutcome::AlreadyExists => DownloadState::Done { outcome: Outcome::Skipped },
            OpenOutcome::Failed => DownloadState::Done { outcome: Outcome::Abandoned },
        },
        (DownloadState::Fetching, Event::Responded { content_length }) => DownloadState::Copying {
            expected: match content_length {
                Some(n) => n,
                None => declared,
            },
        },
        (DownloadState::Fetching, Event::FetchFailed) => DownloadState::Done { outcome: Outcome::Abandoned },
        (DownloadState::Copying { .. }, Event::Copied { .. }) => DownloadState::Done { outcome: Outcome::Written },
        (DownloadState::Copying { .. }, Event::CopyFailed) => DownloadState::Done { outcome: Outcome::Abandoned },
        _ => state,
    }
}

/// The size warning that `event` raises in `state`, if any.
pub open spec fn warning_of(state: DownloadState, declared: u64, event: Event) -> Option<SizeWarning> {
    match (state, event) {
        (DownloadState::Fetching, Event::Responded { content_length: Some(n) }) =>
            if n != declared {
                Some(SizeWarning::DeclaredMismatch { declared, content_length: n })
            } else {
                None
            },
        (DownloadState::Copying { expected }, Event::Copied { written }) =>
            if written != expected {
                Some(SizeWarning::WrittenMismatch { expected, written })
            } else {
                None
            },
        _ => None,
    }
}

impl DownloadState {
    /// Whether the download has ended.
    pub open spec fn is_done(&self) -> bool {
        self is Done
    }

    /// Whether the state asks to write into the target file.
    pub open spec fn writes(&self) -> bool {
        self is Fetching || self is Copying
    }
}

/// Decides what follows `event` for an episode that declares `declared`
/// bytes. Size disagreements are only reported: a response is copied in
/// full whatever length it declares.
pub fn step(state: DownloadState, declared: u64, event: Event) -> (r: Transition)
    ensures
        r.state == next_state(state, declared, event),
        r.warning == warning_of(state, declared, event),
{
    match (state, event) {
        (DownloadState::Opening, Event::Opened { outcome }) => {
            let next = match outcome {
                OpenOutcome::Created => DownloadState::Fetching,
                OpenOutcome::AlreadyExists => DownloadState::Done { outcome: Outcome::Skipped },
                OpenOutcome::Failed => DownloadState::Done { outcome: Outcome::Abandoned },
            };
            Transition { state: next, warning: None }
        },
        (DownloadState::Fetching, Event::Responded { content_length }) => {
            let (expected, warning) = match content_length {
                Some(n) => {
                    let w = if n != declared {
                        Some(SizeWarning::DeclaredMismatch { declared, content_length: n })
                    } else {
                        None
                    };
                    (n, w)
                },
                None => (declared, None),
            };
            Transition { state: DownloadState::Copying { expected }, warning }
        },
        (DownloadState::Fetching, Event::FetchFailed) => Transition {
            state: DownloadState::Done { outcome: Outcome::Abandoned },
            warning: None,
        },
        (DownloadState::Copying { expected }, Event::Copied { written }) => {
            let warning = if written != expected {
                Some(SizeWarning::WrittenMismatch { expected, written })
            } else {
                None
            };
            Transition { state: DownloadState::Done { outcome: Outcome::Written }, warning }
        },
        (DownloadState::Copying { .. }, Event::CopyFailed) => Transition {
            state: DownloadState::Done { outcome: Outcome::Abandoned },
            warning: None,
        },
        _ => Transition { state, warning: None },
    }
}

/// What creating a file in "fail if it exists" mode reports in a directory
/// that holds the names `dir`, when the filesystem raises no other error.
pub open spec fn create_new_outcome(dir: Set<Seq<char>>, name: Seq<char>) -> OpenOutcome {
    if dir.contains(name) {
        OpenOutcome::AlreadyExists
    } else {
        OpenOutcome::Created
    }
}

/// The names of the files that a run over `episodes` creates in a directory
/// that holds `dir`, when the filesystem raises no error.
pub open spec fn created_by_run(dir: Set<Seq<char>>, episodes: Seq<EpisodeView>, mode: FilenameMode) -> Set<Seq<char>> {
    Set::new(|name: Seq<char>| exists|i: int| 0 <= i < episodes.len() && name == #[trigger] filename_spec(episodes[i], mode) && !dir.contains(name))
}

/// The names that a directory holds after such a run.
pub open spec fn after_run(dir: Set<Seq<char>>, episodes: Seq<EpisodeView>, mode: FilenameMode) -> Set<Seq<char>> {
    dir.union(created_by_run(dir, episodes, mode))
}

/// Running the downloads a second time over the same episodes and the same
/// directory creates no file: every target is already there, so each
/// episode's download ends skipped at its first step, without writing.
pub proof fn lemma_second_run_creates_nothing(dir: Set<Seq<char>>, episodes: Seq<EpisodeView>, mode: FilenameMode)
    ensures
        created_by_run(after_run(dir, episodes, mode), episodes, mode) =~= Set::<Seq<char>>::empty(),
        forall|i: int| 0 <= i < episodes.len() ==> {
            let name = #[trigger] filename_spec(episodes[i], mode);
            let outcome = create_new_outcome(after_run(dir, episodes, mode), name);
            &&& outcome == OpenOutcome::AlreadyExists
            &&& next_state(DownloadState::Opening, episodes[i].size, Event::Opened { outcome })
                == DownloadState::Done { outcome: Outcome::Skipped }
        },
{
    let d2 = after_run(dir, episodes, mode);
    assert forall|i: int| 0 <= i < episodes.len() implies d2.contains(#[trigger] filename_spec(episodes[i], mode)) by {
        let name = filename_spec(episodes[i], mode);
        if !dir.contains(name) {
            assert(created_by_run(dir, episodes, mode).contains(name));
        }
    }
}

} // verus!
