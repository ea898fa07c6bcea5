use std::collections::HashSet;

use poddl::config::{parse_args, ConfigError, FeedSource};
use poddl::download::{step, DownloadState, Event, OpenOutcome, Outcome, SizeWarning, Transition};
use poddl::episode::{Episode, RawEnclosure, RawItem};
use poddl::naming::FilenameMode;
use poddl::queue::EpisodeQueue;

fn numbered_episode(n: usize) -> Episode {
    let raw = RawItem {
        title: Some(format!("Episode {n}")),
        guid: None,
        enclosure: Some(RawEnclosure {
            url: format!("https://cdn.example.com/ep{n}.mp3"),
            length: "1000".to_string(),
            mime_type: "audio/mpeg".to_string(),
        }),
        pub_date: Some("Mon, 01 Jan 2024 00:00:00 GMT".to_string()),
    };
    Episode::extract(&raw).unwrap()
}

/// Drives one episode through the step machine as a worker would, against a
/// directory modelled as a set of names. Returns the outcome and warnings.
fn run_one(e: &Episode, dir: &mut HashSet<String>, mode: FilenameMode, body: u64, header: Option<u64>) -> (Outcome, Vec<SizeWarning>) {
    let name = e.filename(mode);
    let opened = if dir.contains(&name) { OpenOutcome::AlreadyExists } else { OpenOutcome::Created };
    if opened == OpenOutcome::Created {
        dir.insert(name);
    }
    let mut warnings = Vec::new();
    let mut state = DownloadState::Opening;
    let mut event = Event::Opened { outcome: opened };
    loop {
        let Transition { state: next, warning } = step(state, e.size, event);
        warnings.extend(warning);
        state = next;
        match state {
            DownloadState::Done { outcome } => return (outcome, warnings),
            DownloadState::Fetching => event = Event::Responded { content_length: header },
            DownloadState::Copying { .. } => event = Event::Copied { written: body },
            DownloadState::Opening => unreachable!(),
        }
    }
}

#[test]
fn existing_file_is_skipped() {
    let t = step(DownloadState::Opening, 1000, Event::Opened { outcome: OpenOutcome::AlreadyExists });
    assert_eq!(t.state, DownloadState::Done { outcome: Outcome::Skipped });
    assert_eq!(t.warning, None);
}

#[test]
fn header_size_mismatch_warns_and_copies_in_full() {
    let t = step(DownloadState::Fetching, 1000, Event::Responded { content_length: Some(2000) });
    assert_eq!(t.state, DownloadState::Copying { expected: 2000 });
    assert_eq!(t.warning, Some(SizeWarning::DeclaredMismatch { declared: 1000, content_length: 2000 }));
    let t = step(t.state, 1000, Event::Copied { written: 2000 });
    assert_eq!(t.state, DownloadState::Done { outcome: Outcome::Written });
    assert_eq!(t.warning, None);
}

#[test]
fn written_size_mismatch_warns() {
    let t = step(DownloadState::Fetching, 1000, Event::Responded { content_length: None });
    assert_eq!(t.state, DownloadState::Copying { expected: 1000 });
    assert_eq!(t.warning, None);
    let t = step(t.state, 1000, Event::Copied { written: 900 });
    assert_eq!(t.state, DownloadState::Done { outcome: Outcome::Written });
    assert_eq!(t.warning, Some(SizeWarning::WrittenMismatch { expected: 1000, written: 900 }));
}

#[test]
fn failures_abandon_the_episode() {
    let t = step(DownloadState::Opening, 1, Event::Opened { outcome: OpenOutcome::Failed });
    assert_eq!(t.state, DownloadState::Done { outcome: Outcome::Abandoned });
    let t = step(DownloadState::Fetching, 1, Event::FetchFailed);
    assert_eq!(t.state, DownloadState::Done { outcome: Outcome::Abandoned });
    let t = step(DownloadState::Copying { expected: 1 }, 1, Event::CopyFailed);
    assert_eq!(t.state, DownloadState::Done { outcome: Outcome::Abandoned });
}

#[test]
fn created_file_is_fetched_and_stray_events_change_nothing() {
    let t = step(DownloadState::Opening, 1, Event::Opened { outcome: OpenOutcome::Created });
    assert_eq!(t.state, DownloadState::Fetching);
    let done = DownloadState::Done { outcome: Outcome::Written };
    assert_eq!(step(done, 1, Event::FetchFailed), Transition { state: done, warning: None });
    assert_eq!(step(DownloadState::Opening, 1, Event::Copied { written: 1 }).state, DownloadState::Opening);
}

#[test]
fn second_run_writes_nothing() {
    let episodes: Vec<Episode> = (0..5).map(numbered_episode).collect();
    let mut dir: HashSet<String> = HashSet::new();
    for e in &episodes {
        assert_eq!(run_one(e, &mut dir, FilenameMode::DateTitle, 1000, Some(1000)).0, Outcome::Written);
    }
    let files_after_first = dir.len();
    assert_eq!(files_after_first, 5);
    for e in &episodes {
        assert_eq!(run_one(e, &mut dir, FilenameMode::DateTitle, 1000, Some(1000)), (Outcome::Skipped, vec![]));
    }
    assert_eq!(dir.len(), files_after_first);
}

#[test]
fn ten_episodes_three_workers_each_taken_once() {
    let episodes: Vec<Episode> = (0..10).map(numbered_episode).collect();
    let mut queue = EpisodeQueue::new(episodes);
    assert_eq!(queue.len(), 10);
    let mut taken: Vec<Vec<String>> = vec![Vec::new(), Vec::new(), Vec::new()];
    let mut worker = 0;
    let mut exited = [false; 3];
    while !exited.iter().all(|x| *x) {
        match queue.take() {
            Some(e) => taken[worker].push(e.title.clone()),
            None => exited[worker] = true,
        }
        worker = (worker + 1) % 3;
    }
    assert!(queue.is_empty());
    let mut all: Vec<String> = taken.concat();
    assert_eq!(all.len(), 10);
    assert_eq!(all[0], "Episode 9");
    all.sort();
    all.dedup();
    assert_eq!(all.len(), 10);
    assert!(taken.iter().all(|w| !w.is_empty()));
    assert!(queue.take().is_none());
}

#[test]
fn options_need_exactly_one_source_and_a_worker() {
    let dir = ".".to_string();
    assert_eq!(parse_args(None, None, dir.clone(), false, false, 2, None).unwrap_err(), ConfigError::NoSource);
    assert_eq!(
        parse_args(Some("u".to_string()), Some("f".to_string()), dir.clone(), false, false, 2, None).unwrap_err(),
        ConfigError::TwoSources
    );
    assert_eq!(parse_args(Some("u".to_string()), None, dir.clone(), false, false, 0, None).unwrap_err(), ConfigError::NoWorkers);
    assert_eq!(
        parse_args(Some("u".to_string()), None, dir.clone(), false, false, 2, Some(0)).unwrap_err(),
        ConfigError::ZeroTimeout
    );
    assert_eq!(parse_args(Some("u".to_string()), None, dir.clone(), false, false, 2, Some(30)).unwrap().timeout_secs, Some(30));
    let c = parse_args(None, Some("feed.xml".to_string()), dir.clone(), true, true, 3, None).unwrap();
    assert!(matches!(c.source, FeedSource::File { ref path } if path == "feed.xml"));
    assert_eq!(c.mode, FilenameMode::RemoteName);
    assert!(c.keep_feed);
    assert_eq!(c.workers, 3);
    let c = parse_args(Some("https://x.org/feed".to_string()), None, dir, false, false, 2, None).unwrap();
    assert!(matches!(c.source, FeedSource::Url { ref url } if url == "https://x.org/feed"));
    assert_eq!(c.mode, FilenameMode::DateTitle);
}
