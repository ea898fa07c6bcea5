use poddl::date::Date;
use poddl::episode::{Episode, RawEnclosure, RawItem};
use poddl::media::MediaKind;
use poddl::naming::{archive_filename, FilenameMode, MAX_FILENAME_BYTES};
use poddl::text::{parse_u64, str_equals, truncate_to_bytes};

fn episode_titled(title: &str, date: &str) -> Episode {
    let raw = RawItem {
        title: Some(title.to_string()),
        guid: None,
        enclosure: Some(RawEnclosure {
            url: "https://cdn.example.com/x/ep:1.m4a".to_string(),
            length: "5".to_string(),
            mime_type: "audio/x-m4a".to_string(),
        }),
        pub_date: Some(date.to_string()),
    };
    Episode::extract(&raw).unwrap()
}

#[test]
fn long_multibyte_title_is_cut_within_limit() {
    let title = "é".repeat(300);
    let e = episode_titled(&title, "Mon, 01 Jan 2024 00:00:00 GMT");
    let name = e.filename(FilenameMode::DateTitle);
    assert!(name.len() <= MAX_FILENAME_BYTES);
    assert_eq!(name, format!("2024-01-01 - {}.m4a", "é".repeat(119)));
}

#[test]
fn long_ascii_title_fills_the_limit() {
    let title = "a".repeat(400);
    let e = episode_titled(&title, "Mon, 01 Jan 2024 00:00:00 GMT");
    let name = e.filename(FilenameMode::DateTitle);
    assert_eq!(name.len(), 255);
    assert!(name.ends_with("a.m4a"));
}

#[test]
fn short_title_is_kept_whole() {
    let e = episode_titled("Short", "Fri, 05 Jul 2019 08:00:00 +0200");
    assert_eq!(e.filename(FilenameMode::DateTitle), "2019-07-05 - Short.m4a");
}

#[test]
fn remote_name_is_sanitized() {
    let e = episode_titled("T", "Fri, 05 Jul 2019 08:00:00 +0200");
    assert_eq!(e.remote_name, "ep:1.m4a");
    assert_eq!(e.filename(FilenameMode::RemoteName), "ep1.m4a");
}

#[test]
fn iso_dates() {
    assert_eq!(Date { year: 2024, month: 1, day: 1 }.iso_text(), "2024-01-01");
    assert_eq!(Date { year: 987, month: 12, day: 31 }.iso_text(), "0987-12-31");
    assert_eq!(Date { year: -5, month: 3, day: 7 }.iso_text(), "-0005-03-07");
}

#[test]
fn media_table() {
    assert_eq!(MediaKind::from_mime("audio/mpeg"), Some(MediaKind::Mp3));
    assert_eq!(MediaKind::from_mime("audio/x-m4a"), Some(MediaKind::M4a));
    assert_eq!(MediaKind::from_mime("video/quicktime"), Some(MediaKind::Mov));
    assert_eq!(MediaKind::from_mime("video/mp4"), Some(MediaKind::Mp4));
    assert_eq!(MediaKind::from_mime("video/x-m4v"), Some(MediaKind::M4v));
    assert_eq!(MediaKind::from_mime("application/pdf"), Some(MediaKind::Pdf));
    assert_eq!(MediaKind::from_mime("audio/MPEG"), None);
    assert_eq!(MediaKind::from_mime(""), None);
    assert_eq!(MediaKind::Mov.extension(), "mov");
    assert_eq!(MediaKind::Pdf.extension(), "pdf");
}

#[test]
fn decimal_sizes() {
    assert_eq!(parse_u64("1048576"), Some(1048576));
    assert_eq!(parse_u64("+5"), Some(5));
    assert_eq!(parse_u64("0"), Some(0));
    assert_eq!(parse_u64("18446744073709551615"), Some(u64::MAX));
    assert_eq!(parse_u64("18446744073709551616"), None);
    assert_eq!(parse_u64(""), None);
    assert_eq!(parse_u64("+"), None);
    assert_eq!(parse_u64("12a"), None);
    assert_eq!(parse_u64(" 1"), None);
}

#[test]
fn truncation_respects_characters() {
    assert_eq!(truncate_to_bytes("héllo", 2), "h");
    assert_eq!(truncate_to_bytes("héllo", 3), "hé");
    assert_eq!(truncate_to_bytes("héllo", 100), "héllo");
    assert_eq!(truncate_to_bytes("😀x", 3), "");
    assert_eq!(truncate_to_bytes("😀x", 4), "😀");
}

#[test]
fn string_equality() {
    assert!(str_equals("abc", "abc"));
    assert!(!str_equals("abc", "abd"));
    assert!(!str_equals("abc", "ab"));
    assert!(str_equals("", ""));
}

#[test]
fn sanitize_removes_illegal_characters_and_caps_length() {
    let today = Date { year: 2020, month: 2, day: 29 };
    assert_eq!(archive_filename(&today, "a/b:c*d?e"), "2020-02-29 - abcde.rss");
    assert_eq!(archive_filename(&today, &"x".repeat(300)).len(), 255);
}

#[test]
fn date_validity() {
    assert!(Date { year: 2024, month: 2, day: 29 }.is_valid());
    assert!(!Date { year: 2024, month: 13, day: 1 }.is_valid());
    assert!(!Date { year: 10000, month: 1, day: 1 }.is_valid());
    assert!(!Date { year: 2024, month: 1, day: 0 }.is_valid());
}

#[test]
fn archive_name() {
    let today = Date { year: 2025, month: 10, day: 21 };
    assert_eq!(archive_filename(&today, "In Our Time"), "2025-10-21 - In Our Time.rss");
    assert_eq!(archive_filename(&today, "A/B: news"), "2025-10-21 - AB news.rss");
}
