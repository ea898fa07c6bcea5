use vstd::prelude::*;

use crate::date::{parse_rfc2822_date, rfc2822_date, Date};
use crate::media::{media_kind_of, MediaKind};
use crate::text::{decimal_u64, parse_u64, sanitize, sanitized};

verus! {

/// The enclosure of a raw feed item, as the feed writes it.
#[derive(Clone, Debug)]
pub struct RawEnclosure {
    pub url: String,
    pub length: String,
    pub mime_type: String,
}

/// One item of a feed, before validation.
#[derive(Clone, Debug)]
pub struct RawItem {
    pub title: Option<String>,
    pub guid: Option<String>,
    pub enclosure: Option<RawEnclosure>,
    pub pub_date: Option<String>,
}

/// Why a raw item could not become an episode.
#[derive(Clone, Copy, Debug, PartialEq, Eq, Structural)]
pub enum ExtractionError {
    /// Neither a title nor an identifier.
    MissingTitle,
    /// No enclosure, or one whose URL is not an absolute URL with a final
    /// path segment.
    MissingEnclosure,
    /// The enclosure's length is not an unsigned 64-bit integer.
    InvalidEnclosureSize,
    /// The enclosure's MIME type is not in the table of media kinds.
    UnsupportedMediaType,
    /// No publication date, or one that is not an RFC 2822 date.
    MissingOrInvalidDate,
}

/// A validated episode.
#[derive(Clone, Debug)]
pub struct Episode {
    /// Title, already sanitized for use in a file name.
    pub title: String,
    /// The enclosure's URL, in the URL parser's normal form.
    pub audio_url: String,
    /// The final path segment of the enclosure's URL.
    pub remote_name: String,
    /// Declared size of the enclosure in bytes.
    pub size: u64,
    /// Publication date.
    pub date: Date,
    /// Kind of media, from the enclosure's MIME type.
    pub kind: MediaKind,
}

/// What an episode holds, as mathematical values.
pub struct EpisodeView {
    pub title: Seq<char>,
    pub audio_url: Seq<char>,
    pub remote_name: Seq<char>,
    pub size: u64,
    pub date: Date,
    pub kind: MediaKind,
}

impl View for Episode {
    type V = EpisodeView;

    open spec fn view(&self) -> EpisodeView {
        EpisodeView {
            title: self.title@,
            audio_url: self.audio_url@,
            remote_name: self.remote_name@,
            size: self.size,
            date: self.date,
            kind: self.kind,
        }
    }
}

impl EpisodeView {
    /// What every episode keeps to.
    pub open spec fn wf(&self) -> bool {
        &&& self.date.wf()
        &&& self.remote_name.len() > 0
    }
}

/// The view of an optional string.
pub open spec fn opt_view(o: Option<String>) -> Option<Seq<char>> {
    match o {
        Some(s) => Some(s@),
        None => None,
    }
}

/// What `url::Url::parse` makes of a text: `None` where it rejects it, else
/// the URL's serialization and, unless the URL cannot be a base, its final
/// path segment.
pub uninterp spec fn url_parts(s: Seq<char>) -> Option<(Seq<char>, Option<Seq<char>>)>;

/// Relies on `url::Url::parse`, `Url::as_str` and `Url::path_segments`: the
/// parser decides from the text alone, and the final path segment is there
/// exactly when the URL has segments.
#[verifier::external_body]
fn parse_url(s: &str) -> (r: Option<(String, Option<String>)>)
    ensures
        r matches Some(p) ==> url_parts(s@) == Some((p.0@, opt_view(p.1))),
        r is None ==> url_parts(s@) is None,
{
    url::Url::parse(s).ok().map(
        |u| (u.as_str().to_string(), u.path_segments().and_then(|mut p| p.next_back()).map(|x| x.to_string())),
    )
}

/// The title that an item is known by: its title if non-empty, else its
/// identifier if non-empty.
pub open spec fn chosen_title(item: RawItem) -> Option<Seq<char>> {
    if item.title is Some && item.title->0@.len() > 0 {
        Some(item.title->0@)
    } else if item.guid is Some && item.guid->0@.len() > 0 {
        Some(item.guid->0@)
    } else {
        None
    }
}

/// The final path segment of an enclosure URL, where it is a usable name.
pub open spec fn remote_segment(url: Seq<char>) -> Option<Seq<char>> {
    match url_parts(url) {
        Some((_, Some(seg))) => if seg.len() > 0 { Some(seg) } else { None },
        _ => None,
    }
}

/// The episode that an item describes, or the first reason it does not.
pub open spec fn extract_spec(item: RawItem) -> Result<EpisodeView, ExtractionError> {
    if chosen_title(item) is None {
        Err(ExtractionError::MissingTitle)
    } else if item.enclosure is None {
        Err(ExtractionError::MissingEnclosure)
    } else {
        let enc = item.enclosure->0;
        if remote_segment(enc.url@) is None {
            Err(ExtractionError::MissingEnclosure)
        } else if decimal_u64(enc.length@) is None {
            Err(ExtractionError::InvalidEnclosureSize)
        } else if media_kind_of(enc.mime_type@) is None {
            Err(ExtractionError::UnsupportedMediaType)
        } else if item.pub_date is None || rfc2822_date(item.pub_date->0@) is None {
            Err(ExtractionError::MissingOrInvalidDate)
        } else {
            let (y, m, d) = rfc2822_date(item.pub_date->0@)->0;
            let (serialized, _) = url_parts(enc.url@)->0;
            Ok(EpisodeView {
                title: sanitized(chosen_title(item)->0),
                audio_url: serialized,
                remote_name: remote_segment(enc.url@)->0,
                size: decimal_u64(enc.length@)->0,
                date: Date { year: y, month: m, day: d },
                kind: media_kind_of(enc.mime_type@)->0,
            })
        }
    }
}

/// The view of an extraction result.
pub open spec fn result_view(r: Result<Episode, ExtractionError>) -> Result<EpisodeView, ExtractionError> {
    match r {
        Ok(e) => Ok(e@),
        Err(err) => Err(err),
    }
}

impl Episode {
    /// Validates one raw item into an episode.
    pub fn extract(item: &RawItem) -> (r: Result<Episode, ExtractionError>)
        ensures
            result_view(r) == extract_spec(*item),
            r matches Ok(e) ==> e@.wf(),
    {
        let title: &String = match &item.title {
            Some(t) if t.unicode_len() > 0 => t,
            _ => match &item.guid {
                Some(g) if g.unicode_len() > 0 => g,
                _ => return Err(ExtractionError::MissingTitle),
            },
        };
        let enc = match &item.enclosure {
            Some(e) => e,
            None => return Err(ExtractionError::MissingEnclosure),
        };
        let (audio_url, remote_name) = match parse_url(enc.url.as_str()) {
            Some((u, Some(seg))) if seg.unicode_len() > 0 => (u, seg),
            _ => return Err(ExtractionError::MissingEnclosure),
        };
        let size = match parse_u64(enc.length.as_str()) {
            Some(n) => n,
            None => return Err(ExtractionError::InvalidEnclosureSize),
        };
        let kind = match MediaKind::from_mime(enc.mime_type.as_str()) {
            Some(k) => k,
            None => return Err(ExtractionError::UnsupportedMediaType),
        };
        let date = match &item.pub_date {
            Some(pd) => match parse_rfc2822_date(pd.as_str()) {
                Some(d) => d,
                None => return Err(ExtractionError::MissingOrInvalidDate),
            },
            None => return Err(ExtractionError::MissingOrInvalidDate),
        };
        let title = sanitize(title.as_str());
        let e = Episode { title, audio_url, remote_name, size, date, kind };
        assert(result_view(Ok(e)) == extract_spec(*item));
        Ok(e)
    }
}

/// The episodes that a run of items yields, in order, skipping each item
/// that fails.
pub open spec fn extracted(items: Seq<RawItem>) -> Seq<EpisodeView>
    decreases items.len(),
{
    if items.len() == 0 {
        Seq::empty()
    } else {
        let rest = extracted(items.drop_last());
        match extract_spec(items.last()) {
            Ok(e) => rest.push(e),
            Err(_) => rest,
        }
    }
}

/// The failures of a run of items, each with the item's position, in order.
pub open spec fn extraction_failures(items: Seq<RawItem>) -> Seq<(usize, ExtractionError)>
    decreases items.len(),
{
    if items.len() == 0 {
        Seq::empty()
    } else {
        let rest = extraction_failures(items.drop_last());
        match extract_spec(items.last()) {
            Ok(_) => rest,
            Err(err) => rest.push(((items.len() - 1) as usize, err)),
        }
    }
}

/// The views of a run of episodes.
pub open spec fn episode_views(v: Seq<Episode>) -> Seq<EpisodeView> {
    v.map_values(|e: Episode| e@)
}

/// Validates every item of a feed. An item that fails is reported with its
/// position and does not stop the others.
pub fn extract_episodes(items: &Vec<RawItem>) -> (r: (Vec<Episode>, Vec<(usize, ExtractionError)>))
    ensures
        episode_views(r.0@) == extracted(items@),
        r.1@ == extraction_failures(items@),
        forall|i: int| 0 <= i < r.0@.len() ==> (#[trigger] r.0@[i])@.wf(),
{
    let mut episodes: Vec<Episode> = Vec::new();
    let mut failures: Vec<(usize, ExtractionError)> = Vec::new();
    let mut i: usize = 0;
    while i < items.len()
        invariant
            i <= items@.len(),
            episode_views(episodes@) == extracted(items@.take(i as int)),
            failures@ == extraction_failures(items@.take(i as int)),
            forall|j: int| 0 <= j < episodes@.len() ==> (#[trigger] episodes@[j])@.wf(),
        decreases items@.len() - i,
    {
        let ghost before = episodes@;
        assert(items@.take(i + 1).drop_last() =~= items@.take(i as int));
        match Episode::extract(&items[i]) {
            Ok(e) => {
                episodes.push(e);
                assert(episode_views(episodes@) =~= episode_views(before).push(e@));
            },
            Err(err) => {
                failures.push((i, err));
            },
        }
        i = i + 1;
    }
    assert(items@.take(i as int) =~= items@);
    (episodes, failures)
}

/// Extracting a run of items is extracting each part of it in turn.
pub proof fn lemma_extracted_concat(a: Seq<RawItem>, b: Seq<RawItem>)
    ensures
        extracted(a + b) == extracted(a) + extracted(b),
    decreases b.len(),
{
    if b.len() == 0 {
        assert(a + b =~= a);
        assert(extracted(a) + extracted(b) =~= extracted(a));
    } else {
        assert((a + b).drop_last() =~= a + b.drop_last());
        lemma_extracted_concat(a, b.drop_last());
        match extract_spec(b.last()) {
            Ok(e) => {
                assert(extracted(a) + extracted(b.drop_last()).push(e)
                    =~= (extracted(a) + extracted(b.drop_last())).push(e));
            },
            Err(_) => {},
        }
    }
}

/// Every item that is valid, whose MIME type is in the table, whose
/// enclosure URL has a non-empty final segment and whose size and date
/// parse, becomes an episode with a non-empty title, provided its title
/// does not sanitize to nothing.
pub proof fn lemma_valid_item_extracts(item: RawItem)
    requires
        chosen_title(item) is Some,
        item.enclosure is Some,
        remote_segment(item.enclosure->0.url@) is Some,
        decimal_u64(item.enclosure->0.length@) is Some,
        media_kind_of(item.enclosure->0.mime_type@) is Some,
        item.pub_date is Some,
        rfc2822_date(item.pub_date->0@) is Some,
        sanitized(chosen_title(item)->0).len() > 0,
    ensures
        extract_spec(item) matches Ok(e) && e.title.len() > 0,
{
}

/// An item with neither a title nor an identifier fails with
/// `MissingTitle`, and no episode comes of it.
pub proof fn lemma_untitled_item_fails(item: RawItem)
    requires
        item.title is None || item.title->0@.len() == 0,
        item.guid is None || item.guid->0@.len() == 0,
    ensures
        extract_spec(item) == Err::<EpisodeView, ExtractionError>(ExtractionError::MissingTitle),
        extracted(seq![item]).len() == 0,
{
    let x = seq![item];
    assert(x.drop_last() =~= Seq::<RawItem>::empty());
    assert(x.last() == item);
    assert(extracted(x.drop_last()).len() == 0);
}

/// An item whose MIME type is not in the table fails, and the rest of a
/// batch yields exactly what it would without that item.
pub proof fn lemma_unsupported_item_skipped(items: Seq<RawItem>, i: int)
    requires
        0 <= i < items.len(),
        items[i].enclosure is Some,
        media_kind_of(items[i].enclosure->0.mime_type@) is None,
    ensures
        extract_spec(items[i]) is Err,
        extracted(items) == extracted(items.remove(i)),
{
    let a = items.take(i);
    let b = items.skip(i + 1);
    let x = seq![items[i]];
    assert(items =~= a + x + b);
    assert(items.remove(i) =~= a + b);
    lemma_extracted_concat(a + x, b);
    lemma_extracted_concat(a, x);
    lemma_extracted_concat(a, b);
    assert(x.drop_last() =~= Seq::<RawItem>::empty());
    assert(x.last() == items[i]);
    assert(extracted(x.drop_last()).len() == 0);
    assert(extracted(x).len() == 0);
    assert(extracted(a) + extracted(x) =~= extracted(a));
}

} // verus!
