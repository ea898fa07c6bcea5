use vstd::prelude::*;
use vstd::string::*;

use crate::date::Date;
use crate::episode::{Episode, EpisodeView};
use crate::media::{extension_of, lemma_extension_three_ascii};
use crate::text::{
    lemma_truncate_utf8_fits, lemma_utf8_len_ascii, lemma_utf8_len_is_encoding_len, lemma_utf8_len_concat, push_char, sanitize,
    sanitized, truncate_to_bytes, truncate_utf8, utf8_len,
};

verus! {

/// The longest file name, in bytes, that common filesystems accept.
pub const MAX_FILENAME_BYTES: usize = 255;

/// How an episode's file is named.
#[derive(Clone, Copy, Debug, PartialEq, Eq, Structural)]
pub enum FilenameMode {
    /// The final path segment of the enclosure URL.
    RemoteName,
    /// `<date> - <title>.<extension>`.
    DateTitle,
}

/// The separator between the date and the title.
pub open spec fn separator() -> Seq<char> {
    seq![' ', '-', ' ']
}

/// How many bytes of the title fit beside a date of `date_len` bytes, the
/// separator, a dot and a three-letter extension.
pub open spec fn title_budget(date_len: nat) -> nat {
    (MAX_FILENAME_BYTES - date_len - 3 - 1 - 3) as nat
}

/// The `<date> - <title>.<extension>` name of an episode, its title cut so
/// that the whole name fits in the filename limit.
pub open spec fn date_title_name(e: EpisodeView) -> Seq<char> {
    let date = e.date.iso_spec();
    let title = truncate_utf8(e.title, title_budget(date.len()));
    date + separator() + sanitized(title) + seq!['.'] + extension_of(e.kind)
}

/// The file name of an episode under a naming mode.
pub open spec fn filename_spec(e: EpisodeView, mode: FilenameMode) -> Seq<char> {
    match mode {
        FilenameMode::RemoteName => sanitized(e.remote_name),
        FilenameMode::DateTitle => date_title_name(e),
    }
}

impl Episode {
    /// The file name of the episode under `mode`. It never exceeds the
    /// filename limit, and where the title is cut it is cut between two
    /// characters.
    pub fn filename(&self, mode: FilenameMode) -> (r: String)
        requires
            self@.wf(),
        ensures
            r@ == filename_spec(self@, mode),
            utf8_len(r@) <= MAX_FILENAME_BYTES,
            vstd::utf8::encode_utf8(r@).len() <= MAX_FILENAME_BYTES,
    {
        let r = match mode {
            FilenameMode::RemoteName => self.remote_filename(),
            FilenameMode::DateTitle => self.date_title_filename(),
        };
        proof {
            lemma_utf8_len_is_encoding_len(r@);
        }
        r
    }

    /// The sanitized final path segment of the enclosure URL.
    pub fn remote_filename(&self) -> (r: String)
        ensures
            r@ == sanitized(self@.remote_name),
            utf8_len(r@) <= MAX_FILENAME_BYTES,
    {
        sanitize(self.remote_name.as_str())
    }

    /// The date and title name of the episode.
    pub fn date_title_filename(&self) -> (r: String)
        requires
            self@.wf(),
        ensures
            r@ == date_title_name(self@),
            utf8_len(r@) <= MAX_FILENAME_BYTES,
    {
        let mut out = self.date.iso_text();
        let date_len = out.unicode_len();
        let budget: usize = MAX_FILENAME_BYTES - date_len - 7;
        let cut = truncate_to_bytes(self.title.as_str(), budget);
        let title = sanitize(cut.as_str());
        let ghost date_seq = out@;
        push_char(&mut out, ' ');
        push_char(&mut out, '-');
        push_char(&mut out, ' ');
        out.append(title.as_str());
        push_char(&mut out, '.');
        out.append(self.kind.extension());
        proof {
            let ext = extension_of(self.kind);
            assert(out@ =~= date_seq + separator() + title@ + seq!['.'] + ext);
            lemma_truncate_utf8_fits(self.title@, budget as nat);
            lemma_extension_three_ascii(self.kind);
            lemma_utf8_len_ascii(ext);
            let tail = seq!['.'] + ext;
            assert forall|i: int| 0 <= i < tail.len() implies (#[trigger] tail[i] as u32) < 0x80 by {
                if i > 0 {
                    assert(tail[i] == ext[i - 1]);
                }
            }
            lemma_utf8_len_ascii(tail);
            lemma_utf8_len_ascii(separator());
            lemma_utf8_len_concat(date_seq, separator());
            lemma_utf8_len_concat(date_seq + separator(), title@);
            lemma_utf8_len_concat(date_seq + separator() + title@, tail);
            assert(date_seq + separator() + title@ + seq!['.'] + ext
                =~= date_seq + separator() + title@ + tail);
        }
        out
    }
}

/// The name under which a feed is archived: `<date> - <feed title>.rss`,
/// sanitized as a whole.
pub open spec fn archive_name_spec(today: Date, feed_title: Seq<char>) -> Seq<char> {
    sanitized(today.iso_spec() + separator() + feed_title + seq!['.', 'r', 's', 's'])
}

/// The file name under which the raw feed is kept beside the downloads.
pub fn archive_filename(today: &Date, feed_title: &str) -> (r: String)
    requires
        today.wf(),
    ensures
        r@ == archive_name_spec(*today, feed_title@),
        utf8_len(r@) <= MAX_FILENAME_BYTES,
{
    let mut name = today.iso_text();
    push_char(&mut name, ' ');
    push_char(&mut name, '-');
    push_char(&mut name, ' ');
    name.append(feed_title);
    push_char(&mut name, '.');
    push_char(&mut name, 'r');
    push_char(&mut name, 's');
    push_char(&mut name, 's');
    assert(name@ =~= today.iso_spec() + separator() + feed_title@ + seq!['.', 'r', 's', 's']);
    sanitize(name.as_str())
}

} // verus!
