use vstd::prelude::*;

use crate::text::str_equals;

verus! {

/// The kinds of media that a podcast enclosure may carry.
#[derive(Clone, Copy, Debug, PartialEq, Eq, Structural)]
pub enum MediaKind {
    Mp3,
    M4a,
    Mov,
    Mp4,
    M4v,
    Pdf,
}

/// The fixed table from a declared MIME type to a kind of media.
pub open spec fn media_kind_of(mime: Seq<char>) -> Option<MediaKind> {
    if mime == "audio/mpeg"@ {
        Some(MediaKind::Mp3)
    } else if mime == "audio/x-m4a"@ {
        Some(MediaKind::M4a)
    } else if mime == "video/quicktime"@ {
        Some(MediaKind::Mov)
    } else if mime == "video/mp4"@ {
        Some(MediaKind::Mp4)
    } else if mime == "video/x-m4v"@ {
        Some(MediaKind::M4v)
    } else if mime == "application/pdf"@ {
        Some(MediaKind::Pdf)
    } else {
        None
    }
}

/// The file extension of each kind, without the dot.
pub open spec fn extension_of(kind: MediaKind) -> Seq<char> {
    match kind {
        MediaKind::Mp3 => "mp3"@,
        MediaKind::M4a => "m4a"@,
        MediaKind::Mov => "mov"@,
        MediaKind::Mp4 => "mp4"@,
        MediaKind::M4v => "m4v"@,
        MediaKind::Pdf => "pdf"@,
    }
}

/// Every extension is three ASCII letters.
pub proof fn lemma_extension_three_ascii(kind: MediaKind)
    ensures
        extension_of(kind).len() == 3,
        forall|i: int| 0 <= i < 3 ==> (#[trigger] extension_of(kind)[i] as u32) < 0x80,
{
    reveal_strlit("mp3");
    reveal_strlit("m4a");
    reveal_strlit("mov");
    reveal_strlit("mp4");
    reveal_strlit("m4v");
    reveal_strlit("pdf");
}

impl MediaKind {
    /// Looks up a declared MIME type in the fixed table.
    pub fn from_mime(mime: &str) -> (r: Option<MediaKind>)
        ensures
            r == media_kind_of(mime@),
    {
        if str_equals(mime, "audio/mpeg") {
            Some(MediaKind::Mp3)
        } else if str_equals(mime, "audio/x-m4a") {
            Some(MediaKind::M4a)
        } else if str_equals(mime, "video/quicktime") {
            Some(MediaKind::Mov)
        } else if str_equals(mime, "video/mp4") {
            Some(MediaKind::Mp4)
        } else if str_equals(mime, "video/x-m4v") {
            Some(MediaKind::M4v)
        } else if str_equals(mime, "application/pdf") {
            Some(MediaKind::Pdf)
        } else {
            None
        }
    }

    /// The file extension of this kind, without the dot.
    pub fn extension(&self) -> (r: &'static str)
        ensures
            r@ == extension_of(*self),
    {
        match self {
            MediaKind::Mp3 => "mp3",
            MediaKind::M4a => "m4a",
            MediaKind::Mov => "mov",
            MediaKind::Mp4 => "mp4",
            MediaKind::M4v => "m4v",
            MediaKind::Pdf => "pdf",
        }
    }
}

} // verus!
