//! Media classification logic.
//!
//! The file transfer and metadata extraction around media imports are I/O
//! and live outside this crate; what lives here is the pure logic those
//! imports rest on: mapping MIME types to media categories, directories
//! and file extensions, and turning an import descriptor into block
//! content.

use vstd::prelude::*;

use crate::models::block::BlockContent;
use crate::models::common::fresh_id;
use crate::text::char_index;
use crate::text::index_of_char;
use crate::text::lemma_char_index;
use crate::text::str_eq;
use crate::text::starts_with_str;
use crate::text::trim_spec;
use crate::text::trim_str;

verus! {

/// Media type classification.
#[derive(Debug, Clone, Copy, PartialEq, Eq, Structural)]
pub enum MediaType {
    Image,
    Video,
    Audio,
}

/// The media category a MIME type falls in, by its prefix.
pub open spec fn spec_media_type_of(m: Seq<char>) -> Option<MediaType> {
    if "image/"@.is_prefix_of(m) {
        Some(MediaType::Image)
    } else if "video/"@.is_prefix_of(m) {
        Some(MediaType::Video)
    } else if "audio/"@.is_prefix_of(m) {
        Some(MediaType::Audio)
    } else {
        None
    }
}

/// The subdirectory imported media of each type is stored under.
pub open spec fn spec_subdir(mt: MediaType) -> Seq<char> {
    match mt {
        MediaType::Image => "images"@,
        MediaType::Video => "videos"@,
        MediaType::Audio => "audio"@,
    }
}

impl MediaType {
    /// Get the subdirectory name for this media type.
    pub fn subdir(&self) -> (r: &'static str)
        ensures
            r@ == spec_subdir(*self),
    {
        match self {
            MediaType::Image => "images",
            MediaType::Video => "videos",
            MediaType::Audio => "audio",
        }
    }

    /// Detect the media type from a MIME type string.
    pub fn from_mime(mime: &str) -> (r: Option<Self>)
        ensures
            r == spec_media_type_of(mime@),
    {
        if starts_with_str(mime, "image/") {
            Some(MediaType::Image)
        } else if starts_with_str(mime, "video/") {
            Some(MediaType::Video)
        } else if starts_with_str(mime, "audio/") {
            Some(MediaType::Audio)
        } else {
            None
        }
    }
}

/// The preferred file extension for a MIME type, when one is known.
pub open spec fn spec_ext_for_mime(m: Seq<char>) -> Option<Seq<char>> {
    if m == "image/jpeg"@ {
        Some("jpg"@)
    } else if m == "image/png"@ {
        Some("png"@)
    } else if m == "image/gif"@ {
        Some("gif"@)
    } else if m == "image/webp"@ {
        Some("webp"@)
    } else if m == "image/svg+xml"@ {
        Some("svg"@)
    } else if m == "video/mp4"@ {
        Some("mp4"@)
    } else if m == "video/webm"@ {
        Some("webm"@)
    } else if m == "video/quicktime"@ {
        Some("mov"@)
    } else if m == "video/x-msvideo"@ {
        Some("avi"@)
    } else if m == "audio/mpeg"@ {
        Some("mp3"@)
    } else if m == "audio/ogg"@ {
        Some("ogg"@)
    } else if m == "audio/wav"@ {
        Some("wav"@)
    } else if m == "audio/webm"@ {
        Some("webm"@)
    } else if m == "audio/flac"@ {
        Some("flac"@)
    } else {
        None
    }
}

/// Map a MIME type to the file extension imported media is stored under.
pub fn get_extension_for_mime(mime: &str) -> (r: Option<&'static str>)
    ensures
        match r {
            Some(e) => spec_ext_for_mime(mime@) == Some(e@),
            None => spec_ext_for_mime(mime@) is None,
        },
{
    if str_eq(mime, "image/jpeg") {
        Some("jpg")
    } else if str_eq(mime, "image/png") {
        Some("png")
    } else if str_eq(mime, "image/gif") {
        Some("gif")
    } else if str_eq(mime, "image/webp") {
        Some("webp")
    } else if str_eq(mime, "image/svg+xml") {
        Some("svg")
    } else if str_eq(mime, "video/mp4") {
        Some("mp4")
    } else if str_eq(mime, "video/webm") {
        Some("webm")
    } else if str_eq(mime, "video/quicktime") {
        Some("mov")
    } else if str_eq(mime, "video/x-msvideo") {
        Some("avi")
    } else if str_eq(mime, "audio/mpeg") {
        Some("mp3")
    } else if str_eq(mime, "audio/ogg") {
        Some("ogg")
    } else if str_eq(mime, "audio/wav") {
        Some("wav")
    } else if str_eq(mime, "audio/webm") {
        Some("webm")
    } else if str_eq(mime, "audio/flac") {
        Some("flac")
    } else {
        None
    }
}

/// The MIME type named by a Content-Type header value: the part before
/// any parameters, without surrounding whitespace.
pub open spec fn spec_primary_mime(h: Seq<char>) -> Seq<char> {
    trim_spec(h.take(char_index(h, ';')))
}

/// Extract the bare MIME type from a Content-Type header value, dropping
/// parameters such as a charset.
pub fn primary_mime(header: &str) -> (r: String)
    ensures
        r@ == spec_primary_mime(header@),
{
    proof {
        lemma_char_index(header@, ';');
    }
    let cut = index_of_char(header, ';');
    let head = header.substring_char(0, cut);
    trim_str(head)
}

/// Build the relative storage path for a newly imported media file: the
/// media type's subdirectory, a fresh identifier, and the extension.
pub fn media_file_name(media_type: MediaType, extension: &str) -> (r: String)
    ensures
        exists|id: Seq<char>|
            id.len() == 36 && r@ == spec_subdir(media_type) + "/"@ + id + "."@ + extension@,
{
    let mut name = media_type.subdir().to_owned();
    name.append("/");
    let id = fresh_id();
    name.append(id.as_str());
    name.append(".");
    name.append(extension);
    proof {
        assert(id@.len() == 36 && name@ == spec_subdir(media_type) + "/"@ + id@ + "."@
            + extension@);
    }
    name
}

/// Information about an imported media file.
#[derive(Debug)]
pub struct MediaInfo {
    /// Relative path within the media directory, e.g. "images/{id}.jpg".
    pub file_path: String,
    /// MIME type of the file.
    pub mime_type: String,
    /// Image or video width in pixels (None for audio).
    pub width: Option<u32>,
    /// Image or video height in pixels (None for audio).
    pub height: Option<u32>,
    /// Duration in milliseconds (for video and audio).
    pub duration_millis: Option<u64>,
    /// Original URL if imported from the web.
    pub original_url: Option<String>,
}

/// What [`MediaInfo::into_block_content`] builds: the content variant the
/// descriptor's MIME category selects, an image when the category is
/// unknown.
pub open spec fn spec_into_block_content(mi: MediaInfo) -> BlockContent {
    match spec_media_type_of(mi.mime_type@) {
        Some(MediaType::Video) => BlockContent::Video {
            file_path: mi.file_path,
            original_url: mi.original_url,
            width: mi.width,
            height: mi.height,
            duration_millis: mi.duration_millis,
            mime_type: mi.mime_type,
            alt_text: None,
        },
        Some(MediaType::Audio) => BlockContent::Audio {
            file_path: mi.file_path,
            original_url: mi.original_url,
            duration_millis: mi.duration_millis,
            mime_type: mi.mime_type,
            title: None,
            artist: None,
        },
        _ => BlockContent::Image {
            file_path: mi.file_path,
            original_url: mi.original_url,
            width: mi.width,
            height: mi.height,
            mime_type: mi.mime_type,
            alt_text: None,
        },
    }
}

impl MediaInfo {
    /// Convert this media descriptor into a block content variant.
    pub fn into_block_content(self) -> (r: BlockContent)
        ensures
            r == spec_into_block_content(self),
    {
        let media_type = MediaType::from_mime(self.mime_type.as_str());
        match media_type {
            Some(MediaType::Video) => BlockContent::Video {
                file_path: self.file_path,
                original_url: self.original_url,
                width: self.width,
                height: self.height,
                duration_millis: self.duration_millis,
                mime_type: self.mime_type,
                alt_text: None,
            },
            Some(MediaType::Audio) => BlockContent::Audio {
                file_path: self.file_path,
                original_url: self.original_url,
                duration_millis: self.duration_millis,
                mime_type: self.mime_type,
                title: None,
                artist: None,
            },
            _ => BlockContent::Image {
                file_path: self.file_path,
                original_url: self.original_url,
                width: self.width,
                height: self.height,
                mime_type: self.mime_type,
                alt_text: None,
            },
        }
    }
}

} // verus!
