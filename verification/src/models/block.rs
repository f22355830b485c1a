//! Block model - a piece of content that can be connected to channels.

use vstd::prelude::*;

use crate::models::channel::clone_opt_string;
use crate::models::common::FieldUpdate;
use crate::models::common::fresh_id;
use crate::models::common::now_millis;
use crate::text::char_index;
use crate::text::index_of_char;

verus! {

/// Unique identifier for a block.
#[derive(Debug, Eq, Hash)]
pub struct BlockId(pub String);

impl BlockId {
    /// Create a new block ID.
    pub fn new() -> (r: Self)
        ensures
            r.0@.len() == 36,
    {
        Self(fresh_id())
    }

    /// Create a block ID from an existing string.
    pub fn from_string(s: String) -> (r: Self)
        ensures
            r.0 == s,
    {
        Self(s)
    }
}

impl Clone for BlockId {
    fn clone(&self) -> (r: Self)
        ensures
            r == *self,
    {
        Self(self.0.clone())
    }
}

impl PartialEq for BlockId {
    fn eq(&self, other: &BlockId) -> bool {
        self.0 == other.0
    }
}

impl vstd::std_specs::cmp::PartialEqSpecImpl for BlockId {
    open spec fn obeys_eq_spec() -> bool {
        true
    }

    open spec fn eq_spec(&self, other: &BlockId) -> bool {
        self.0@ == other.0@
    }
}

impl Default for BlockId {
    fn default() -> (r: Self)
        ensures
            r.0@.len() == 36,
    {
        Self::new()
    }
}

/// The content of a block.
///
/// Supports Text, Link, Image, Video, and Audio types.
#[derive(Debug)]
pub enum BlockContent {
    /// Plain text content.
    Text {
        /// The text body.
        body: String,
    },
    /// A link to an external resource.
    Link {
        /// The URL.
        url: String,
        /// Optional title (often extracted from the page).
        title: Option<String>,
        /// Optional description (often extracted from meta tags).
        description: Option<String>,
        /// Alt text for accessibility.
        alt_text: Option<String>,
    },
    /// An image stored locally.
    Image {
        /// Relative path within the media directory: "images/{id}.{ext}"
        file_path: String,
        /// Original URL where the image was downloaded from.
        original_url: Option<String>,
        /// Image width in pixels.
        width: Option<u32>,
        /// Image height in pixels.
        height: Option<u32>,
        /// MIME type: "image/jpeg", "image/png", etc.
        mime_type: String,
        /// Alt text for accessibility.
        alt_text: Option<String>,
    },
    /// A video stored locally.
    Video {
        /// Relative path within the media directory: "videos/{id}.{ext}"
        file_path: String,
        /// Original URL where the video was downloaded from.
        original_url: Option<String>,
        /// Video width in pixels.
        width: Option<u32>,
        /// Video height in pixels.
        height: Option<u32>,
        /// Duration in milliseconds.
        duration_millis: Option<u64>,
        /// MIME type: "video/mp4", "video/webm", etc.
        mime_type: String,
        /// Alt text for accessibility.
        alt_text: Option<String>,
    },
    /// An audio file stored locally.
    Audio {
        /// Relative path within the media directory: "audio/{id}.{ext}"
        file_path: String,
        /// Original URL where the audio was downloaded from.
        original_url: Option<String>,
        /// Duration in milliseconds.
        duration_millis: Option<u64>,
        /// MIME type: "audio/mpeg", "audio/ogg", etc.
        mime_type: String,
        /// Title from tags or filename.
        title: Option<String>,
        /// Artist from tags.
        artist: Option<String>,
    },
}

/// The first line of `s`: everything before the first newline, without the
/// carriage return that precedes the newline in a CRLF line ending.
pub open spec fn spec_first_line(s: Seq<char>) -> Seq<char> {
    let n = char_index(s, '\n');
    if n < s.len() && n > 0 && s[n - 1] == '\r' {
        s.take(n - 1)
    } else {
        s.take(n)
    }
}

/// What [`BlockContent::display_title`] returns: the first line of a text
/// body truncated to 50 characters, a link's title or else its URL, a
/// media item's alt text (or, for audio, title, then artist) or else its
/// file path.
pub open spec fn spec_display_title(c: &BlockContent) -> Seq<char> {
    match c {
        BlockContent::Text { body } => {
            let line = spec_first_line(body@);
            if line.len() > 50 {
                line.take(50)
            } else {
                line
            }
        },
        BlockContent::Link { url, title, .. } => match title {
            Some(t) => t@,
            None => url@,
        },
        BlockContent::Image { alt_text, file_path, .. } => match alt_text {
            Some(a) => a@,
            None => file_path@,
        },
        BlockContent::Video { alt_text, file_path, .. } => match alt_text {
            Some(a) => a@,
            None => file_path@,
        },
        BlockContent::Audio { title, artist, file_path, .. } => match title {
            Some(t) => t@,
            None => match artist {
                Some(a) => a@,
                None => file_path@,
            },
        },
    }
}

impl BlockContent {
    /// Create text content.
    pub fn text(body: String) -> (r: Self)
        ensures
            r == (BlockContent::Text { body }),
    {
        Self::Text { body }
    }

    /// Create link content.
    pub fn link(url: String) -> (r: Self)
        ensures
            r == (BlockContent::Link { url, title: None, description: None, alt_text: None }),
    {
        Self::Link { url, title: None, description: None, alt_text: None }
    }

    /// Create link content with metadata.
    pub fn link_with_meta(
        url: String,
        title: Option<String>,
        description: Option<String>,
        alt_text: Option<String>,
    ) -> (r: Self)
        ensures
            r == (BlockContent::Link { url, title, description, alt_text }),
    {
        Self::Link { url, title, description, alt_text }
    }

    /// Create image content.
    pub fn image(file_path: String, mime_type: String) -> (r: Self)
        ensures
            r == (BlockContent::Image {
                file_path,
                original_url: None,
                width: None,
                height: None,
                mime_type,
                alt_text: None,
            }),
    {
        Self::Image {
            file_path,
            original_url: None,
            width: None,
            height: None,
            mime_type,
            alt_text: None,
        }
    }

    /// Create image content with full metadata.
    pub fn image_with_meta(
        file_path: String,
        mime_type: String,
        original_url: Option<String>,
        width: Option<u32>,
        height: Option<u32>,
        alt_text: Option<String>,
    ) -> (r: Self)
        ensures
            r == (BlockContent::Image {
                file_path,
                original_url,
                width,
                height,
                mime_type,
                alt_text,
            }),
    {
        Self::Image { file_path, original_url, width, height, mime_type, alt_text }
    }

    /// Create video content.
    pub fn video(file_path: String, mime_type: String) -> (r: Self)
        ensures
            r == (BlockContent::Video {
                file_path,
                original_url: None,
                width: None,
                height: None,
                duration_millis: None,
                mime_type,
                alt_text: None,
            }),
    {
        Self::Video {
            file_path,
            original_url: None,
            width: None,
            height: None,
            duration_millis: None,
            mime_type,
            alt_text: None,
        }
    }

    /// Create video content with full metadata.
    pub fn video_with_meta(
        file_path: String,
        mime_type: String,
        original_url: Option<String>,
        width: Option<u32>,
        height: Option<u32>,
        duration_millis: Option<u64>,
        alt_text: Option<String>,
    ) -> (r: Self)
        ensures
            r == (BlockContent::Video {
                file_path,
                original_url,
                width,
                height,
                duration_millis,
                mime_type,
                alt_text,
            }),
    {
        Self::Video { file_path, original_url, width, height, duration_millis, mime_type, alt_text }
    }

    /// Create audio content.
    pub fn audio(file_path: String, mime_type: String) -> (r: Self)
        ensures
            r == (BlockContent::Audio {
                file_path,
                original_url: None,
                duration_millis: None,
                mime_type,
                title: None,
                artist: None,
            }),
    {
        Self::Audio {
            file_path,
            original_url: None,
            duration_millis: None,
            mime_type,
            title: None,
            artist: None,
        }
    }

    /// Create audio content with full metadata.
    pub fn audio_with_meta(
        file_path: String,
        mime_type: String,
        original_url: Option<String>,
        duration_millis: Option<u64>,
        title: Option<String>,
        artist: Option<String>,
    ) -> (r: Self)
        ensures
            r == (BlockContent::Audio {
                file_path,
                original_url,
                duration_millis,
                mime_type,
                title,
                artist,
            }),
    {
        Self::Audio { file_path, original_url, duration_millis, mime_type, title, artist }
    }

    /// Get a display title for the block content.
    pub fn display_title(&self) -> (r: String)
        ensures
            r@ == spec_display_title(self),
    {
        match self {
            Self::Text { body } => {
                proof {
                    crate::text::lemma_char_index(body@, '\n');
                }
                let nl = index_of_char(body.as_str(), '\n');
                let len = body.as_str().unicode_len();
                let line_end: usize = if nl < len && nl > 0 && body.as_str().get_char(nl - 1)
                    == '\r' {
                    nl - 1
                } else {
                    nl
                };
                let end: usize = if line_end > 50 {
                    50
                } else {
                    line_end
                };
                proof {
                    let line = spec_first_line(body@);
                    assert(line == body@.take(line_end as int));
                    if line.len() > 50 {
                        assert(body@.subrange(0, end as int) =~= line.take(50));
                    } else {
                        assert(body@.subrange(0, end as int) =~= line);
                    }
                }
                body.as_str().substring_char(0, end).to_owned()
            },
            Self::Link { title, url, .. } => match title {
                Some(t) => t.clone(),
                None => url.clone(),
            },
            Self::Image { alt_text, file_path, .. } => match alt_text {
                Some(a) => a.clone(),
                None => file_path.clone(),
            },
            Self::Video { alt_text, file_path, .. } => match alt_text {
                Some(a) => a.clone(),
                None => file_path.clone(),
            },
            Self::Audio { title, artist, file_path, .. } => match title {
                Some(t) => t.clone(),
                None => match artist {
                    Some(a) => a.clone(),
                    None => file_path.clone(),
                },
            },
        }
    }

    /// Returns true if this content is a media type (Image, Video, or Audio).
    pub fn is_media(&self) -> (r: bool)
        ensures
            r == (*self is Image || *self is Video || *self is Audio),
    {
        matches!(self, Self::Image { .. } | Self::Video { .. } | Self::Audio { .. })
    }

    /// The file path carried by a media variant, `None` for text and links.
    pub open spec fn spec_file_path(&self) -> Option<Seq<char>> {
        match self {
            BlockContent::Image { file_path, .. } => Some(file_path@),
            BlockContent::Video { file_path, .. } => Some(file_path@),
            BlockContent::Audio { file_path, .. } => Some(file_path@),
            _ => None,
        }
    }

    /// Get the file path if this is a media type.
    pub fn file_path(&self) -> (r: Option<&str>)
        ensures
            match r {
                Some(p) => self.spec_file_path() == Some(p@),
                None => self.spec_file_path() is None,
            },
    {
        match self {
            Self::Image { file_path, .. } => Some(file_path.as_str()),
            Self::Video { file_path, .. } => Some(file_path.as_str()),
            Self::Audio { file_path, .. } => Some(file_path.as_str()),
            _ => None,
        }
    }

    /// The MIME type carried by a media variant, `None` for text and links.
    pub open spec fn spec_mime_type(&self) -> Option<Seq<char>> {
        match self {
            BlockContent::Image { mime_type, .. } => Some(mime_type@),
            BlockContent::Video { mime_type, .. } => Some(mime_type@),
            BlockContent::Audio { mime_type, .. } => Some(mime_type@),
            _ => None,
        }
    }

    /// Get the MIME type if this is a media type.
    pub fn mime_type(&self) -> (r: Option<&str>)
        ensures
            match r {
                Some(m) => self.spec_mime_type() == Some(m@),
                None => self.spec_mime_type() is None,
            },
    {
        match self {
            Self::Image { mime_type, .. } => Some(mime_type.as_str()),
            Self::Video { mime_type, .. } => Some(mime_type.as_str()),
            Self::Audio { mime_type, .. } => Some(mime_type.as_str()),
            _ => None,
        }
    }
}

impl Clone for BlockContent {
    fn clone(&self) -> (r: Self)
        ensures
            r == *self,
    {
        match self {
            Self::Text { body } => Self::Text { body: body.clone() },
            Self::Link { url, title, description, alt_text } => Self::Link {
                url: url.clone(),
                title: clone_opt_string(title),
                description: clone_opt_string(description),
                alt_text: clone_opt_string(alt_text),
            },
            Self::Image { file_path, original_url, width, height, mime_type, alt_text } => Self::Image {
                file_path: file_path.clone(),
                original_url: clone_opt_string(original_url),
                width: *width,
                height: *height,
                mime_type: mime_type.clone(),
                alt_text: clone_opt_string(alt_text),
            },
            Self::Video {
                file_path,
                original_url,
                width,
                height,
                duration_millis,
                mime_type,
                alt_text,
            } => Self::Video {
                file_path: file_path.clone(),
                original_url: clone_opt_string(original_url),
                width: *width,
                height: *height,
                duration_millis: *duration_millis,
                mime_type: mime_type.clone(),
                alt_text: clone_opt_string(alt_text),
            },
            Self::Audio { file_path, original_url, duration_millis, mime_type, title, artist } => Self::Audio {
                file_path: file_path.clone(),
                original_url: clone_opt_string(original_url),
                duration_millis: *duration_millis,
                mime_type: mime_type.clone(),
                title: clone_opt_string(title),
                artist: clone_opt_string(artist),
            },
        }
    }
}

/// A block is a piece of content that can be connected to multiple channels.
///
/// Timestamps are milliseconds since the Unix epoch.
#[derive(Debug)]
pub struct Block {
    /// Unique identifier.
    pub id: BlockId,
    /// The block's content.
    pub content: BlockContent,
    /// When the block was created (archived).
    pub created_at: i64,
    /// When the block was last updated.
    pub updated_at: i64,
    /// Original URL where content was curated from.
    pub source_url: Option<String>,
    /// Custom display text for the source link.
    pub source_title: Option<String>,
    /// Author or artist of the original content.
    pub creator: Option<String>,
    /// Original publication date (flexible format string).
    pub original_date: Option<String>,
    /// User's personal notes about this block.
    pub notes: Option<String>,
}

impl Block {
    /// Create a new block with the given content.
    pub fn new(content: BlockContent) -> (r: Self)
        ensures
            r.id.0@.len() == 36,
            r.content == content,
            r.created_at == r.updated_at,
            r.source_url is None,
            r.source_title is None,
            r.creator is None,
            r.original_date is None,
            r.notes is None,
    {
        let now = now_millis();
        Self {
            id: BlockId::new(),
            content,
            created_at: now,
            updated_at: now,
            source_url: None,
            source_title: None,
            creator: None,
            original_date: None,
            notes: None,
        }
    }

    /// Create a new text block.
    pub fn text(body: String) -> (r: Self)
        ensures
            r.content == (BlockContent::Text { body }),
            r.source_url is None,
    {
        Self::new(BlockContent::text(body))
    }

    /// Create a new link block.
    pub fn link(url: String) -> (r: Self)
        ensures
            r.content == (BlockContent::Link { url, title: None, description: None, alt_text: None }),
            r.source_url is None,
    {
        Self::new(BlockContent::link(url))
    }

    /// Create a new image block.
    pub fn image(file_path: String, mime_type: String) -> (r: Self)
        ensures
            r.content == (BlockContent::Image {
                file_path,
                original_url: None,
                width: None,
                height: None,
                mime_type,
                alt_text: None,
            }),
    {
        Self::new(BlockContent::image(file_path, mime_type))
    }

    /// Create a new video block.
    pub fn video(file_path: String, mime_type: String) -> (r: Self)
        ensures
            r.content == (BlockContent::Video {
                file_path,
                original_url: None,
                width: None,
                height: None,
                duration_millis: None,
                mime_type,
                alt_text: None,
            }),
    {
        Self::new(BlockContent::video(file_path, mime_type))
    }

    /// Create a new audio block.
    pub fn audio(file_path: String, mime_type: String) -> (r: Self)
        ensures
            r.content == (BlockContent::Audio {
                file_path,
                original_url: None,
                duration_millis: None,
                mime_type,
                title: None,
                artist: None,
            }),
    {
        Self::new(BlockContent::audio(file_path, mime_type))
    }

    /// Get the display title for this block.
    pub fn display_title(&self) -> (r: String)
        ensures
            r@ == spec_display_title(&self.content),
    {
        self.content.display_title()
    }

    /// Returns true if this block contains media content.
    pub fn is_media(&self) -> (r: bool)
        ensures
            r == (self.content is Image || self.content is Video || self.content is Audio),
    {
        self.content.is_media()
    }
}

impl Clone for Block {
    fn clone(&self) -> (r: Self)
        ensures
            r == *self,
    {
        Self {
            id: self.id.clone(),
            content: self.content.clone(),
            created_at: self.created_at,
            updated_at: self.updated_at,
            source_url: clone_opt_string(&self.source_url),
            source_title: clone_opt_string(&self.source_title),
            creator: clone_opt_string(&self.creator),
            original_date: clone_opt_string(&self.original_date),
            notes: clone_opt_string(&self.notes),
        }
    }
}

/// Data for creating a new block.
#[derive(Debug)]
pub struct NewBlock {
    pub content: BlockContent,
    /// Original URL where content was curated from.
    pub source_url: Option<String>,
    /// Custom display text for the source link.
    pub source_title: Option<String>,
    /// Author or artist of the original content.
    pub creator: Option<String>,
    /// Original publication date (flexible format string).
    pub original_date: Option<String>,
    /// User's personal notes about this block.
    pub notes: Option<String>,
}

impl NewBlock {
    /// Create a new block payload with just content (metadata fields default
    /// to None).
    pub fn new(content: BlockContent) -> (r: Self)
        ensures
            r.content == content,
            r.source_url is None,
            r.source_title is None,
            r.creator is None,
            r.original_date is None,
            r.notes is None,
    {
        Self {
            content,
            source_url: None,
            source_title: None,
            creator: None,
            original_date: None,
            notes: None,
        }
    }

    /// Create a new text block payload.
    pub fn text(body: String) -> (r: Self)
        ensures
            r.content == (BlockContent::Text { body }),
            r.source_url is None,
    {
        Self::new(BlockContent::text(body))
    }

    /// Create a new link block payload.
    pub fn link(url: String) -> (r: Self)
        ensures
            r.content == (BlockContent::Link { url, title: None, description: None, alt_text: None }),
            r.source_url is None,
    {
        Self::new(BlockContent::link(url))
    }

    /// Create a new image block payload.
    pub fn image(file_path: String, mime_type: String) -> (r: Self)
        ensures
            r.content == (BlockContent::Image {
                file_path,
                original_url: None,
                width: None,
                height: None,
                mime_type,
                alt_text: None,
            }),
    {
        Self::new(BlockContent::image(file_path, mime_type))
    }

    /// Create a new video block payload.
    pub fn video(file_path: String, mime_type: String) -> (r: Self)
        ensures
            r.content == (BlockContent::Video {
                file_path,
                original_url: None,
                width: None,
                height: None,
                duration_millis: None,
                mime_type,
                alt_text: None,
            }),
    {
        Self::new(BlockContent::video(file_path, mime_type))
    }

    /// Create a new audio block payload.
    pub fn audio(file_path: String, mime_type: String) -> (r: Self)
        ensures
            r.content == (BlockContent::Audio {
                file_path,
                original_url: None,
                duration_millis: None,
                mime_type,
                title: None,
                artist: None,
            }),
    {
        Self::new(BlockContent::audio(file_path, mime_type))
    }

    /// Set the source URL and return self (builder pattern).
    pub fn with_source_url(self, url: String) -> (r: Self)
        ensures
            r == (NewBlock { source_url: Some(url), ..self }),
    {
        let mut updated = self;
        updated.source_url = Some(url);
        updated
    }
}

/// Data for updating a block.
///
/// All metadata fields are optional: an omitted field keeps the current
/// value, while a present [`FieldUpdate`] is applied to it.
#[derive(Debug, Default)]
pub struct BlockUpdate {
    /// New content (if changing). Omit = keep current.
    pub content: Option<BlockContent>,
    /// Source URL update. Omit = keep current.
    pub source_url: Option<FieldUpdate<String>>,
    /// Source title update. Omit = keep current.
    pub source_title: Option<FieldUpdate<String>>,
    /// Creator update. Omit = keep current.
    pub creator: Option<FieldUpdate<String>>,
    /// Original date update. Omit = keep current.
    pub original_date: Option<FieldUpdate<String>>,
    /// Notes update. Omit = keep current.
    pub notes: Option<FieldUpdate<String>>,
}

} // verus!
