//! Validation of user input at the domain boundary.
//!
//! Pure predicate functions that services call before any repository
//! write.  Each function's contract names, through a `spec` companion, the
//! exact condition under which it rejects and the message it rejects with.

use vstd::prelude::*;

use crate::error::DomainError;
use crate::error::DomainResult;
use crate::models::block::BlockContent;
use crate::text::has_dotdot;
use crate::text::seq_is_blank;
use crate::text::contains_dotdot;
use crate::text::is_blank;
use crate::text::starts_with_str;
use crate::text::str_eq;

verus! {

/// What `url::Url::parse` makes of a string: `None` when it does not parse
/// as an absolute URL, otherwise the URL's scheme and whether it has a host
/// component.  The outcome is a function of the input string alone.
pub uninterp spec fn url_parse(s: Seq<char>) -> Option<(Seq<char>, bool)>;

/// Relies on `url::Url::parse` (whether the string is an absolute URL),
/// `url::Url::scheme` (the parsed scheme, lower-cased, without the `:`
/// delimiter) and `url::Url::host` (whether a host component is present).
#[verifier::external_body]
fn parse_url_parts(s: &str) -> (r: Option<(String, bool)>)
    ensures
        r is Some <==> url_parse(s@) is Some,
        r matches Some(p) ==> url_parse(s@) matches Some(q) && q.0 == p.0@ && q.1 == p.1,
{
    match url::Url::parse(s) {
        Ok(u) => Some((u.scheme().to_string(), u.host().is_some())),
        Err(_) => None,
    }
}

/// Why a text body is rejected: it must not be empty or all whitespace.
pub open spec fn text_err(s: Seq<char>) -> Option<Seq<char>> {
    if seq_is_blank(s) {
        Some("text block cannot be empty"@)
    } else {
        None
    }
}

/// Why an optional text field is rejected: the empty string is allowed,
/// but a non-empty field must not be whitespace only.
pub open spec fn opt_text_err(field: Seq<char>, s: Seq<char>) -> Option<Seq<char>> {
    if s.len() == 0 {
        None
    } else if seq_is_blank(s) {
        Some(field + " cannot be only whitespace"@)
    } else {
        None
    }
}

/// Why a media file path is rejected: it must be non-blank, free of `..`,
/// and relative (not starting with `/` or `\`).
pub open spec fn path_err(s: Seq<char>) -> Option<Seq<char>> {
    if seq_is_blank(s) {
        Some("file path cannot be empty"@)
    } else if has_dotdot(s) {
        Some("file path cannot contain '..'"@)
    } else if s.len() > 0 && (s[0] == '/' || s[0] == '\\') {
        Some("file path must be relative"@)
    } else {
        None
    }
}

/// Why a MIME type is rejected for a media category: it must be non-blank
/// and start with the category prefix, e.g. `image/`.
pub open spec fn mime_err(m: Seq<char>, cat: Seq<char>) -> Option<Seq<char>> {
    if seq_is_blank(m) {
        Some("MIME type cannot be empty"@)
    } else if !(cat + "/"@).is_prefix_of(m) {
        Some("expected "@ + cat + " MIME type, got '"@ + m + "'"@)
    } else {
        None
    }
}

/// Why a URL is rejected: it must be non-blank, parse as an absolute URL,
/// use the http or https scheme, and have a host.
pub open spec fn url_err(s: Seq<char>) -> Option<Seq<char>> {
    if seq_is_blank(s) {
        Some("link URL cannot be empty"@)
    } else {
        match url_parse(s) {
            None => Some("invalid URL"@),
            Some((scheme, has_host)) => if scheme != "http"@ && scheme != "https"@ {
                Some("URL scheme is not allowed, use http or https"@)
            } else if !has_host {
                Some("URL must have a valid host"@)
            } else {
                None
            },
        }
    }
}

/// Why a URL inside an optional field is rejected: absent means valid.
pub open spec fn opt_url_err(o: &Option<String>) -> Option<Seq<char>> {
    match o {
        Some(u) => url_err(u@),
        None => None,
    }
}

/// Why an optional text field inside a content variant is rejected.
pub open spec fn opt_field_err(field: Seq<char>, o: &Option<String>) -> Option<Seq<char>> {
    match o {
        Some(s) => opt_text_err(field, s@),
        None => None,
    }
}

/// The first of two possible rejections.
pub open spec fn first_err(a: Option<Seq<char>>, b: Option<Seq<char>>) -> Option<Seq<char>> {
    if a is Some {
        a
    } else {
        b
    }
}

/// Why a channel title is rejected: it must not be empty or all
/// whitespace.
pub open spec fn title_err(s: Seq<char>) -> Option<Seq<char>> {
    if seq_is_blank(s) {
        Some("channel title cannot be empty"@)
    } else {
        None
    }
}

/// Why block content is rejected, checking the fields of each variant in
/// order, or `None` when the content is valid.
pub open spec fn content_err(c: &BlockContent) -> Option<Seq<char>> {
    match c {
        BlockContent::Text { body } => text_err(body@),
        BlockContent::Link { url, title, description, alt_text } => first_err(
            url_err(url@),
            first_err(
                opt_field_err("title"@, title),
                first_err(
                    opt_field_err("description"@, description),
                    opt_field_err("alt_text"@, alt_text),
                ),
            ),
        ),
        BlockContent::Image { file_path, mime_type, alt_text, original_url, .. } => first_err(
            path_err(file_path@),
            first_err(
                mime_err(mime_type@, "image"@),
                first_err(opt_field_err("alt_text"@, alt_text), opt_url_err(original_url)),
            ),
        ),
        BlockContent::Video { file_path, mime_type, alt_text, original_url, .. } => first_err(
            path_err(file_path@),
            first_err(
                mime_err(mime_type@, "video"@),
                first_err(opt_field_err("alt_text"@, alt_text), opt_url_err(original_url)),
            ),
        ),
        BlockContent::Audio { file_path, mime_type, title, artist, original_url, .. } => first_err(
            path_err(file_path@),
            first_err(
                mime_err(mime_type@, "audio"@),
                first_err(
                    opt_field_err("title"@, title),
                    first_err(opt_field_err("artist"@, artist), opt_url_err(original_url)),
                ),
            ),
        ),
    }
}

/// Whether block content passes validation.
pub open spec fn content_ok(c: &BlockContent) -> bool {
    content_err(c) is None
}

/// Validate text content is not empty.
pub fn validate_text(text: &str) -> (r: DomainResult<()>)
    ensures
        r is Ok <==> text_err(text@) is None,
        r matches Err(e) ==> e matches DomainError::InvalidInput(m) && text_err(text@) == Some(
            m@,
        ),
{
    if is_blank(text) {
        Err(DomainError::InvalidInput("text block cannot be empty".to_owned()))
    } else {
        Ok(())
    }
}

/// Validate optional text fields (can be the empty string, but not just
/// whitespace if non-empty).
pub fn validate_optional_text(field_name: &str, text: &str) -> (r: DomainResult<()>)
    ensures
        r is Ok <==> opt_text_err(field_name@, text@) is None,
        r matches Err(e) ==> e matches DomainError::InvalidInput(m) && opt_text_err(
            field_name@,
            text@,
        ) == Some(m@),
{
    if text.is_empty() {
        return Ok(());
    }
    if is_blank(text) {
        let mut msg = field_name.to_owned();
        msg.append(" cannot be only whitespace");
        return Err(DomainError::InvalidInput(msg));
    }
    Ok(())
}

/// Validate a media file path.
///
/// File paths should be relative paths within the media directory,
/// following the pattern "{type}/{id}.{ext}".
pub fn validate_file_path(path: &str) -> (r: DomainResult<()>)
    ensures
        r is Ok <==> path_err(path@) is None,
        r matches Err(e) ==> e matches DomainError::InvalidInput(m) && path_err(path@) == Some(
            m@,
        ),
{
    if is_blank(path) {
        return Err(DomainError::InvalidInput("file path cannot be empty".to_owned()));
    }
    if contains_dotdot(path) {
        return Err(DomainError::InvalidInput("file path cannot contain '..'".to_owned()));
    }
    assert(path@.len() > 0) by {
        if path@.len() == 0 {
            assert(seq_is_blank(path@));
        }
    }
    let c0 = path.get_char(0);
    if c0 == '/' || c0 == '\\' {
        return Err(DomainError::InvalidInput("file path must be relative".to_owned()));
    }
    Ok(())
}

/// Validate a MIME type against the expected media category.
pub fn validate_mime_type(mime_type: &str, expected_category: &str) -> (r: DomainResult<()>)
    ensures
        r is Ok <==> mime_err(mime_type@, expected_category@) is None,
        r matches Err(e) ==> e matches DomainError::InvalidInput(m) && mime_err(
            mime_type@,
            expected_category@,
        ) == Some(m@),
{
    if is_blank(mime_type) {
        return Err(DomainError::InvalidInput("MIME type cannot be empty".to_owned()));
    }
    let mut prefix = expected_category.to_owned();
    prefix.append("/");
    if !starts_with_str(mime_type, prefix.as_str()) {
        let mut msg = "expected ".to_owned();
        msg.append(expected_category);
        msg.append(" MIME type, got '");
        msg.append(mime_type);
        msg.append("'");
        return Err(DomainError::InvalidInput(msg));
    }
    Ok(())
}

/// Validate a URL string.
///
/// The `url` crate does the parsing; only http and https URLs with a host
/// are accepted.
pub fn validate_url(url_str: &str) -> (r: DomainResult<()>)
    ensures
        r is Ok <==> url_err(url_str@) is None,
        r matches Err(e) ==> e matches DomainError::InvalidInput(m) && url_err(url_str@) == Some(
            m@,
        ),
{
    if is_blank(url_str) {
        return Err(DomainError::InvalidInput("link URL cannot be empty".to_owned()));
    }
    match parse_url_parts(url_str) {
        None => Err(DomainError::InvalidInput("invalid URL".to_owned())),
        Some((scheme, has_host)) => {
            let is_http = str_eq(scheme.as_str(), "http");
            let is_https = str_eq(scheme.as_str(), "https");
            if !is_http && !is_https {
                Err(
                    DomainError::InvalidInput(
                        "URL scheme is not allowed, use http or https".to_owned(),
                    ),
                )
            } else if !has_host {
                Err(DomainError::InvalidInput("URL must have a valid host".to_owned()))
            } else {
                Ok(())
            }
        },
    }
}

/// Validate a channel title.
pub fn validate_channel_title(title: &str) -> (r: DomainResult<()>)
    ensures
        r is Ok <==> title_err(title@) is None,
        r matches Err(e) ==> e matches DomainError::InvalidInput(m) && title_err(title@) == Some(
            m@,
        ),
{
    if is_blank(title) {
        Err(DomainError::InvalidInput("channel title cannot be empty".to_owned()))
    } else {
        Ok(())
    }
}

/// Validate block content, dispatching on the content variant.
pub fn validate_block_content(content: &BlockContent) -> (r: DomainResult<()>)
    ensures
        r is Ok <==> content_ok(content),
        r matches Err(e) ==> e matches DomainError::InvalidInput(m) && content_err(content)
            == Some(m@),
{
    match content {
        BlockContent::Text { body } => validate_text(body.as_str()),
        BlockContent::Link { url, title, description, alt_text } => {
            if let Err(e) = validate_url(url.as_str()) {
                return Err(e);
            }
            if let Some(t) = title {
                if let Err(e) = validate_optional_text("title", t.as_str()) {
                    return Err(e);
                }
            }
            if let Some(d) = description {
                if let Err(e) = validate_optional_text("description", d.as_str()) {
                    return Err(e);
                }
            }
            if let Some(a) = alt_text {
                if let Err(e) = validate_optional_text("alt_text", a.as_str()) {
                    return Err(e);
                }
            }
            Ok(())
        },
        BlockContent::Image { file_path, mime_type, alt_text, original_url, .. } => {
            if let Err(e) = validate_file_path(file_path.as_str()) {
                return Err(e);
            }
            if let Err(e) = validate_mime_type(mime_type.as_str(), "image") {
                return Err(e);
            }
            if let Some(a) = alt_text {
                if let Err(e) = validate_optional_text("alt_text", a.as_str()) {
                    return Err(e);
                }
            }
            if let Some(u) = original_url {
                if let Err(e) = validate_url(u.as_str()) {
                    return Err(e);
                }
            }
            Ok(())
        },
        BlockContent::Video { file_path, mime_type, alt_text, original_url, .. } => {
            if let Err(e) = validate_file_path(file_path.as_str()) {
                return Err(e);
            }
            if let Err(e) = validate_mime_type(mime_type.as_str(), "video") {
                return Err(e);
            }
            if let Some(a) = alt_text {
                if let Err(e) = validate_optional_text("alt_text", a.as_str()) {
                    return Err(e);
                }
            }
            if let Some(u) = original_url {
                if let Err(e) = validate_url(u.as_str()) {
                    return Err(e);
                }
            }
            Ok(())
        },
        BlockContent::Audio { file_path, mime_type, title, artist, original_url, .. } => {
            if let Err(e) = validate_file_path(file_path.as_str()) {
                return Err(e);
            }
            if let Err(e) = validate_mime_type(mime_type.as_str(), "audio") {
                return Err(e);
            }
            if let Some(t) = title {
                if let Err(e) = validate_optional_text("title", t.as_str()) {
                    return Err(e);
                }
            }
            if let Some(a) = artist {
                if let Err(e) = validate_optional_text("artist", a.as_str()) {
                    return Err(e);
                }
            }
            if let Some(u) = original_url {
                if let Err(e) = validate_url(u.as_str()) {
                    return Err(e);
                }
            }
            Ok(())
        },
    }
}

} // verus!
