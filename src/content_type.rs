use vstd::prelude::*;
use crate::text::{chars_of, contains, contains_seq, has_prefix, starts_with, trim_start_chars, trim_start_of};

verus! {

/// The kind of content a response holds.
#[derive(Debug, Clone, Copy, PartialEq, Eq, Structural)]
pub enum ContentType {
    Html,
    Json,
    Xml,
    Feed,
    Pdf,
    Image,
    Text,
}

/// The kind of a response from its `Content-Type` header (empty when absent) and its body.
pub open spec fn content_type_of(header: Seq<char>, body: Seq<char>) -> ContentType {
    let lead = trim_start_of(body);
    if contains_seq(header, "text/html"@) || has_prefix(lead, "<!DOCTYPE"@) || has_prefix(
        lead,
        "<html"@,
    ) {
        ContentType::Html
    } else if contains_seq(header, "application/json"@) || has_prefix(lead, "{"@) || has_prefix(
        lead,
        "["@,
    ) {
        ContentType::Json
    } else if contains_seq(header, "application/xml"@) || contains_seq(header, "text/xml"@)
        || has_prefix(lead, "<?xml"@) {
        ContentType::Xml
    } else if contains_seq(body, "<rss"@) || contains_seq(body, "<feed"@) {
        ContentType::Feed
    } else if contains_seq(header, "application/pdf"@) || has_prefix(body, "%PDF"@) {
        ContentType::Pdf
    } else if has_prefix(header, "image/"@) {
        ContentType::Image
    } else {
        ContentType::Text
    }
}

/// Tells the kind of a response from its `Content-Type` header (empty when absent) and its
/// body: HTML, then JSON, XML, a feed, PDF and images are tried in turn; anything else is text.
pub fn detect_content_type(content_type_header: &str, body: &str) -> (r: ContentType)
    ensures
        r == content_type_of(content_type_header@, body@),
{
    let header = chars_of(content_type_header);
    let all = chars_of(body);
    let lead = trim_start_chars(all.as_slice());
    let h = header.as_slice();
    let l = lead.as_slice();
    if contains(h, "text/html") || starts_with(l, "<!DOCTYPE") || starts_with(l, "<html") {
        return ContentType::Html;
    }
    if contains(h, "application/json") || starts_with(l, "{") || starts_with(l, "[") {
        return ContentType::Json;
    }
    if contains(h, "application/xml") || contains(h, "text/xml") || starts_with(l, "<?xml") {
        return ContentType::Xml;
    }
    if contains(all.as_slice(), "<rss") || contains(all.as_slice(), "<feed") {
        return ContentType::Feed;
    }
    if contains(h, "application/pdf") || starts_with(all.as_slice(), "%PDF") {
        return ContentType::Pdf;
    }
    if starts_with(h, "image/") {
        return ContentType::Image;
    }
    ContentType::Text
}

} // verus!
