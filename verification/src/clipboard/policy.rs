//! The configurable clipboard policy: per-kind switches and size limits.
use vstd::prelude::*;
use crate::clipboard::traits::{ClipboardContent, ClipboardPolicy, ContentView};

verus! {

pub struct ConfigurableClipboardPolicy {
    pub allow_text: bool,
    pub allow_image: bool,
    pub allow_html: bool,
    /// Limits in bytes (text and HTML are measured in UTF-8 bytes).
    pub max_text_len: usize,
    pub max_image_size: usize,
    pub max_html_len: usize,
}

impl ConfigurableClipboardPolicy {
    /// Everything allowed; 1 MiB of text, 5 MiB of image, 2 MiB of HTML.
    pub fn new_default() -> (p: ConfigurableClipboardPolicy)
        ensures
            p.allow_text && p.allow_image && p.allow_html,
            p.max_text_len == 1024 * 1024,
            p.max_image_size == 5 * 1024 * 1024,
            p.max_html_len == 2 * 1024 * 1024,
    {
        ConfigurableClipboardPolicy {
            allow_text: true,
            allow_image: true,
            allow_html: true,
            max_text_len: 1024 * 1024,
            max_image_size: 5 * 1024 * 1024,
            max_html_len: 2 * 1024 * 1024,
        }
    }
}

impl ClipboardPolicy for ConfigurableClipboardPolicy {
    open spec fn permits(&self, content: ContentView) -> bool {
        match content {
            ContentView::Text(t) => self.allow_text && (vstd::utf8::encode_utf8(t).len() as usize) <= self.max_text_len,
            ContentView::Image(b) => self.allow_image && b.len() <= self.max_image_size,
            ContentView::Html(h) => self.allow_html && (vstd::utf8::encode_utf8(h).len() as usize) <= self.max_html_len,
        }
    }

    fn is_allowed(&self, content: &ClipboardContent) -> (r: bool) {
        match content {
            ClipboardContent::Text(t) => self.allow_text && t.as_str().len() <= self.max_text_len,
            ClipboardContent::Image(img) => self.allow_image && img.len() <= self.max_image_size,
            ClipboardContent::Html(h) => self.allow_html && h.as_str().len() <= self.max_html_len,
        }
    }

    /// The largest of the three limits.
    fn max_size(&self) -> (r: usize)
        ensures
            r >= self.max_text_len && r >= self.max_image_size && r >= self.max_html_len,
            r == self.max_text_len || r == self.max_image_size || r == self.max_html_len,
    {
        let a = if self.max_image_size > self.max_text_len { self.max_image_size } else { self.max_text_len };
        if a > self.max_html_len { a } else { self.max_html_len }
    }
}

}
