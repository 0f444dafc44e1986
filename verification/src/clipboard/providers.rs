//! Clipboard providers.
use vstd::prelude::*;
use crate::clipboard::traits::{ClipboardContent, ClipboardError, ClipboardProvider, ContentView, opt_view};
use crate::text::{chars_of, string_from_str};

verus! {

/// An in-memory clipboard.
pub struct MockClipboardProvider {
    store: Option<ClipboardContent>,
}

impl MockClipboardProvider {
    pub fn new(initial: Option<ClipboardContent>) -> (r: MockClipboardProvider)
        ensures
            r.contents() == opt_view(initial),
    {
        MockClipboardProvider { store: initial }
    }
}

fn clone_opt(c: &Option<ClipboardContent>) -> (r: Option<ClipboardContent>)
    ensures
        opt_view(r) == opt_view(*c),
{
    match c {
        Some(x) => Some(x.clone()),
        None => None,
    }
}

impl ClipboardProvider for MockClipboardProvider {
    closed spec fn contents(&self) -> Option<ContentView> {
        opt_view(self.store)
    }

    /// An in-memory clipboard is always readable.
    open spec fn read_outcome(&self) -> Option<ClipboardError> {
        None
    }

    /// An in-memory clipboard is always writable.
    open spec fn write_outcome(&self, content: ContentView) -> Option<ClipboardError> {
        None
    }

    fn read(&self) -> (r: Result<Option<ClipboardContent>, ClipboardError>)
        ensures
            r is Ok,
    {
        Ok(clone_opt(&self.store))
    }

    fn write(&mut self, content: ClipboardContent) -> (r: Result<(), ClipboardError>)
        ensures
            r is Ok,
    {
        self.store = Some(content);
        Ok(())
    }
}

/// What reading the X11 clipboard through `xclip` gave.
pub enum XclipRead {
    /// `xclip` is not installed.
    NotInstalled,
    /// `xclip` failed.
    Failed,
    /// `xclip` printed this text.
    Output(String),
}

/// Clipboard of an X11 display, read and written through `xclip`, with an
/// in-memory copy of the last write to fall back on.
pub struct X11ClipboardProvider {
    display: String,
    fallback_store: Option<ClipboardContent>,
}

impl X11ClipboardProvider {
    pub closed spec fn display(self) -> Seq<char> {
        self.display@
    }

    pub closed spec fn fallback(self) -> Option<ContentView> {
        opt_view(self.fallback_store)
    }

    pub fn new(display: &str) -> (r: X11ClipboardProvider)
        ensures
            r.display() == display@,
            r.fallback() == None::<ContentView>,
    {
        X11ClipboardProvider { display: string_from_str(display), fallback_store: None }
    }

    pub fn display_name(&self) -> (r: &str)
        ensures
            r@ == self.display(),
    {
        self.display.as_str()
    }

    /// What a read yields given what `xclip` gave: its text when it printed
    /// some, nothing when it printed none, the fallback copy otherwise.
    pub fn read_with(&self, xclip: XclipRead) -> (r: Option<ClipboardContent>)
        ensures
            opt_view(r) == match xclip {
                XclipRead::Output(t) => if t@.len() == 0 { None } else { Some(ContentView::Text(t@)) },
                _ => self.fallback(),
            },
    {
        match xclip {
            XclipRead::Output(t) => {
                if t.as_str().is_empty() { None } else { Some(ClipboardContent::Text(t)) }
            },
            _ => clone_opt(&self.fallback_store),
        }
    }

    /// Keep a copy of written contents; the text to hand to `xclip`, if the
    /// contents are text.
    pub fn record_write(&mut self, content: ClipboardContent) -> (r: Option<String>)
        ensures
            final(self).fallback() == Some(content.view()),
            final(self).display() == old(self).display(),
            match content.view() {
                ContentView::Text(t) => r matches Some(s) && s@ == t,
                _ => r is None,
            },
    {
        let out = match &content {
            ClipboardContent::Text(t) => Some(t.clone()),
            _ => None,
        };
        self.fallback_store = Some(content);
        out
    }
}

/// Text clipboard access for one display.
pub struct ClipboardSync {
    display: String,
}

impl ClipboardSync {
    pub closed spec fn display(self) -> Seq<char> {
        self.display@
    }

    pub fn new(display: &str) -> (r: ClipboardSync)
        ensures
            r.display() == display@,
    {
        ClipboardSync { display: string_from_str(display) }
    }

    pub fn display_name(&self) -> (r: &str)
        ensures
            r@ == self.display(),
    {
        self.display.as_str()
    }

    /// The text on the clipboard, given what reading it gave; other kinds of
    /// contents count as no text.
    pub fn get_text(&self, read: Result<Option<ClipboardContent>, ClipboardError>) -> (r: Result<Option<String>, ClipboardError>)
        ensures
            match read {
                Err(e) => r == Err::<Option<String>, ClipboardError>(e),
                Ok(Some(ClipboardContent::Text(t))) => r matches Ok(Some(s)) && s@ == t@,
                Ok(_) => r matches Ok(None),
            },
    {
        match read {
            Err(e) => Err(e),
            Ok(Some(ClipboardContent::Text(t))) => Ok(Some(t)),
            Ok(_) => Ok(None),
        }
    }

    /// The contents to write for `text`.
    pub fn set_text(&self, text: &str) -> (r: ClipboardContent)
        ensures
            r.view() == ContentView::Text(text@),
    {
        ClipboardContent::Text(string_from_str(text))
    }
}

}
