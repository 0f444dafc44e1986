//! Clipboard contents and the interfaces around them.
use vstd::prelude::*;
use crate::text::{append_str, debug_quoted, debug_string, decimal, decimal_string, string_from_str};

verus! {

#[derive(Debug, PartialEq, Eq)]
pub enum ClipboardContent {
    Text(String),
    Image(Vec<u8>),
    Html(String),
}

/// Clipboard contents as plain values.
pub ghost enum ContentView {
    Text(Seq<char>),
    Image(Seq<u8>),
    Html(Seq<char>),
}

impl ClipboardContent {
    pub open spec fn view(self) -> ContentView {
        match self {
            ClipboardContent::Text(t) => ContentView::Text(t@),
            ClipboardContent::Image(i) => ContentView::Image(i@),
            ClipboardContent::Html(h) => ContentView::Html(h@),
        }
    }
}

/// The view of an optional content.
pub open spec fn opt_view(c: Option<ClipboardContent>) -> Option<ContentView> {
    match c {
        Some(c) => Some(c.view()),
        None => None,
    }
}

impl Clone for ClipboardContent {
    fn clone(&self) -> (r: Self)
        ensures
            r.view() == self.view(),
    {
        match self {
            ClipboardContent::Text(t) => ClipboardContent::Text(t.clone()),
            ClipboardContent::Image(i) => {
                let mut v: Vec<u8> = Vec::new();
                let mut k: usize = 0;
                while k < i.len()
                    invariant
                        k <= i@.len(),
                        v@ == i@.subrange(0, k as int),
                    decreases i.len() - k,
                {
                    v.push(i[k]);
                    k = k + 1;
                    assert(v@ =~= i@.subrange(0, k as int));
                }
                assert(i@.subrange(0, i@.len() as int) =~= i@);
                ClipboardContent::Image(v)
            },
            ClipboardContent::Html(h) => ClipboardContent::Html(h.clone()),
        }
    }
}

/// `1, 2, 3`: the decimal values separated by comma and space.
pub open spec fn decimal_list(b: Seq<u8>) -> Seq<char>
    decreases b.len(),
{
    if b.len() == 0 {
        Seq::empty()
    } else if b.len() == 1 {
        decimal(b[0] as nat)
    } else {
        decimal_list(b.drop_last()) + ", "@ + decimal(b.last() as nat)
    }
}

/// The description of contents in audit records, in the shape of their
/// `Debug` form.
pub open spec fn describe_content(c: ContentView) -> Seq<char> {
    match c {
        ContentView::Text(t) => "Text("@ + debug_quoted(t) + ")"@,
        ContentView::Image(b) => "Image(["@ + decimal_list(b) + "])"@,
        ContentView::Html(h) => "Html("@ + debug_quoted(h) + ")"@,
    }
}

fn decimal_list_string(b: &Vec<u8>) -> (r: String)
    ensures
        r@ == decimal_list(b@),
{
    let mut r = String::new();
    let mut i: usize = 0;
    while i < b.len()
        invariant
            i <= b@.len(),
            r@ == decimal_list(b@.take(i as int)),
        decreases b.len() - i,
    {
        assert(b@.take(i + 1).drop_last() =~= b@.take(i as int));
        assert(b@.take(i + 1).last() == b@[i as int]);
        if i > 0 {
            append_str(&mut r, ", ");
        }
        let d = decimal_string(b[i] as u64);
        append_str(&mut r, d.as_str());
        proof {
            if i == 0 {
                assert(decimal_list(b@.take(0)) =~= Seq::<char>::empty());
                assert(r@ =~= decimal_list(b@.take(1)));
            }
        }
        i = i + 1;
    }
    assert(b@.take(b@.len() as int) =~= b@);
    r
}

impl ClipboardContent {
    /// The audit description of these contents.
    pub fn describe(&self) -> (r: String)
        ensures
            r@ == describe_content(self.view()),
    {
        match self {
            ClipboardContent::Text(t) => {
                let mut r = string_from_str("Text(");
                append_str(&mut r, debug_string(t.as_str()).as_str());
                append_str(&mut r, ")");
                r
            },
            ClipboardContent::Image(b) => {
                let mut r = string_from_str("Image([");
                append_str(&mut r, decimal_list_string(b).as_str());
                append_str(&mut r, "])");
                r
            },
            ClipboardContent::Html(h) => {
                let mut r = string_from_str("Html(");
                append_str(&mut r, debug_string(h.as_str()).as_str());
                append_str(&mut r, ")");
                r
            },
        }
    }
}

/// Why a clipboard operation failed.
#[derive(Debug, Clone, Copy, PartialEq, Eq, Structural)]
pub enum ClipboardError {
    /// The policy refused the contents.
    PolicyViolation,
    /// The clipboard could not be read or written.
    Unavailable,
}

/// A clipboard that can be read and written.
pub trait ClipboardProvider {
    /// What the clipboard holds.
    spec fn contents(&self) -> Option<ContentView>;

    /// The error a read of this clipboard ends in, if it fails.
    spec fn read_outcome(&self) -> Option<ClipboardError>;

    /// The error a write of `content` to this clipboard ends in, if it fails.
    spec fn write_outcome(&self, content: ContentView) -> Option<ClipboardError>;

    /// The contents, or the error the read ends in.
    fn read(&self) -> (r: Result<Option<ClipboardContent>, ClipboardError>)
        ensures
            match self.read_outcome() {
                Some(e) => r == Err::<Option<ClipboardContent>, ClipboardError>(e),
                None => r matches Ok(c) && opt_view(c) == self.contents(),
            };

    /// Replace the contents; a failed write leaves them as they were.
    fn write(&mut self, content: ClipboardContent) -> (r: Result<(), ClipboardError>)
        ensures
            match old(self).write_outcome(content.view()) {
                Some(e) => r == Err::<(), ClipboardError>(e) && final(self).contents() == old(self).contents(),
                None => r is Ok && final(self).contents() == Some(content.view()),
            };
}

/// Decides which clipboard contents may cross between machines.
pub trait ClipboardPolicy {
    spec fn permits(&self, content: ContentView) -> bool;

    fn is_allowed(&self, content: &ClipboardContent) -> (r: bool)
        ensures
            r == self.permits(content.view());

    fn max_size(&self) -> usize;
}

/// Copies clipboard contents between the two sides under a policy.
pub trait ClipboardSyncService {
    fn sync_to_remote<L: ClipboardProvider, R: ClipboardProvider>(&mut self, local: &L, remote: &mut R)
        -> Result<(), ClipboardError>;

    fn sync_to_local<R: ClipboardProvider, L: ClipboardProvider>(&mut self, remote: &R, local: &mut L)
        -> Result<(), ClipboardError>;
}

}
