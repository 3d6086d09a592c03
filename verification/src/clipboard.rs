//! Clipboard sharing: what the local clipboard watcher sends, and how it
//! avoids sending back what it just received.
use vstd::prelude::*;
use crate::proto::{ClipboardContent, ClipboardImage};

verus! {

/// The largest clipboard content shared, in bytes: 3 MiB.
pub const MAX_CLIPBOARD_BYTES: usize = 3145728;

/// The size of clipboard content in bytes: the UTF-8 length of text, the
/// pixel bytes of an image.
pub fn content_size(c: &ClipboardContent) -> (r: usize)
    ensures
        match c {
            ClipboardContent::Text(t) => r == vstd::utf8::encode_utf8(t@).len(),
            ClipboardContent::Image(i) => r == i.rgba@.len(),
        },
{
    match c {
        ClipboardContent::Text(t) => t.as_str().as_bytes().len(),
        ClipboardContent::Image(i) => i.rgba.len(),
    }
}

/// The kind of clipboard content, for logs.
pub fn content_label(c: &ClipboardContent) -> (r: &'static str)
    ensures
        c is Text ==> r == "text",
        c is Image ==> r == "image",
{
    match c {
        ClipboardContent::Text(_) => "text",
        ClipboardContent::Image(_) => "image",
    }
}

/// Two clipboard contents carry the same data.
pub open spec fn same_content(a: ClipboardContent, b: ClipboardContent) -> bool {
    match (a, b) {
        (ClipboardContent::Text(x), ClipboardContent::Text(y)) => x@ == y@,
        (ClipboardContent::Image(x), ClipboardContent::Image(y)) => x.width == y.width && x.height == y.height
            && x.rgba@ == y.rgba@,
        _ => false,
    }
}

/// Two clipboard contents count as the same exactly when they are the same
/// text, character for character, or the same image: equal width, equal
/// height and equal pixel bytes. Anything else, such as two different texts
/// of one length, counts as a change.
pub proof fn lemma_same_content_is_equal_data(a: ClipboardContent, b: ClipboardContent)
    ensures
        same_content(a, b) <==> {
            ||| (a matches ClipboardContent::Text(x) && (b matches ClipboardContent::Text(y) && x@ == y@))
            ||| (a matches ClipboardContent::Image(x) && (b matches ClipboardContent::Image(y) && x.width == y.width
                && x.height == y.height && x.rgba@ == y.rgba@))
        },
        same_content(a, b) ==> same_content(b, a),
{
}

fn bytes_eq(a: &Vec<u8>, b: &Vec<u8>) -> (r: bool)
    ensures
        r == (a@ == b@),
{
    if a.len() != b.len() {
        return false;
    }
    let mut i: usize = 0;
    while i < a.len()
        invariant
            a@.len() == b@.len(),
            0 <= i <= a@.len(),
            forall|j: int| 0 <= j < i ==> a@[j] == b@[j],
        decreases a@.len() - i,
    {
        if a[i] != b[i] {
            return false;
        }
        i = i + 1;
    }
    assert(a@ =~= b@);
    true
}

/// Whether two clipboard contents carry the same data.
pub fn content_eq(a: &ClipboardContent, b: &ClipboardContent) -> (r: bool)
    ensures
        r == same_content(*a, *b),
{
    match (a, b) {
        (ClipboardContent::Text(x), ClipboardContent::Text(y)) => *x == *y,
        (ClipboardContent::Image(x), ClipboardContent::Image(y)) => x.width == y.width && x.height == y.height
            && bytes_eq(&x.rgba, &y.rgba),
        _ => false,
    }
}

fn copy_content(c: &ClipboardContent) -> (r: ClipboardContent)
    ensures
        same_content(r, *c),
{
    match c {
        ClipboardContent::Text(t) => ClipboardContent::Text(t.clone()),
        ClipboardContent::Image(i) => {
            let mut rgba: Vec<u8> = Vec::new();
            let mut k: usize = 0;
            while k < i.rgba.len()
                invariant
                    0 <= k <= i.rgba@.len(),
                    rgba@ == i.rgba@.take(k as int),
                decreases i.rgba@.len() - k,
            {
                rgba.push(i.rgba[k]);
                assert(i.rgba@.take(k + 1) =~= i.rgba@.take(k as int).push(i.rgba@[k as int]));
                k = k + 1;
            }
            assert(i.rgba@.take(i.rgba@.len() as int) =~= i.rgba@);
            ClipboardContent::Image(ClipboardImage { width: i.width, height: i.height, rgba })
        },
    }
}

/// What to do with what the local clipboard holds now.
#[derive(Debug, Clone, PartialEq, Eq)]
pub enum ClipboardStep {
    /// Over the size limit; not shared.
    TooLarge,
    /// The same as what was last seen or received; nothing to send.
    Unchanged,
    /// New content: send it to the server.
    Share(ClipboardContent),
}

/// The clipboard watcher's memory of the content last seen, whether read
/// locally or received from the server.
pub struct ClipboardTracker {
    last_seen: Option<ClipboardContent>,
}

impl ClipboardTracker {
    /// Nothing seen yet.
    pub fn new() -> (r: ClipboardTracker)
        ensures
            r.last() is None,
    {
        ClipboardTracker { last_seen: None }
    }

    /// The content last seen.
    pub closed spec fn last(&self) -> Option<ClipboardContent> {
        self.last_seen
    }

    /// Content received from the server was put on the local clipboard.
    pub fn applied(&mut self, c: ClipboardContent)
        ensures
            final(self).last() == Some(c),
    {
        self.last_seen = Some(c);
    }

    /// The local clipboard holds `current`. Content over the size limit is
    /// never shared; content that matches what was last seen is not sent
    /// again; anything else is shared and remembered.
    pub fn observe(&mut self, current: ClipboardContent) -> (r: ClipboardStep)
        ensures
            content_too_large(current) ==> r == ClipboardStep::TooLarge && final(self).last() == old(self).last(),
            !content_too_large(current) && (old(self).last() matches Some(l) && same_content(l, current)) ==> r
                == ClipboardStep::Unchanged && final(self).last() == old(self).last(),
            !content_too_large(current) && !(old(self).last() matches Some(l) && same_content(l, current)) ==> (r
                matches ClipboardStep::Share(c) && same_content(c, current) && final(self).last() == Some(current)),
    {
        if content_size(&current) > MAX_CLIPBOARD_BYTES {
            return ClipboardStep::TooLarge;
        }
        let same = match &self.last_seen {
            Some(l) => content_eq(l, &current),
            None => false,
        };
        if same {
            return ClipboardStep::Unchanged;
        }
        let shared = copy_content(&current);
        self.last_seen = Some(current);
        ClipboardStep::Share(shared)
    }
}

/// Over the size limit.
pub open spec fn content_too_large(c: ClipboardContent) -> bool {
    match c {
        ClipboardContent::Text(t) => vstd::utf8::encode_utf8(t@).len() > MAX_CLIPBOARD_BYTES,
        ClipboardContent::Image(i) => i.rgba@.len() > MAX_CLIPBOARD_BYTES,
    }
}

} // verus!
