use wayflow::clipboard::{content_eq, content_label, content_size, ClipboardStep, ClipboardTracker, MAX_CLIPBOARD_BYTES};
use wayflow::proto::{ClipboardContent, ClipboardImage};

fn image(w: u32, h: u32, bytes: Vec<u8>) -> ClipboardContent {
    ClipboardContent::Image(ClipboardImage { width: w, height: h, rgba: bytes })
}

#[test]
fn sizes_and_labels() {
    assert_eq!(content_size(&ClipboardContent::Text("héllo".into())), 6);
    assert_eq!(content_size(&image(1, 2, vec![0; 8])), 8);
    assert_eq!(content_label(&ClipboardContent::Text(String::new())), "text");
    assert_eq!(content_label(&image(0, 0, vec![])), "image");
}

#[test]
fn equality_is_by_content() {
    assert!(content_eq(&image(1, 1, vec![1, 2, 3, 4]), &image(1, 1, vec![1, 2, 3, 4])));
    assert!(!content_eq(&image(1, 1, vec![1, 2, 3, 4]), &image(1, 1, vec![1, 2, 3, 5])));
    assert!(!content_eq(&image(1, 1, vec![]), &image(2, 1, vec![])));
    assert!(!content_eq(&ClipboardContent::Text("a".into()), &image(0, 0, vec![])));
}

#[test]
fn new_content_is_shared_once() {
    let mut t = ClipboardTracker::new();
    let c = ClipboardContent::Text("copied".into());
    assert_eq!(t.observe(c.clone()), ClipboardStep::Share(c.clone()));
    assert_eq!(t.observe(c.clone()), ClipboardStep::Unchanged);
    let d = ClipboardContent::Text("copied again".into());
    assert_eq!(t.observe(d.clone()), ClipboardStep::Share(d));
}

#[test]
fn received_content_is_not_echoed_back() {
    let mut t = ClipboardTracker::new();
    let c = ClipboardContent::Text("from the server".into());
    t.applied(c.clone());
    assert_eq!(t.observe(c), ClipboardStep::Unchanged);
}

#[test]
fn oversized_content_is_never_shared() {
    let mut t = ClipboardTracker::new();
    let big = image(1, 1, vec![0; MAX_CLIPBOARD_BYTES + 1]);
    assert_eq!(t.observe(big), ClipboardStep::TooLarge);
    let at_limit = image(1, 1, vec![0; MAX_CLIPBOARD_BYTES]);
    assert!(matches!(t.observe(at_limit), ClipboardStep::Share(_)));
}
