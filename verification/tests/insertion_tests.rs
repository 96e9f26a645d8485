use dictate_core::insertion::{
    capture_focused_window, type_text, type_text_linux, type_text_nonlinux, InsertionStrategy,
    InsertionTools, InsertionWorker,
};

fn tools(linux: bool, wayland: bool) -> InsertionTools {
    InsertionTools {
        linux,
        wayland,
        has_ydotool: false,
        has_wtype: false,
        has_xclip: false,
        has_xdotool: false,
    }
}

#[test]
fn empty_text_is_a_no_op() {
    let plan = type_text("", "active", &tools(true, true));
    assert!(plan.is_empty());
}

#[test]
fn wayland_prefers_ydotool_then_wtype_then_clipboard() {
    let mut t = tools(true, true);
    t.has_ydotool = true;
    t.has_wtype = true;
    assert_eq!(
        type_text_linux(&t),
        vec![
            InsertionStrategy::Ydotool,
            InsertionStrategy::Wtype,
            InsertionStrategy::ClipboardPaste
        ]
    );
}

#[test]
fn wayland_without_tools_falls_back_to_clipboard() {
    assert_eq!(type_text_linux(&tools(true, true)), vec![InsertionStrategy::ClipboardPaste]);
}

#[test]
fn x11_uses_xclip_paste_when_both_tools_exist() {
    let mut t = tools(true, false);
    t.has_xclip = true;
    t.has_xdotool = true;
    assert_eq!(
        type_text_linux(&t),
        vec![InsertionStrategy::XclipPaste, InsertionStrategy::ClipboardPaste]
    );
}

#[test]
fn x11_needs_both_xclip_and_xdotool() {
    let mut t = tools(true, false);
    t.has_xclip = true;
    assert_eq!(type_text_linux(&t), vec![InsertionStrategy::ClipboardPaste]);
}

#[test]
fn other_platforms_try_keystrokes_then_clipboard() {
    assert_eq!(
        type_text_nonlinux(),
        vec![InsertionStrategy::EnigoText, InsertionStrategy::ClipboardPaste]
    );
    assert_eq!(
        type_text("hi", "active", &tools(false, false)),
        vec![InsertionStrategy::EnigoText, InsertionStrategy::ClipboardPaste]
    );
}

#[test]
fn focused_window_capture_returns_the_active_marker() {
    assert_eq!(capture_focused_window(), Ok("active".to_string()));
}

#[test]
fn worker_preserves_submission_order() {
    let mut w = InsertionWorker::new();
    w.enqueue("first".to_string());
    w.enqueue("second".to_string());
    w.enqueue("third".to_string());
    assert_eq!(w.next_item(), Some("first".to_string()));
    assert_eq!(w.next_item(), Some("second".to_string()));
    assert_eq!(w.next_item(), Some("third".to_string()));
    assert_eq!(w.next_item(), None);
}

#[test]
fn worker_never_queues_empty_strings() {
    let mut w = InsertionWorker::new();
    w.enqueue("".to_string());
    assert_eq!(w.next_item(), None);
    w.enqueue("a".to_string());
    w.enqueue("".to_string());
    assert_eq!(w.next_item(), Some("a".to_string()));
    assert_eq!(w.next_item(), None);
}
