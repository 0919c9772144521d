use nayan::clipwatch::{is_pseudo, ClipWatcher, PollStep, COPY_SUPPRESS_MS, MIN_LEN, PASTE_SUPPRESS_MS};

fn started(count: i64) -> ClipWatcher {
    let mut w = ClipWatcher::new();
    w.start(count);
    w
}

#[test]
fn new_watcher_defaults() {
    let w = ClipWatcher::new();
    assert!(w.watch_on);
    assert!(!w.scope_all);
    assert!(w.apps.is_empty());
    assert_eq!(w.last_seen, -1);
    assert_eq!(MIN_LEN, 10);
}

#[test]
fn no_baseline_no_offer() {
    let mut w = ClipWatcher::new();
    assert!(matches!(w.poll_begin(10_000, 3), PollStep::Stop));
    assert_eq!(w.last_seen, 3);
    assert!(matches!(w.poll_begin(12_000, 4), PollStep::CheckFrontApp));
}

#[test]
fn unchanged_count_stops() {
    let mut w = started(5);
    assert!(matches!(w.poll_begin(10_000, 5), PollStep::Stop));
    assert!(matches!(w.poll_begin(12_000, 6), PollStep::CheckFrontApp));
    assert_eq!(w.last_seen, 6);
}

#[test]
fn scope_all_reads_text_directly() {
    let mut w = started(5);
    w.scope_all = true;
    assert!(matches!(w.poll_begin(10_000, 6), PollStep::ReadText));
}

#[test]
fn switched_off_does_nothing() {
    let mut w = started(5);
    w.watch_on = false;
    assert!(matches!(w.poll_begin(10_000, 9), PollStep::Stop));
    assert_eq!(w.last_seen, 5);
}

#[test]
fn own_copy_is_silenced_and_baselined() {
    let mut w = started(5);
    w.suppress_own_copy(30_000);
    assert_eq!(w.suppress_until, 30_000 + COPY_SUPPRESS_MS);
    assert!(matches!(w.poll_begin(33_999, 9), PollStep::Stop));
    assert_eq!(w.last_seen, 9);
    assert!(matches!(w.poll_begin(34_000, 9), PollStep::Stop));
    assert!(matches!(w.poll_begin(34_100, 10), PollStep::CheckFrontApp));
}

#[test]
fn watched_apps_ignore_ascii_case() {
    let mut w = started(1);
    w.set_apps(vec!["Cursor".to_string(), "iTerm2".to_string()]);
    assert!(w.front_app_watched("cursor"));
    assert!(w.front_app_watched("ITERM2"));
    assert!(!w.front_app_watched("Safari"));
    assert_eq!(w.get_apps(), vec!["Cursor".to_string(), "iTerm2".to_string()]);
}

#[test]
fn offers_trimmed_text_once() {
    let mut w = started(1);
    assert_eq!(w.poll_text(10_000, "  hello clipboard text \n"), Some("hello clipboard text".to_string()));
    assert_eq!(w.last_text, "hello clipboard text");
    assert_eq!(w.poll_text(12_000, "hello clipboard text"), None);
    assert_eq!(w.poll_text(14_000, "another text to file"), Some("another text to file".to_string()));
}

#[test]
fn short_text_and_image_paths_are_skipped() {
    let mut w = started(1);
    assert_eq!(w.poll_text(10_000, "  short  "), None);
    assert_eq!(w.poll_text(10_000, "123456789"), None);
    assert_eq!(w.poll_text(10_000, "1234567890"), Some("1234567890".to_string()));
    assert_eq!(w.poll_text(10_000, "/Users/me/Desktop/Screenshot.png"), None);
    assert_eq!(w.poll_text(10_000, "/var/folders/PasteboardHistory/abc"), None);
    assert_eq!(w.poll_text(10_000, "notes about shot.png"), Some("notes about shot.png".to_string()));
}

#[test]
fn paste_silences_watcher() {
    let mut w = started(5);
    w.note_paste_at(20_000);
    assert_eq!(w.last_paste_ms, 20_000);
    assert_eq!(w.suppress_until, 20_000 + PASTE_SUPPRESS_MS);
    assert!(matches!(w.poll_begin(21_499, 6), PollStep::Stop));
    assert_eq!(w.poll_text(22_499, "dictated words typed in"), None);
    assert_eq!(w.poll_text(22_500, "dictated words typed in"), Some("dictated words typed in".to_string()));
}

#[test]
fn learn_adds_real_apps_once() {
    let mut w = started(1);
    w.set_apps(vec!["Cursor".to_string()]);
    assert!(!w.learn(""));
    assert!(!w.learn("hotkey"));
    assert!(!w.learn("剪贴板"));
    assert!(!w.learn("Cursor"));
    assert!(w.learn("cursor"));
    assert!(w.learn("Terminal"));
    assert!(!w.learn("Terminal"));
    assert_eq!(w.get_apps(), vec!["Cursor".to_string(), "cursor".to_string(), "Terminal".to_string()]);
}

#[test]
fn paste_now_reads_clock() {
    let mut w = started(5);
    w.note_paste();
    assert!(w.last_paste_ms > 1_600_000_000_000);
    assert_eq!(w.suppress_until, w.last_paste_ms + PASTE_SUPPRESS_MS);
    assert_eq!(w.last_seen, 5);
}

#[test]
fn pseudo_sources() {
    for n in ["hotkey", "clipboard", "webbox", "web", "other", "mcp", "剪贴板"] {
        assert!(is_pseudo(n));
    }
    assert!(!is_pseudo("Web"));
    assert!(!is_pseudo("Safari"));
}
