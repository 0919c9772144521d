//! The passive clipboard channel: when the user copies text in one of the
//! watched applications, the app offers to file it (a small HUD). The app
//! polls the pasteboard's change count and asks this watcher, step by step,
//! what to do next.
//!
//! Rules the watcher keeps: nothing while the watcher is off; nothing while a
//! capture of the app itself has just used the clipboard; nothing for text
//! that a dictation tool pasted right after copying; nothing for screenshot
//! paths, for fewer than ten characters, or for the text offered last time.
use vstd::prelude::*;
use vstd::string::StringExecFns;
use crate::capture::now_ms;
use crate::text;

verus! {

broadcast use vstd::string::group_string_axioms;

/// Copies shorter than this many characters are not worth an interruption.
pub const MIN_LEN: usize = 10;
/// Interval between two polls of the pasteboard, in milliseconds.
pub const POLL_MS: u64 = 2000;
/// How long a paste signal silences the watcher, in milliseconds.
pub const PASTE_SUPPRESS_MS: u64 = 1500;
/// How long the app's own command-C fallback silences the watcher.
pub const COPY_SUPPRESS_MS: u64 = 4000;
/// A clipboard change this soon after a paste is a tool moving text.
pub const PASTE_WINDOW_MS: u64 = 2500;

/// Source names that are channels of the app, not applications.
pub open spec fn is_pseudo_source(name: Seq<char>) -> bool {
    ||| name == "hotkey"@
    ||| name == "clipboard"@
    ||| name == "webbox"@
    ||| name == "web"@
    ||| name == "other"@
    ||| name == "mcp"@
    ||| name == "剪贴板"@
}

/// A trimmed clipboard text that is a file path of an image (macOS pasteboard
/// history puts screenshot paths on the clipboard as text).
pub open spec fn looks_like_image_path(t: Seq<char>) -> bool {
    &&& text::starts_with_seq(t, "/"@)
    &&& {
        ||| text::ends_with_seq(t, ".png"@)
        ||| text::ends_with_seq(t, ".jpg"@)
        ||| text::ends_with_seq(t, ".jpeg"@)
        ||| text::ends_with_seq(t, ".heic"@)
        ||| text::ends_with_seq(t, ".tiff"@)
        ||| text::contains_seq(t, "PasteboardHistory"@)
    }
}

/// A paste was seen less than `PASTE_WINDOW_MS` before `now`.
pub open spec fn paste_recent(last_paste: u64, now: u64) -> bool {
    last_paste > 0 && (if now >= last_paste {
        now - last_paste
    } else {
        0
    }) < PASTE_WINDOW_MS
}

/// What a poll offers for the clipboard text `raw`: its trimmed form, unless
/// one of the rules above turns it down.
pub open spec fn text_outcome(last_text: Seq<char>, last_paste: u64, now: u64, raw: Seq<char>) -> Option<
    Seq<char>,
> {
    let t = text::trim_seq(raw);
    if looks_like_image_path(t) {
        None
    } else if paste_recent(last_paste, now) {
        None
    } else if t.len() < MIN_LEN {
        None
    } else if t == last_text {
        None
    } else {
        Some(t)
    }
}

/// The next thing a poll needs.
pub enum PollStep {
    /// Nothing to offer this time.
    Stop,
    /// Ask which application is frontmost, then call `front_app_watched`.
    CheckFrontApp,
    /// Read the clipboard text and call `poll_text`.
    ReadText,
}

/// The watcher's state between polls.
pub struct ClipWatcher {
    /// The user's on/off switch.
    pub watch_on: bool,
    /// Watch every application, not only the listed ones.
    pub scope_all: bool,
    /// Applications whose copies are offered.
    pub apps: Vec<String>,
    /// Change count seen at the last poll (`-1` before the first).
    pub last_seen: i64,
    /// The text offered last.
    pub last_text: String,
    /// When the last paste signal came (ms since the epoch, `0` for never).
    pub last_paste_ms: u64,
    /// Changes are ignored until this time (ms since the epoch).
    pub suppress_until: u64,
}

/// The names held by a list of strings.
pub open spec fn names(v: Seq<String>) -> Seq<Seq<char>> {
    v.map_values(|s: String| s@)
}

impl ClipWatcher {
    /// A watcher that is on, watches only listed applications, lists none,
    /// and has seen nothing yet.
    pub fn new() -> (w: Self)
        ensures
            w.watch_on,
            !w.scope_all,
            w.apps@.len() == 0,
            w.last_seen == -1,
            w.last_text@.len() == 0,
            w.last_paste_ms == 0,
            w.suppress_until == 0,
    {
        ClipWatcher {
            watch_on: true,
            scope_all: false,
            apps: Vec::new(),
            last_seen: -1,
            last_text: String::new(),
            last_paste_ms: 0,
            suppress_until: 0,
        }
    }

    /// Takes the change count at start-up as the baseline, so that what was
    /// on the clipboard before is never offered.
    pub fn start(&mut self, count: i64)
        ensures
            final(self).last_seen == count,
            final(self).watch_on == old(self).watch_on,
            final(self).scope_all == old(self).scope_all,
            final(self).apps == old(self).apps,
            final(self).last_text == old(self).last_text,
            final(self).last_paste_ms == old(self).last_paste_ms,
            final(self).suppress_until == old(self).suppress_until,
    {
        self.last_seen = count;
    }

    /// Records a paste seen at `now` (command-V, or a key event carrying a
    /// long text): the watcher stays silent for `PASTE_SUPPRESS_MS`.
    pub fn note_paste_at(&mut self, now: u64)
        requires
            now <= u64::MAX - PASTE_SUPPRESS_MS,
        ensures
            final(self).last_paste_ms == now,
            final(self).suppress_until == now + PASTE_SUPPRESS_MS,
            final(self).watch_on == old(self).watch_on,
            final(self).scope_all == old(self).scope_all,
            final(self).apps == old(self).apps,
            final(self).last_seen == old(self).last_seen,
            final(self).last_text == old(self).last_text,
    {
        self.last_paste_ms = now;
        self.suppress_until = now + PASTE_SUPPRESS_MS;
    }

    /// Records a paste seen now: the time the system clock reads becomes the
    /// last paste, and the watcher stays silent `PASTE_SUPPRESS_MS` after it
    /// (until `u64::MAX` for a reading so late that the sum does not fit).
    pub fn note_paste(&mut self)
        ensures
            final(self).suppress_until == (if final(self).last_paste_ms <= u64::MAX
                - PASTE_SUPPRESS_MS {
                (final(self).last_paste_ms + PASTE_SUPPRESS_MS) as u64
            } else {
                u64::MAX
            }),
            final(self).watch_on == old(self).watch_on,
            final(self).scope_all == old(self).scope_all,
            final(self).apps == old(self).apps,
            final(self).last_seen == old(self).last_seen,
            final(self).last_text == old(self).last_text,
    {
        let now = now_ms();
        if now <= u64::MAX - PASTE_SUPPRESS_MS {
            self.note_paste_at(now);
        } else {
            self.last_paste_ms = now;
            self.suppress_until = u64::MAX;
        }
    }

    /// Records that the app itself is about to copy (the command-C fallback of
    /// a capture): the watcher stays silent for `COPY_SUPPRESS_MS`.
    pub fn suppress_own_copy(&mut self, now: u64)
        requires
            now <= u64::MAX - COPY_SUPPRESS_MS,
        ensures
            final(self).suppress_until == now + COPY_SUPPRESS_MS,
            final(self).watch_on == old(self).watch_on,
            final(self).scope_all == old(self).scope_all,
            final(self).apps == old(self).apps,
            final(self).last_seen == old(self).last_seen,
            final(self).last_text == old(self).last_text,
            final(self).last_paste_ms == old(self).last_paste_ms,
    {
        self.suppress_until = now + COPY_SUPPRESS_MS;
    }

    /// First step of a poll, given the time and the pasteboard change count.
    /// Off: stop. Silenced: take the count as seen and stop. Otherwise the
    /// count is taken as seen, and a poll goes on only if it changed since a
    /// previous poll: to the front-application check, or straight to the text
    /// when every application is watched.
    pub fn poll_begin(&mut self, now: u64, count: i64) -> (r: PollStep)
        ensures
            final(self).watch_on == old(self).watch_on,
            final(self).scope_all == old(self).scope_all,
            final(self).apps == old(self).apps,
            final(self).last_text == old(self).last_text,
            final(self).last_paste_ms == old(self).last_paste_ms,
            final(self).suppress_until == old(self).suppress_until,
            !old(self).watch_on ==> r is Stop && final(self).last_seen == old(self).last_seen,
            old(self).watch_on ==> final(self).last_seen == count,
            old(self).watch_on && now < old(self).suppress_until ==> r is Stop,
            old(self).watch_on && now >= old(self).suppress_until ==> {
                if count == old(self).last_seen || old(self).last_seen < 0 {
                    r is Stop
                } else if old(self).scope_all {
                    r is ReadText
                } else {
                    r is CheckFrontApp
                }
            },
    {
        if !self.watch_on {
            return PollStep::Stop;
        }
        if now < self.suppress_until {
            self.last_seen = count;
            return PollStep::Stop;
        }
        let prev = self.last_seen;
        self.last_seen = count;
        if count == prev || prev < 0 {
            return PollStep::Stop;
        }
        if self.scope_all {
            PollStep::ReadText
        } else {
            PollStep::CheckFrontApp
        }
    }

    /// Whether the frontmost application is one of the watched ones (names
    /// compared ignoring ASCII case).
    pub fn front_app_watched(&self, front: &str) -> (r: bool)
        ensures
            r <==> exists|i: int|
                0 <= i < self.apps@.len() && text::eq_ignore_ascii_case_seq(
                    #[trigger] self.apps@[i]@,
                    front@,
                ),
    {
        let mut i: usize = 0;
        while i < self.apps.len()
            invariant
                i <= self.apps.len(),
                forall|j: int|
                    0 <= j < i ==> !text::eq_ignore_ascii_case_seq(
                        #[trigger] self.apps@[j]@,
                        front@,
                    ),
            decreases self.apps.len() - i,
        {
            if text::eq_ignore_ascii_case(self.apps[i].as_str(), front) {
                return true;
            }
            i += 1;
        }
        false
    }

    /// Last step of a poll, given the time and the clipboard text: the text to
    /// offer (trimmed), which then counts as offered, or `None`.
    pub fn poll_text(&mut self, now: u64, clip: &str) -> (r: Option<String>)
        ensures
            final(self).watch_on == old(self).watch_on,
            final(self).scope_all == old(self).scope_all,
            final(self).apps == old(self).apps,
            final(self).last_seen == old(self).last_seen,
            final(self).last_paste_ms == old(self).last_paste_ms,
            final(self).suppress_until == old(self).suppress_until,
            match r {
                Some(t) => text_outcome(old(self).last_text@, old(self).last_paste_ms, now, clip@)
                    == Some(t@) && final(self).last_text@ == t@,
                None => text_outcome(old(self).last_text@, old(self).last_paste_ms, now, clip@)
                    is None && final(self).last_text == old(self).last_text,
            },
    {
        let t = text::trim(clip);
        let image = text::starts_with(t.as_str(), "/") && (text::ends_with(t.as_str(), ".png")
            || text::ends_with(t.as_str(), ".jpg") || text::ends_with(t.as_str(), ".jpeg")
            || text::ends_with(t.as_str(), ".heic") || text::ends_with(t.as_str(), ".tiff")
            || text::contains(t.as_str(), "PasteboardHistory"));
        if image {
            return None;
        }
        let last = self.last_paste_ms;
        let since = if now >= last {
            now - last
        } else {
            0
        };
        if last > 0 && since < PASTE_WINDOW_MS {
            return None;
        }
        let chars = text::chars_of(t.as_str());
        if chars.len() < MIN_LEN {
            return None;
        }
        if text::str_eq(t.as_str(), self.last_text.as_str()) {
            return None;
        }
        self.last_text = t.clone();
        Some(t)
    }

    /// Adds an application to the watched list after a capture in it
    /// succeeded; empty names, channel names and names already listed are
    /// left out. Returns whether the name was added.
    pub fn learn(&mut self, app_name: &str) -> (r: bool)
        ensures
            r <==> (app_name@.len() > 0 && !is_pseudo_source(app_name@) && !names(
                old(self).apps@,
            ).contains(app_name@)),
            r ==> names(final(self).apps@) == names(old(self).apps@).push(app_name@),
            !r ==> final(self).apps == old(self).apps,
            final(self).watch_on == old(self).watch_on,
            final(self).scope_all == old(self).scope_all,
            final(self).last_seen == old(self).last_seen,
            final(self).last_text == old(self).last_text,
            final(self).last_paste_ms == old(self).last_paste_ms,
            final(self).suppress_until == old(self).suppress_until,
    {
        let v = text::chars_of(app_name);
        if v.len() == 0 || is_pseudo(app_name) {
            return false;
        }
        let mut i: usize = 0;
        while i < self.apps.len()
            invariant
                i <= self.apps.len(),
                forall|j: int| 0 <= j < i ==> (#[trigger] self.apps@[j])@ != app_name@,
            decreases self.apps.len() - i,
        {
            if text::str_eq(self.apps[i].as_str(), app_name) {
                assert(names(self.apps@)[i as int] == app_name@);
                return false;
            }
            i += 1;
        }
        proof {
            if names(self.apps@).contains(app_name@) {
                let j = choose|j: int|
                    0 <= j < names(self.apps@).len() && names(self.apps@)[j] == app_name@;
                assert(self.apps@[j]@ == app_name@);
            }
        }
        let ghost before = self.apps@;
        self.apps.push(text::owned(app_name));
        assert(names(self.apps@) =~= names(before).push(app_name@));
        true
    }

    /// Replaces the watched list.
    pub fn set_apps(&mut self, list: Vec<String>)
        ensures
            final(self).apps == list,
            final(self).watch_on == old(self).watch_on,
            final(self).scope_all == old(self).scope_all,
            final(self).last_seen == old(self).last_seen,
            final(self).last_text == old(self).last_text,
            final(self).last_paste_ms == old(self).last_paste_ms,
            final(self).suppress_until == old(self).suppress_until,
    {
        self.apps = list;
    }

    /// A copy of the watched list.
    pub fn get_apps(&self) -> (r: Vec<String>)
        ensures
            names(r@) == names(self.apps@),
    {
        let mut r: Vec<String> = Vec::new();
        let mut i: usize = 0;
        while i < self.apps.len()
            invariant
                i <= self.apps.len(),
                r.len() == i,
                names(r@) == names(self.apps@).take(i as int),
            decreases self.apps.len() - i,
        {
            let ghost before = r@;
            r.push(self.apps[i].clone());
            assert(names(r@) =~= names(self.apps@).take(i + 1)) by {
                assert(r@ == before.push(self.apps@[i as int]));
                assert forall|k: int| 0 <= k < i + 1 implies #[trigger] names(r@)[k] == names(
                    self.apps@,
                ).take(i + 1)[k] by {
                    if k < i {
                        assert(names(before)[k] == before[k]@);
                    }
                }
            }
            i += 1;
        }
        assert(names(self.apps@).take(self.apps.len() as int) =~= names(self.apps@));
        r
    }
}

/// Whether a source name is one of the app's own channels.
pub fn is_pseudo(name: &str) -> (r: bool)
    ensures
        r == is_pseudo_source(name@),
{
    text::str_eq(name, "hotkey") || text::str_eq(name, "clipboard") || text::str_eq(name, "webbox")
        || text::str_eq(name, "web") || text::str_eq(name, "other") || text::str_eq(name, "mcp")
        || text::str_eq(name, "剪贴板")
}

// ---------------------------------------------------------------------------
// Laws
// ---------------------------------------------------------------------------

/// A text is never offered twice in a row: once offered, the same clipboard
/// text gives nothing on the next poll.
pub proof fn lemma_no_repeat_offer(last_text: Seq<char>, last_paste: u64, now: u64, now2: u64, raw: Seq<char>)
    requires
        text_outcome(last_text, last_paste, now, raw) is Some,
    ensures
        text_outcome(text_outcome(last_text, last_paste, now, raw)->0, last_paste, now2, raw) is None,
{
}

/// What is offered is the trimmed clipboard text, at least `MIN_LEN`
/// characters long and not an image path.
pub proof fn lemma_offer_shape(last_text: Seq<char>, last_paste: u64, now: u64, raw: Seq<char>)
    requires
        text_outcome(last_text, last_paste, now, raw) is Some,
    ensures
        text_outcome(last_text, last_paste, now, raw)->0 == text::trim_seq(raw),
        text::trim_seq(raw).len() >= MIN_LEN,
        !looks_like_image_path(text::trim_seq(raw)),
{
}

/// A paste silences the watcher: a poll that begins less than
/// `PASTE_SUPPRESS_MS` after it stops, and a text read less than
/// `PASTE_WINDOW_MS` after it is not offered.
pub proof fn lemma_paste_silences(paste_at: u64, now: u64, last_text: Seq<char>, raw: Seq<char>)
    requires
        0 < paste_at <= now < paste_at + PASTE_WINDOW_MS,
    ensures
        text_outcome(last_text, paste_at, now, raw) is None,
{
}

} // verus!
