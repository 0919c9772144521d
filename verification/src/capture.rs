//! Capturing text from other applications: the decisions around the macOS
//! accessibility (AX) reads, the command-C fallback, the workspace guess made
//! from a window title, raising the source window again, the walk over an
//! application's AX tree for box selection, and joining text fragments.
//!
//! The reads themselves (AX calls, the pasteboard, `find`, `lsappinfo`, the
//! OCR helper) happen around this module; it is handed what they returned.
use vstd::prelude::*;
use vstd::string::StringExecFns;
use crate::text;

verus! {

broadcast use vstd::string::group_string_axioms;

/// Milliseconds since the Unix epoch by the system clock (`0` if the clock is
/// before the epoch). Trusted: it reads the clock, so nothing is stated of the
/// value.
#[verifier::external_body]
pub fn now_ms() -> u64 {
    std::time::SystemTime::now().duration_since(std::time::UNIX_EPOCH).map(
        |d| d.as_millis() as u64,
    ).unwrap_or(0)
}

// ---------------------------------------------------------------------------
// Front application
// ---------------------------------------------------------------------------

/// The frontmost application: process id, name and main window title.
pub struct FrontApp {
    pub pid: i32,
    pub name: String,
    pub title: String,
}

/// The front application as the workspace reports it; a process id that is
/// not positive means there is none.
pub fn front_app(pid: i32, name: String, title: String) -> (r: Option<FrontApp>)
    ensures
        pid <= 0 ==> r is None,
        pid > 0 ==> (r matches Some(f) && f.pid == pid && f.name == name && f.title == title),
{
    if pid <= 0 {
        None
    } else {
        Some(FrontApp { pid, name, title })
    }
}

// ---------------------------------------------------------------------------
// AX error names and the selected-text read
// ---------------------------------------------------------------------------

/// A readable name for an AX error code.
pub open spec fn ax_err_text(code: int) -> Seq<char> {
    if code == 0 {
        "success"@
    } else if code == -25209 {
        "attributeUnsupported(该元素不暴露此属性)"@
    } else if code == -25213 {
        "apiDisabled(辅助功能被禁用)"@
    } else if code == -25214 {
        "noValue(无选区/无值)"@
    } else {
        "err("@ + text::decimal(code) + ")——多为未授权或缺辅助功能权限"@
    }
}

/// A readable name for an AX error code.
pub fn ax_err_name(code: i32) -> (r: String)
    ensures
        r@ == ax_err_text(code as int),
{
    if code == 0 {
        String::from_str("success")
    } else if code == -25209 {
        String::from_str("attributeUnsupported(该元素不暴露此属性)")
    } else if code == -25213 {
        String::from_str("apiDisabled(辅助功能被禁用)")
    } else if code == -25214 {
        String::from_str("noValue(无选区/无值)")
    } else {
        let d = text::decimal_i64(code as i64);
        text::concat3("err(", d.as_str(), ")——多为未授权或缺辅助功能权限")
    }
}

/// The error when the AX element of an application cannot be created.
pub fn app_element_error() -> (r: String)
    ensures
        r@ == "AXUIElementCreateApplication 失败"@,
{
    String::from_str("AXUIElementCreateApplication 失败")
}

/// What to do after a read of the focused element's selected text.
pub enum SelectionStep {
    /// The read is over with this result (`Ok("")`: AX works, nothing is selected).
    Done(Result<String, String>),
    /// The focused element could not be read (this AX error): switch on manual
    /// accessibility, wait for the tree, and read once more.
    Retry(i32),
}

/// The step after the first read: text (possibly empty) ends the read, an AX
/// error asks for one retry.
pub fn after_first_read(read: Result<String, i32>) -> (r: SelectionStep)
    ensures
        match read {
            Ok(t) => r matches SelectionStep::Done(Ok(u)) && u == t,
            Err(e) => r == SelectionStep::Retry(e),
        },
{
    match read {
        Ok(t) => SelectionStep::Done(Ok(t)),
        Err(e) => SelectionStep::Retry(e),
    }
}

/// The message when both reads of the focused element failed.
pub open spec fn selection_failure_text(first: int, second: int) -> Seq<char> {
    "AX 焦点元素读取失败：首读 "@ + text::decimal(first) + "（"@ + ax_err_text(first) + "），重试 "@
        + text::decimal(second) + "（"@ + ax_err_text(second) + "）"@
}

/// The result after the retry: its text, or an error naming both AX errors.
pub fn after_retry_read(first_err: i32, read: Result<String, i32>) -> (r: Result<String, String>)
    ensures
        match read {
            Ok(t) => r matches Ok(u) && u == t,
            Err(e) => r matches Err(m) && m@ == selection_failure_text(first_err as int, e as int),
        },
{
    match read {
        Ok(t) => Ok(t),
        Err(e) => {
            let a = text::decimal_i64(first_err as i64);
            let an = ax_err_name(first_err);
            let b = text::decimal_i64(e as i64);
            let bn = ax_err_name(e);
            let m = String::from_str("AX 焦点元素读取失败：首读 ");
            let m = m.concat(a.as_str());
            let m = m.concat("（");
            let m = m.concat(an.as_str());
            let m = m.concat("），重试 ");
            let m = m.concat(b.as_str());
            let m = m.concat("（");
            let m = m.concat(bn.as_str());
            let m = m.concat("）");
            Err(m)
        },
    }
}

// ---------------------------------------------------------------------------
// Command-C fallback
// ---------------------------------------------------------------------------

/// The state of a command-C probe: the clipboard text and change count from
/// before the simulated key press.
pub struct CopyProbe {
    pub before_text: Option<String>,
    pub before_count: i64,
}

impl CopyProbe {
    pub fn new(before_text: Option<String>, before_count: i64) -> (p: Self)
        ensures
            p.before_text == before_text,
            p.before_count == before_count,
    {
        CopyProbe { before_text, before_count }
    }

    /// Whether the pasteboard changed since the key press (only then is its
    /// text read).
    pub fn changed(&self, count: i64) -> (r: bool)
        ensures
            r == (count > self.before_count),
    {
        count > self.before_count
    }

    /// Whether text read after a change is the copied selection: not empty,
    /// and not the text that was there before.
    pub fn accepts(&self, t: &str) -> (r: bool)
        ensures
            r == (t@.len() > 0 && !(self.before_text matches Some(b) && b@ == t@)),
    {
        if t.is_empty() {
            return false;
        }
        match &self.before_text {
            Some(b) => !text::str_eq(b.as_str(), t),
            None => true,
        }
    }
}

/// The error when the clipboard did not change after command-C.
pub fn copy_failure() -> (r: String)
    ensures
        r@ == "⌘C 后剪贴板无变化（目标 App 可能不支持复制）"@,
{
    String::from_str("⌘C 后剪贴板无变化（目标 App 可能不支持复制）")
}

// ---------------------------------------------------------------------------
// Workspace guess from a window title
// ---------------------------------------------------------------------------

/// The longest project name looked for, in characters.
pub const MAX_WORKSPACE_NAME: usize = 60;

/// The folder name a window title points at: the text after its last `|`
/// (the whole title without one), trimmed; none for an empty title, an empty
/// name or a name longer than `MAX_WORKSPACE_NAME` characters.
pub open spec fn workspace_name_seq(title: Seq<char>) -> Option<Seq<char>> {
    if title.len() == 0 {
        None
    } else {
        let name = text::trim_seq(text::last_piece(title, '|'));
        if name.len() == 0 || name.len() > MAX_WORKSPACE_NAME {
            None
        } else {
            Some(name)
        }
    }
}

/// The folder name to search for, from a window title.
pub fn workspace_name(win_title: &str) -> (r: Option<String>)
    ensures
        match r {
            Some(n) => workspace_name_seq(win_title@) == Some(n@),
            None => workspace_name_seq(win_title@) is None,
        },
{
    let v = text::chars_of(win_title);
    if v.len() == 0 {
        return None;
    }
    let pieces = text::split_chars(&v, '|');
    proof {
        text::lemma_split_nonempty(v@, '|');
    }
    let last = &pieces[pieces.len() - 1];
    let name = text::trim_chars(last);
    if name.len() == 0 || name.len() > MAX_WORKSPACE_NAME {
        return None;
    }
    Some(text::string_of(&name))
}

/// The folders under the home directory that are searched, in order.
pub fn workspace_roots() -> (r: Vec<String>)
    ensures
        r@.len() == 4,
        r@[0]@ == "Documents"@,
        r@[1]@ == "Desktop"@,
        r@[2]@ == "Projects"@,
        r@[3]@ == "workspaces"@,
{
    let mut r: Vec<String> = Vec::new();
    r.push(String::from_str("Documents"));
    r.push(String::from_str("Desktop"));
    r.push(String::from_str("Projects"));
    r.push(String::from_str("workspaces"));
    r
}

/// The directory searched for one root: `<home>/<root>`.
pub fn search_dir(home: &str, root: &str) -> (r: String)
    ensures
        r@ == home@ + "/"@ + root@,
{
    text::concat3(home, "/", root)
}

/// The folder `find` reported: its first output line, trimmed, if not empty.
pub open spec fn found_dir_seq(out: Seq<char>) -> Option<Seq<char>> {
    match text::first_line_seq(out) {
        Some(l) => if text::trim_seq(l).len() > 0 {
            Some(text::trim_seq(l))
        } else {
            None
        },
        None => None,
    }
}

/// The folder `find` reported, from its output.
pub fn found_dir(out: &str) -> (r: Option<String>)
    ensures
        match r {
            Some(d) => found_dir_seq(out@) == Some(d@),
            None => found_dir_seq(out@) is None,
        },
{
    match text::first_line(out) {
        Some(l) => {
            let t = text::trim(l.as_str());
            if t.as_str().is_empty() {
                None
            } else {
                Some(t)
            }
        },
        None => None,
    }
}

// ---------------------------------------------------------------------------
// Raising the source window again
// ---------------------------------------------------------------------------

/// Two names match loosely: equal, or either holds the other (an empty
/// candidate never matches by being held).
pub open spec fn names_match_seq(candidate: Seq<char>, wanted: Seq<char>) -> bool {
    candidate == wanted || text::contains_seq(candidate, wanted) || (candidate.len() > 0
        && text::contains_seq(wanted, candidate))
}

/// Whether a running application's name matches the wanted one.
pub fn names_match(candidate: &str, wanted: &str) -> (r: bool)
    ensures
        r == names_match_seq(candidate@, wanted@),
{
    text::str_eq(candidate, wanted) || text::contains(candidate, wanted) || (!candidate.is_empty()
        && text::contains(wanted, candidate))
}

/// A running application as the workspace lists it.
pub struct RunningApp {
    pub name: String,
    /// `NSApplicationActivationPolicy` (`0` = a regular application).
    pub policy: i64,
}

/// The first regular application whose name matches.
pub open spec fn picks_app(apps: Seq<RunningApp>, wanted: Seq<char>, i: int) -> bool {
    &&& 0 <= i < apps.len()
    &&& apps[i].policy == 0 && names_match_seq(apps[i].name@, wanted)
    &&& forall|j: int|
        0 <= j < i ==> !((#[trigger] apps[j]).policy == 0 && names_match_seq(apps[j].name@, wanted))
}

/// The application to activate: the first regular one whose name matches.
pub fn pick_app(apps: &Vec<RunningApp>, wanted: &str) -> (r: Option<usize>)
    ensures
        match r {
            Some(i) => picks_app(apps@, wanted@, i as int),
            None => forall|j: int|
                0 <= j < apps@.len() ==> !((#[trigger] apps@[j]).policy == 0 && names_match_seq(
                    apps@[j].name@,
                    wanted@,
                )),
        },
{
    let mut i: usize = 0;
    while i < apps.len()
        invariant
            i <= apps.len(),
            forall|j: int|
                0 <= j < i ==> !((#[trigger] apps@[j]).policy == 0 && names_match_seq(
                    apps@[j].name@,
                    wanted@,
                )),
        decreases apps.len() - i,
    {
        if apps[i].policy == 0 && names_match(apps[i].name.as_str(), wanted) {
            return Some(i);
        }
        i += 1;
    }
    None
}

/// A window title matches the wanted one loosely; an empty wanted title
/// matches nothing.
pub open spec fn title_matches_seq(window_title: Seq<char>, wanted: Seq<char>) -> bool {
    wanted.len() > 0 && (window_title == wanted || text::contains_seq(window_title, wanted) || (
    window_title.len() > 0 && text::contains_seq(wanted, window_title)))
}

/// Whether a window's title matches the title the capture recorded.
pub fn title_matches(window_title: &str, wanted: &str) -> (r: bool)
    ensures
        r == title_matches_seq(window_title@, wanted@),
{
    !wanted.is_empty() && (text::str_eq(window_title, wanted) || text::contains(
        window_title,
        wanted,
    ) || (!window_title.is_empty() && text::contains(wanted, window_title)))
}

/// A window of the application, as the AX tree shows it.
pub struct WindowInfo {
    pub title: String,
    pub role: String,
}

/// The window to raise: the first whose title matches; failing that, the
/// first that is not the desktop (raising the desktop fails).
pub fn pick_window(windows: &Vec<WindowInfo>, wanted: &str) -> (r: Option<usize>)
    ensures
        match r {
            Some(i) => {
                &&& i < windows@.len()
                &&& (exists|k: int|
                    0 <= k < windows@.len() && title_matches_seq(windows@[k].title@, wanted@))
                    ==> {
                    &&& title_matches_seq(windows@[i as int].title@, wanted@)
                    &&& forall|j: int|
                        0 <= j < i ==> !title_matches_seq(#[trigger] windows@[j].title@, wanted@)
                }
                &&& (forall|k: int|
                    0 <= k < windows@.len() ==> !title_matches_seq(
                        #[trigger] windows@[k].title@,
                        wanted@,
                    )) ==> {
                    &&& windows@[i as int].role@ != "AXDesktop"@
                    &&& forall|j: int| 0 <= j < i ==> (#[trigger] windows@[j].role@) == "AXDesktop"@
                }
            },
            None => forall|k: int|
                0 <= k < windows@.len() ==> !title_matches_seq(
                    #[trigger] windows@[k].title@,
                    wanted@,
                ) && windows@[k].role@ == "AXDesktop"@,
        },
{
    let mut i: usize = 0;
    while i < windows.len()
        invariant
            i <= windows.len(),
            forall|j: int|
                0 <= j < i ==> !title_matches_seq(#[trigger] windows@[j].title@, wanted@),
        decreases windows.len() - i,
    {
        if title_matches(windows[i].title.as_str(), wanted) {
            return Some(i);
        }
        i += 1;
    }
    let mut k: usize = 0;
    while k < windows.len()
        invariant
            k <= windows.len(),
            forall|j: int|
                0 <= j < windows@.len() ==> !title_matches_seq(
                    #[trigger] windows@[j].title@,
                    wanted@,
                ),
            forall|j: int| 0 <= j < k ==> (#[trigger] windows@[j].role@) == "AXDesktop"@,
        decreases windows.len() - k,
    {
        if !text::str_eq(windows[k].role.as_str(), "AXDesktop") {
            return Some(k);
        }
        k += 1;
    }
    None
}

// ---------------------------------------------------------------------------
// Walking the AX tree for box selection
// ---------------------------------------------------------------------------

/// The walk visits at most this many nodes ...
pub const NODE_CAP: usize = 5000;
/// ... collects at most this many text blocks ...
pub const BLOCK_CAP: usize = 2500;
/// ... and goes at most this deep.
pub const DEPTH_CAP: usize = 20;

/// Whether the walk may visit a node at `depth`, having visited `nodes`
/// nodes and collected `blocks` blocks.
pub fn walk_may_visit(depth: usize, nodes: usize, blocks: usize) -> (r: bool)
    ensures
        r == (depth <= DEPTH_CAP && nodes <= NODE_CAP && blocks <= BLOCK_CAP),
{
    !(depth > DEPTH_CAP || nodes > NODE_CAP || blocks > BLOCK_CAP)
}

/// Whether the walk stops going through a node's children.
pub fn walk_exhausted(nodes: usize, blocks: usize) -> (r: bool)
    ensures
        r == (nodes > NODE_CAP || blocks > BLOCK_CAP),
{
    nodes > NODE_CAP || blocks > BLOCK_CAP
}

/// Menus are transient and never a selection target: their subtree is skipped.
pub fn is_menu_role(role: &str) -> (r: bool)
    ensures
        r == (role@ == "AXMenu"@ || role@ == "AXMenuItem"@ || role@ == "AXMenuBar"@),
{
    text::str_eq(role, "AXMenu") || text::str_eq(role, "AXMenuItem") || text::str_eq(
        role,
        "AXMenuBar",
    )
}

/// Whether an element's string value counts as text (it is not blank).
pub fn is_text_value(value: &str) -> (r: bool)
    ensures
        r == (text::trim_seq(value@).len() > 0),
{
    !text::is_blank(value)
}

/// Enough blocks that no further harvest round is tried.
pub const ENOUGH_BLOCKS: usize = 8;
/// Warm-up before the first harvest round, in milliseconds.
pub const FIRST_HARVEST_WAIT_MS: u64 = 600;

/// The warm-up before retry round `round` (counted from 0), if one is still
/// due: Chromium-based apps need a second or two to build their AX tree.
pub fn harvest_retry_wait(round: usize, best_len: usize) -> (r: Option<u64>)
    ensures
        best_len >= ENOUGH_BLOCKS ==> r is None,
        best_len < ENOUGH_BLOCKS ==> r == (if round == 0 {
            Some(1200u64)
        } else if round == 1 {
            Some(1500u64)
        } else {
            None
        }),
{
    if best_len >= ENOUGH_BLOCKS {
        None
    } else if round == 0 {
        Some(1200)
    } else if round == 1 {
        Some(1500)
    } else {
        None
    }
}

/// Whether a retry round's harvest replaces the best so far (it has more blocks).
pub fn harvest_improves(best_len: usize, again_len: usize) -> (r: bool)
    ensures
        r == (again_len > best_len),
{
    again_len > best_len
}

// ---------------------------------------------------------------------------
// Joining text fragments
// ---------------------------------------------------------------------------

/// Characters from U+0800 on (three or more bytes in UTF-8: CJK, full-width
/// punctuation, typographic quotes and dashes) join without a space.
pub open spec fn is_cjk_spec(c: char) -> bool {
    (c as u32) >= 0x800
}

/// Whether a character is CJK for the purpose of joining fragments.
pub fn is_cjk(c: char) -> (r: bool)
    ensures
        r == is_cjk_spec(c),
{
    (c as u32) >= 0x800
}

/// Two fragments joined: with nothing between them when the join is between
/// two CJK characters, with a space otherwise; an empty side is dropped.
pub open spec fn glue_seq(a: Seq<char>, b: Seq<char>) -> Seq<char> {
    if a.len() == 0 {
        b
    } else if b.len() == 0 {
        a
    } else if is_cjk_spec(a.last()) && is_cjk_spec(b[0]) {
        a + b
    } else {
        a + seq![' '] + b
    }
}

/// Joins two fragments of text.
pub fn glue(a: &str, b: &str) -> (r: String)
    ensures
        r@ == glue_seq(a@, b@),
{
    let x = text::chars_of(a);
    let y = text::chars_of(b);
    if x.len() == 0 {
        return text::owned(b);
    }
    if y.len() == 0 {
        return text::owned(a);
    }
    proof {
        reveal_strlit(" ");
    }
    if is_cjk(x[x.len() - 1]) && is_cjk(y[0]) {
        text::concat2(a, b)
    } else {
        text::concat3(a, " ", b)
    }
}

/// The text of one row of fragments (already in reading order): each
/// fragment is glued on unless the row's text already holds it.
pub open spec fn row_text_seq(parts: Seq<Seq<char>>) -> Seq<char>
    decreases parts.len(),
{
    if parts.len() == 0 {
        seq![]
    } else {
        let line = row_text_seq(parts.drop_last());
        let p = parts.last();
        if line.len() == 0 || !text::contains_seq(line, p) {
            glue_seq(line, p)
        } else {
            line
        }
    }
}

/// The text of a row of fragments.
pub fn row_text(parts: &Vec<String>) -> (r: String)
    ensures
        r@ == row_text_seq(text::string_views(parts@)),
{
    let mut line = String::new();
    let mut i: usize = 0;
    while i < parts.len()
        invariant
            i <= parts.len(),
            line@ == row_text_seq(text::string_views(parts@).take(i as int)),
        decreases parts.len() - i,
    {
        let ghost v = text::string_views(parts@);
        proof {
            assert(v.take(i + 1).drop_last() =~= v.take(i as int));
            assert(v.take(i + 1).last() == parts@[i as int]@);
        }
        if line.as_str().is_empty() || !text::contains(line.as_str(), parts[i].as_str()) {
            line = glue(line.as_str(), parts[i].as_str());
        }
        i += 1;
    }
    assert(text::string_views(parts@).take(parts.len() as int) =~= text::string_views(parts@));
    line
}

/// Paragraphs joined by line feeds.
pub fn join_paragraphs(paragraphs: &Vec<String>) -> (r: String)
    ensures
        r@ == text::join_seq(text::string_views(paragraphs@), '\n'),
{
    text::join_strings(paragraphs, '\n')
}

/// The paragraphs that rows of text form, read top to bottom: a row for
/// which `joins` holds (never the first) is glued onto the paragraph before
/// it; any other row starts a new paragraph.
pub open spec fn paragraphs_of(rows: Seq<Seq<char>>, joins: Seq<bool>) -> Seq<Seq<char>>
    decreases rows.len(),
{
    if rows.len() == 0 {
        seq![]
    } else {
        let prev = paragraphs_of(rows.drop_last(), joins);
        if rows.len() > 1 && joins[rows.len() - 1] {
            prev.update(prev.len() - 1, glue_seq(prev.last(), rows.last()))
        } else {
            prev.push(rows.last())
        }
    }
}

proof fn lemma_paragraphs_len(rows: Seq<Seq<char>>, joins: Seq<bool>)
    ensures
        rows.len() > 0 ==> paragraphs_of(rows, joins).len() >= 1,
        paragraphs_of(rows, joins).len() <= rows.len(),
    decreases rows.len(),
{
    if rows.len() > 0 {
        lemma_paragraphs_len(rows.drop_last(), joins);
    }
}

/// The text of rows once the caller has decided, for each row, whether it
/// continues the paragraph above (`joins[i]`; `joins[0]` is not read):
/// paragraphs joined by line feeds.
pub fn compose_paragraphs(rows: &Vec<String>, joins: &Vec<bool>) -> (r: String)
    requires
        joins.len() == rows.len(),
    ensures
        r@ == text::join_seq(paragraphs_of(text::string_views(rows@), joins@), '\n'),
{
    let ghost rv = text::string_views(rows@);
    let mut out: Vec<String> = Vec::new();
    let mut i: usize = 0;
    while i < rows.len()
        invariant
            rv == text::string_views(rows@),
            joins.len() == rows.len(),
            i <= rows.len(),
            text::string_views(out@) == paragraphs_of(rv.take(i as int), joins@),
        decreases rows.len() - i,
    {
        proof {
            assert(rv.take(i + 1).drop_last() =~= rv.take(i as int));
            assert(rv.take(i + 1).last() == rows@[i as int]@);
            lemma_paragraphs_len(rv.take(i as int), joins@);
        }
        let ghost before = out@;
        if i > 0 && joins[i] {
            let last = out.pop().unwrap();
            let g = glue(last.as_str(), rows[i].as_str());
            out.push(g);
            assert(text::string_views(out@) =~= text::string_views(before).update(
                before.len() - 1,
                glue_seq(text::string_views(before).last(), rows@[i as int]@),
            ));
        } else {
            out.push(rows[i].clone());
            assert(text::string_views(out@) =~= text::string_views(before).push(rows@[i as int]@));
        }
        i += 1;
    }
    assert(rv.take(rows.len() as int) =~= rv);
    join_paragraphs(&out)
}

// ---------------------------------------------------------------------------
// The name of the front application from `lsappinfo`
// ---------------------------------------------------------------------------

/// The source name used when no application name can be found.
pub open spec fn fallback_name_seq() -> Seq<char> {
    "hotkey"@
}

/// The source name used when no application name can be found.
pub fn fallback_app_name() -> (r: String)
    ensures
        r@ == fallback_name_seq(),
{
    String::from_str("hotkey")
}

/// The name in `lsappinfo info -only name` output (`"LSDisplayName"="Name"`):
/// the text after the first `"="`, trimmed, without the quotes around it;
/// the fallback name when there is none.
pub open spec fn lsappinfo_name_seq(out: Seq<char>) -> Seq<char> {
    match text::index_of(out, "\"=\""@, 0) {
        Some(i) => {
            let name = text::trim_char_seq(text::trim_seq(out.skip(i + 3)), '"');
            if name.len() > 0 {
                name
            } else {
                fallback_name_seq()
            }
        },
        None => fallback_name_seq(),
    }
}

/// The application name in `lsappinfo` output.
pub fn lsappinfo_name(out: &str) -> (r: String)
    ensures
        r@ == lsappinfo_name_seq(out@),
{
    proof {
        reveal_strlit("\"=\"");
    }
    let v = text::chars_of(out);
    let pat = text::chars_of("\"=\"");
    assert(pat@ =~= seq!['"', '=', '"']);
    match text::find(&v, &pat) {
        Some(i) => {
            assert(text::occurs_at(v@, pat@, i as int));
            assert(i + pat@.len() <= v@.len());
            assert(pat@.len() == 3);
            assert(i + 3 <= v.len());
            let rest = text::string_of_range(&v, i + 3, v.len());
            assert(rest@ == out@.skip(i + 3));
            let t = text::trim(rest.as_str());
            let name = text::trim_char(t.as_str(), '"');
            if name.as_str().is_empty() {
                fallback_app_name()
            } else {
                name
            }
        },
        None => fallback_app_name(),
    }
}

// ---------------------------------------------------------------------------
// The capture chain: AX read, then command-C
// ---------------------------------------------------------------------------

/// Whether the name of the front application must be looked up another way
/// (there is no front application, or its name is blank).
pub fn needs_name_lookup(front: &Option<FrontApp>) -> (r: bool)
    ensures
        r == match front {
            Some(f) => text::trim_seq(f.name@).len() == 0,
            None => true,
        },
{
    match front {
        Some(f) => text::is_blank(f.name.as_str()),
        None => true,
    }
}

/// Where a capture reads from and what it records as the source.
pub struct CaptureTarget {
    pub pid: Option<i32>,
    pub app_name: String,
    pub title: String,
}

/// The capture target from the front application and, when it was needed,
/// the name looked up another way.
pub fn capture_target(front: Option<FrontApp>, looked_up: String) -> (r: CaptureTarget)
    ensures
        match front {
            Some(f) => {
                &&& r.pid == Some(f.pid)
                &&& r.title == f.title
                &&& r.app_name@ == (if text::trim_seq(f.name@).len() == 0 {
                    looked_up@
                } else {
                    f.name@
                })
            },
            None => r.pid is None && r.app_name@ == looked_up@ && r.title@.len() == 0,
        },
{
    match front {
        Some(f) => {
            let name = if text::is_blank(f.name.as_str()) {
                looked_up
            } else {
                f.name
            };
            CaptureTarget { pid: Some(f.pid), app_name: name, title: f.title }
        },
        None => CaptureTarget { pid: None, app_name: looked_up, title: String::new() },
    }
}

/// Whether the AX channel is tried: there is a process to read from and the
/// app holds the accessibility permission.
pub fn ax_channel_open(target: &CaptureTarget, trusted: bool) -> (r: bool)
    ensures
        r == (target.pid is Some && trusted),
{
    target.pid.is_some() && trusted
}

/// The text the AX channel captured: a non-blank selection; otherwise the
/// capture falls back to command-C.
pub fn ax_capture_text(read: Result<String, String>) -> (r: Option<String>)
    ensures
        match read {
            Ok(t) => if text::trim_seq(t@).len() > 0 {
                r matches Some(u) && u == t
            } else {
                r is None
            },
            Err(_) => r is None,
        },
{
    match read {
        Ok(t) => if text::is_blank(t.as_str()) {
            None
        } else {
            Some(t)
        },
        Err(_) => None,
    }
}

/// The channel a capture came through.
pub enum Channel {
    /// The AX selected-text read.
    Ax,
    /// The command-C fallback.
    CmdC,
    /// Box selection.
    Box,
    /// The clipboard HUD.
    Clip,
}

impl Channel {
    /// The name the capture window receives.
    pub open spec fn name_seq(self) -> Seq<char> {
        match self {
            Channel::Ax => "ax"@,
            Channel::CmdC => "cmdc"@,
            Channel::Box => "box"@,
            Channel::Clip => "clip"@,
        }
    }

    /// The channel's name.
    pub fn name(&self) -> (r: String)
        ensures
            r@ == self.name_seq(),
    {
        match self {
            Channel::Ax => String::from_str("ax"),
            Channel::CmdC => String::from_str("cmdc"),
            Channel::Box => String::from_str("box"),
            Channel::Clip => String::from_str("clip"),
        }
    }
}

/// What the capture chain has just learnt.
pub enum GatherEvent {
    /// The chain starts.
    Start,
    /// The AX read of the selection answered.
    AxRead(Result<String, String>),
    /// The command-C fallback answered.
    CopyRead(Result<String, String>),
}

/// What the capture chain does next.
pub enum GatherAction {
    /// Read the selected text of the process through AX.
    ReadAx(i32),
    /// Simulate command-C and read the clipboard.
    SimulateCopy,
    /// The capture is done: this text, through this channel.
    Finish(Channel, String),
    /// The capture failed with this message.
    Fail(String),
}

/// The capture chain, one decision at a time: AX first when there is a
/// process and the permission is granted; a blank or failed AX read falls
/// back to command-C; the command-C result ends the chain either way.
pub fn gather_capture(target: &CaptureTarget, trusted: bool, event: GatherEvent) -> (r: GatherAction)
    ensures
        match event {
            GatherEvent::Start => if target.pid is Some && trusted {
                r == GatherAction::ReadAx(target.pid->0)
            } else {
                r is SimulateCopy
            },
            GatherEvent::AxRead(read) => match read {
                Ok(t) => if text::trim_seq(t@).len() > 0 {
                    r matches GatherAction::Finish(c, u) && c is Ax && u == t
                } else {
                    r is SimulateCopy
                },
                Err(_) => r is SimulateCopy,
            },
            GatherEvent::CopyRead(read) => match read {
                Ok(t) => r matches GatherAction::Finish(c, u) && c is CmdC && u == t,
                Err(e) => r matches GatherAction::Fail(m) && m == e,
            },
        },
{
    match event {
        GatherEvent::Start => {
            if ax_channel_open(target, trusted) {
                match target.pid {
                    Some(pid) => GatherAction::ReadAx(pid),
                    None => GatherAction::SimulateCopy,
                }
            } else {
                GatherAction::SimulateCopy
            }
        },
        GatherEvent::AxRead(read) => match ax_capture_text(read) {
            Some(t) => GatherAction::Finish(Channel::Ax, t),
            None => GatherAction::SimulateCopy,
        },
        GatherEvent::CopyRead(read) => match read {
            Ok(t) => GatherAction::Finish(Channel::CmdC, t),
            Err(e) => GatherAction::Fail(e),
        },
    }
}

/// What a capture hands the capture window.
pub struct CaptureSource {
    pub text: String,
    pub app_name: String,
    pub ws: String,
    pub sr: String,
    pub channel: Channel,
}

/// The session reference a capture records: `窗口：<title>`, empty without a
/// title.
pub open spec fn session_ref_seq(title: Seq<char>) -> Seq<char> {
    if title.len() == 0 {
        seq![]
    } else {
        "窗口："@ + title
    }
}

/// The session reference for a window title.
pub fn session_ref(title: &str) -> (r: String)
    ensures
        r@ == session_ref_seq(title@),
{
    if title.is_empty() {
        String::new()
    } else {
        text::concat2("窗口：", title)
    }
}

/// Assembles a capture from its text, source application, window title,
/// the workspace found for that title and the channel.
pub fn build_source(text: String, app_name: String, title: String, ws: String, channel: Channel) -> (r:
    CaptureSource)
    ensures
        r.text == text,
        r.app_name == app_name,
        r.ws == ws,
        r.sr@ == session_ref_seq(title@),
        r.channel == channel,
{
    let sr = session_ref(title.as_str());
    CaptureSource { text, app_name, ws, sr, channel }
}

// ---------------------------------------------------------------------------
// OCR helper output
// ---------------------------------------------------------------------------

/// The result of the OCR helper, from what it printed: `__ERR__<reason>`
/// reports a failure (a failed screen grab is told as a permission problem);
/// otherwise the text without trailing whitespace, which must not be blank.
pub open spec fn ocr_outcome_seq(out: Seq<char>) -> Result<Seq<char>, Seq<char>> {
    if text::starts_with_seq(out, "__ERR__"@) {
        let reason = text::trim_seq(out.skip(7));
        if reason == "capture"@ || reason == "empty-capture"@ {
            Err("屏幕取像失败——请在 系统设置→隐私与安全性→屏幕录制 中授权纳言后重试"@)
        } else {
            Err("OCR 失败："@ + reason)
        }
    } else if text::trim_seq(text::trim_end_seq(out)).len() == 0 {
        Err("画面里没有识别到文字"@)
    } else {
        Ok(text::trim_end_seq(out))
    }
}

/// The OCR result from the helper's output.
pub fn ocr_outcome(out: &str) -> (r: Result<String, String>)
    ensures
        match r {
            Ok(t) => ocr_outcome_seq(out@) == Ok::<Seq<char>, Seq<char>>(t@),
            Err(e) => ocr_outcome_seq(out@) == Err::<Seq<char>, Seq<char>>(e@),
        },
{
    proof {
        reveal_strlit("__ERR__");
    }
    if text::starts_with(out, "__ERR__") {
        let v = text::chars_of(out);
        let rest = text::string_of_range(&v, 7, v.len());
        assert(rest@ == out@.skip(7));
        let reason = text::trim(rest.as_str());
        if text::str_eq(reason.as_str(), "capture") || text::str_eq(reason.as_str(), "empty-capture") {
            return Err(String::from_str("屏幕取像失败——请在 系统设置→隐私与安全性→屏幕录制 中授权纳言后重试"));
        }
        return Err(text::concat2("OCR 失败：", reason.as_str()));
    }
    let t = text::trim_end(out);
    if text::is_blank(t.as_str()) {
        return Err(String::from_str("画面里没有识别到文字"));
    }
    Ok(t)
}

} // verus!
