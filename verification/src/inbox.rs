//! The inbox API: which request a method and path name, the filters of the
//! list query and the SQL it runs, and what each write request stores.
//!
//! A suggestion has a status (`inbox`, `todo`, `doing`, `done`, `dropped`)
//! and a kind (`suggestion`, `idle`); only one suggestion is `doing` at a
//! time, so starting one sends the previous one back to `todo`.
use vstd::prelude::*;
use vstd::string::StringExecFns;
use crate::text;

verus! {

broadcast use vstd::string::group_string_axioms;

// ---------------------------------------------------------------------------
// Statuses and kinds
// ---------------------------------------------------------------------------

/// The statuses a suggestion can have.
pub open spec fn is_status(s: Seq<char>) -> bool {
    s == "inbox"@ || s == "todo"@ || s == "doing"@ || s == "done"@ || s == "dropped"@
}

/// The kinds a suggestion can have.
pub open spec fn is_kind(s: Seq<char>) -> bool {
    s == "suggestion"@ || s == "idle"@
}

/// Whether a string is a status.
pub fn is_valid_status(s: &str) -> (r: bool)
    ensures
        r == is_status(s@),
{
    text::str_eq(s, "inbox") || text::str_eq(s, "todo") || text::str_eq(s, "doing")
        || text::str_eq(s, "done") || text::str_eq(s, "dropped")
}

/// Whether a string is a kind.
pub fn is_valid_kind(s: &str) -> (r: bool)
    ensures
        r == is_kind(s@),
{
    text::str_eq(s, "suggestion") || text::str_eq(s, "idle")
}

/// The kind stored for a requested kind: itself when valid, `suggestion`
/// otherwise.
pub open spec fn kind_of(requested: Seq<char>) -> Seq<char> {
    if is_kind(requested) {
        requested
    } else {
        "suggestion"@
    }
}

// ---------------------------------------------------------------------------
// Routing
// ---------------------------------------------------------------------------

/// What a request asks for. Ids are `None` when the path segment is not an
/// integer (the request is then refused with `非法 id`).
pub enum Target {
    ListSuggestions,
    Projects,
    CreateSuggestion,
    CreateBatch,
    PatchSuggestion(Option<i64>),
    DeleteSuggestion(Option<i64>),
    SetSteps(Option<i64>),
    PatchStep(Option<i64>),
    DeleteStep(Option<i64>),
    GetSettings,
    SaveSettings,
    TestSettings,
    SplitWithAi(Option<i64>),
    NotFound,
}

/// The path without its query string.
pub open spec fn path_part(path: Seq<char>) -> Seq<char> {
    match text::split_once_seq(path, '?') {
        Some((p, _)) => p,
        None => path,
    }
}

/// The query string (empty without a `?`).
pub open spec fn query_part(path: Seq<char>) -> Seq<char> {
    match text::split_once_seq(path, '?') {
        Some((_, q)) => q,
        None => seq![],
    }
}

/// The non-empty segments of the path.
pub open spec fn segments(path: Seq<char>) -> Seq<Seq<char>> {
    text::nonempty_pieces(text::split_seq(text::trim_char_seq(path_part(path), '/'), '/'))
}

/// The request a method and a list of path segments name.
pub open spec fn target_of(method: Seq<char>, segs: Seq<Seq<char>>) -> Target {
    if segs.len() >= 1 && segs[0] == "api"@ {
        if segs.len() == 2 && segs[1] == "suggestions"@ && method == "GET"@ {
            Target::ListSuggestions
        } else if segs.len() == 2 && segs[1] == "projects"@ && method == "GET"@ {
            Target::Projects
        } else if segs.len() == 2 && segs[1] == "suggestions"@ && method == "POST"@ {
            Target::CreateSuggestion
        } else if segs.len() == 3 && segs[1] == "suggestions"@ && segs[2] == "batch"@ && method
            == "POST"@ {
            Target::CreateBatch
        } else if segs.len() == 3 && segs[1] == "suggestions"@ && method == "PATCH"@ {
            Target::PatchSuggestion(text::parse_i64_seq(segs[2]))
        } else if segs.len() == 3 && segs[1] == "suggestions"@ && method == "DELETE"@ {
            Target::DeleteSuggestion(text::parse_i64_seq(segs[2]))
        } else if segs.len() == 4 && segs[1] == "suggestions"@ && segs[3] == "steps"@ && method
            == "POST"@ {
            Target::SetSteps(text::parse_i64_seq(segs[2]))
        } else if segs.len() == 3 && segs[1] == "steps"@ && method == "PATCH"@ {
            Target::PatchStep(text::parse_i64_seq(segs[2]))
        } else if segs.len() == 3 && segs[1] == "steps"@ && method == "DELETE"@ {
            Target::DeleteStep(text::parse_i64_seq(segs[2]))
        } else if segs.len() == 2 && segs[1] == "settings"@ && method == "GET"@ {
            Target::GetSettings
        } else if segs.len() == 2 && segs[1] == "settings"@ && method == "POST"@ {
            Target::SaveSettings
        } else if segs.len() == 3 && segs[1] == "settings"@ && segs[2] == "test"@ && method
            == "POST"@ {
            Target::TestSettings
        } else if segs.len() == 4 && segs[1] == "ai"@ && segs[2] == "split"@ && method == "POST"@ {
            Target::SplitWithAi(text::parse_i64_seq(segs[3]))
        } else {
            Target::NotFound
        }
    } else {
        Target::NotFound
    }
}

/// Whether segment `i` holds the text `lit`.
fn seg_is(segs: &Vec<Vec<char>>, i: usize, lit: &str) -> (r: bool)
    requires
        i < segs.len(),
    ensures
        r == (segs@[i as int]@ == lit@),
{
    let l = text::chars_of(lit);
    text::seq_eq(&segs[i], &l)
}

/// The path's segments.
pub fn path_segments(path: &str) -> (r: Vec<Vec<char>>)
    ensures
        text::char_views(r@) == segments(path@),
{
    let v = text::chars_of(path);
    let p = match text::split_once_chars(&v, '?') {
        Some((a, _)) => a,
        None => v,
    };
    let t = text::trim_char_chars(&p, '/');
    text::nonempty_split(&t, '/')
}

/// The query string of a request path.
pub fn query_string(path: &str) -> (r: String)
    ensures
        r@ == query_part(path@),
{
    let v = text::chars_of(path);
    match text::split_once_chars(&v, '?') {
        Some((_, q)) => text::string_of(&q),
        None => String::new(),
    }
}

fn seg_id(segs: &Vec<Vec<char>>, i: usize) -> (r: Option<i64>)
    requires
        i < segs.len(),
    ensures
        r == text::parse_i64_seq(segs@[i as int]@),
{
    let s = text::string_of(&segs[i]);
    text::parse_i64(s.as_str())
}

/// The request that a method and a path name.
pub fn route(method: &str, path: &str) -> (r: Target)
    ensures
        r == target_of(method@, segments(path@)),
{
    let segs = path_segments(path);
    let ghost sv = segments(path@);
    assert(forall|i: int| 0 <= i < segs@.len() ==> #[trigger] segs@[i]@ == sv[i]);
    let n = segs.len();
    if n == 0 || !seg_is(&segs, 0, "api") {
        return Target::NotFound;
    }
    let get = text::str_eq(method, "GET");
    let post = text::str_eq(method, "POST");
    let patch = text::str_eq(method, "PATCH");
    let delete = text::str_eq(method, "DELETE");
    if n == 2 && seg_is(&segs, 1, "suggestions") && get {
        Target::ListSuggestions
    } else if n == 2 && seg_is(&segs, 1, "projects") && get {
        Target::Projects
    } else if n == 2 && seg_is(&segs, 1, "suggestions") && post {
        Target::CreateSuggestion
    } else if n == 3 && seg_is(&segs, 1, "suggestions") && seg_is(&segs, 2, "batch") && post {
        Target::CreateBatch
    } else if n == 3 && seg_is(&segs, 1, "suggestions") && patch {
        Target::PatchSuggestion(seg_id(&segs, 2))
    } else if n == 3 && seg_is(&segs, 1, "suggestions") && delete {
        Target::DeleteSuggestion(seg_id(&segs, 2))
    } else if n == 4 && seg_is(&segs, 1, "suggestions") && seg_is(&segs, 3, "steps") && post {
        Target::SetSteps(seg_id(&segs, 2))
    } else if n == 3 && seg_is(&segs, 1, "steps") && patch {
        Target::PatchStep(seg_id(&segs, 2))
    } else if n == 3 && seg_is(&segs, 1, "steps") && delete {
        Target::DeleteStep(seg_id(&segs, 2))
    } else if n == 2 && seg_is(&segs, 1, "settings") && get {
        Target::GetSettings
    } else if n == 2 && seg_is(&segs, 1, "settings") && post {
        Target::SaveSettings
    } else if n == 3 && seg_is(&segs, 1, "settings") && seg_is(&segs, 2, "test") && post {
        Target::TestSettings
    } else if n == 4 && seg_is(&segs, 1, "ai") && seg_is(&segs, 2, "split") && post {
        Target::SplitWithAi(seg_id(&segs, 3))
    } else {
        Target::NotFound
    }
}

/// The message for a path segment that is not an id.
pub fn bad_id() -> (r: String)
    ensures
        r@ == "非法 id"@,
{
    String::from_str("非法 id")
}

/// The message for a request that names nothing, or a missing row.
pub fn not_found() -> (r: String)
    ensures
        r@ == "not found"@,
{
    String::from_str("not found")
}

// ---------------------------------------------------------------------------
// The list query
// ---------------------------------------------------------------------------

/// The columns of a suggestion row, in the order the API reads them.
pub open spec fn sug_cols_seq() -> Seq<char> {
    "id, title, quote, my_note, source_tool, workspace, session_ref, tags, status, kind, priority, created_at, updated_at, user_msg"@
}

/// The order of the list: `doing`, `todo`, `inbox`, `done`, the rest; newest
/// first within each.
pub open spec fn list_order_seq() -> Seq<char> {
    " ORDER BY CASE status WHEN 'doing' THEN 0 WHEN 'todo' THEN 1 WHEN 'inbox' THEN 2 WHEN 'done' THEN 3 ELSE 4 END, id DESC"@
}

/// A `key=value` pair of the query string (a pair without `=` has an empty
/// value).
pub open spec fn pair_kv(pair: Seq<char>) -> (Seq<char>, Seq<char>) {
    match text::split_once_seq(pair, '=') {
        Some(kv) => kv,
        None => (pair, seq![]),
    }
}

/// The `LIKE` pattern of a search term.
pub open spec fn like_seq(v: Seq<char>) -> Seq<char> {
    "%"@ + v + "%"@
}

/// The `WHERE` clauses and their parameters for a list of query pairs:
/// `status` and `kind` filter when their value is valid, `tool` filters by
/// source tool, `q` searches title, quote and note; other keys are ignored.
pub open spec fn filter_fold(pairs: Seq<Seq<char>>) -> (Seq<Seq<char>>, Seq<Seq<char>>)
    decreases pairs.len(),
{
    if pairs.len() == 0 {
        (seq![], seq![])
    } else {
        let prev = filter_fold(pairs.drop_last());
        let kv = pair_kv(pairs.last());
        let k = kv.0;
        let v = kv.1;
        if k == "status"@ && is_status(v) {
            (prev.0.push("status = ?"@), prev.1.push(v))
        } else if k == "tool"@ {
            (prev.0.push("source_tool = ?"@), prev.1.push(v))
        } else if k == "kind"@ && is_kind(v) {
            (prev.0.push("kind = ?"@), prev.1.push(v))
        } else if k == "q"@ {
            (
                prev.0.push("(title LIKE ? OR quote LIKE ? OR my_note LIKE ?)"@),
                prev.1.push(like_seq(v)).push(like_seq(v)).push(like_seq(v)),
            )
        } else {
            prev
        }
    }
}

/// The clauses and parameters of a query string.
pub open spec fn list_filter_seq(query: Seq<char>) -> (Seq<Seq<char>>, Seq<Seq<char>>) {
    filter_fold(text::nonempty_pieces(text::split_seq(query, '&')))
}

/// The `WHERE` clauses of a list request and their parameters, in order.
pub struct ListFilter {
    pub clauses: Vec<String>,
    pub params: Vec<String>,
}

/// The filters of a list request's query string.
pub fn list_filter(query: &str) -> (r: ListFilter)
    ensures
        (text::string_views(r.clauses@), text::string_views(r.params@)) == list_filter_seq(query@),
{
    let v = text::chars_of(query);
    let pairs = text::nonempty_split(&v, '&');
    let ghost ps = text::nonempty_pieces(text::split_seq(query@, '&'));
    let mut clauses: Vec<String> = Vec::new();
    let mut params: Vec<String> = Vec::new();
    let mut i: usize = 0;
    while i < pairs.len()
        invariant
            text::char_views(pairs@) == ps,
            i <= pairs.len(),
            (text::string_views(clauses@), text::string_views(params@)) == filter_fold(
                ps.take(i as int),
            ),
        decreases pairs.len() - i,
    {
        let pair = &pairs[i];
        proof {
            assert(ps.take(i + 1).drop_last() =~= ps.take(i as int));
            assert(ps.take(i + 1).last() == ps[i as int]);
            assert(ps[i as int] == pair@);
        }
        let (k, val) = match text::split_once_chars(pair, '=') {
            Some((a, b)) => (text::string_of(&a), text::string_of(&b)),
            None => (text::string_of(pair), String::new()),
        };
        let ghost c0 = clauses@;
        let ghost p0 = params@;
        if text::str_eq(k.as_str(), "status") && is_valid_status(val.as_str()) {
            clauses.push(String::from_str("status = ?"));
            params.push(val);
        } else if text::str_eq(k.as_str(), "tool") {
            clauses.push(String::from_str("source_tool = ?"));
            params.push(val);
        } else if text::str_eq(k.as_str(), "kind") && is_valid_kind(val.as_str()) {
            clauses.push(String::from_str("kind = ?"));
            params.push(val);
        } else if text::str_eq(k.as_str(), "q") {
            let like = text::concat3("%", val.as_str(), "%");
            clauses.push(String::from_str("(title LIKE ? OR quote LIKE ? OR my_note LIKE ?)"));
            params.push(like.clone());
            params.push(like.clone());
            params.push(like);
        }
        proof {
            assert(text::string_views(clauses@) =~= filter_fold(ps.take(i + 1)).0);
            assert(text::string_views(params@) =~= filter_fold(ps.take(i + 1)).1);
        }
        i += 1;
    }
    assert(ps.take(pairs.len() as int) =~= ps);
    ListFilter { clauses, params }
}

/// The SQL of a list request with the given clauses.
pub open spec fn list_sql_seq(clauses: Seq<Seq<char>>) -> Seq<char> {
    "SELECT "@ + sug_cols_seq() + " FROM suggestions"@ + (if clauses.len() > 0 {
        " WHERE "@ + text::join_sep(clauses, " AND "@)
    } else {
        seq![]
    }) + list_order_seq()
}

/// The SQL of a list request.
pub fn list_sql(filter: &ListFilter) -> (r: String)
    ensures
        r@ == list_sql_seq(text::string_views(filter.clauses@)),
{
    let mut sql = String::from_str("SELECT ");
    sql.append(
        "id, title, quote, my_note, source_tool, workspace, session_ref, tags, status, kind, priority, created_at, updated_at, user_msg",
    );
    sql.append(" FROM suggestions");
    if filter.clauses.len() > 0 {
        sql.append(" WHERE ");
        let w = text::join_with(&filter.clauses, " AND ");
        sql.append(w.as_str());
    }
    sql.append(
        " ORDER BY CASE status WHEN 'doing' THEN 0 WHEN 'todo' THEN 1 WHEN 'inbox' THEN 2 WHEN 'done' THEN 3 ELSE 4 END, id DESC",
    );
    sql
}


// ---------------------------------------------------------------------------
// Creating suggestions
// ---------------------------------------------------------------------------

/// The fields of a create request (a field that is absent or not a string
/// arrives as `None`).
pub struct SuggestionInput {
    pub title: Option<String>,
    pub quote: Option<String>,
    pub my_note: Option<String>,
    pub source_tool: Option<String>,
    pub workspace: Option<String>,
    pub session_ref: Option<String>,
    pub tags: Option<String>,
    pub kind: Option<String>,
    pub user_msg: Option<String>,
}

/// The values stored for a new suggestion.
pub struct NewSuggestion {
    pub title: String,
    pub quote: String,
    pub my_note: String,
    pub source_tool: String,
    pub workspace: String,
    pub session_ref: String,
    pub tags: String,
    pub kind: String,
    pub user_msg: String,
}

/// A new suggestion as character sequences.
pub struct Draft {
    pub title: Seq<char>,
    pub quote: Seq<char>,
    pub my_note: Seq<char>,
    pub source_tool: Seq<char>,
    pub workspace: Seq<char>,
    pub session_ref: Seq<char>,
    pub tags: Seq<char>,
    pub kind: Seq<char>,
    pub user_msg: Seq<char>,
}

impl View for NewSuggestion {
    type V = Draft;

    open spec fn view(&self) -> Draft {
        Draft {
            title: self.title@,
            quote: self.quote@,
            my_note: self.my_note@,
            source_tool: self.source_tool@,
            workspace: self.workspace@,
            session_ref: self.session_ref@,
            tags: self.tags@,
            kind: self.kind@,
            user_msg: self.user_msg@,
        }
    }
}

/// The text of an optional field, or `dflt` when it is absent.
pub open spec fn or_seq(o: Option<String>, dflt: Seq<char>) -> Seq<char> {
    match o {
        Some(s) => s@,
        None => dflt,
    }
}

/// What a create request stores: the title trimmed (it must not be blank),
/// the other fields as given or empty (`other` for the source tool), and a
/// valid kind or `suggestion`.
pub open spec fn draft_of(input: SuggestionInput) -> Option<Draft> {
    let title = text::trim_seq(or_seq(input.title, seq![]));
    if title.len() == 0 {
        None
    } else {
        Some(
            Draft {
                title: title,
                quote: or_seq(input.quote, seq![]),
                my_note: or_seq(input.my_note, seq![]),
                source_tool: or_seq(input.source_tool, "other"@),
                workspace: or_seq(input.workspace, seq![]),
                session_ref: or_seq(input.session_ref, seq![]),
                tags: or_seq(input.tags, seq![]),
                kind: kind_of(or_seq(input.kind, seq![])),
                user_msg: or_seq(input.user_msg, seq![]),
            },
        )
    }
}

fn field_or(o: &Option<String>, dflt: &str) -> (r: String)
    ensures
        r@ == or_seq(*o, dflt@),
{
    match o {
        Some(s) => s.clone(),
        None => text::owned(dflt),
    }
}

fn field_or_empty(o: &Option<String>) -> (r: String)
    ensures
        r@ == or_seq(*o, seq![]),
{
    match o {
        Some(s) => s.clone(),
        None => String::new(),
    }
}

/// The new suggestion a create request stores, if its title is not blank.
pub fn draft(input: &SuggestionInput) -> (r: Option<NewSuggestion>)
    ensures
        match r {
            Some(n) => draft_of(*input) == Some(n@),
            None => draft_of(*input) is None,
        },
{
    let t = field_or_empty(&input.title);
    let title = text::trim(t.as_str());
    if title.as_str().is_empty() {
        return None;
    }
    let k = field_or_empty(&input.kind);
    let kind = if is_valid_kind(k.as_str()) {
        k
    } else {
        String::from_str("suggestion")
    };
    Some(
        NewSuggestion {
            title,
            quote: field_or_empty(&input.quote),
            my_note: field_or_empty(&input.my_note),
            source_tool: field_or(&input.source_tool, "other"),
            workspace: field_or_empty(&input.workspace),
            session_ref: field_or_empty(&input.session_ref),
            tags: field_or_empty(&input.tags),
            kind,
            user_msg: field_or_empty(&input.user_msg),
        },
    )
}

/// The suggestion a create request stores, or `title 必填` when its title
/// is blank.
pub fn new_suggestion(input: &SuggestionInput) -> (r: Result<NewSuggestion, String>)
    ensures
        match r {
            Ok(n) => draft_of(*input) == Some(n@),
            Err(e) => draft_of(*input) is None && e@ == "title 必填"@,
        },
{
    match draft(input) {
        Some(n) => Ok(n),
        None => Err(String::from_str("title 必填")),
    }
}

/// The suggestions a batch stores: one per item with a non-blank title, in order.
pub open spec fn drafts_of(items: Seq<SuggestionInput>) -> Seq<Draft>
    decreases items.len(),
{
    if items.len() == 0 {
        seq![]
    } else {
        match draft_of(items.last()) {
            Some(d) => drafts_of(items.drop_last()).push(d),
            None => drafts_of(items.drop_last()),
        }
    }
}

/// The drafts held by a vector of new suggestions.
pub open spec fn drafts_view(v: Seq<NewSuggestion>) -> Seq<Draft> {
    v.map_values(|n: NewSuggestion| n@)
}

/// The suggestions a batch request stores: refused when `items` is not an
/// array, or when no item has a title.
pub fn batch_plan(items: Option<Vec<SuggestionInput>>) -> (r: Result<Vec<NewSuggestion>, String>)
    ensures
        match items {
            None => r matches Err(e) && e@ == "items 必须是非空数组"@,
            Some(v) => if drafts_of(v@).len() == 0 {
                r matches Err(e) && e@ == "items 里没有有效的 title"@
            } else {
                r matches Ok(out) && drafts_view(out@) == drafts_of(v@)
            },
        },
{
    let v = match items {
        Some(v) => v,
        None => return Err(String::from_str("items 必须是非空数组")),
    };
    let mut out: Vec<NewSuggestion> = Vec::new();
    let mut i: usize = 0;
    while i < v.len()
        invariant
            i <= v.len(),
            drafts_view(out@) == drafts_of(v@.take(i as int)),
        decreases v.len() - i,
    {
        proof {
            assert(v@.take(i + 1).drop_last() =~= v@.take(i as int));
            assert(v@.take(i + 1).last() == v@[i as int]);
        }
        match draft(&v[i]) {
            Some(n) => {
                let ghost before = out@;
                out.push(n);
                assert(drafts_view(out@) =~= drafts_view(before).push(n@));
            },
            None => {},
        }
        i += 1;
    }
    assert(v@.take(v.len() as int) =~= v@);
    if out.len() == 0 {
        return Err(String::from_str("items 里没有有效的 title"));
    }
    Ok(out)
}

// ---------------------------------------------------------------------------
// Updating suggestions
// ---------------------------------------------------------------------------

/// A stored suggestion.
pub struct Suggestion {
    pub id: i64,
    pub title: String,
    pub quote: String,
    pub my_note: String,
    pub source_tool: String,
    pub workspace: String,
    pub session_ref: String,
    pub tags: String,
    pub status: String,
    pub kind: String,
    pub priority: i64,
    pub created_at: String,
    pub updated_at: String,
    pub user_msg: String,
}

/// The fields of an update request (`None`: absent or not of the right type).
pub struct SuggestionPatch {
    pub title: Option<String>,
    pub quote: Option<String>,
    pub my_note: Option<String>,
    pub source_tool: Option<String>,
    pub workspace: Option<String>,
    pub session_ref: Option<String>,
    pub tags: Option<String>,
    pub kind: Option<String>,
    pub status: Option<String>,
    pub priority: Option<i64>,
    pub user_msg: Option<String>,
}

/// The values an update writes.
pub struct SuggestionUpdate {
    pub title: String,
    pub quote: String,
    pub my_note: String,
    pub source_tool: String,
    pub workspace: String,
    pub session_ref: String,
    pub tags: String,
    pub kind: String,
    pub status: String,
    pub priority: i64,
    pub user_msg: String,
}

/// Whether an update's status is acceptable, and whether it starts the
/// suggestion (status `doing`), which sends any other `doing` one back to
/// `todo`.
pub fn check_status(status: &Option<String>) -> (r: Result<bool, String>)
    ensures
        match status {
            Some(s) => if is_status(s@) {
                r == Ok::<bool, String>(s@ == "doing"@)
            } else {
                r matches Err(e) && e@ == "非法 status"@
            },
            None => r == Ok::<bool, String>(false),
        },
{
    match status {
        Some(s) => {
            if !is_valid_status(s.as_str()) {
                return Err(String::from_str("非法 status"));
            }
            Ok(text::str_eq(s.as_str(), "doing"))
        },
        None => Ok(false),
    }
}

fn keep_or(o: &Option<String>, cur: &String) -> (r: String)
    ensures
        r@ == or_seq(*o, cur@),
{
    match o {
        Some(s) => s.clone(),
        None => cur.clone(),
    }
}

/// `u` holds the values an update writes: each field given in `p`, else the
/// stored one of `cur`.
pub open spec fn merged(cur: Suggestion, p: SuggestionPatch, u: SuggestionUpdate) -> bool {
    &&& u.title@ == or_seq(p.title, cur.title@)
    &&& u.quote@ == or_seq(p.quote, cur.quote@)
    &&& u.my_note@ == or_seq(p.my_note, cur.my_note@)
    &&& u.source_tool@ == or_seq(p.source_tool, cur.source_tool@)
    &&& u.workspace@ == or_seq(p.workspace, cur.workspace@)
    &&& u.session_ref@ == or_seq(p.session_ref, cur.session_ref@)
    &&& u.tags@ == or_seq(p.tags, cur.tags@)
    &&& u.kind@ == or_seq(p.kind, cur.kind@)
    &&& u.status@ == or_seq(p.status, cur.status@)
    &&& u.priority == (match p.priority {
        Some(x) => x,
        None => cur.priority,
    })
    &&& u.user_msg@ == or_seq(p.user_msg, cur.user_msg@)
}

/// The values an update writes: each given field replaces the stored one,
/// each absent field keeps it.
pub fn merge_patch(cur: &Suggestion, p: &SuggestionPatch) -> (r: SuggestionUpdate)
    ensures
        merged(*cur, *p, r),
{
    SuggestionUpdate {
        title: keep_or(&p.title, &cur.title),
        quote: keep_or(&p.quote, &cur.quote),
        my_note: keep_or(&p.my_note, &cur.my_note),
        source_tool: keep_or(&p.source_tool, &cur.source_tool),
        workspace: keep_or(&p.workspace, &cur.workspace),
        session_ref: keep_or(&p.session_ref, &cur.session_ref),
        tags: keep_or(&p.tags, &cur.tags),
        kind: keep_or(&p.kind, &cur.kind),
        status: keep_or(&p.status, &cur.status),
        priority: match p.priority {
            Some(x) => x,
            None => cur.priority,
        },
        user_msg: keep_or(&p.user_msg, &cur.user_msg),
    }
}


/// The writes of an accepted update, in the order they are made: first,
/// when `demote_others` holds, every other `doing` suggestion goes back to
/// `todo`; then the suggestion takes the values of `update`.
pub struct PatchPlan {
    pub demote_others: bool,
    pub update: SuggestionUpdate,
}

/// Whether an update asks for the other `doing` suggestion to step back: it
/// sets the status `doing`.
pub open spec fn demote_for(requested: Option<Seq<char>>) -> bool {
    match requested {
        Some(s) => s == "doing"@,
        None => false,
    }
}

/// The status a suggestion has after an update: the requested one, else
/// its own.
pub open spec fn status_for(requested: Option<Seq<char>>, cur: Seq<char>) -> Seq<char> {
    match requested {
        Some(s) => s,
        None => cur,
    }
}

/// Every row with id `id` holds `status`.
pub open spec fn row_status_is(rows: Seq<(int, Seq<char>)>, id: int, status: Seq<char>) -> bool {
    forall|k: int| 0 <= k < rows.len() && (#[trigger] rows[k]).0 == id ==> rows[k].1 == status
}

/// The writes of an update of the stored suggestion `cur`, or `非法 status`
/// for a status that is not one of the five. Made in order on a store in
/// which at most one suggestion is `doing`, they leave at most one `doing`.
pub fn patch_plan(cur: &Suggestion, p: &SuggestionPatch) -> (r: Result<PatchPlan, String>)
    ensures
        match p.status {
            Some(s) => if is_status(s@) {
                r is Ok
            } else {
                r matches Err(e) && e@ == "非法 status"@
            },
            None => r is Ok,
        },
        r matches Ok(plan) ==> {
            &&& plan.demote_others == demote_for(opt_seq(p.status))
            &&& merged(*cur, *p, plan.update)
            &&& plan.update.status@ == status_for(opt_seq(p.status), cur.status@)
            &&& forall|rows: Seq<(int, Seq<char>)>|
                distinct_ids(rows) && at_most_one_doing(rows) && row_status_is(
                    rows,
                    cur.id as int,
                    cur.status@,
                ) ==> #[trigger] at_most_one_doing(
                    after_status_update(rows, cur.id as int, plan.demote_others, plan.update.status@),
                )
        },
{
    let demote = check_status(&p.status)?;
    let update = merge_patch(cur, p);
    let plan = PatchPlan { demote_others: demote, update };
    proof {
        assert forall|rows: Seq<(int, Seq<char>)>|
            distinct_ids(rows) && at_most_one_doing(rows) && row_status_is(
                rows,
                cur.id as int,
                cur.status@,
            ) implies #[trigger] at_most_one_doing(
            after_status_update(rows, cur.id as int, plan.demote_others, plan.update.status@),
        ) by {
            lemma_patch_keeps_one_doing(rows, cur.id as int, cur.status@, opt_seq(p.status));
        }
    }
    Ok(plan)
}

// ---------------------------------------------------------------------------
// Steps
// ---------------------------------------------------------------------------

/// An entry of the `steps` array of a request: a plain string, or an object
/// with `content`, `is_cmd` and `done` (each `None` when absent or not of
/// the right type; any other JSON value arrives as an object with none).
pub enum StepEntry {
    Text(String),
    Fields { content: Option<String>, is_cmd: Option<bool>, done: Option<bool> },
}

/// A step as stored: its text, whether it is a shell command, whether it is done.
pub struct StepRow {
    pub content: String,
    pub is_cmd: bool,
    pub done: bool,
}

/// The step an entry gives: its text trimmed, flags off unless given.
pub open spec fn step_of(e: StepEntry) -> (Seq<char>, bool, bool) {
    match e {
        StepEntry::Text(t) => (text::trim_seq(t@), false, false),
        StepEntry::Fields { content, is_cmd, done } => (
            text::trim_seq(or_seq(content, seq![])),
            match is_cmd {
                Some(b) => b,
                None => false,
            },
            match done {
                Some(b) => b,
                None => false,
            },
        ),
    }
}

/// The steps of a request's entries: one per entry whose text is not empty.
pub open spec fn steps_of(es: Seq<StepEntry>) -> Seq<(Seq<char>, bool, bool)>
    decreases es.len(),
{
    if es.len() == 0 {
        seq![]
    } else if step_of(es.last()).0.len() == 0 {
        steps_of(es.drop_last())
    } else {
        steps_of(es.drop_last()).push(step_of(es.last()))
    }
}

/// Steps as plain values.
pub open spec fn rows_view(v: Seq<StepRow>) -> Seq<(Seq<char>, bool, bool)> {
    v.map_values(|r: StepRow| (r.content@, r.is_cmd, r.done))
}

/// The steps a set-steps request asks for, and whether they are appended
/// to the existing ones (`mode` = `append`) rather than replacing them.
/// Refused when no entry has text.
pub fn steps_request(mode: &Option<String>, entries: &Option<Vec<StepEntry>>) -> (r: Result<
    (Vec<StepRow>, bool),
    String,
>)
    ensures
        ({
            let es = match entries {
                Some(v) => v@,
                None => seq![],
            };
            if steps_of(es).len() == 0 {
                r matches Err(e) && e@ == "steps 不能为空"@
            } else {
                r matches Ok((rows, append)) && rows_view(rows@) == steps_of(es) && append == (
                mode matches Some(m) && m@ == "append"@)
            }
        }),
{
    let mut rows: Vec<StepRow> = Vec::new();
    let ghost es = match entries {
        Some(v) => v@,
        None => seq![],
    };
    match entries {
        Some(v) => {
            let mut i: usize = 0;
            while i < v.len()
                invariant
                    es == v@,
                    i <= v.len(),
                    rows_view(rows@) == steps_of(v@.take(i as int)),
                decreases v.len() - i,
            {
                proof {
                    assert(v@.take(i + 1).drop_last() =~= v@.take(i as int));
                    assert(v@.take(i + 1).last() == v@[i as int]);
                }
                let row = match &v[i] {
                    StepEntry::Text(t) => StepRow { content: text::trim(t.as_str()), is_cmd: false, done: false },
                    StepEntry::Fields { content, is_cmd, done } => {
                        let c = field_or_empty(content);
                        StepRow {
                            content: text::trim(c.as_str()),
                            is_cmd: match is_cmd {
                                Some(b) => *b,
                                None => false,
                            },
                            done: match done {
                                Some(b) => *b,
                                None => false,
                            },
                        }
                    },
                };
                assert((row.content@, row.is_cmd, row.done) == step_of(v@[i as int]));
                if !row.content.as_str().is_empty() {
                    let ghost before = rows@;
                    rows.push(row);
                    assert(rows_view(rows@) =~= rows_view(before).push(step_of(v@[i as int])));
                }
                i += 1;
            }
            assert(v@.take(v.len() as int) =~= v@);
        },
        None => {
            assert(rows_view(rows@) =~= steps_of(es));
        },
    }
    if rows.len() == 0 {
        return Err(String::from_str("steps 不能为空"));
    }
    let append = match mode {
        Some(m) => text::str_eq(m.as_str(), "append"),
        None => false,
    };
    Ok((rows, append))
}

/// The steps stored after an append: the existing ones, then the new ones;
/// they are numbered by position.
pub fn combine_steps(existing: Vec<StepRow>, new_rows: Vec<StepRow>) -> (r: Vec<StepRow>)
    ensures
        rows_view(r@) == rows_view(existing@) + rows_view(new_rows@),
{
    let mut r = existing;
    let mut rest = new_rows;
    r.append(&mut rest);
    assert(rows_view(r@) =~= rows_view(existing@) + rows_view(new_rows@));
    r
}

/// A stored step, as the step-update request reads it.
pub struct StepState {
    pub content: String,
    pub is_cmd: i64,
    pub done: i64,
    pub result: String,
}

/// The fields of a step-update request.
pub struct StepPatch {
    pub content: Option<String>,
    pub is_cmd: Option<bool>,
    pub done: Option<bool>,
    pub result: Option<String>,
}

/// A flag as stored: `1` or `0`.
pub open spec fn flag_value(b: bool) -> i64 {
    if b {
        1
    } else {
        0
    }
}

/// The step after an update: each given field replaces the stored one.
pub fn merge_step(cur: StepState, p: &StepPatch) -> (r: StepState)
    ensures
        r.content@ == or_seq(p.content, cur.content@),
        r.is_cmd == (match p.is_cmd {
            Some(b) => flag_value(b),
            None => cur.is_cmd,
        }),
        r.done == (match p.done {
            Some(b) => flag_value(b),
            None => cur.done,
        }),
        r.result@ == or_seq(p.result, cur.result@),
{
    let content = keep_or(&p.content, &cur.content);
    let result = keep_or(&p.result, &cur.result);
    let is_cmd: i64 = match p.is_cmd {
        Some(b) => if b {
            1
        } else {
            0
        },
        None => cur.is_cmd,
    };
    let done: i64 = match p.done {
        Some(b) => if b {
            1
        } else {
            0
        },
        None => cur.done,
    };
    StepState { content, is_cmd, done, result }
}

// ---------------------------------------------------------------------------
// Filing a copied text from the clipboard HUD
// ---------------------------------------------------------------------------

/// The most characters a title taken from copied text has.
pub const CLIP_TITLE_LEN: usize = 60;

/// What filing a copied text stores as title and quote: the quote is the
/// text trimmed (nothing is filed when it is empty); the title is its first
/// line, trimmed, cut to `CLIP_TITLE_LEN` characters, or `剪贴板内容`.
pub open spec fn clip_entry_seq(raw: Seq<char>) -> Option<(Seq<char>, Seq<char>)> {
    let clean = text::trim_seq(raw);
    if clean.len() == 0 {
        None
    } else {
        let first = match text::first_line_seq(clean) {
            Some(l) => l,
            None => seq![],
        };
        let title = text::take_chars(text::trim_seq(first), CLIP_TITLE_LEN as nat);
        Some(
            (
                if title.len() == 0 {
                    "剪贴板内容"@
                } else {
                    title
                },
                clean,
            ),
        )
    }
}

/// Title and quote for a copied text, if it is not blank.
pub fn clip_entry(raw: &str) -> (r: Option<(String, String)>)
    ensures
        match r {
            Some((t, q)) => clip_entry_seq(raw@) == Some((t@, q@)),
            None => clip_entry_seq(raw@) is None,
        },
{
    let clean = text::trim(raw);
    if clean.as_str().is_empty() {
        return None;
    }
    let first = match text::first_line(clean.as_str()) {
        Some(l) => l,
        None => String::new(),
    };
    let ft = text::trim(first.as_str());
    let title = text::first_chars(ft.as_str(), CLIP_TITLE_LEN);
    let title = if title.as_str().is_empty() {
        String::from_str("剪贴板内容")
    } else {
        title
    };
    Some((title, clean))
}

// ---------------------------------------------------------------------------
// The AI step splitter
// ---------------------------------------------------------------------------

/// The instructions sent to the model.
pub fn split_system_prompt() -> (r: String)
    ensures
        r@ == "你是任务拆解助手。把用户给出的内容（一段 AI 建议、操作指引或含命令的终端输出）整理成有序执行步骤。只输出 JSON 数组，形如 [{\"content\":\"步骤描述\",\"is_cmd\":true}]，is_cmd=true 表示该步骤是一条可直接复制到终端执行的命令。最多 12 步；命令必须保持原文原样，不要改写；合并重复内容；不要输出数组以外的任何文字。"@,
{
    String::from_str(
        "你是任务拆解助手。把用户给出的内容（一段 AI 建议、操作指引或含命令的终端输出）整理成有序执行步骤。只输出 JSON 数组，形如 [{\"content\":\"步骤描述\",\"is_cmd\":true}]，is_cmd=true 表示该步骤是一条可直接复制到终端执行的命令。最多 12 步；命令必须保持原文原样，不要改写；合并重复内容；不要输出数组以外的任何文字。",
    )
}

/// The user message sent to the model: the card's title, then its quote
/// (the title again when there is no quote).
pub open spec fn split_prompt_seq(title: Seq<char>, quote: Seq<char>) -> Seq<char> {
    "标题："@ + title + "\n\n内容：\n"@ + (if quote.len() == 0 {
        title
    } else {
        quote
    })
}

/// The user message of a split request.
pub fn split_user_prompt(title: &str, quote: &str) -> (r: String)
    ensures
        r@ == split_prompt_seq(title@, quote@),
{
    let body = if quote.is_empty() {
        title
    } else {
        quote
    };
    let s = text::concat3("标题：", title, "\n\n内容：\n");
    s.concat(body)
}

/// The error when the reply held no usable step: it quotes the reply's
/// first 80 characters.
pub fn split_failure(reply: &str) -> (r: String)
    ensures
        r@ == "AI 没有返回有效步骤，原文开头："@ + text::take_chars(reply@, 80),
{
    let head = text::first_chars(reply, 80);
    text::concat2("AI 没有返回有效步骤，原文开头：", head.as_str())
}

/// What the settings page shows of a test reply: its first 40 characters.
pub fn test_reply_excerpt(reply: &str) -> (r: String)
    ensures
        r@ == text::take_chars(reply@, 40),
{
    text::first_chars(reply, 40)
}


// ---------------------------------------------------------------------------
// Reading the steps out of a model reply
// ---------------------------------------------------------------------------

/// An element of the JSON array a model replied with: a string, or any other
/// value with its `content`, `step`, `is_cmd` and `isCmd` members (each
/// `None` when absent or not of the right type).
pub enum JsonStepItem {
    Text(String),
    Fields {
        content: Option<String>,
        step: Option<String>,
        is_cmd: Option<bool>,
        is_cmd_camel: Option<bool>,
    },
}

/// A `JsonStepItem` as plain values.
pub enum StepItemModel {
    Text(Seq<char>),
    Fields {
        content: Option<Seq<char>>,
        step: Option<Seq<char>>,
        is_cmd: Option<bool>,
        is_cmd_camel: Option<bool>,
    },
}

/// `Some(s@)` for `Some(s)`.
pub open spec fn opt_seq(o: Option<String>) -> Option<Seq<char>> {
    match o {
        Some(s) => Some(s@),
        None => None,
    }
}

impl View for JsonStepItem {
    type V = StepItemModel;

    open spec fn view(&self) -> StepItemModel {
        match self {
            JsonStepItem::Text(t) => StepItemModel::Text(t@),
            JsonStepItem::Fields { content, step, is_cmd, is_cmd_camel } => StepItemModel::Fields {
                content: opt_seq(*content),
                step: opt_seq(*step),
                is_cmd: *is_cmd,
                is_cmd_camel: *is_cmd_camel,
            },
        }
    }
}

/// What `serde_json` reads from a text as a JSON array of step items:
/// `None` when the text is not JSON, or not an array.
pub uninterp spec fn json_step_items(s: Seq<char>) -> Option<Seq<StepItemModel>>;

/// `serde_json::from_str::<serde_json::Value>`, then the elements of the
/// array it holds. Trusted: the result is what `json_step_items` names for
/// the text; each element is converted one for one (a string to `Text`,
/// any other value to the four members read with `Value::get`,
/// `Value::as_str` and `Value::as_bool`).
#[verifier::external_body]
fn parse_json_step_items(s: &str) -> (r: Option<Vec<JsonStepItem>>)
    ensures
        match r {
            Some(v) => json_step_items(s@) == Some(v@.map_values(|x: JsonStepItem| x@)),
            None => json_step_items(s@) is None,
        },
{
    let value: serde_json::Value = serde_json::from_str(s).ok()?;
    Some(value.as_array()?.iter().map(|x| match x {
        serde_json::Value::String(t) => JsonStepItem::Text(t.clone()),
        o => JsonStepItem::Fields {
            content: o.get("content").and_then(serde_json::Value::as_str).map(String::from),
            step: o.get("step").and_then(serde_json::Value::as_str).map(String::from),
            is_cmd: o.get("is_cmd").and_then(serde_json::Value::as_bool),
            is_cmd_camel: o.get("isCmd").and_then(serde_json::Value::as_bool),
        },
    }).collect())
}

/// The step an item gives: a string is a step that is not a command; an
/// object gives `content` (or, without it, `step`) and `is_cmd` (or
/// `isCmd`); the text is trimmed.
pub open spec fn item_step(it: StepItemModel) -> (Seq<char>, bool) {
    match it {
        StepItemModel::Text(t) => (text::trim_seq(t), false),
        StepItemModel::Fields { content, step, is_cmd, is_cmd_camel } => (
            text::trim_seq(
                match content {
                    Some(c) => c,
                    None => match step {
                        Some(x) => x,
                        None => seq![],
                    },
                },
            ),
            match is_cmd {
                Some(b) => b,
                None => match is_cmd_camel {
                    Some(b) => b,
                    None => false,
                },
            },
        ),
    }
}

/// The steps of a list of items: one per item whose text is not empty.
pub open spec fn item_steps(items: Seq<StepItemModel>) -> Seq<(Seq<char>, bool)>
    decreases items.len(),
{
    if items.len() == 0 {
        seq![]
    } else if item_step(items.last()).0.len() == 0 {
        item_steps(items.drop_last())
    } else {
        item_steps(items.drop_last()).push(item_step(items.last()))
    }
}

/// The part of a reply that is read as JSON: the reply trimmed, without a
/// leading Markdown fence, from its first `[` to its last `]`.
pub open spec fn json_slice(reply: Seq<char>) -> Option<Seq<char>> {
    let t = text::trim_seq(
        text::strip_prefixes(text::strip_prefixes(text::trim_seq(reply), "```json"@), "```"@),
    );
    let start = text::first_index(t, '[');
    if start >= t.len() {
        None
    } else {
        match text::last_index(t, ']') {
            Some(end) => if end <= start {
                None
            } else {
                Some(t.subrange(start, end + 1))
            },
            None => None,
        }
    }
}

/// The steps read from a model reply (none when it holds no JSON array).
pub open spec fn reply_steps(reply: Seq<char>) -> Seq<(Seq<char>, bool)> {
    match json_slice(reply) {
        Some(j) => match json_step_items(j) {
            Some(items) => item_steps(items),
            None => seq![],
        },
        None => seq![],
    }
}

/// Steps as plain values.
pub open spec fn pairs_view(v: Seq<(String, bool)>) -> Seq<(Seq<char>, bool)> {
    v.map_values(|p: (String, bool)| (p.0@, p.1))
}

/// The steps of the items of a model reply: one per item whose text is not
/// empty, in order.
pub fn steps_from_items(items: &Vec<JsonStepItem>) -> (r: Vec<(String, bool)>)
    ensures
        pairs_view(r@) == item_steps(items@.map_values(|x: JsonStepItem| x@)),
{
    let ghost iv = items@.map_values(|x: JsonStepItem| x@);
    let mut out: Vec<(String, bool)> = Vec::new();
    let mut i: usize = 0;
    while i < items.len()
        invariant
            iv == items@.map_values(|x: JsonStepItem| x@),
            i <= items.len(),
            pairs_view(out@) == item_steps(iv.take(i as int)),
        decreases items.len() - i,
    {
        proof {
            assert(iv.take(i + 1).drop_last() =~= iv.take(i as int));
            assert(iv.take(i + 1).last() == items@[i as int]@);
        }
        let (content, is_cmd) = match &items[i] {
            JsonStepItem::Text(st) => (text::trim(st.as_str()), false),
            JsonStepItem::Fields { content, step, is_cmd, is_cmd_camel } => {
                let c = match content {
                    Some(c) => c.clone(),
                    None => match step {
                        Some(x) => x.clone(),
                        None => String::new(),
                    },
                };
                let b = match is_cmd {
                    Some(b) => *b,
                    None => match is_cmd_camel {
                        Some(b) => *b,
                        None => false,
                    },
                };
                (text::trim(c.as_str()), b)
            },
        };
        assert((content@, is_cmd) == item_step(items@[i as int]@));
        if !content.as_str().is_empty() {
            let ghost before = out@;
            out.push((content, is_cmd));
            assert(pairs_view(out@) =~= pairs_view(before).push(item_step(iv[i as int])));
        }
        i += 1;
    }
    assert(iv.take(items.len() as int) =~= iv);
    out
}

/// The steps of a model reply: content and whether it is a command.
pub fn parse_step_json(reply: &str) -> (r: Vec<(String, bool)>)
    ensures
        pairs_view(r@) == reply_steps(reply@),
{
    let t0 = text::trim(reply);
    let v0 = text::chars_of(t0.as_str());
    let p1 = text::chars_of("```json");
    let v1 = text::strip_prefixes_chars(&v0, &p1);
    let p2 = text::chars_of("```");
    let v2 = text::strip_prefixes_chars(&v1, &p2);
    let t = text::trim_chars(&v2);
    let start = match text::find_char(&t, '[') {
        Some(i) => i,
        None => return Vec::new(),
    };
    let end = match text::rfind_char(&t, ']') {
        Some(i) => i,
        None => return Vec::new(),
    };
    if end <= start {
        return Vec::new();
    }
    let slice = text::string_of_range(&t, start, end + 1);
    let items = match parse_json_step_items(slice.as_str()) {
        Some(items) => items,
        None => return Vec::new(),
    };
    steps_from_items(&items)
}


// ---------------------------------------------------------------------------
// Importing the database of the browser version
// ---------------------------------------------------------------------------

/// `s` with every `'` doubled, as an SQL string literal needs it.
pub open spec fn sql_escaped(s: Seq<char>) -> Seq<char>
    decreases s.len(),
{
    if s.len() == 0 {
        seq![]
    } else if s.last() == '\'' {
        sql_escaped(s.drop_last()) + seq!['\'', '\'']
    } else {
        sql_escaped(s.drop_last()).push(s.last())
    }
}

/// `s.replace('\'', "''")`.
pub fn sql_escape(s: &str) -> (r: String)
    ensures
        r@ == sql_escaped(s@),
{
    let v = text::chars_of(s);
    let mut out: Vec<char> = Vec::new();
    let mut i: usize = 0;
    while i < v.len()
        invariant
            i <= v.len(),
            out@ == sql_escaped(v@.take(i as int)),
        decreases v.len() - i,
    {
        proof {
            assert(v@.take(i + 1).drop_last() =~= v@.take(i as int));
            assert(v@.take(i + 1).last() == v@[i as int]);
        }
        let ghost before = out@;
        if v[i] == '\'' {
            out.push('\'');
            out.push('\'');
            assert(out@ =~= before + seq!['\'', '\'']);
        } else {
            out.push(v[i]);
        }
        i += 1;
    }
    assert(v@.take(v.len() as int) =~= v@);
    text::string_of(&out)
}

/// The statements that copy the suggestions and steps of the database at
/// `path` into the open one (rows whose id exists are skipped).
pub open spec fn legacy_import_seq(path: Seq<char>) -> Seq<char> {
    "ATTACH DATABASE '"@ + sql_escaped(path) + "' AS legacy; INSERT OR IGNORE INTO main.suggestions (id,title,quote,my_note,source_tool,workspace,session_ref,tags,status,kind,priority,created_at,updated_at) SELECT id,title,quote,my_note,source_tool,workspace,session_ref,tags,status,kind,priority,created_at,updated_at FROM legacy.suggestions; INSERT OR IGNORE INTO main.steps (id,suggestion_id,content,is_cmd,done,ord,created_at) SELECT id,suggestion_id,content,is_cmd,done,ord,created_at FROM legacy.steps; DETACH DATABASE legacy;"@
}

/// The import statements for the database at `path`.
pub fn legacy_import_sql(path: &str) -> (r: String)
    ensures
        r@ == legacy_import_seq(path@),
{
    let p = sql_escape(path);
    text::concat3(
        "ATTACH DATABASE '",
        p.as_str(),
        "' AS legacy; INSERT OR IGNORE INTO main.suggestions (id,title,quote,my_note,source_tool,workspace,session_ref,tags,status,kind,priority,created_at,updated_at) SELECT id,title,quote,my_note,source_tool,workspace,session_ref,tags,status,kind,priority,created_at,updated_at FROM legacy.suggestions; INSERT OR IGNORE INTO main.steps (id,suggestion_id,content,is_cmd,done,ord,created_at) SELECT id,suggestion_id,content,is_cmd,done,ord,created_at FROM legacy.steps; DETACH DATABASE legacy;",
    )
}


// ---------------------------------------------------------------------------
// Laws
// ---------------------------------------------------------------------------

/// Every suggestion a create or batch request stores has a title that is not
/// blank and a valid kind.
pub proof fn lemma_drafts_valid(items: Seq<SuggestionInput>)
    ensures
        forall|i: int|
            0 <= i < drafts_of(items).len() ==> (#[trigger] drafts_of(items)[i]).title.len() > 0
                && is_kind(drafts_of(items)[i].kind),
    decreases items.len(),
{
    if items.len() > 0 {
        lemma_drafts_valid(items.drop_last());
        let prev = drafts_of(items.drop_last());
        assert forall|i: int| 0 <= i < drafts_of(items).len() implies (#[trigger] drafts_of(
            items,
        )[i]).title.len() > 0 && is_kind(drafts_of(items)[i].kind) by {
            if i < prev.len() {
                assert(drafts_of(items)[i] == prev[i]);
            }
        }
    }
}

/// The statuses of the stored suggestions, as (id, status) rows, after an
/// accepted update of suggestion `id` to status `s`: when `demote` holds
/// (the flag `check_status` returns), every other suggestion that was
/// `doing` goes back to `todo`; then suggestion `id` takes `s`.
pub open spec fn after_status_update(rows: Seq<(int, Seq<char>)>, id: int, demote: bool, s: Seq<char>) -> Seq<(int, Seq<char>)> {
    Seq::new(rows.len(), |k: int|
        if rows[k].0 == id {
            (rows[k].0, s)
        } else if demote && rows[k].1 == "doing"@ {
            (rows[k].0, "todo"@)
        } else {
            rows[k]
        })
}

/// Row ids are unique, as the store's primary key makes them.
pub open spec fn distinct_ids(rows: Seq<(int, Seq<char>)>) -> bool {
    forall|i: int, j: int| #![trigger rows[i], rows[j]]
        0 <= i < rows.len() && 0 <= j < rows.len() && rows[i].0 == rows[j].0 ==> i == j
}

/// No two suggestions are `doing` at once.
pub open spec fn at_most_one_doing(rows: Seq<(int, Seq<char>)>) -> bool {
    forall|i: int, j: int| #![trigger rows[i], rows[j]]
        0 <= i < rows.len() && 0 <= j < rows.len() && rows[i].1 == "doing"@ && rows[j].1 == "doing"@
            ==> i == j
}

/// One suggestion in focus at a time: an update to a valid status, with the
/// demotion `check_status` asks for (exactly when the status is `doing`),
/// leaves at most one suggestion `doing`.
pub proof fn lemma_one_doing_kept(rows: Seq<(int, Seq<char>)>, id: int, s: Seq<char>)
    requires
        distinct_ids(rows),
        at_most_one_doing(rows),
        is_status(s),
    ensures
        at_most_one_doing(after_status_update(rows, id, s == "doing"@, s)),
{
    reveal_strlit("doing");
    reveal_strlit("todo");
    assert("todo"@.len() != "doing"@.len());
    let after = after_status_update(rows, id, s == "doing"@, s);
    assert forall|i: int, j: int|
        0 <= i < after.len() && 0 <= j < after.len() && after[i].1 == "doing"@ && after[j].1
            == "doing"@ implies i == j by {
        let _ri = rows[i];
        let _rj = rows[j];
        if s == "doing"@ {
            assert(rows[i].0 == id);
            assert(rows[j].0 == id);
        } else {
            assert(rows[i].0 != id);
            assert(rows[j].0 != id);
        }
    }
}

/// An update keeps one suggestion in focus at a time: the writes of any
/// accepted update (demotion when it sets `doing`, then the new status, or
/// the suggestion's own status when none is given) leave at most one
/// suggestion `doing`.
pub proof fn lemma_patch_keeps_one_doing(
    rows: Seq<(int, Seq<char>)>,
    id: int,
    cur_status: Seq<char>,
    requested: Option<Seq<char>>,
)
    requires
        distinct_ids(rows),
        at_most_one_doing(rows),
        row_status_is(rows, id, cur_status),
        requested matches Some(s) ==> is_status(s),
    ensures
        at_most_one_doing(
            after_status_update(rows, id, demote_for(requested), status_for(requested, cur_status)),
        ),
{
    match requested {
        Some(s) => {
            lemma_one_doing_kept(rows, id, s);
        },
        None => {
            let after = after_status_update(rows, id, false, cur_status);
            assert forall|k: int| 0 <= k < rows.len() implies after[k] == rows[k] by {
                if rows[k].0 == id {
                    assert(rows[k].1 == cur_status);
                }
            }
            assert(after =~= rows);
        },
    }
}

/// An update writes every field it is given, exactly as given, and keeps the
/// stored value of every field it is not given.
pub proof fn lemma_patch_fields(cur: Suggestion, p: SuggestionPatch, u: SuggestionUpdate)
    requires
        merged(cur, p, u),
    ensures
        p.title matches Some(t) ==> u.title@ == t@,
        p.title is None ==> u.title@ == cur.title@,
        p.quote matches Some(t) ==> u.quote@ == t@,
        p.quote is None ==> u.quote@ == cur.quote@,
        p.my_note matches Some(t) ==> u.my_note@ == t@,
        p.my_note is None ==> u.my_note@ == cur.my_note@,
        p.source_tool matches Some(t) ==> u.source_tool@ == t@,
        p.source_tool is None ==> u.source_tool@ == cur.source_tool@,
        p.workspace matches Some(t) ==> u.workspace@ == t@,
        p.workspace is None ==> u.workspace@ == cur.workspace@,
        p.session_ref matches Some(t) ==> u.session_ref@ == t@,
        p.session_ref is None ==> u.session_ref@ == cur.session_ref@,
        p.tags matches Some(t) ==> u.tags@ == t@,
        p.tags is None ==> u.tags@ == cur.tags@,
        p.kind matches Some(t) ==> u.kind@ == t@,
        p.kind is None ==> u.kind@ == cur.kind@,
        p.status matches Some(t) ==> u.status@ == t@,
        p.status is None ==> u.status@ == cur.status@,
        p.priority matches Some(x) ==> u.priority == x,
        p.priority is None ==> u.priority == cur.priority,
        p.user_msg matches Some(t) ==> u.user_msg@ == t@,
        p.user_msg is None ==> u.user_msg@ == cur.user_msg@,
{
}

/// A step item is a shell command only when the reply says so: a plain
/// string never is; an object is one exactly when its `is_cmd` is true, or,
/// without `is_cmd`, its `isCmd` is true. The text is the trimmed string, or
/// the trimmed `content`, or without it the trimmed `step`.
pub proof fn lemma_item_step_fields(it: StepItemModel)
    ensures
        it matches StepItemModel::Text(t) ==> item_step(it) == (text::trim_seq(t), false),
        it matches StepItemModel::Fields { content, step, is_cmd, is_cmd_camel } ==> {
            &&& (is_cmd is None && is_cmd_camel is None) ==> !item_step(it).1
            &&& is_cmd matches Some(b) ==> item_step(it).1 == b
            &&& is_cmd is None ==> (is_cmd_camel matches Some(b) ==> item_step(it).1 == b)
            &&& content matches Some(c) ==> item_step(it).0 == text::trim_seq(c)
            &&& content is None ==> (step matches Some(x) ==> item_step(it).0 == text::trim_seq(x))
            &&& (content is None && step is None) ==> item_step(it).0.len() == 0
        },
{
    let e: Seq<char> = seq![];
    assert(text::trim_seq(e).len() == 0);
}

/// The steps of a reply come from its items, in their order: each step is
/// the step of some item and has text; when every item has text, there is
/// one step per item, in the same order.
pub proof fn lemma_item_steps_order(items: Seq<StepItemModel>)
    ensures
        item_steps(items).len() <= items.len(),
        forall|i: int|
            0 <= i < item_steps(items).len() ==> (#[trigger] item_steps(items)[i]).0.len() > 0
                && exists|j: int| 0 <= j < items.len() && item_steps(items)[i] == item_step(items[j]),
        (forall|j: int| 0 <= j < items.len() ==> (#[trigger] item_step(items[j])).0.len() > 0)
            ==> item_steps(items) == items.map_values(|it: StepItemModel| item_step(it)),
    decreases items.len(),
{
    if items.len() > 0 {
        let prev = items.drop_last();
        lemma_item_steps_order(prev);
        assert forall|i: int| 0 <= i < item_steps(items).len() implies (#[trigger] item_steps(
            items,
        )[i]).0.len() > 0 && exists|j: int|
            0 <= j < items.len() && item_steps(items)[i] == item_step(items[j]) by {
            if i < item_steps(prev).len() {
                assert(item_steps(items)[i] == item_steps(prev)[i]);
                let j = choose|j: int|
                    0 <= j < prev.len() && item_steps(prev)[i] == item_step(prev[j]);
                assert(items[j] == prev[j]);
            } else {
                assert(item_steps(items)[i] == item_step(items[items.len() - 1]));
            }
        }
        if forall|j: int| 0 <= j < items.len() ==> (#[trigger] item_step(items[j])).0.len() > 0 {
            assert forall|j: int| 0 <= j < prev.len() implies (#[trigger] item_step(prev[j])).0.len()
                > 0 by {
                assert(prev[j] == items[j]);
                assert(item_step(items[j]).0.len() > 0);
            }
            assert(item_step(items[items.len() - 1]).0.len() > 0);
            assert(item_steps(items) =~= items.map_values(|it: StepItemModel| item_step(it)));
        }
    }
}

proof fn lemma_join_ends(parts: Seq<Seq<char>>, sep: char, c: char)
    requires
        parts.len() >= 1,
        sep != c,
        forall|i: int| 0 <= i < parts.len() ==> (#[trigger] parts[i]).len() > 0 && text::lacks(parts[i], c),
    ensures
        text::join_seq(parts, sep).len() > 0,
        text::join_seq(parts, sep)[0] == parts[0][0],
        text::join_seq(parts, sep).last() == parts.last().last(),
        text::lacks(text::join_seq(parts, sep), c),
    decreases parts.len(),
{
    let p0 = parts[0];
    if parts.len() > 1 {
        let rest = parts.drop_first();
        assert forall|i: int| 0 <= i < rest.len() implies (#[trigger] rest[i]).len() > 0 && text::lacks(rest[i], c) by {
            assert(rest[i] == parts[i + 1]);
        }
        lemma_join_ends(rest, sep, c);
        let j = text::join_seq(parts, sep);
        let jr = text::join_seq(rest, sep);
        assert(j == p0 + seq![sep] + jr);
        assert(rest.last() == parts.last());
        assert(text::lacks(p0, c));
        assert forall|k: int| 0 <= k < j.len() implies j[k] != c by {
            if k < p0.len() {
                assert(j[k] == p0[k]);
            } else if k > p0.len() {
                assert(j[k] == jr[k - p0.len() - 1]);
            }
        }
    }
}

proof fn lemma_nonempty_pieces_all(ps: Seq<Seq<char>>)
    requires
        forall|i: int| 0 <= i < ps.len() ==> (#[trigger] ps[i]).len() > 0,
    ensures
        text::nonempty_pieces(ps) == ps,
    decreases ps.len(),
{
    if ps.len() > 0 {
        let q = ps.drop_last();
        assert forall|i: int| 0 <= i < q.len() implies (#[trigger] q[i]).len() > 0 by {
            assert(q[i] == ps[i]);
        }
        lemma_nonempty_pieces_all(q);
        assert(ps.last() == ps[ps.len() - 1]);
        assert(q.push(ps.last()) =~= ps);
    }
}

/// The segments of the path `/` followed by non-empty parts joined by `/`
/// (none holding `/` or `?`) are those parts.
pub proof fn lemma_segments_of_joined(parts: Seq<Seq<char>>)
    requires
        parts.len() >= 1,
        forall|i: int|
            0 <= i < parts.len() ==> (#[trigger] parts[i]).len() > 0 && text::lacks(parts[i], '/')
                && text::lacks(parts[i], '?'),
    ensures
        segments(seq!['/'] + text::join_seq(parts, '/')) == parts,
{
    let j = text::join_seq(parts, '/');
    let path = seq!['/'] + j;
    assert forall|i: int| 0 <= i < parts.len() implies (#[trigger] parts[i]).len() > 0 && text::lacks(parts[i], '?') by {}
    lemma_join_ends(parts, '/', '?');
    assert(parts.last() == parts[parts.len() - 1]);
    assert(parts[0][0] != '/');
    assert(parts.last().last() != '/');
    // No `?`: the whole path is the path part.
    text::lemma_first_index(path, '?');
    assert forall|k: int| 0 <= k < path.len() implies path[k] != '?' by {
        if k > 0 {
            assert(path[k] == j[k - 1]);
        }
    }
    assert(path_part(path) == path);
    // One leading `/`, none at the end.
    assert(path[1] == j[0]);
    assert(text::lead_end_char(path, '/', 1) == 1);
    assert(text::lead_end_char(path, '/', 0) == 1);
    assert(path[path.len() - 1] == j.last());
    assert(text::trail_start_char(path, '/', 1, path.len() as int) == path.len());
    assert(text::trim_char_seq(path, '/') =~= j);
    text::lemma_split_join(parts, '/');
    assert forall|i: int| 0 <= i < parts.len() implies (#[trigger] parts[i]).len() > 0 by {}
    lemma_nonempty_pieces_all(parts);
}

/// Every request on one item reads its id from the segment that holds it:
/// for each integer `n`, the paths `/api/suggestions/<n>`,
/// `/api/suggestions/<n>/steps`, `/api/steps/<n>` and `/api/ai/split/<n>`
/// name their request on item `n`.
pub proof fn lemma_id_routes(n: i64)
    ensures
        target_of("PATCH"@, segments("/api/suggestions/"@ + text::decimal(n as int)))
            == Target::PatchSuggestion(Some(n)),
        target_of("DELETE"@, segments("/api/suggestions/"@ + text::decimal(n as int)))
            == Target::DeleteSuggestion(Some(n)),
        target_of("POST"@, segments("/api/suggestions/"@ + text::decimal(n as int) + "/steps"@))
            == Target::SetSteps(Some(n)),
        target_of("PATCH"@, segments("/api/steps/"@ + text::decimal(n as int)))
            == Target::PatchStep(Some(n)),
        target_of("DELETE"@, segments("/api/steps/"@ + text::decimal(n as int)))
            == Target::DeleteStep(Some(n)),
        target_of("POST"@, segments("/api/ai/split/"@ + text::decimal(n as int)))
            == Target::SplitWithAi(Some(n)),
{
    let d = text::decimal(n as int);
    text::lemma_decimal_parses(n);
    assert(text::lacks(d, '/') && text::lacks(d, '?')) by {
        assert forall|k: int| 0 <= k < d.len() implies d[k] != '/' && d[k] != '?' by {
            assert(d[k] == '-' || text::is_digit(d[k]));
        }
    }
    reveal_strlit("/api/suggestions/");
    reveal_strlit("/api/steps/");
    reveal_strlit("/api/ai/split/");
    reveal_strlit("/steps");
    reveal_strlit("api");
    reveal_strlit("suggestions");
    reveal_strlit("steps");
    reveal_strlit("ai");
    reveal_strlit("split");
    reveal_strlit("projects");
    reveal_strlit("batch");
    reveal_strlit("settings");
    reveal_strlit("test");
    reveal_strlit("GET");
    reveal_strlit("POST");
    reveal_strlit("PATCH");
    reveal_strlit("DELETE");
    let api = "api"@;
    let sug = "suggestions"@;
    let stp = "steps"@;
    let ai = "ai"@;
    let spl = "split"@;
    reveal_with_fuel(text::join_seq, 4);
    let p1 = seq![api, sug, d];
    lemma_segments_of_joined(p1);
    assert("/api/suggestions/"@ + d =~= seq!['/'] + text::join_seq(p1, '/'));
    let p2 = seq![api, sug, d, stp];
    lemma_segments_of_joined(p2);
    assert("/api/suggestions/"@ + d + "/steps"@ =~= seq!['/'] + text::join_seq(p2, '/'));
    let p3 = seq![api, stp, d];
    lemma_segments_of_joined(p3);
    assert("/api/steps/"@ + d =~= seq!['/'] + text::join_seq(p3, '/'));
    let p4 = seq![api, ai, spl, d];
    lemma_segments_of_joined(p4);
    assert("/api/ai/split/"@ + d =~= seq!['/'] + text::join_seq(p4, '/'));
    assert(sug.len() != stp.len() && sug.len() != ai.len() && stp[0] != "batch"@[0]);
    assert(stp != "batch"@ && stp != "test"@ && sug != "settings"@ && stp != "settings"@);
    assert(ai != sug && ai != stp && ai != "settings"@ && ai != "projects"@);
    assert("DELETE"@.len() != "PATCH"@.len() && "DELETE"@.len() != "POST"@.len()
        && "DELETE"@.len() != "GET"@.len());
    assert("PATCH"@.len() != "POST"@.len() && "PATCH"@.len() != "GET"@.len()
        && "POST"@.len() != "GET"@.len());
}

/// The requests that name no item: `GET /api/suggestions` lists,
/// `GET /api/projects` counts by project, `POST /api/suggestions` creates,
/// `POST /api/suggestions/batch` creates several, `GET`/`POST /api/settings`
/// read and save the settings, `POST /api/settings/test` tests them; any
/// other method on the list is no request.
pub proof fn lemma_fixed_routes()
    ensures
        target_of("GET"@, segments("/api/suggestions"@)) == Target::ListSuggestions,
        target_of("GET"@, segments("/api/projects"@)) == Target::Projects,
        target_of("POST"@, segments("/api/suggestions"@)) == Target::CreateSuggestion,
        target_of("POST"@, segments("/api/suggestions/batch"@)) == Target::CreateBatch,
        target_of("GET"@, segments("/api/settings"@)) == Target::GetSettings,
        target_of("POST"@, segments("/api/settings"@)) == Target::SaveSettings,
        target_of("POST"@, segments("/api/settings/test"@)) == Target::TestSettings,
        target_of("PUT"@, segments("/api/suggestions"@)) == Target::NotFound,
        target_of("DELETE"@, segments("/api/suggestions"@)) == Target::NotFound,
{
    reveal_strlit("/api/suggestions");
    reveal_strlit("/api/projects");
    reveal_strlit("/api/suggestions/batch");
    reveal_strlit("/api/settings");
    reveal_strlit("/api/settings/test");
    reveal_strlit("api");
    reveal_strlit("suggestions");
    reveal_strlit("steps");
    reveal_strlit("ai");
    reveal_strlit("projects");
    reveal_strlit("batch");
    reveal_strlit("settings");
    reveal_strlit("test");
    reveal_strlit("GET");
    reveal_strlit("POST");
    reveal_strlit("PATCH");
    reveal_strlit("DELETE");
    reveal_strlit("PUT");
    let api = "api"@;
    let sug = "suggestions"@;
    let prj = "projects"@;
    let bat = "batch"@;
    let set = "settings"@;
    let tst = "test"@;
    reveal_with_fuel(text::join_seq, 3);
    let a = seq![api, sug];
    lemma_segments_of_joined(a);
    assert("/api/suggestions"@ =~= seq!['/'] + text::join_seq(a, '/'));
    let b = seq![api, prj];
    lemma_segments_of_joined(b);
    assert("/api/projects"@ =~= seq!['/'] + text::join_seq(b, '/'));
    let c = seq![api, sug, bat];
    lemma_segments_of_joined(c);
    assert("/api/suggestions/batch"@ =~= seq!['/'] + text::join_seq(c, '/'));
    let e = seq![api, set];
    lemma_segments_of_joined(e);
    assert("/api/settings"@ =~= seq!['/'] + text::join_seq(e, '/'));
    let f = seq![api, set, tst];
    lemma_segments_of_joined(f);
    assert("/api/settings/test"@ =~= seq!['/'] + text::join_seq(f, '/'));
    assert(sug.len() != prj.len() && sug.len() != set.len() && prj[0] != set[1]);
    assert(sug.len() != "steps"@.len() && set.len() != "steps"@.len() && sug.len() != "ai"@.len());
    assert(prj.len() != "ai"@.len() && set.len() != "ai"@.len() && prj.len() != "steps"@.len());
    assert(bat != "steps"@ && tst != bat);
    assert("DELETE"@.len() != "PATCH"@.len() && "DELETE"@.len() != "POST"@.len()
        && "DELETE"@.len() != "GET"@.len());
    assert("PATCH"@.len() != "POST"@.len() && "PATCH"@.len() != "GET"@.len()
        && "POST"@.len() != "GET"@.len());
    assert("PUT"@[0] != "GET"@[0]);
    assert("PUT"@ != "GET"@ && "PUT"@.len() != "POST"@.len() && "PUT"@.len() != "PATCH"@.len()
        && "PUT"@.len() != "DELETE"@.len());
}

/// A step sent to the set-steps request is a command, or done, only when
/// the request says so; its text is the trimmed string or `content`.
pub proof fn lemma_step_entry_fields(e: StepEntry)
    ensures
        e matches StepEntry::Text(t) ==> step_of(e) == (text::trim_seq(t@), false, false),
        e matches StepEntry::Fields { content, is_cmd, done } ==> {
            &&& is_cmd is None ==> !step_of(e).1
            &&& is_cmd matches Some(b) ==> step_of(e).1 == b
            &&& done is None ==> !step_of(e).2
            &&& done matches Some(b) ==> step_of(e).2 == b
            &&& content matches Some(c) ==> step_of(e).0 == text::trim_seq(c@)
            &&& content is None ==> step_of(e).0.len() == 0
        },
{
    let empty: Seq<char> = seq![];
    assert(text::trim_seq(empty).len() == 0);
}

/// The query string never changes which request a path names.
pub proof fn lemma_query_ignored(method: Seq<char>, path: Seq<char>)
    ensures
        target_of(method, segments(path)) == target_of(method, segments(path_part(path))),
{
    text::lemma_first_index(path, '?');
    let p = path_part(path);
    if text::first_index(path, '?') < path.len() {
        let k = text::first_index(path, '?');
        assert forall|j: int| 0 <= j < p.len() implies p[j] != '?' by {
            assert(p[j] == path[j]);
        }
        text::lemma_first_index_is(p, '?', p.len() as int);
    } else {
        text::lemma_first_index_is(p, '?', p.len() as int);
    }
}

} // verus!
