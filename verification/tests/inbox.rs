use nayan::inbox::{
    bad_id, batch_plan, check_status, clip_entry, combine_steps, draft, legacy_import_sql,
    list_filter, list_sql, merge_patch, merge_step, patch_plan, steps_from_items, JsonStepItem, new_suggestion, not_found, parse_step_json,
    path_segments, query_string, route, split_failure, split_system_prompt, split_user_prompt,
    sql_escape, steps_request, test_reply_excerpt, is_valid_kind, is_valid_status, ListFilter,
    StepEntry, StepPatch, StepRow, StepState, Suggestion, SuggestionInput, SuggestionPatch, Target,
};

fn input(title: Option<&str>, kind: Option<&str>) -> SuggestionInput {
    SuggestionInput {
        title: title.map(String::from),
        quote: None,
        my_note: Some("note".to_string()),
        source_tool: None,
        workspace: None,
        session_ref: None,
        tags: None,
        kind: kind.map(String::from),
        user_msg: None,
    }
}

fn stored() -> Suggestion {
    Suggestion {
        id: 3,
        title: "t".to_string(),
        quote: "q".to_string(),
        my_note: "n".to_string(),
        source_tool: "cursor".to_string(),
        workspace: "ws".to_string(),
        session_ref: "sr".to_string(),
        tags: "a,b".to_string(),
        status: "inbox".to_string(),
        kind: "suggestion".to_string(),
        priority: 2,
        created_at: "c".to_string(),
        updated_at: "u".to_string(),
        user_msg: "m".to_string(),
    }
}

#[test]
fn statuses_and_kinds() {
    for s in ["inbox", "todo", "doing", "done", "dropped"] {
        assert!(is_valid_status(s));
    }
    assert!(!is_valid_status("Doing"));
    assert!(is_valid_kind("idle"));
    assert!(!is_valid_kind("bug"));
}

#[test]
fn routes() {
    assert!(matches!(route("GET", "/api/suggestions?status=todo"), Target::ListSuggestions));
    assert!(matches!(route("GET", "//api//suggestions/"), Target::ListSuggestions));
    assert!(matches!(route("GET", "/api/projects"), Target::Projects));
    assert!(matches!(route("POST", "/api/suggestions"), Target::CreateSuggestion));
    assert!(matches!(route("POST", "/api/suggestions/batch"), Target::CreateBatch));
    assert!(matches!(route("PATCH", "/api/suggestions/12"), Target::PatchSuggestion(Some(12))));
    assert!(matches!(route("PATCH", "/api/suggestions/batch"), Target::PatchSuggestion(None)));
    assert!(matches!(route("DELETE", "/api/suggestions/+4"), Target::DeleteSuggestion(Some(4))));
    assert!(matches!(route("POST", "/api/suggestions/3/steps"), Target::SetSteps(Some(3))));
    assert!(matches!(route("PATCH", "/api/steps/-2"), Target::PatchStep(Some(-2))));
    assert!(matches!(route("DELETE", "/api/steps/x"), Target::DeleteStep(None)));
    assert!(matches!(route("GET", "/api/settings"), Target::GetSettings));
    assert!(matches!(route("POST", "/api/settings"), Target::SaveSettings));
    assert!(matches!(route("POST", "/api/settings/test"), Target::TestSettings));
    assert!(matches!(route("POST", "api/ai/split/7/"), Target::SplitWithAi(Some(7))));
    assert!(matches!(route("PUT", "/api/suggestions"), Target::NotFound));
    assert!(matches!(route("GET", "/other/suggestions"), Target::NotFound));
    assert!(matches!(route("GET", "/"), Target::NotFound));
    assert!(matches!(route("GET", "/api/suggestions/1"), Target::NotFound));
    assert_eq!(bad_id(), "非法 id");
    assert_eq!(not_found(), "not found");
}

#[test]
fn query_does_not_change_route() {
    assert!(matches!(route("PATCH", "/api/suggestions/5?x=/api/steps/1"), Target::PatchSuggestion(Some(5))));
    assert_eq!(query_string("/api/suggestions?status=todo&q=a=b"), "status=todo&q=a=b");
    assert_eq!(query_string("/api/suggestions"), "");
    assert_eq!(path_segments("/api//x/?a"), vec![vec!['a', 'p', 'i'], vec!['x']]);
}

#[test]
fn list_filters() {
    let f = list_filter("status=todo&status=bogus&kind=idle&kind=x&tool=cursor&q=a%b&&zzz=1&q");
    assert_eq!(
        f.clauses,
        vec![
            "status = ?".to_string(),
            "kind = ?".to_string(),
            "source_tool = ?".to_string(),
            "(title LIKE ? OR quote LIKE ? OR my_note LIKE ?)".to_string(),
            "(title LIKE ? OR quote LIKE ? OR my_note LIKE ?)".to_string(),
        ]
    );
    assert_eq!(
        f.params,
        vec!["todo", "idle", "cursor", "%a%b%", "%a%b%", "%a%b%", "%%", "%%", "%%"]
            .into_iter()
            .map(String::from)
            .collect::<Vec<_>>()
    );
}

#[test]
fn list_sql_text() {
    let order = " ORDER BY CASE status WHEN 'doing' THEN 0 WHEN 'todo' THEN 1 WHEN 'inbox' THEN 2 WHEN 'done' THEN 3 ELSE 4 END, id DESC";
    let cols = "id, title, quote, my_note, source_tool, workspace, session_ref, tags, status, kind, priority, created_at, updated_at, user_msg";
    let none = list_sql(&ListFilter { clauses: vec![], params: vec![] });
    assert_eq!(none, format!("SELECT {} FROM suggestions{}", cols, order));
    let two = list_sql(&list_filter("status=done&tool=x"));
    assert_eq!(two, format!("SELECT {} FROM suggestions WHERE status = ? AND source_tool = ?{}", cols, order));
}

#[test]
fn create_needs_title() {
    assert_eq!(new_suggestion(&input(Some("   "), None)).err(), Some("title 必填".to_string()));
    assert_eq!(new_suggestion(&input(None, None)).err(), Some("title 必填".to_string()));
    let n = new_suggestion(&input(Some("  Fix login  "), Some("bug"))).ok().unwrap();
    assert_eq!(n.title, "Fix login");
    assert_eq!(n.kind, "suggestion");
    assert_eq!(n.source_tool, "other");
    assert_eq!(n.my_note, "note");
    assert_eq!(n.quote, "");
    let n = draft(&input(Some("x"), Some("idle"))).unwrap();
    assert_eq!(n.kind, "idle");
}

#[test]
fn batch_keeps_titled_items() {
    assert_eq!(batch_plan(None).err(), Some("items 必须是非空数组".to_string()));
    assert_eq!(batch_plan(Some(vec![])).err(), Some("items 里没有有效的 title".to_string()));
    assert_eq!(
        batch_plan(Some(vec![input(Some(" "), None), input(None, None)])).err(),
        Some("items 里没有有效的 title".to_string())
    );
    let out = batch_plan(Some(vec![input(Some("a"), None), input(Some(""), None), input(Some(" b "), Some("idle"))]))
        .ok()
        .unwrap();
    assert_eq!(out.len(), 2);
    assert_eq!(out[0].title, "a");
    assert_eq!(out[1].title, "b");
    assert_eq!(out[1].kind, "idle");
}

#[test]
fn status_check() {
    assert_eq!(check_status(&None), Ok(false));
    assert_eq!(check_status(&Some("todo".to_string())), Ok(false));
    assert_eq!(check_status(&Some("doing".to_string())), Ok(true));
    assert_eq!(check_status(&Some("started".to_string())), Err("非法 status".to_string()));
}

#[test]
fn patch_keeps_absent_fields() {
    let cur = stored();
    let p = SuggestionPatch {
        title: Some("new".to_string()),
        quote: None,
        my_note: Some(String::new()),
        source_tool: None,
        workspace: None,
        session_ref: None,
        tags: None,
        kind: None,
        status: Some("doing".to_string()),
        priority: None,
        user_msg: None,
    };
    let u = merge_patch(&cur, &p);
    assert_eq!(u.title, "new");
    assert_eq!(u.quote, "q");
    assert_eq!(u.my_note, "");
    assert_eq!(u.status, "doing");
    assert_eq!(u.kind, "suggestion");
    assert_eq!(u.priority, 2);
    let p2 = SuggestionPatch { priority: Some(0), status: None, ..p };
    let u2 = merge_patch(&cur, &p2);
    assert_eq!(u2.priority, 0);
    assert_eq!(u2.status, "inbox");
}

#[test]
fn steps_requests() {
    let none: Option<Vec<StepEntry>> = None;
    assert_eq!(steps_request(&None, &none).err(), Some("steps 不能为空".to_string()));
    let blank = Some(vec![StepEntry::Text("  ".to_string())]);
    assert_eq!(steps_request(&None, &blank).err(), Some("steps 不能为空".to_string()));
    let entries = Some(vec![
        StepEntry::Text(" npm i ".to_string()),
        StepEntry::Fields { content: Some("run tests".to_string()), is_cmd: Some(true), done: None },
        StepEntry::Fields { content: None, is_cmd: Some(true), done: Some(true) },
        StepEntry::Fields { content: Some("ship".to_string()), is_cmd: None, done: Some(true) },
    ]);
    let (rows, append) = steps_request(&Some("append".to_string()), &entries).ok().unwrap();
    assert!(append);
    let got: Vec<(String, bool, bool)> = rows.into_iter().map(|r| (r.content, r.is_cmd, r.done)).collect();
    assert_eq!(
        got,
        vec![
            ("npm i".to_string(), false, false),
            ("run tests".to_string(), true, false),
            ("ship".to_string(), false, true)
        ]
    );
    let (_, append) = steps_request(&Some("replace".to_string()), &entries).ok().unwrap();
    assert!(!append);
    let (_, append) = steps_request(&None, &entries).ok().unwrap();
    assert!(!append);
}

#[test]
fn appended_steps_follow_existing() {
    let a = vec![StepRow { content: "one".to_string(), is_cmd: false, done: true }];
    let b = vec![
        StepRow { content: "two".to_string(), is_cmd: true, done: false },
        StepRow { content: "three".to_string(), is_cmd: false, done: false },
    ];
    let all = combine_steps(a, b);
    let names: Vec<&str> = all.iter().map(|r| r.content.as_str()).collect();
    assert_eq!(names, vec!["one", "two", "three"]);
    assert!(all[0].done);
    assert!(all[1].is_cmd);
}

#[test]
fn step_update() {
    let cur = StepState { content: "c".to_string(), is_cmd: 0, done: 0, result: "r".to_string() };
    let p = StepPatch { content: None, is_cmd: Some(true), done: Some(false), result: Some("ok".to_string()) };
    let s = merge_step(cur, &p);
    assert_eq!((s.content.as_str(), s.is_cmd, s.done, s.result.as_str()), ("c", 1, 0, "ok"));
    let cur = StepState { content: "c".to_string(), is_cmd: 1, done: 1, result: "r".to_string() };
    let p = StepPatch { content: Some("d".to_string()), is_cmd: None, done: None, result: None };
    let s = merge_step(cur, &p);
    assert_eq!((s.content.as_str(), s.is_cmd, s.done, s.result.as_str()), ("d", 1, 1, "r"));
}

#[test]
fn clip_entries() {
    assert_eq!(clip_entry("  \n "), None);
    assert_eq!(
        clip_entry("  first line  \nsecond line\n"),
        Some(("first line".to_string(), "first line  \nsecond line".to_string()))
    );
    let long: String = "字".repeat(70);
    let (t, q) = clip_entry(&long).unwrap();
    assert_eq!(t.chars().count(), 60);
    assert_eq!(q, long);
}

#[test]
fn split_prompts() {
    assert!(split_system_prompt().starts_with("你是任务拆解助手。"));
    assert!(split_system_prompt().ends_with("不要输出数组以外的任何文字。"));
    assert_eq!(split_user_prompt("T", ""), "标题：T\n\n内容：\nT");
    assert_eq!(split_user_prompt("T", "Q"), "标题：T\n\n内容：\nQ");
    let reply: String = "x".repeat(100);
    assert_eq!(split_failure(&reply), format!("AI 没有返回有效步骤，原文开头：{}", "x".repeat(80)));
    assert_eq!(split_failure("short"), "AI 没有返回有效步骤，原文开头：short");
    assert_eq!(test_reply_excerpt(&"正".repeat(50)), "正".repeat(40));
}

#[test]
fn step_json_from_fenced_reply() {
    let reply = "```json\n[{\"content\":\" run \",\"is_cmd\":true},\"step two\",{\"step\":\"s3\",\"isCmd\":true},{\"content\":\"\"},{\"content\":\"c\",\"step\":\"s\",\"is_cmd\":false,\"isCmd\":true}]\n```";
    assert_eq!(
        parse_step_json(reply),
        vec![
            ("run".to_string(), true),
            ("step two".to_string(), false),
            ("s3".to_string(), true),
            ("c".to_string(), false)
        ]
    );
}

#[test]
fn step_json_rejects() {
    assert!(parse_step_json("no array here").is_empty());
    assert!(parse_step_json("] then [").is_empty());
    assert!(parse_step_json("[not json]").is_empty());
    assert!(parse_step_json("[1, 2, null]").is_empty());
    assert!(parse_step_json("{\"a\": 1}").is_empty());
    assert_eq!(parse_step_json("Here: [\"a\", \"b\"] done"), vec![("a".to_string(), false), ("b".to_string(), false)]);
}

#[test]
fn legacy_import() {
    assert_eq!(sql_escape("it's a 'test'"), "it''s a ''test''");
    let sql = legacy_import_sql("/tmp/o'k/inbox.db");
    assert!(sql.starts_with("ATTACH DATABASE '/tmp/o''k/inbox.db' AS legacy; INSERT OR IGNORE INTO main.suggestions"));
    assert!(sql.ends_with("FROM legacy.steps; DETACH DATABASE legacy;"));
}

fn patch_with_status(status: Option<&str>) -> SuggestionPatch {
    SuggestionPatch {
        title: None,
        quote: None,
        my_note: None,
        source_tool: None,
        workspace: None,
        session_ref: None,
        tags: None,
        kind: None,
        status: status.map(String::from),
        priority: Some(1),
        user_msg: None,
    }
}

#[test]
fn patch_plans() {
    let cur = stored();
    let plan = patch_plan(&cur, &patch_with_status(Some("doing"))).ok().unwrap();
    assert!(plan.demote_others);
    assert_eq!(plan.update.status, "doing");
    assert_eq!(plan.update.priority, 1);
    assert_eq!(plan.update.title, "t");
    let plan = patch_plan(&cur, &patch_with_status(Some("done"))).ok().unwrap();
    assert!(!plan.demote_others);
    assert_eq!(plan.update.status, "done");
    let plan = patch_plan(&cur, &patch_with_status(None)).ok().unwrap();
    assert!(!plan.demote_others);
    assert_eq!(plan.update.status, "inbox");
    assert_eq!(patch_plan(&cur, &patch_with_status(Some("later"))).err(), Some("非法 status".to_string()));
}

#[test]
fn steps_from_reply_items() {
    let items = vec![
        JsonStepItem::Text(" a ".to_string()),
        JsonStepItem::Fields { content: None, step: Some("b".to_string()), is_cmd: None, is_cmd_camel: Some(true) },
        JsonStepItem::Fields { content: Some("  ".to_string()), step: Some("x".to_string()), is_cmd: Some(true), is_cmd_camel: None },
        JsonStepItem::Fields { content: Some("c".to_string()), step: None, is_cmd: Some(false), is_cmd_camel: Some(true) },
    ];
    assert_eq!(
        steps_from_items(&items),
        vec![("a".to_string(), false), ("b".to_string(), true), ("c".to_string(), false)]
    );
    assert!(steps_from_items(&vec![]).is_empty());
}
