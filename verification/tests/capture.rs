use nayan::capture::{
    after_first_read, after_retry_read, app_element_error, compose_paragraphs, ax_capture_text, ax_channel_open,
    ax_err_name, build_source, capture_target, copy_failure, fallback_app_name, found_dir,
    front_app, gather_capture, glue, harvest_improves, harvest_retry_wait, is_cjk, is_menu_role,
    is_text_value, join_paragraphs, lsappinfo_name, names_match, needs_name_lookup, now_ms,
    ocr_outcome, pick_app, pick_window, row_text, search_dir, session_ref, title_matches,
    walk_exhausted, walk_may_visit, workspace_name, workspace_roots, Channel, CopyProbe,
    FrontApp, GatherAction, GatherEvent, RunningApp, SelectionStep, WindowInfo,
};

fn s(x: &str) -> String {
    x.to_string()
}

#[test]
fn clock_reads_after_epoch() {
    let a = now_ms();
    let b = now_ms();
    assert!(a > 1_600_000_000_000);
    assert!(b >= a);
}

#[test]
fn front_app_needs_positive_pid() {
    assert!(front_app(0, s("x"), s("")).is_none());
    assert!(front_app(-3, s("x"), s("")).is_none());
    let f = front_app(42, s("Cursor"), s("main.rs — app")).unwrap();
    assert_eq!((f.pid, f.name.as_str(), f.title.as_str()), (42, "Cursor", "main.rs — app"));
}

#[test]
fn ax_error_names() {
    assert_eq!(ax_err_name(0), "success");
    assert_eq!(ax_err_name(-25209), "attributeUnsupported(该元素不暴露此属性)");
    assert_eq!(ax_err_name(-25213), "apiDisabled(辅助功能被禁用)");
    assert_eq!(ax_err_name(-25214), "noValue(无选区/无值)");
    assert_eq!(ax_err_name(-25204), "err(-25204)——多为未授权或缺辅助功能权限");
    assert_eq!(ax_err_name(i32::MIN), "err(-2147483648)——多为未授权或缺辅助功能权限");
    assert_eq!(app_element_error(), "AXUIElementCreateApplication 失败");
}

#[test]
fn selection_reads() {
    assert!(matches!(after_first_read(Ok(s("hi"))), SelectionStep::Done(Ok(t)) if t == "hi"));
    assert!(matches!(after_first_read(Ok(s(""))), SelectionStep::Done(Ok(t)) if t.is_empty()));
    assert!(matches!(after_first_read(Err(-25212)), SelectionStep::Retry(-25212)));
    assert_eq!(after_retry_read(-25212, Ok(s("x"))), Ok(s("x")));
    assert_eq!(
        after_retry_read(-25212, Err(-25214)),
        Err(s("AX 焦点元素读取失败：首读 -25212（err(-25212)——多为未授权或缺辅助功能权限），重试 -25214（noValue(无选区/无值)）"))
    );
}

#[test]
fn copy_probe() {
    let p = CopyProbe::new(Some(s("old")), 7);
    assert!(!p.changed(7));
    assert!(p.changed(8));
    assert!(!p.accepts(""));
    assert!(!p.accepts("old"));
    assert!(p.accepts("new"));
    let q = CopyProbe::new(None, 0);
    assert!(q.accepts("old"));
    assert_eq!(copy_failure(), "⌘C 后剪贴板无变化（目标 App 可能不支持复制）");
}

#[test]
fn workspace_names() {
    assert_eq!(workspace_name(""), None);
    assert_eq!(workspace_name("main.rs — nayan | nayan "), Some(s("nayan")));
    assert_eq!(workspace_name("Docs"), Some(s("Docs")));
    assert_eq!(workspace_name("a | "), None);
    assert_eq!(workspace_name(&"x".repeat(61)), None);
    assert_eq!(workspace_name(&"项".repeat(60)), Some("项".repeat(60)));
    assert_eq!(workspace_roots(), vec![s("Documents"), s("Desktop"), s("Projects"), s("workspaces")]);
    assert_eq!(search_dir("/Users/me", "Desktop"), "/Users/me/Desktop");
    assert_eq!(found_dir("  /Users/me/Projects/nayan \n/Users/me/x\n"), Some(s("/Users/me/Projects/nayan")));
    assert_eq!(found_dir("\n/Users/me/x\n"), None);
    assert_eq!(found_dir(""), None);
}

#[test]
fn app_and_window_matching() {
    assert!(names_match("Cursor", "Cursor"));
    assert!(names_match("Google Chrome", "Chrome"));
    assert!(names_match("Code", "Visual Studio Code"));
    assert!(!names_match("", "Code"));
    assert!(names_match("", ""));
    assert!(!names_match("Safari", "Chrome"));
    let apps = vec![
        RunningApp { name: s("Chrome Helper"), policy: 2 },
        RunningApp { name: s("Safari"), policy: 0 },
        RunningApp { name: s("Google Chrome"), policy: 0 },
        RunningApp { name: s("Chrome"), policy: 0 },
    ];
    assert_eq!(pick_app(&apps, "Chrome"), Some(2));
    assert_eq!(pick_app(&apps, "Firefox"), None);
    assert!(!title_matches("anything", ""));
    assert!(title_matches("main.rs — nayan", "nayan"));
    let ws = vec![
        WindowInfo { title: s(""), role: s("AXDesktop") },
        WindowInfo { title: s("Other"), role: s("AXWindow") },
        WindowInfo { title: s("main.rs — nayan"), role: s("AXWindow") },
    ];
    assert_eq!(pick_window(&ws, "nayan"), Some(2));
    assert_eq!(pick_window(&ws, "zzz"), Some(1));
    let desk = vec![WindowInfo { title: s(""), role: s("AXDesktop") }];
    assert_eq!(pick_window(&desk, "zzz"), None);
}

#[test]
fn walk_limits() {
    assert!(walk_may_visit(20, 5000, 2500));
    assert!(!walk_may_visit(21, 0, 0));
    assert!(!walk_may_visit(0, 5001, 0));
    assert!(!walk_may_visit(0, 0, 2501));
    assert!(walk_exhausted(5001, 0));
    assert!(!walk_exhausted(5000, 2500));
    assert!(is_menu_role("AXMenuItem"));
    assert!(!is_menu_role("AXMenuButton"));
    assert!(is_text_value(" a "));
    assert!(!is_text_value(" \t\n"));
    assert_eq!(harvest_retry_wait(0, 3), Some(1200));
    assert_eq!(harvest_retry_wait(1, 3), Some(1500));
    assert_eq!(harvest_retry_wait(2, 3), None);
    assert_eq!(harvest_retry_wait(0, 8), None);
    assert!(harvest_improves(3, 4));
    assert!(!harvest_improves(4, 4));
}

#[test]
fn glue_fragments() {
    assert!(is_cjk('中'));
    assert!(is_cjk('，'));
    assert!(!is_cjk('a'));
    assert!(!is_cjk('é'));
    assert!(is_cjk('“'));
    assert!(is_cjk('—'));
    assert!(is_cjk('\u{800}'));
    assert!(!is_cjk('\u{7FF}'));
    assert_eq!(glue("", "b"), "b");
    assert_eq!(glue("a", ""), "a");
    assert_eq!(glue("hello", "world"), "hello world");
    assert_eq!(glue("你好", "世界"), "你好世界");
    assert_eq!(glue("你好", "world"), "你好 world");
    assert_eq!(glue("a。", "b"), "a。 b");
    assert_eq!(glue("他说“", "好”"), "他说“好”");
    assert_eq!(glue("等等…", "然后"), "等等…然后");
}

#[test]
fn rows_and_paragraphs() {
    assert_eq!(row_text(&vec![]), "");
    assert_eq!(row_text(&vec![s("Hello"), s("world"), s("world"), s("中文"), s("内容")]), "Hello world 中文内容");
    assert_eq!(row_text(&vec![s(""), s("a")]), "a");
    assert_eq!(join_paragraphs(&vec![s("p1"), s("p2"), s("")]), "p1\np2\n");
    assert_eq!(join_paragraphs(&vec![]), "");
}

#[test]
fn lsappinfo_names() {
    assert_eq!(lsappinfo_name("\"LSDisplayName\"=\"Cursor\"\n"), "Cursor");
    assert_eq!(lsappinfo_name("\"LSDisplayName\"=\"\""), "hotkey");
    assert_eq!(lsappinfo_name("nothing"), "hotkey");
    assert_eq!(fallback_app_name(), "hotkey");
}

#[test]
fn capture_chain() {
    assert!(needs_name_lookup(&None));
    assert!(needs_name_lookup(&Some(FrontApp { pid: 1, name: s("  "), title: s("") })));
    assert!(!needs_name_lookup(&Some(FrontApp { pid: 1, name: s("X"), title: s("") })));
    let t = capture_target(Some(FrontApp { pid: 9, name: s(" "), title: s("w") }), s("Looked"));
    assert_eq!((t.pid, t.app_name.as_str(), t.title.as_str()), (Some(9), "Looked", "w"));
    let t2 = capture_target(None, s("hotkey"));
    assert_eq!((t2.pid, t2.app_name.as_str(), t2.title.as_str()), (None, "hotkey", ""));
    assert!(ax_channel_open(&t, true));
    assert!(!ax_channel_open(&t, false));
    assert!(!ax_channel_open(&t2, true));
    assert_eq!(ax_capture_text(Ok(s(" sel "))), Some(s(" sel ")));
    assert_eq!(ax_capture_text(Ok(s("  "))), None);
    assert_eq!(ax_capture_text(Err(s("e"))), None);
    assert!(matches!(gather_capture(&t, true, GatherEvent::Start), GatherAction::ReadAx(9)));
    assert!(matches!(gather_capture(&t, false, GatherEvent::Start), GatherAction::SimulateCopy));
    assert!(matches!(gather_capture(&t2, true, GatherEvent::Start), GatherAction::SimulateCopy));
    assert!(matches!(gather_capture(&t, true, GatherEvent::AxRead(Ok(s("x")))), GatherAction::Finish(Channel::Ax, v) if v == "x"));
    assert!(matches!(gather_capture(&t, true, GatherEvent::AxRead(Ok(s(" ")))), GatherAction::SimulateCopy));
    assert!(matches!(gather_capture(&t, true, GatherEvent::AxRead(Err(s("e")))), GatherAction::SimulateCopy));
    assert!(matches!(gather_capture(&t, true, GatherEvent::CopyRead(Ok(s("y")))), GatherAction::Finish(Channel::CmdC, v) if v == "y"));
    assert!(matches!(gather_capture(&t, true, GatherEvent::CopyRead(Err(s("bad")))), GatherAction::Fail(m) if m == "bad"));
}

#[test]
fn capture_sources() {
    assert_eq!(session_ref(""), "");
    assert_eq!(session_ref("main.rs"), "窗口：main.rs");
    let src = build_source(s("text"), s("Cursor"), s("main.rs"), s("/p"), Channel::CmdC);
    assert_eq!(src.sr, "窗口：main.rs");
    assert_eq!(src.ws, "/p");
    assert_eq!(src.channel.name(), "cmdc");
    assert_eq!(Channel::Ax.name(), "ax");
    assert_eq!(Channel::Box.name(), "box");
    assert_eq!(Channel::Clip.name(), "clip");
}

#[test]
fn ocr_outcomes() {
    assert_eq!(ocr_outcome("hello\nworld \n"), Ok(s("hello\nworld")));
    assert_eq!(ocr_outcome("  \n"), Err(s("画面里没有识别到文字")));
    assert_eq!(
        ocr_outcome("__ERR__capture\n"),
        Err(s("屏幕取像失败——请在 系统设置→隐私与安全性→屏幕录制 中授权纳言后重试"))
    );
    assert_eq!(
        ocr_outcome("__ERR__empty-capture"),
        Err(s("屏幕取像失败——请在 系统设置→隐私与安全性→屏幕录制 中授权纳言后重试"))
    );
    assert_eq!(ocr_outcome("__ERR__ vision \n"), Err(s("OCR 失败：vision")));
}

#[test]
fn paragraphs_from_rows() {
    let rows = vec![s("第一行"), s("接着写"), s("new para"), s("goes on"), s("third")];
    assert_eq!(
        compose_paragraphs(&rows, &vec![true, true, false, true, false]),
        "第一行接着写\nnew para goes on\nthird"
    );
    assert_eq!(compose_paragraphs(&vec![], &vec![]), "");
    assert_eq!(compose_paragraphs(&vec![s("a"), s("b")], &vec![false, false]), "a\nb");
}

#[test]
fn fragment_rows_to_paragraphs() {
    let first = row_text(&vec![s("他们很容易受伤"), s("，")]);
    assert_eq!(first, "他们很容易受伤，");
    let code = row_text(&vec![s("const"), s("anchor")]);
    let rows = vec![first, s("因为他们的要求太高"), code, s("第二段内容")];
    let out = compose_paragraphs(&rows, &vec![false, true, true, false]);
    assert_eq!(out, "他们很容易受伤，因为他们的要求太高 const anchor\n第二段内容");
    assert!(out.contains("他们很容易受伤，因为他们的要求太高"));
    assert!(out.contains("const anchor"));
    assert!(out.contains('\n'));
}
