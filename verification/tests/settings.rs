use nayan::settings::{
    ai_reply, ai_request, apply_settings, d_clip_watch, d_hotkey, d_hotkey_box, d_provider,
    default_config, has_key, load_config, preset_for, Config, KeyField, SettingsInput,
};

fn config(provider: &str, base: &str, model: &str, key: &str) -> Config {
    Config {
        provider: provider.to_string(),
        base_url: base.to_string(),
        model: model.to_string(),
        api_key: key.to_string(),
        hotkey: "alt+shift+s".to_string(),
        hotkey_box: "alt+shift+x".to_string(),
        clipboard_watch: true,
        db_path: None,
    }
}

fn input(provider: Option<&str>, base: Option<&str>, model: Option<&str>, key: KeyField, clip: Option<Option<bool>>) -> SettingsInput {
    SettingsInput {
        provider: provider.map(String::from),
        base_url: base.map(String::from),
        model: model.map(String::from),
        api_key: key,
        clipboard_watch: clip,
    }
}

#[test]
fn defaults() {
    assert_eq!(d_provider(), "glm");
    assert_eq!(d_hotkey(), "alt+shift+s");
    assert_eq!(d_hotkey_box(), "alt+shift+x");
    assert!(d_clip_watch());
    let c = default_config();
    assert_eq!(c.provider, "glm");
    assert_eq!(c.base_url, "");
    assert!(c.db_path.is_none());
}

#[test]
fn presets() {
    assert_eq!(preset_for("glm"), Some(("https://open.bigmodel.cn/api/paas/v4", "glm-4.6")));
    assert_eq!(preset_for("deepseek"), Some(("https://api.deepseek.com", "deepseek-chat")));
    assert_eq!(preset_for("openai"), Some(("https://api.openai.com/v1", "gpt-4o-mini")));
    assert_eq!(preset_for("custom"), None);
    assert_eq!(preset_for("GLM"), None);
}

#[test]
fn load_without_file_fills_glm_preset() {
    let c = load_config(None);
    assert_eq!(c.provider, "glm");
    assert_eq!(c.base_url, "https://open.bigmodel.cn/api/paas/v4");
    assert_eq!(c.model, "glm-4.6");
    assert_eq!(c.api_key, "");
    assert!(c.clipboard_watch);
}

#[test]
fn load_fills_only_empty_fields() {
    let c = load_config(Some(config("deepseek", "", "my-model", "k")));
    assert_eq!(c.base_url, "https://api.deepseek.com");
    assert_eq!(c.model, "my-model");
    assert_eq!(c.api_key, "k");
    let c = load_config(Some(config("custom", "", "", "")));
    assert_eq!(c.base_url, "");
    assert_eq!(c.model, "");
    let c = load_config(Some(config("openai", "https://proxy/v1", "", "")));
    assert_eq!(c.base_url, "https://proxy/v1");
    assert_eq!(c.model, "gpt-4o-mini");
}

#[test]
fn save_known_provider_with_own_base() {
    let mut c = config("glm", "x", "y", "old");
    let r = apply_settings(
        &mut c,
        &input(Some("openai"), Some(" https://gw.example/v1// "), None, KeyField::Text("  sk-1 ".to_string()), Some(None)),
    );
    assert_eq!(r, Some(true));
    assert_eq!(c.provider, "openai");
    assert_eq!(c.base_url, "https://gw.example/v1");
    assert_eq!(c.model, "gpt-4o-mini");
    assert_eq!(c.api_key, "sk-1");
    assert!(c.clipboard_watch);
}

#[test]
fn save_unknown_provider_becomes_custom() {
    let mut c = config("glm", "x", "y", "old");
    let r = apply_settings(&mut c, &input(Some("weird"), None, Some(" m1 "), KeyField::Null, Some(Some(false))));
    assert_eq!(r, Some(false));
    assert_eq!(c.provider, "custom");
    assert_eq!(c.base_url, "");
    assert_eq!(c.model, "m1");
    assert_eq!(c.api_key, "");
    assert!(!c.clipboard_watch);
    let r = apply_settings(&mut c, &input(None, Some("   "), None, KeyField::Other, None));
    assert_eq!(r, None);
    assert_eq!(c.provider, "custom");
    assert_eq!(c.base_url, "");
    assert!(!c.clipboard_watch);
}

#[test]
fn blank_key_keeps_old_key() {
    let mut c = config("glm", "x", "y", "old");
    apply_settings(&mut c, &input(Some("glm"), None, None, KeyField::Text("   ".to_string()), None));
    assert_eq!(c.api_key, "old");
    assert!(has_key(&c));
    apply_settings(&mut c, &input(Some("glm"), None, None, KeyField::Absent, None));
    assert_eq!(c.api_key, "old");
    assert_eq!(c.base_url, "https://open.bigmodel.cn/api/paas/v4");
    assert_eq!(c.model, "glm-4.6");
    assert_eq!(c.hotkey, "alt+shift+s");
}

#[test]
fn saved_base_url_has_no_trailing_slash() {
    let mut c = config("glm", "", "", "");
    apply_settings(&mut c, &input(Some("custom"), Some("http://localhost:11434/v1/"), None, KeyField::Absent, None));
    assert_eq!(c.base_url, "http://localhost:11434/v1");
    apply_settings(&mut c, &input(Some("custom"), Some("///"), None, KeyField::Absent, None));
    assert_eq!(c.base_url, "");
}

#[test]
fn chat_request_needs_key_and_base() {
    let msg = "请先在侧栏 ⚙️ AI 拆步设置里配置 API Key".to_string();
    assert_eq!(ai_request(&config("glm", "https://a/b", "m", "")), Err(msg.clone()));
    assert_eq!(ai_request(&config("glm", "//", "m", "k")), Err(msg));
    assert_eq!(
        ai_request(&config("glm", "https://a/b/", "m", "k1")),
        Ok(("https://a/b/chat/completions".to_string(), "Bearer k1".to_string()))
    );
}

#[test]
fn chat_reply_outcomes() {
    assert_eq!(ai_reply(true, "200 OK", None, Some("正常".to_string())), Ok("正常".to_string()));
    assert_eq!(ai_reply(true, "200 OK", None, None), Err("AI 返回为空".to_string()));
    assert_eq!(
        ai_reply(false, "401 Unauthorized", Some("invalid key".to_string()), None),
        Err("invalid key".to_string())
    );
    assert_eq!(
        ai_reply(false, "500 Internal Server Error", None, Some("x".to_string())),
        Err("HTTP 500 Internal Server Error".to_string())
    );
}

#[test]
fn saved_settings_load_back_unchanged() {
    let cases = [
        (Some("deepseek"), None, None),
        (Some("openai"), Some(" https://gw/v1/ "), Some("m")),
        (Some("custom"), None, None),
        (None, Some("http://x"), None),
    ];
    for (p, b, m) in cases {
        let mut c = config("glm", "", "", "k");
        apply_settings(&mut c, &input(p, b, m, KeyField::Absent, None));
        let reloaded = load_config(Some(config(&c.provider, &c.base_url, &c.model, &c.api_key)));
        assert_eq!(reloaded.base_url, c.base_url);
        assert_eq!(reloaded.model, c.model);
        assert_eq!(reloaded.provider, c.provider);
    }
}
