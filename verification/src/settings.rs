//! The app's configuration: defaults, provider presets for the AI step
//! splitter, what saving the settings page changes, and the request made to
//! an OpenAI-compatible chat endpoint.
use vstd::prelude::*;
use vstd::string::StringExecFns;
use crate::text;

verus! {

broadcast use vstd::string::group_string_axioms;

/// The configuration file's contents.
pub struct Config {
    /// `glm`, `deepseek`, `openai` or `custom`.
    pub provider: String,
    pub base_url: String,
    pub model: String,
    pub api_key: String,
    /// Shortcut of the selection capture.
    pub hotkey: String,
    /// Shortcut of box selection.
    pub hotkey_box: String,
    /// Whether the clipboard channel runs.
    pub clipboard_watch: bool,
    /// Where the database lives, when not in the app's data folder.
    pub db_path: Option<String>,
}

/// Default provider.
pub fn d_provider() -> (r: String)
    ensures
        r@ == "glm"@,
{
    String::from_str("glm")
}

/// Default shortcut of the selection capture.
pub fn d_hotkey() -> (r: String)
    ensures
        r@ == "alt+shift+s"@,
{
    String::from_str("alt+shift+s")
}

/// Default shortcut of box selection.
pub fn d_hotkey_box() -> (r: String)
    ensures
        r@ == "alt+shift+x"@,
{
    String::from_str("alt+shift+x")
}

/// The clipboard channel is on by default.
pub fn d_clip_watch() -> (r: bool)
    ensures
        r,
{
    true
}

/// Base URL and model of a known provider.
pub open spec fn preset_seq(provider: Seq<char>) -> Option<(Seq<char>, Seq<char>)> {
    if provider == "glm"@ {
        Some(("https://open.bigmodel.cn/api/paas/v4"@, "glm-4.6"@))
    } else if provider == "deepseek"@ {
        Some(("https://api.deepseek.com"@, "deepseek-chat"@))
    } else if provider == "openai"@ {
        Some(("https://api.openai.com/v1"@, "gpt-4o-mini"@))
    } else {
        None
    }
}

/// The preset base URL of a known provider.
pub open spec fn preset_base(provider: Seq<char>) -> Seq<char> {
    match preset_seq(provider) {
        Some((b, _)) => b,
        None => seq![],
    }
}

/// The preset model of a known provider.
pub open spec fn preset_model(provider: Seq<char>) -> Seq<char> {
    match preset_seq(provider) {
        Some((_, m)) => m,
        None => seq![],
    }
}

/// A base URL as loading leaves it: kept when set, else the preset of a
/// known provider.
pub open spec fn fill_base(p: Seq<char>, b: Seq<char>) -> Seq<char> {
    if b.len() == 0 && preset_seq(p) is Some {
        preset_base(p)
    } else {
        b
    }
}

/// A model as loading leaves it: kept when set, else the preset of a known
/// provider.
pub open spec fn fill_model(p: Seq<char>, m: Seq<char>) -> Seq<char> {
    if m.len() == 0 && preset_seq(p) is Some {
        preset_model(p)
    } else {
        m
    }
}

/// The base URL the settings page saves for a trimmed request field: the
/// field without trailing slashes, or the preset when the field is empty.
pub open spec fn saved_base(p: Seq<char>, b: Seq<char>) -> Seq<char> {
    if b.len() > 0 {
        text::trim_end_char_seq(b, '/')
    } else if preset_seq(p) is Some {
        preset_base(p)
    } else {
        seq![]
    }
}

/// The model the settings page saves for a trimmed request field: the field,
/// or the preset when the field is empty.
pub open spec fn saved_model(p: Seq<char>, m: Seq<char>) -> Seq<char> {
    if m.len() > 0 {
        m
    } else if preset_seq(p) is Some {
        preset_model(p)
    } else {
        seq![]
    }
}

/// Base URL and model of a known provider.
pub fn preset_for(provider: &str) -> (r: Option<(&'static str, &'static str)>)
    ensures
        match r {
            Some((b, m)) => preset_seq(provider@) == Some((b@, m@)),
            None => preset_seq(provider@) is None,
        },
{
    if text::str_eq(provider, "glm") {
        Some(("https://open.bigmodel.cn/api/paas/v4", "glm-4.6"))
    } else if text::str_eq(provider, "deepseek") {
        Some(("https://api.deepseek.com", "deepseek-chat"))
    } else if text::str_eq(provider, "openai") {
        Some(("https://api.openai.com/v1", "gpt-4o-mini"))
    } else {
        None
    }
}

/// The configuration used when the file is missing or unreadable.
pub fn default_config() -> (c: Config)
    ensures
        c.provider@ == "glm"@,
        c.base_url@.len() == 0,
        c.model@.len() == 0,
        c.api_key@.len() == 0,
        c.hotkey@ == "alt+shift+s"@,
        c.hotkey_box@ == "alt+shift+x"@,
        c.clipboard_watch,
        c.db_path is None,
{
    Config {
        provider: d_provider(),
        base_url: String::new(),
        model: String::new(),
        api_key: String::new(),
        hotkey: d_hotkey(),
        hotkey_box: d_hotkey_box(),
        clipboard_watch: d_clip_watch(),
        db_path: None,
    }
}

/// The configuration in effect: the parsed file (or the defaults), with an
/// empty base URL or model taken from the provider's preset.
pub fn load_config(parsed: Option<Config>) -> (c: Config)
    ensures
        ({
            let (p, b, m) = match parsed {
                Some(x) => (x.provider@, x.base_url@, x.model@),
                None => ("glm"@, Seq::<char>::empty(), Seq::<char>::empty()),
            };
            &&& c.provider@ == p
            &&& c.base_url@ == fill_base(p, b)
            &&& c.model@ == fill_model(p, m)
        }),
        match parsed {
            Some(x) => c.api_key == x.api_key && c.hotkey == x.hotkey && c.hotkey_box
                == x.hotkey_box && c.clipboard_watch == x.clipboard_watch && c.db_path
                == x.db_path,
            None => c.api_key@.len() == 0 && c.hotkey@ == "alt+shift+s"@ && c.hotkey_box@
                == "alt+shift+x"@ && c.clipboard_watch && c.db_path is None,
        },
{
    let mut cfg = match parsed {
        Some(x) => x,
        None => default_config(),
    };
    if cfg.base_url.as_str().is_empty() || cfg.model.as_str().is_empty() {
        if let Some((b, m)) = preset_for(cfg.provider.as_str()) {
            if cfg.base_url.as_str().is_empty() {
                cfg.base_url = text::owned(b);
            }
            if cfg.model.as_str().is_empty() {
                cfg.model = text::owned(m);
            }
        }
    }
    cfg
}

/// Whether an API key is configured (the settings page only learns this).
pub fn has_key(cfg: &Config) -> (r: bool)
    ensures
        r == (cfg.api_key@.len() > 0),
{
    !cfg.api_key.as_str().is_empty()
}

/// The `api_key` field of a settings request.
pub enum KeyField {
    /// Not in the request: the key stays.
    Absent,
    /// `null`: the key is removed.
    Null,
    /// A string: it replaces the key when it is not blank.
    Text(String),
    /// Anything else: the key stays.
    Other,
}

/// A settings request (fields that are not strings arrive as `None`).
pub struct SettingsInput {
    pub provider: Option<String>,
    pub base_url: Option<String>,
    pub model: Option<String>,
    pub api_key: KeyField,
    /// `None` when absent; `Some(b)` when present, `b` being its value when
    /// it is a boolean.
    pub clipboard_watch: Option<Option<bool>>,
}

/// The provider a settings request selects: a known one, or `custom`.
pub open spec fn chosen_provider(requested: Option<Seq<char>>) -> Seq<char> {
    let p = match requested {
        Some(p) => p,
        None => "custom"@,
    };
    if preset_seq(p) is Some {
        p
    } else {
        "custom"@
    }
}

/// `Some(s@)` for `Some(s)`.
pub open spec fn opt_view(o: Option<String>) -> Option<Seq<char>> {
    match o {
        Some(s) => Some(s@),
        None => None,
    }
}

/// A trimmed optional field, empty when absent.
pub open spec fn trimmed_or_empty(o: Option<String>) -> Seq<char> {
    match o {
        Some(s) => text::trim_seq(s@),
        None => seq![],
    }
}

/// Applies a settings request. The provider becomes a known one or
/// `custom`; an empty base URL or model is filled from that provider's
/// preset (a given base URL loses its trailing slashes); the key is removed
/// by `null` and replaced by a non-blank string; the clipboard switch,
/// when given, is set (a non-boolean value counts as on) and returned.
pub fn apply_settings(cfg: &mut Config, input: &SettingsInput) -> (r: Option<bool>)
    ensures
        ({
            let p = chosen_provider(opt_view(input.provider));
            let b = trimmed_or_empty(input.base_url);
            let m = trimmed_or_empty(input.model);
            &&& final(cfg).provider@ == p
            &&& final(cfg).base_url@ == saved_base(p, b)
            &&& final(cfg).model@ == saved_model(p, m)
        }),
        match input.api_key {
            KeyField::Null => final(cfg).api_key@.len() == 0,
            KeyField::Text(s) => if text::trim_seq(s@).len() > 0 {
                final(cfg).api_key@ == text::trim_seq(s@)
            } else {
                final(cfg).api_key == old(cfg).api_key
            },
            _ => final(cfg).api_key == old(cfg).api_key,
        },
        match input.clipboard_watch {
            Some(v) => {
                let on = match v {
                    Some(b) => b,
                    None => true,
                };
                r == Some(on) && final(cfg).clipboard_watch == on
            },
            None => r is None && final(cfg).clipboard_watch == old(cfg).clipboard_watch,
        },
        final(cfg).hotkey == old(cfg).hotkey,
        final(cfg).hotkey_box == old(cfg).hotkey_box,
        final(cfg).db_path == old(cfg).db_path,
{
    let requested = match &input.provider {
        Some(p) => p.clone(),
        None => String::from_str("custom"),
    };
    let provider = if preset_for(requested.as_str()).is_some() {
        requested
    } else {
        String::from_str("custom")
    };
    let preset = preset_for(provider.as_str());
    let base = match &input.base_url {
        Some(s) => text::trim(s.as_str()),
        None => String::new(),
    };
    let new_base = if !base.as_str().is_empty() {
        text::trim_end_char(base.as_str(), '/')
    } else {
        match preset {
            Some((b, _)) => text::owned(b),
            None => String::new(),
        }
    };
    let model = match &input.model {
        Some(s) => text::trim(s.as_str()),
        None => String::new(),
    };
    let new_model = if !model.as_str().is_empty() {
        model
    } else {
        match preset {
            Some((_, m)) => text::owned(m),
            None => String::new(),
        }
    };
    cfg.provider = provider;
    cfg.base_url = new_base;
    cfg.model = new_model;
    match &input.api_key {
        KeyField::Null => {
            cfg.api_key = String::new();
        },
        KeyField::Text(s) => {
            if !text::is_blank(s.as_str()) {
                cfg.api_key = text::trim(s.as_str());
            }
        },
        _ => {},
    }
    match input.clipboard_watch {
        Some(v) => {
            let on = match v {
                Some(b) => b,
                None => true,
            };
            cfg.clipboard_watch = on;
            Some(on)
        },
        None => None,
    }
}

// ---------------------------------------------------------------------------
// The chat request of the AI step splitter
// ---------------------------------------------------------------------------

/// The endpoint and the authorization header of a chat request, or the error
/// when no key or no base URL is configured.
pub open spec fn ai_request_seq(cfg_base: Seq<char>, cfg_key: Seq<char>) -> Result<
    (Seq<char>, Seq<char>),
    Seq<char>,
> {
    let base = text::trim_end_char_seq(cfg_base, '/');
    if cfg_key.len() == 0 || base.len() == 0 {
        Err("请先在侧栏 ⚙️ AI 拆步设置里配置 API Key"@)
    } else {
        Ok((base + "/chat/completions"@, "Bearer "@ + cfg_key))
    }
}

/// The chat request's URL and `Authorization` header.
pub fn ai_request(cfg: &Config) -> (r: Result<(String, String), String>)
    ensures
        match r {
            Ok((u, a)) => ai_request_seq(cfg.base_url@, cfg.api_key@) == Ok::<
                (Seq<char>, Seq<char>),
                Seq<char>,
            >((u@, a@)),
            Err(e) => ai_request_seq(cfg.base_url@, cfg.api_key@) == Err::<
                (Seq<char>, Seq<char>),
                Seq<char>,
            >(e@),
        },
{
    let base = text::trim_end_char(cfg.base_url.as_str(), '/');
    if cfg.api_key.as_str().is_empty() || base.as_str().is_empty() {
        return Err(String::from_str("请先在侧栏 ⚙️ AI 拆步设置里配置 API Key"));
    }
    let url = text::concat2(base.as_str(), "/chat/completions");
    let auth = text::concat2("Bearer ", cfg.api_key.as_str());
    Ok((url, auth))
}

/// The reply of a chat request: the first choice's message content; for an
/// unsuccessful HTTP status the error message the service gave, or
/// `HTTP <status>`.
pub open spec fn ai_reply_seq(
    success: bool,
    status: Seq<char>,
    error_message: Option<Seq<char>>,
    content: Option<Seq<char>>,
) -> Result<Seq<char>, Seq<char>> {
    if !success {
        match error_message {
            Some(m) => Err(m),
            None => Err("HTTP "@ + status),
        }
    } else {
        match content {
            Some(c) => Ok(c),
            None => Err("AI 返回为空"@),
        }
    }
}

/// The text of a chat reply, from what the response held.
pub fn ai_reply(success: bool, status: &str, error_message: Option<String>, content: Option<String>) -> (r:
    Result<String, String>)
    ensures
        match r {
            Ok(c) => ai_reply_seq(success, status@, opt_view(error_message), opt_view(content))
                == Ok::<Seq<char>, Seq<char>>(c@),
            Err(e) => ai_reply_seq(success, status@, opt_view(error_message), opt_view(content))
                == Err::<Seq<char>, Seq<char>>(e@),
        },
{
    if !success {
        return match error_message {
            Some(m) => Err(m),
            None => Err(text::concat2("HTTP ", status)),
        };
    }
    match content {
        Some(c) => Ok(c),
        None => Err(String::from_str("AI 返回为空")),
    }
}


// ---------------------------------------------------------------------------
// Laws
// ---------------------------------------------------------------------------

/// Saving the settings always leaves a known provider or `custom`.
pub proof fn lemma_provider_known(requested: Option<Seq<char>>)
    ensures
        chosen_provider(requested) == "glm"@ || chosen_provider(requested) == "deepseek"@
            || chosen_provider(requested) == "openai"@ || chosen_provider(requested) == "custom"@,
{
}

/// A base URL typed on the settings page is stored without trailing slashes.
pub proof fn lemma_base_url_no_trailing_slash(b: Seq<char>)
    ensures
        text::trim_end_char_seq(b, '/').len() > 0 ==> text::trim_end_char_seq(b, '/').last()
            != '/',
{
    lemma_trail_char(b, '/', 0, b.len() as int);
}

/// What the settings page saves is what the app loads at its next start:
/// loading fills nothing into a saved base URL or model. (A base URL made of
/// slashes alone is saved empty, and loading then fills in the preset, so
/// that request is left out.)
pub proof fn lemma_saved_settings_reload(requested: Option<Seq<char>>, b: Seq<char>, m: Seq<char>)
    requires
        !(b.len() > 0 && text::trim_end_char_seq(b, '/').len() == 0),
    ensures
        fill_base(chosen_provider(requested), saved_base(chosen_provider(requested), b))
            == saved_base(chosen_provider(requested), b),
        fill_model(chosen_provider(requested), saved_model(chosen_provider(requested), m))
            == saved_model(chosen_provider(requested), m),
{
    reveal_strlit("https://open.bigmodel.cn/api/paas/v4");
    reveal_strlit("https://api.deepseek.com");
    reveal_strlit("https://api.openai.com/v1");
    reveal_strlit("glm-4.6");
    reveal_strlit("deepseek-chat");
    reveal_strlit("gpt-4o-mini");
}

/// What the user types on the settings page wins over the presets: a
/// non-empty (trimmed) model is saved as typed, whatever the provider, and a
/// non-empty base URL is saved as typed without its trailing slashes; only
/// an empty field takes the provider's preset (or stays empty for a provider
/// without one).
pub proof fn lemma_typed_fields_kept(requested: Option<Seq<char>>, b: Seq<char>, m: Seq<char>)
    ensures
        m.len() > 0 ==> saved_model(chosen_provider(requested), m) == m,
        b.len() > 0 ==> saved_base(chosen_provider(requested), b) == text::trim_end_char_seq(b, '/'),
        m.len() == 0 ==> saved_model(chosen_provider(requested), m) == preset_model(
            chosen_provider(requested),
        ),
        b.len() == 0 ==> saved_base(chosen_provider(requested), b) == preset_base(
            chosen_provider(requested),
        ),
{
}

/// The field of a settings request, trimmed, is what is saved when it is not
/// blank.
pub proof fn lemma_request_model_kept(requested: Option<Seq<char>>, model: String)
    requires
        text::trim_seq(model@).len() > 0,
    ensures
        saved_model(chosen_provider(requested), trimmed_or_empty(Some(model)))
            == text::trim_seq(model@),
{
}

/// The presets: Zhipu GLM, DeepSeek and OpenAI, each with its endpoint and
/// default model; every other provider name has none.
pub proof fn lemma_preset_table(p: Seq<char>)
    ensures
        preset_seq("glm"@) == Some(("https://open.bigmodel.cn/api/paas/v4"@, "glm-4.6"@)),
        preset_seq("deepseek"@) == Some(("https://api.deepseek.com"@, "deepseek-chat"@)),
        preset_seq("openai"@) == Some(("https://api.openai.com/v1"@, "gpt-4o-mini"@)),
        !(p == "glm"@ || p == "deepseek"@ || p == "openai"@) ==> preset_seq(p) is None,
{
    reveal_strlit("glm");
    reveal_strlit("deepseek");
    reveal_strlit("openai");
    assert("deepseek"@.len() != "glm"@.len());
    assert("openai"@.len() != "glm"@.len());
    assert("openai"@.len() != "deepseek"@.len());
}

proof fn lemma_trail_char(s: Seq<char>, c: char, lo: int, j: int)
    requires
        0 <= lo <= j <= s.len(),
    ensures
        lo <= text::trail_start_char(s, c, lo, j) <= j,
        lo < text::trail_start_char(s, c, lo, j) ==> s[text::trail_start_char(s, c, lo, j) - 1]
            != c,
    decreases j - lo,
{
    if lo < j && s[j - 1] == c {
        lemma_trail_char(s, c, lo, j - 1);
    }
}

} // verus!
