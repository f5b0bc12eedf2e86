//! The client of the model providers: Ollama, and OpenAI where the settings
//! have it.
//!
//! Requests are sent outside. The client says what is to be sent, and what is
//! made of what came back.
use vstd::prelude::*;

use crate::json::{
    compact_json, copy_values, has_only, number_of, only_keys, or_empty, parsed_json, plain,
    pretty_json, put, raw_key, str_views, values, Json, JsonView,
};
use crate::number::{decimal, decimal_text, numeral_reads_back, numeral_value, digit_of};
use crate::order::{is_sorted_list, sorted_list, sorted_unique};
use crate::text::{
    blank, is_blank, join, join_texts, joined, same_text, strip_trailing, texts, trim, trimmed, without_trailing,
};
use crate::types::{
    call_views, opt_text, AgentResponse, CallView, OllamaChatResponse, OllamaToolCall,
    ResponseView, ToolUseCall,
};

verus! {

// ---------------------------------------------------------------------------
// Settings
// ---------------------------------------------------------------------------
/// Where Ollama is reached if nothing else is set.
pub const DEFAULT_OLLAMA_URL: &'static str = "http://localhost:11434";

/// The model that Ollama is asked for if nothing else is set.
pub const DEFAULT_OLLAMA_MODEL: &'static str = "qwen3.5:4b";

/// Where the settings are in the home directory.
pub const SETTINGS_FILE: &'static str = ".localcoder/settings.json";

/// The settings of the providers.
#[derive(Debug)]
pub struct LLMSettings {
    pub ollama: Option<OllamaSettings>,
    pub openai: Option<OpenAISettings>,
}

#[derive(Debug)]
pub struct OllamaSettings {
    pub url: String,
    pub model: String,
}

#[derive(Debug)]
pub struct OpenAISettings {
    pub base_url: String,
    pub api_key: String,
    pub model: String,
}

/// What the settings of Ollama are.
pub struct OllamaView {
    pub url: Seq<char>,
    pub model: Seq<char>,
}

/// What the settings of OpenAI are.
pub struct OpenAIView {
    pub base_url: Seq<char>,
    pub api_key: Seq<char>,
    pub model: Seq<char>,
}

/// What the settings are.
pub struct SettingsView {
    pub ollama: Option<OllamaView>,
    pub openai: Option<OpenAIView>,
}

impl OllamaSettings {
    pub open spec fn view(&self) -> OllamaView {
        OllamaView { url: self.url@, model: self.model@ }
    }
}

impl OpenAISettings {
    pub open spec fn view(&self) -> OpenAIView {
        OpenAIView { base_url: self.base_url@, api_key: self.api_key@, model: self.model@ }
    }
}

impl LLMSettings {
    pub open spec fn view(&self) -> SettingsView {
        SettingsView {
            ollama: match self.ollama {
                Some(ollama) => Some(ollama@),
                None => None,
            },
            openai: match self.openai {
                Some(openai) => Some(openai@),
                None => None,
            },
        }
    }
}

/// What is wrong with the settings, over a type of text.
#[derive(Debug)]
pub enum SettingsError<T> {
    /// The value of this name is blank.
    Empty(T),
    /// There is no provider.
    NoProvider,
    /// There are no settings.
    Missing,
    /// It is not known where the home directory is.
    NoHome,
    /// The file at this path cannot be read.
    Unreadable(T),
    /// The file at this path does not hold settings.
    Invalid(T),
}

/// The message of an error.
pub open spec fn settings_message(error: SettingsError<Seq<char>>) -> Seq<char> {
    match error {
        SettingsError::Empty(label) => label + " must not be empty"@,
        SettingsError::NoProvider => "settings must include either openai or ollama"@,
        SettingsError::Missing => "missing $HOME/.localcoder/settings.json"@,
        SettingsError::NoHome => "$HOME is not set"@,
        SettingsError::Unreadable(path) => "failed to read settings file: "@ + path,
        SettingsError::Invalid(path) => "invalid settings JSON: "@ + path,
    }
}

impl SettingsError<String> {
    /// The error with its characters.
    pub open spec fn view(&self) -> SettingsError<Seq<char>> {
        match self {
            SettingsError::Empty(label) => SettingsError::Empty(label@),
            SettingsError::NoProvider => SettingsError::NoProvider,
            SettingsError::Missing => SettingsError::Missing,
            SettingsError::NoHome => SettingsError::NoHome,
            SettingsError::Unreadable(path) => SettingsError::Unreadable(path@),
            SettingsError::Invalid(path) => SettingsError::Invalid(path@),
        }
    }

    /// The message for the user.
    pub fn message(&self) -> (text: String)
        ensures
            text@ == settings_message(self@),
    {
        match self {
            SettingsError::Empty(label) => joined(label.as_str(), " must not be empty"),
            SettingsError::NoProvider => "settings must include either openai or ollama".to_owned(),
            SettingsError::Missing => "missing $HOME/.localcoder/settings.json".to_owned(),
            SettingsError::NoHome => "$HOME is not set".to_owned(),
            SettingsError::Unreadable(path) => joined(
                "failed to read settings file: ",
                path.as_str(),
            ),
            SettingsError::Invalid(path) => joined("invalid settings JSON: ", path.as_str()),
        }
    }
}

/// Checks that a value is more than white space.
pub fn validate_non_empty(label: &str, value: &str) -> (checked: Result<(), SettingsError<String>>)
    ensures
        checked is Ok <==> !is_blank(value@),
        checked matches Err(error) ==> error@ == SettingsError::Empty(label@),
{
    if blank(value) {
        Err(SettingsError::Empty(label.to_owned()))
    } else {
        Ok(())
    }
}

/// What is wrong with settings that could be read. OpenAI is looked at where
/// there is such a provider, and Ollama only where there is none.
pub open spec fn settings_problem(settings: SettingsView) -> Option<SettingsError<Seq<char>>> {
    match settings.openai {
        Some(openai) => if is_blank(openai.base_url) {
            Some(SettingsError::Empty("settings.openai.base_url"@))
        } else if is_blank(openai.api_key) {
            Some(SettingsError::Empty("settings.openai.api_key"@))
        } else if is_blank(openai.model) {
            Some(SettingsError::Empty("settings.openai.model"@))
        } else {
            None
        },
        None => match settings.ollama {
            Some(ollama) => if is_blank(ollama.url) {
                Some(SettingsError::Empty("settings.ollama.url"@))
            } else if is_blank(ollama.model) {
                Some(SettingsError::Empty("settings.ollama.model"@))
            } else {
                None
            },
            None => Some(SettingsError::NoProvider),
        },
    }
}

/// What was found in a settings file.
pub enum FileContents<S> {
    /// It cannot be read.
    Unreadable,
    /// It does not hold settings.
    Invalid,
    /// It holds these.
    Settings(S),
}

/// Checks what was found in the settings file at `path`. Settings that pass
/// have a provider.
pub fn load_settings_from_path(path: &str, contents: FileContents<LLMSettings>) -> (loaded: Result<
    LLMSettings,
    SettingsError<String>,
>)
    ensures
        match contents {
            FileContents::Unreadable => loaded matches Err(error) && error@
                == SettingsError::Unreadable(path@),
            FileContents::Invalid => loaded matches Err(error) && error@ == SettingsError::Invalid(
                path@,
            ),
            FileContents::Settings(settings) => match settings_problem(settings@) {
                Some(problem) => loaded matches Err(error) && error@ == problem,
                None => loaded == Ok::<LLMSettings, SettingsError<String>>(settings),
            },
        },
        loaded matches Ok(settings) ==> settings.openai is Some || settings.ollama is Some,
{
    let settings: LLMSettings = match contents {
        FileContents::Unreadable => {
            return Err(SettingsError::Unreadable(path.to_owned()));
        },
        FileContents::Invalid => {
            return Err(SettingsError::Invalid(path.to_owned()));
        },
        FileContents::Settings(settings) => settings,
    };
    if let Some(openai) = &settings.openai {
        if let Err(error) = validate_non_empty("settings.openai.base_url", openai.base_url.as_str()) {
            return Err(error);
        }
        if let Err(error) = validate_non_empty("settings.openai.api_key", openai.api_key.as_str()) {
            return Err(error);
        }
        if let Err(error) = validate_non_empty("settings.openai.model", openai.model.as_str()) {
            return Err(error);
        }
    } else if let Some(ollama) = &settings.ollama {
        if let Err(error) = validate_non_empty("settings.ollama.url", ollama.url.as_str()) {
            return Err(error);
        }
        if let Err(error) = validate_non_empty("settings.ollama.model", ollama.model.as_str()) {
            return Err(error);
        }
    } else {
        return Err(SettingsError::NoProvider);
    }
    Ok(settings)
}

/// Finds the settings file: it is the one in the home directory, where there
/// is such a file.
pub fn resolve_settings_path_with<P>(home_path: Option<P>, exists: bool) -> (path: Result<
    P,
    SettingsError<String>,
>)
    ensures
        match home_path {
            Some(home_path) if exists => path == Ok::<P, SettingsError<String>>(home_path),
            _ => path matches Err(error) && error@ == SettingsError::<Seq<char>>::Missing,
        },
{
    match home_path {
        Some(home_path) => {
            if exists {
                Ok(home_path)
            } else {
                Err(SettingsError::Missing)
            }
        },
        None => Err(SettingsError::Missing),
    }
}

/// What is to be done so that there is a settings file.
pub enum SettingsPlan<P> {
    /// It is there.
    Use(P),
    /// It is to be written, with the default settings.
    Create(P),
}

/// Makes sure that there is a settings file in the home directory.
pub fn ensure_settings_file_with<P>(home_path: Option<P>, exists: bool) -> (plan: Result<
    SettingsPlan<P>,
    SettingsError<String>,
>)
    ensures
        match home_path {
            Some(home_path) => plan == Ok::<SettingsPlan<P>, SettingsError<String>>(
                if exists {
                    SettingsPlan::Use(home_path)
                } else {
                    SettingsPlan::Create(home_path)
                },
            ),
            None => plan matches Err(error) && error@ == SettingsError::<Seq<char>>::NoHome,
        },
{
    match home_path {
        Some(home_path) => {
            if exists {
                Ok(SettingsPlan::Use(home_path))
            } else {
                Ok(SettingsPlan::Create(home_path))
            }
        },
        None => Err(SettingsError::NoHome),
    }
}

/// The settings of a new settings file.
pub open spec fn default_settings() -> JsonView {
    JsonView::Object(
        map![
            "ollama"@ => JsonView::Object(
                map![
                    "url"@ => JsonView::Text(DEFAULT_OLLAMA_URL@),
                    "model"@ => JsonView::Text(DEFAULT_OLLAMA_MODEL@),
                ],
            ),
        ],
    )
}

/// The text of a new settings file, which reads back as the default settings.
pub fn default_settings_json() -> (text: String)
    ensures
        text@ == pretty_json(default_settings()),
        parsed_json(text@) == Some(default_settings()),
{
    let mut ollama: Vec<(String, Json)> = Vec::new();
    put(&mut ollama, "url", Json::text(DEFAULT_OLLAMA_URL));
    put(&mut ollama, "model", Json::text(DEFAULT_OLLAMA_MODEL));
    let mut entries: Vec<(String, Json)> = Vec::new();
    put(&mut entries, "ollama", Json::Object(ollama));
    let value: Json = Json::Object(entries);
    proof {
        reveal_with_fuel(plain, 3);
        lemma_settings_keys();
        assert(value@ == default_settings());
        assert(plain(value@, 100));
    }
    match value.to_pretty() {
        Some(text) => text,
        None => String::new(),
    }
}

/// No key of the settings is the one that `serde_json` keeps for itself.
proof fn lemma_settings_keys()
    ensures
        raw_key() != "ollama"@,
        raw_key() != "openai"@,
        raw_key() != "url"@,
        raw_key() != "model"@,
        raw_key() != "base_url"@,
        raw_key() != "api_key"@,
{
    reveal_strlit("$serde_json::private::RawValue");
    reveal_strlit("ollama");
    reveal_strlit("openai");
    reveal_strlit("url");
    reveal_strlit("model");
    reveal_strlit("base_url");
    reveal_strlit("api_key");
    assert(raw_key()[0] == '$');
    assert("ollama"@[0] == 'o' && "openai"@[0] == 'o' && "url"@[0] == 'u' && "model"@[0] == 'm');
    assert("base_url"@[0] == 'b' && "api_key"@[0] == 'a');
}

/// What is written for the settings of Ollama.
pub open spec fn ollama_value(ollama: Option<OllamaView>) -> JsonView {
    match ollama {
        Some(ollama) => JsonView::Object(
            map!["url"@ => JsonView::Text(ollama.url), "model"@ => JsonView::Text(ollama.model)],
        ),
        None => JsonView::Null,
    }
}

/// What is written for the settings of OpenAI.
pub open spec fn openai_value(openai: Option<OpenAIView>) -> JsonView {
    match openai {
        Some(openai) => JsonView::Object(
            map![
                "base_url"@ => JsonView::Text(openai.base_url),
                "api_key"@ => JsonView::Text(openai.api_key),
                "model"@ => JsonView::Text(openai.model),
            ],
        ),
        None => JsonView::Null,
    }
}

/// What is written for settings. A provider without settings is null.
pub open spec fn settings_value(settings: SettingsView) -> JsonView {
    JsonView::Object(
        map![
            "ollama"@ => ollama_value(settings.ollama),
            "openai"@ => openai_value(settings.openai),
        ],
    )
}

/// The line of a setting in a settings file. `serde_json` writes the value.
pub open spec fn setting_line(name: Seq<char>, value: Seq<char>) -> Seq<char> {
    "    \""@ + name + "\": "@ + compact_json(JsonView::Text(value))
}

/// The part of a settings file with the settings of one provider.
pub open spec fn section_text(settings: Seq<Seq<char>>) -> Seq<char> {
    "{\n"@ + join(settings, ",\n"@) + "\n  }"@
}

/// The part of a settings file with the settings of Ollama.
pub open spec fn ollama_text(ollama: Option<OllamaView>) -> Seq<char> {
    match ollama {
        Some(ollama) => section_text(
            seq![setting_line("url"@, ollama.url), setting_line("model"@, ollama.model)],
        ),
        None => "null"@,
    }
}

/// The part of a settings file with the settings of OpenAI.
pub open spec fn openai_text(openai: Option<OpenAIView>) -> Seq<char> {
    match openai {
        Some(openai) => section_text(
            seq![
                setting_line("base_url"@, openai.base_url),
                setting_line("api_key"@, openai.api_key),
                setting_line("model"@, openai.model),
            ],
        ),
        None => "null"@,
    }
}

/// The text of a settings file: the settings of the providers, one to a line,
/// in the order in which they are declared.
pub open spec fn settings_text(settings: SettingsView) -> Seq<char> {
    "{\n  \"ollama\": "@ + ollama_text(settings.ollama) + ",\n  \"openai\": "@ + openai_text(
        settings.openai,
    ) + "\n}"@
}

fn setting(name: &str, value: &str) -> (line: String)
    ensures
        line@ == setting_line(name@, value@),
{
    let mut line: String = joined("    \"", name);
    line.append("\": ");
    match Json::text(value).to_compact() {
        Some(text) => line.append(text.as_str()),
        None => {},
    }
    line
}

fn section(lines: &Vec<String>) -> (text: String)
    ensures
        text@ == section_text(texts(lines@)),
{
    let mut text: String = joined("{\n", join_texts(lines, ",\n").as_str());
    text.append("\n  }");
    text
}

/// The text of a settings file, laid out.
fn lay_out_settings(settings: &LLMSettings) -> (text: String)
    ensures
        text@ == settings_text(settings@),
{
    let mut text: String = "{\n  \"ollama\": ".to_owned();
    match &settings.ollama {
        Some(ollama) => {
            let mut lines: Vec<String> = Vec::new();
            lines.push(setting("url", ollama.url.as_str()));
            lines.push(setting("model", ollama.model.as_str()));
            text.append(section(&lines).as_str());
            assert(texts(lines@) =~= seq![
                setting_line("url"@, ollama.url@),
                setting_line("model"@, ollama.model@),
            ]);
        },
        None => text.append("null"),
    }
    text.append(",\n  \"openai\": ");
    match &settings.openai {
        Some(openai) => {
            let mut lines: Vec<String> = Vec::new();
            lines.push(setting("base_url", openai.base_url.as_str()));
            lines.push(setting("api_key", openai.api_key.as_str()));
            lines.push(setting("model", openai.model.as_str()));
            text.append(section(&lines).as_str());
            assert(texts(lines@) =~= seq![
                setting_line("base_url"@, openai.base_url@),
                setting_line("api_key"@, openai.api_key@),
                setting_line("model"@, openai.model@),
            ]);
        },
        None => text.append("null"),
    }
    text.append("\n}");
    text
}

/// The value that is written for settings.
fn settings_to_write(settings: &LLMSettings) -> (value: Json)
    ensures
        value@ == settings_value(settings@),
        plain(value@, 100),
{
    let ollama: Json = match &settings.ollama {
        Some(ollama) => {
            let mut entries: Vec<(String, Json)> = Vec::new();
            put(&mut entries, "url", Json::text(ollama.url.as_str()));
            put(&mut entries, "model", Json::text(ollama.model.as_str()));
            Json::Object(entries)
        },
        None => Json::Null,
    };
    let openai: Json = match &settings.openai {
        Some(openai) => {
            let mut entries: Vec<(String, Json)> = Vec::new();
            put(&mut entries, "base_url", Json::text(openai.base_url.as_str()));
            put(&mut entries, "api_key", Json::text(openai.api_key.as_str()));
            put(&mut entries, "model", Json::text(openai.model.as_str()));
            Json::Object(entries)
        },
        None => Json::Null,
    };
    proof {
        reveal_with_fuel(plain, 3);
        lemma_settings_keys();
        assert(ollama@ == ollama_value(settings@.ollama));
        assert(openai@ == openai_value(settings@.openai));
        assert(plain(ollama@, 99));
        assert(plain(openai@, 99));
    }
    let mut entries: Vec<(String, Json)> = Vec::new();
    put(&mut entries, "ollama", ollama);
    put(&mut entries, "openai", openai);
    let value: Json = Json::Object(entries);
    proof {
        assert(value@ == settings_value(settings@));
        assert(plain(value@, 100));
    }
    value
}

/// The names of settings differ.
proof fn lemma_names_differ()
    ensures
        "ollama"@ != "openai"@,
        "url"@ != "model"@,
        "base_url"@ != "api_key"@,
        "base_url"@ != "model"@,
        "api_key"@ != "model"@,
{
    reveal_strlit("ollama");
    reveal_strlit("openai");
    reveal_strlit("url");
    reveal_strlit("model");
    reveal_strlit("base_url");
    reveal_strlit("api_key");
    assert("ollama"@[1] == 'l' && "openai"@[1] == 'p');
    assert("url"@.len() == 3 && "model"@.len() == 5 && "base_url"@.len() == 8 && "api_key"@.len()
        == 7);
}

fn has_text(value: &Json, key: &str, text: &str) -> (found: bool)
    ensures
        found == (value@.text_at(key@) == Some(text@)),
{
    match value.str_at(key) {
        Some(held) => same_text(held, text),
        None => false,
    }
}

fn is_null(value: &Json) -> (found: bool)
    ensures
        found == (value@ == JsonView::Null),
{
    match value {
        Json::Null => true,
        _ => false,
    }
}

fn holds_ollama(value: &Json, ollama: &Option<OllamaSettings>) -> (found: bool)
    ensures
        found == (value@ == ollama_value(
            match ollama {
                Some(ollama) => Some(ollama@),
                None => None,
            },
        )),
{
    match ollama {
        Some(ollama) => {
            let keys: Vec<&str> = vec!["url", "model"];
            let found: bool = only_keys(value, &keys) && has_text(value, "url", ollama.url.as_str())
                && has_text(value, "model", ollama.model.as_str());
            proof {
                lemma_names_differ();
                let names = str_views(keys@);
                let wanted = ollama_value(Some(ollama@));
                assert(names =~= seq!["url"@, "model"@]);
                assert(names[0] == "url"@ && names[1] == "model"@);
                assert(has_only(wanted, names));
                if found {
                    assert(value@->Object_0 =~= wanted->Object_0);
                }
            }
            found
        },
        None => is_null(value),
    }
}

fn holds_openai(value: &Json, openai: &Option<OpenAISettings>) -> (found: bool)
    ensures
        found == (value@ == openai_value(
            match openai {
                Some(openai) => Some(openai@),
                None => None,
            },
        )),
{
    match openai {
        Some(openai) => {
            let keys: Vec<&str> = vec!["base_url", "api_key", "model"];
            let found: bool = only_keys(value, &keys) && has_text(
                value,
                "base_url",
                openai.base_url.as_str(),
            ) && has_text(value, "api_key", openai.api_key.as_str()) && has_text(
                value,
                "model",
                openai.model.as_str(),
            );
            proof {
                lemma_names_differ();
                let names = str_views(keys@);
                let wanted = openai_value(Some(openai@));
                assert(names =~= seq!["base_url"@, "api_key"@, "model"@]);
                assert(names[0] == "base_url"@ && names[1] == "api_key"@ && names[2] == "model"@);
                assert(has_only(wanted, names));
                if found {
                    assert(value@->Object_0 =~= wanted->Object_0);
                }
            }
            found
        },
        None => is_null(value),
    }
}

/// Whether a value is what is written for the settings.
fn holds_settings(value: &Json, settings: &LLMSettings) -> (found: bool)
    ensures
        found == (value@ == settings_value(settings@)),
{
    let keys: Vec<&str> = vec!["ollama", "openai"];
    let ghost wanted = settings_value(settings@);
    proof {
        lemma_names_differ();
        assert(str_views(keys@) =~= seq!["ollama"@, "openai"@]);
        assert(str_views(keys@)[0] == "ollama"@ && str_views(keys@)[1] == "openai"@);
        assert(has_only(wanted, str_views(keys@)));
    }
    if !only_keys(value, &keys) {
        return false;
    }
    match (value.get("ollama"), value.get("openai")) {
        (Some(ollama), Some(openai)) => {
            let found: bool = holds_ollama(ollama, &settings.ollama) && holds_openai(
                openai,
                &settings.openai,
            );
            proof {
                if found {
                    assert(value@->Object_0 =~= wanted->Object_0);
                }
            }
            found
        },
        _ => false,
    }
}

/// The text of a settings file, which reads back as the settings. It is read
/// before it is handed out: should it not hold the settings, they are written
/// as `serde_json` lays out any value.
pub fn settings_json(settings: &LLMSettings) -> (text: String)
    ensures
        parsed_json(text@) == Some(settings_value(settings@)),
        text@ == (if parsed_json(settings_text(settings@)) == Some(settings_value(settings@)) {
            settings_text(settings@)
        } else {
            pretty_json(settings_value(settings@))
        }),
{
    let text: String = lay_out_settings(settings);
    if let Some(value) = Json::parse(text.as_str()) {
        if holds_settings(&value, settings) {
            return text;
        }
    }
    match settings_to_write(settings).to_pretty() {
        Some(text) => text,
        None => String::new(),
    }
}

/// What is written tells all of the settings: different settings are written
/// differently.
pub proof fn written_settings_tell_all(one: SettingsView, other: SettingsView)
    requires
        settings_value(one) == settings_value(other),
    ensures
        one == other,
{
    lemma_names_differ();
    let a = settings_value(one);
    let b = settings_value(other);
    assert(a.at("ollama"@) == b.at("ollama"@));
    assert(a.at("openai"@) == b.at("openai"@));
    assert(a.at("ollama"@).at("url"@) == b.at("ollama"@).at("url"@));
    assert(a.at("ollama"@).at("model"@) == b.at("ollama"@).at("model"@));
    assert(a.at("openai"@).at("base_url"@) == b.at("openai"@).at("base_url"@));
    assert(a.at("openai"@).at("api_key"@) == b.at("openai"@).at("api_key"@));
    assert(a.at("openai"@).at("model"@) == b.at("openai"@).at("model"@));
}

// ---------------------------------------------------------------------------
// Changing the model
// ---------------------------------------------------------------------------
/// The providers.
#[derive(Debug, Clone, Copy, PartialEq, Eq, Structural)]
pub enum Provider {
    Ollama,
    OpenAI,
}

/// `value`, or `other` where that is blank.
pub open spec fn or_other(value: Seq<char>, other: Seq<char>) -> Seq<char> {
    if is_blank(value) {
        other
    } else {
        value
    }
}

/// The settings with the model of the given provider changed. Where the
/// provider had no settings, or no place where it is reached, it gets
/// `base_url`. Everything else stays.
pub open spec fn with_model(
    settings: SettingsView,
    provider: Provider,
    base_url: Seq<char>,
    model: Seq<char>,
) -> SettingsView {
    match provider {
        Provider::Ollama => SettingsView {
            ollama: Some(
                OllamaView {
                    url: match settings.ollama {
                        Some(ollama) => or_other(ollama.url, base_url),
                        None => base_url,
                    },
                    model,
                },
            ),
            ..settings
        },
        Provider::OpenAI => SettingsView {
            openai: Some(
                OpenAIView {
                    base_url: match settings.openai {
                        Some(openai) => or_other(openai.base_url, base_url),
                        None => base_url,
                    },
                    api_key: match settings.openai {
                        Some(openai) => openai.api_key,
                        None => Seq::empty(),
                    },
                    model,
                },
            ),
            ..settings
        },
    }
}

fn text_or_other(value: &str, other: &str) -> (text: String)
    ensures
        text@ == or_other(value@, other@),
{
    if blank(value) {
        other.to_owned()
    } else {
        value.to_owned()
    }
}

/// The settings to write so that the provider uses `model` from now on. There
/// may have been no settings file at `path` before.
pub fn persist_model_to_path(
    path: &str,
    contents: Option<FileContents<LLMSettings>>,
    provider: Provider,
    base_url: &str,
    model: &str,
) -> (settings: Result<LLMSettings, SettingsError<String>>)
    ensures
        if is_blank(model@) {
            settings matches Err(error) && error@ == SettingsError::Empty("model"@)
        } else {
            match contents {
                Some(FileContents::Unreadable) => settings matches Err(error) && error@
                    == SettingsError::Unreadable(path@),
                Some(FileContents::Invalid) => settings matches Err(error) && error@
                    == SettingsError::Invalid(path@),
                Some(FileContents::Settings(known)) => settings matches Ok(settings) && settings@
                    == with_model(known@, provider, base_url@, trim(model@)),
                None => settings matches Ok(settings) && settings@ == with_model(
                    (SettingsView { ollama: None, openai: None }),
                    provider,
                    base_url@,
                    trim(model@),
                ),
            }
        },
{
    let model: &str = match validate_non_empty("model", model) {
        Ok(_) => trimmed(model),
        Err(error) => {
            return Err(error);
        },
    };
    let known: LLMSettings = match contents {
        Some(FileContents::Unreadable) => {
            return Err(SettingsError::Unreadable(path.to_owned()));
        },
        Some(FileContents::Invalid) => {
            return Err(SettingsError::Invalid(path.to_owned()));
        },
        Some(FileContents::Settings(known)) => known,
        None => LLMSettings { ollama: None, openai: None },
    };
    match provider {
        Provider::Ollama => {
            let url: String = match &known.ollama {
                Some(ollama) => text_or_other(ollama.url.as_str(), base_url),
                None => base_url.to_owned(),
            };
            Ok(
                LLMSettings {
                    ollama: Some(OllamaSettings { url, model: model.to_owned() }),
                    openai: known.openai,
                },
            )
        },
        Provider::OpenAI => {
            let (url, api_key): (String, String) = match &known.openai {
                Some(openai) => (
                    text_or_other(openai.base_url.as_str(), base_url),
                    openai.api_key.clone(),
                ),
                None => {
                    let none: String = String::new();
                    assert(none@ =~= Seq::<char>::empty());
                    (base_url.to_owned(), none)
                },
            };
            Ok(
                LLMSettings {
                    ollama: known.ollama,
                    openai: Some(OpenAISettings { base_url: url, api_key, model: model.to_owned() }),
                },
            )
        },
    }
}

// ---------------------------------------------------------------------------
// The client
// ---------------------------------------------------------------------------
/// What a client is.
pub struct ClientView {
    pub provider: Provider,
    pub base_url: Seq<char>,
    pub api_key: Option<Seq<char>>,
    pub model: Seq<char>,
    pub max_tokens: u32,
}

/// The client that settings make: for OpenAI where there are settings for it,
/// else for Ollama. The place where the provider is reached loses its slashes
/// at the end.
pub open spec fn client_of(settings: SettingsView) -> ClientView {
    match settings.openai {
        Some(openai) => ClientView {
            provider: Provider::OpenAI,
            base_url: without_trailing(openai.base_url, '/'),
            api_key: Some(openai.api_key),
            model: openai.model,
            max_tokens: 4096,
        },
        None => ClientView {
            provider: Provider::Ollama,
            base_url: without_trailing(settings.ollama->0.url, '/'),
            api_key: None,
            model: settings.ollama->0.model,
            max_tokens: 4096,
        },
    }
}

/// A request to a provider: where it goes, the key to show, and what it
/// carries. A request without a body only asks.
#[derive(Debug)]
pub struct HttpRequest {
    pub url: String,
    pub bearer: Option<String>,
    pub body: Option<Json>,
}

/// What a request is.
pub struct HttpRequestView {
    pub url: Seq<char>,
    pub bearer: Option<Seq<char>>,
    pub body: Option<JsonView>,
}

impl HttpRequest {
    pub open spec fn view(&self) -> HttpRequestView {
        HttpRequestView {
            url: self.url@,
            bearer: opt_text(self.bearer),
            body: match self.body {
                Some(body) => Some(body@),
                None => None,
            },
        }
    }
}

/// What a request is for.
#[derive(Debug, Clone, Copy, PartialEq, Eq, Structural)]
pub enum Purpose {
    Chat,
    Prompt,
    Models,
}

/// What came of a request.
pub enum HttpOutcome<R> {
    /// It could not be sent.
    Failed,
    /// The provider answered with this status, which is no success, and this
    /// text.
    Status { status: String, text: String },
    /// The answer has not the expected form.
    Unreadable,
    /// The answer.
    Reply(R),
}

/// Why a request came to nothing, over a type of text.
#[derive(Debug)]
pub enum ClientError<T> {
    MissingApiKey,
    Failed(Provider, Purpose),
    Returned { provider: Provider, status: T, text: T },
    Unreadable(Provider, Purpose),
    NoChoices,
}

/// The message of an error.
pub open spec fn client_message(error: ClientError<Seq<char>>) -> Seq<char> {
    match error {
        ClientError::MissingApiKey => "missing OpenAI API key"@,
        ClientError::Failed(provider, purpose) => match (provider, purpose) {
            (Provider::Ollama, Purpose::Chat) => "Ollama request failed"@,
            (Provider::Ollama, Purpose::Prompt) => "Ollama prompt request failed"@,
            (Provider::Ollama, Purpose::Models) => "failed to fetch Ollama model tags"@,
            (Provider::OpenAI, Purpose::Chat) => "OpenAI request failed"@,
            (Provider::OpenAI, Purpose::Prompt) => "OpenAI prompt request failed"@,
            (Provider::OpenAI, Purpose::Models) => "failed to fetch OpenAI models"@,
        },
        ClientError::Returned { provider, status, text } => provider_label(provider)
            + " returned error "@ + status + ": "@ + text,
        ClientError::Unreadable(provider, purpose) => match (provider, purpose) {
            (Provider::Ollama, Purpose::Chat) => "failed to parse Ollama response"@,
            (Provider::Ollama, Purpose::Prompt) => "failed to parse Ollama prompt response"@,
            (Provider::Ollama, Purpose::Models) => "failed to parse Ollama tag response"@,
            (Provider::OpenAI, Purpose::Chat) => "failed to parse OpenAI response"@,
            (Provider::OpenAI, Purpose::Prompt) => "failed to parse OpenAI prompt response"@,
            (Provider::OpenAI, Purpose::Models) => "failed to parse OpenAI models response"@,
        },
        ClientError::NoChoices => "OpenAI returned no choices"@,
    }
}

/// The name of a provider.
pub open spec fn provider_label(provider: Provider) -> Seq<char> {
    match provider {
        Provider::Ollama => "Ollama"@,
        Provider::OpenAI => "OpenAI"@,
    }
}

fn label_of(provider: Provider) -> (name: &'static str)
    ensures
        name@ == provider_label(provider),
{
    match provider {
        Provider::Ollama => "Ollama",
        Provider::OpenAI => "OpenAI",
    }
}

impl ClientError<String> {
    /// The error with its characters.
    pub open spec fn view(&self) -> ClientError<Seq<char>> {
        match self {
            ClientError::MissingApiKey => ClientError::MissingApiKey,
            ClientError::Failed(provider, purpose) => ClientError::Failed(*provider, *purpose),
            ClientError::Returned { provider, status, text } => ClientError::Returned {
                provider: *provider,
                status: status@,
                text: text@,
            },
            ClientError::Unreadable(provider, purpose) => ClientError::Unreadable(
                *provider,
                *purpose,
            ),
            ClientError::NoChoices => ClientError::NoChoices,
        }
    }

    /// The message for the user.
    pub fn message(&self) -> (text: String)
        ensures
            text@ == client_message(self@),
    {
        match self {
            ClientError::MissingApiKey => "missing OpenAI API key".to_owned(),
            ClientError::Failed(provider, purpose) => (match (*provider, *purpose) {
                (Provider::Ollama, Purpose::Chat) => "Ollama request failed",
                (Provider::Ollama, Purpose::Prompt) => "Ollama prompt request failed",
                (Provider::Ollama, Purpose::Models) => "failed to fetch Ollama model tags",
                (Provider::OpenAI, Purpose::Chat) => "OpenAI request failed",
                (Provider::OpenAI, Purpose::Prompt) => "OpenAI prompt request failed",
                (Provider::OpenAI, Purpose::Models) => "failed to fetch OpenAI models",
            }).to_owned(),
            ClientError::Returned { provider, status, text } => {
                let mut message: String = label_of(*provider).to_owned();
                message.append(" returned error ");
                message.append(status.as_str());
                message.append(": ");
                message.append(text.as_str());
                message
            },
            ClientError::Unreadable(provider, purpose) => (match (*provider, *purpose) {
                (Provider::Ollama, Purpose::Chat) => "failed to parse Ollama response",
                (Provider::Ollama, Purpose::Prompt) => "failed to parse Ollama prompt response",
                (Provider::Ollama, Purpose::Models) => "failed to parse Ollama tag response",
                (Provider::OpenAI, Purpose::Chat) => "failed to parse OpenAI response",
                (Provider::OpenAI, Purpose::Prompt) => "failed to parse OpenAI prompt response",
                (Provider::OpenAI, Purpose::Models) => "failed to parse OpenAI models response",
            }).to_owned(),
            ClientError::NoChoices => "OpenAI returned no choices".to_owned(),
        }
    }
}

/// The messages of a request that asks one question.
pub open spec fn question(prompt: Seq<char>) -> Seq<JsonView> {
    seq![
        JsonView::Object(
            map!["role"@ => JsonView::Text("user"@), "content"@ => JsonView::Text(prompt)],
        ),
    ]
}

/// The messages as the provider wants them.
pub open spec fn messages_for(provider: Provider, messages: Seq<JsonView>) -> Seq<JsonView> {
    match provider {
        Provider::Ollama => messages,
        Provider::OpenAI => Seq::new(
            messages.len(),
            |i: int| openai_message(i as nat, messages[i]),
        ),
    }
}

/// The body of a chat request. Tools appear in it only where there are some.
pub open spec fn chat_body(
    provider: Provider,
    model: Seq<char>,
    messages: Seq<JsonView>,
    tools: Seq<JsonView>,
    max_tokens: u32,
) -> JsonView {
    let most = JsonView::Number(number_of(max_tokens));
    let plain = map![
        "model"@ => JsonView::Text(model),
        "messages"@ => JsonView::Array(messages),
        "stream"@ => JsonView::Bool(false),
    ];
    JsonView::Object(
        match provider {
            Provider::Ollama => {
                let body = if tools.len() == 0 {
                    plain
                } else {
                    plain.insert("tools"@, JsonView::Array(tools))
                };
                body.insert("options"@, JsonView::Object(map!["num_predict"@ => most]))
            },
            Provider::OpenAI => {
                let body = if tools.len() == 0 {
                    plain
                } else {
                    plain.insert("tools"@, JsonView::Array(tools)).insert(
                        "tool_choice"@,
                        JsonView::Text("auto"@),
                    )
                };
                body.insert("max_tokens"@, most)
            },
        },
    )
}

/// The keys of requests differ.
pub(crate) proof fn lemma_body_keys()
    ensures
        "model"@ != "messages"@,
        "model"@ != "stream"@,
        "model"@ != "tools"@,
        "model"@ != "options"@,
        "model"@ != "tool_choice"@,
        "model"@ != "max_tokens"@,
        "messages"@ != "stream"@,
        "messages"@ != "tools"@,
        "messages"@ != "options"@,
        "messages"@ != "tool_choice"@,
        "messages"@ != "max_tokens"@,
        "stream"@ != "tools"@,
        "stream"@ != "options"@,
        "stream"@ != "tool_choice"@,
        "stream"@ != "max_tokens"@,
        "tools"@ != "options"@,
        "tools"@ != "tool_choice"@,
        "tools"@ != "max_tokens"@,
        "tool_choice"@ != "max_tokens"@,
        "options"@ != "max_tokens"@,
        "options"@ != "tool_choice"@,
{
    reveal_strlit("model");
    reveal_strlit("messages");
    reveal_strlit("stream");
    reveal_strlit("tools");
    reveal_strlit("options");
    reveal_strlit("tool_choice");
    reveal_strlit("max_tokens");
    assert("model"@.len() == 5 && "messages"@.len() == 8 && "stream"@.len() == 6);
    assert("tools"@.len() == 5 && "tools"@[0] == 't' && "model"@[0] == 'm');
    assert("options"@.len() == 7 && "tool_choice"@.len() == 11 && "max_tokens"@.len() == 10);
}

/// Where chat requests go.
pub open spec fn chat_url(client: ClientView) -> Seq<char> {
    client.base_url + match client.provider {
        Provider::Ollama => "/api/chat"@,
        Provider::OpenAI => "/chat/completions"@,
    }
}

/// Where the models are listed.
pub open spec fn models_url(client: ClientView) -> Seq<char> {
    client.base_url + match client.provider {
        Provider::Ollama => "/api/tags"@,
        Provider::OpenAI => "/models"@,
    }
}

/// The key that the provider has to be shown: Ollama none, OpenAI the one of
/// the settings. `None` where that is missing.
pub open spec fn bearer_of(client: ClientView) -> Option<Option<Seq<char>>> {
    match client.provider {
        Provider::Ollama => Some(None),
        Provider::OpenAI => match client.api_key {
            Some(key) => Some(Some(key)),
            None => None,
        },
    }
}

/// The client that the prompt and the agent loop use.
#[derive(Debug)]
pub struct LLMClient {
    provider: Provider,
    base_url: String,
    api_key: Option<String>,
    model: String,
    max_tokens: u32,
}

impl LLMClient {
    /// What the client is.
    pub closed spec fn view(&self) -> ClientView {
        ClientView {
            provider: self.provider,
            base_url: self.base_url@,
            api_key: opt_text(self.api_key),
            model: self.model@,
            max_tokens: self.max_tokens,
        }
    }

    /// The client that settings with a provider make.
    pub fn from_settings(settings: LLMSettings) -> (client: LLMClient)
        requires
            settings.openai is Some || settings.ollama is Some,
        ensures
            client@ == client_of(settings@),
    {
        match settings.openai {
            Some(openai) => LLMClient {
                provider: Provider::OpenAI,
                base_url: strip_trailing(openai.base_url.as_str(), '/').to_owned(),
                api_key: Some(openai.api_key),
                model: openai.model,
                max_tokens: 4096,
            },
            None => {
                let ollama: OllamaSettings = settings.ollama.unwrap();
                LLMClient {
                    provider: Provider::Ollama,
                    base_url: strip_trailing(ollama.url.as_str(), '/').to_owned(),
                    api_key: None,
                    model: ollama.model,
                    max_tokens: 4096,
                }
            },
        }
    }

    pub fn provider(&self) -> (provider: Provider)
        ensures
            provider == self@.provider,
    {
        self.provider
    }

    pub fn provider_name(&self) -> (name: &'static str)
        ensures
            name@ == provider_label(self@.provider),
    {
        label_of(self.provider)
    }

    pub fn set_model(&mut self, model: String)
        ensures
            final(self)@ == (ClientView { model: model@, ..old(self)@ }),
    {
        self.model = model;
    }

    pub fn set_max_tokens(&mut self, max_tokens: u32)
        ensures
            final(self)@ == (ClientView { max_tokens, ..old(self)@ }),
    {
        self.max_tokens = max_tokens;
    }

    pub fn model(&self) -> (model: &str)
        ensures
            model@ == self@.model,
    {
        self.model.as_str()
    }

    pub fn base_url(&self) -> (url: &str)
        ensures
            url@ == self@.base_url,
    {
        self.base_url.as_str()
    }

    pub fn max_tokens(&self) -> (max_tokens: u32)
        ensures
            max_tokens == self@.max_tokens,
    {
        self.max_tokens
    }

    /// The key that the provider has to be shown. It fails where OpenAI has
    /// none.
    pub fn authorized_request(&self) -> (bearer: Result<Option<String>, ClientError<String>>)
        ensures
            match bearer_of(self@) {
                Some(key) => bearer matches Ok(bearer) && opt_text(bearer) == key,
                None => bearer matches Err(error) && error@
                    == ClientError::<Seq<char>>::MissingApiKey,
            },
    {
        match self.provider {
            Provider::Ollama => Ok(None),
            Provider::OpenAI => match &self.api_key {
                Some(key) => Ok(Some(key.clone())),
                None => Err(ClientError::MissingApiKey),
            },
        }
    }

    fn address_with(&self, ollama: &str, openai: &str) -> (url: String)
        ensures
            url@ == self@.base_url + match self@.provider {
                Provider::Ollama => ollama@,
                Provider::OpenAI => openai@,
            },
    {
        joined(
            self.base_url.as_str(),
            match self.provider {
                Provider::Ollama => ollama,
                Provider::OpenAI => openai,
            },
        )
    }

    /// The body of a chat request with messages as the provider wants them.
    fn body_with(&self, messages: Vec<Json>, tools: &Vec<Json>, max_tokens: u32) -> (body: Json)
        ensures
            body@ == chat_body(
                self@.provider,
                self@.model,
                values(messages@),
                values(tools@),
                max_tokens,
            ),
    {
        let mut entries: Vec<(String, Json)> = Vec::new();
        put(&mut entries, "model", Json::text(self.model.as_str()));
        put(&mut entries, "messages", Json::Array(messages));
        put(&mut entries, "stream", Json::Bool(false));
        match self.provider {
            Provider::Ollama => {
                if tools.len() > 0 {
                    put(&mut entries, "tools", Json::Array(copy_values(tools)));
                }
                let mut options: Vec<(String, Json)> = Vec::new();
                put(&mut options, "num_predict", Json::number(max_tokens));
                put(&mut entries, "options", Json::Object(options));
            },
            Provider::OpenAI => {
                if tools.len() > 0 {
                    put(&mut entries, "tools", Json::Array(copy_values(tools)));
                    put(&mut entries, "tool_choice", Json::text("auto"));
                }
                put(&mut entries, "max_tokens", Json::number(max_tokens));
            },
        }
        Json::Object(entries)
    }

    /// The request that sends a conversation and the tools that may be called.
    pub fn call_with_tools(&self, messages: &Vec<Json>, tools: &Vec<Json>) -> (request: Result<
        HttpRequest,
        ClientError<String>,
    >)
        ensures
            match bearer_of(self@) {
                Some(bearer) => request matches Ok(request) && request@ == (HttpRequestView {
                    url: chat_url(self@),
                    bearer,
                    body: Some(
                        chat_body(
                            self@.provider,
                            self@.model,
                            messages_for(self@.provider, values(messages@)),
                            values(tools@),
                            self@.max_tokens,
                        ),
                    ),
                }),
                None => request matches Err(error) && error@
                    == ClientError::<Seq<char>>::MissingApiKey,
            },
            request is Err <==> self@.provider == Provider::OpenAI && self@.api_key is None,
            request matches Ok(request) ==> request.body is Some && ({
                let body = request.body->0@;
                let sent = body.at("messages"@)->Array_0;
                &&& body.at("messages"@) is Array
                &&& sent.len() == messages@.len()
                &&& self@.provider == Provider::Ollama ==> forall|i: int|
                    0 <= i < messages@.len() ==> sent[i] == (#[trigger] messages@[i])@
                &&& self@.provider == Provider::OpenAI ==> forall|i: int|
                    0 <= i < messages@.len() ==> sent[i] == openai_message(
                        i as nat,
                        (#[trigger] messages@[i])@,
                    )
                &&& body.at("model"@) == JsonView::Text(self@.model)
                &&& body.at("stream"@) == JsonView::Bool(false)
                &&& body.field("tools"@) is Some <==> tools@.len() > 0
                &&& tools@.len() > 0 ==> body.at("tools"@) == JsonView::Array(values(tools@))
            }),
    {
        proof {
            lemma_body_keys();
        }
        let sent: Vec<Json> = match self.provider {
            Provider::Ollama => copy_values(messages),
            Provider::OpenAI => map_messages(messages),
        };
        match self.authorized_request() {
            Ok(bearer) => Ok(
                HttpRequest {
                    url: self.address_with("/api/chat", "/chat/completions"),
                    bearer,
                    body: Some(self.body_with(sent, tools, self.max_tokens)),
                },
            ),
            Err(error) => Err(error),
        }
    }

    /// The request that asks one question, to be answered in at most
    /// `max_tokens` tokens.
    pub fn complete_prompt(&self, prompt: &str, max_tokens: u32) -> (request: Result<
        HttpRequest,
        ClientError<String>,
    >)
        ensures
            match bearer_of(self@) {
                Some(bearer) => request matches Ok(request) && request@ == (HttpRequestView {
                    url: chat_url(self@),
                    bearer,
                    body: Some(
                        chat_body(
                            self@.provider,
                            self@.model,
                            question(prompt@),
                            Seq::empty(),
                            max_tokens,
                        ),
                    ),
                }),
                None => request matches Err(error) && error@
                    == ClientError::<Seq<char>>::MissingApiKey,
            },
    {
        let mut entries: Vec<(String, Json)> = Vec::new();
        put(&mut entries, "role", Json::text("user"));
        put(&mut entries, "content", Json::text(prompt));
        let mut messages: Vec<Json> = Vec::new();
        messages.push(Json::Object(entries));
        assert(values(messages@) =~= question(prompt@));
        let tools: Vec<Json> = Vec::new();
        assert(values(tools@) =~= Seq::<JsonView>::empty());
        match self.authorized_request() {
            Ok(bearer) => Ok(
                HttpRequest {
                    url: self.address_with("/api/chat", "/chat/completions"),
                    bearer,
                    body: Some(self.body_with(messages, &tools, max_tokens)),
                },
            ),
            Err(error) => Err(error),
        }
    }

    /// The request for a summary of a conversation, whose text is given.
    pub fn summarize_messages(&self, history: &str) -> (request: Result<
        HttpRequest,
        ClientError<String>,
    >)
        ensures
            match bearer_of(self@) {
                Some(bearer) => request matches Ok(request) && request@ == (HttpRequestView {
                    url: chat_url(self@),
                    bearer,
                    body: Some(
                        chat_body(
                            self@.provider,
                            self@.model,
                            question(summary_prompt(history@)),
                            Seq::empty(),
                            1024,
                        ),
                    ),
                }),
                None => request matches Err(error) && error@
                    == ClientError::<Seq<char>>::MissingApiKey,
            },
    {
        let prompt: String = joined(
            "以下是一段对话历史，请生成简洁摘要，保留：\n1. 已完成的任务和结果\n2. 重要文件修改\n3. 用户的关键偏好和决定\n4. 未完成的任务\n\n对话历史：\n",
            history,
        );
        self.complete_prompt(prompt.as_str(), 1024)
    }

    /// The request for the list of models.
    pub fn list_models(&self) -> (request: Result<HttpRequest, ClientError<String>>)
        ensures
            match bearer_of(self@) {
                Some(bearer) => request matches Ok(request) && request@ == (HttpRequestView {
                    url: models_url(self@),
                    bearer,
                    body: None,
                }),
                None => request matches Err(error) && error@
                    == ClientError::<Seq<char>>::MissingApiKey,
            },
    {
        match self.authorized_request() {
            Ok(bearer) => Ok(
                HttpRequest {
                    url: self.address_with("/api/tags", "/models"),
                    bearer,
                    body: None,
                },
            ),
            Err(error) => Err(error),
        }
    }
}

/// The question for a summary.
pub open spec fn summary_prompt(history: Seq<char>) -> Seq<char> {
    "以下是一段对话历史，请生成简洁摘要，保留：\n1. 已完成的任务和结果\n2. 重要文件修改\n3. 用户的关键偏好和决定\n4. 未完成的任务\n\n对话历史：\n"@
        + history
}

// ---------------------------------------------------------------------------
// Messages for OpenAI
// ---------------------------------------------------------------------------
/// The id of a tool call that has none: the place of its message and its own.
pub open spec fn default_call_id(index: nat, tool_index: nat) -> Seq<char> {
    "call_"@ + decimal(index) + "_"@ + decimal(tool_index)
}

/// The arguments of a tool call as text: a text is itself, everything else is
/// written as JSON.
pub open spec fn arguments_text(arguments: JsonView) -> Seq<char> {
    match arguments {
        JsonView::Text(text) => text,
        _ => compact_json(arguments),
    }
}

/// A tool call as OpenAI wants it.
pub open spec fn openai_call(index: nat, tool_index: nat, call: JsonView) -> JsonView {
    let function = call.at("function"@);
    JsonView::Object(
        map![
            "id"@ => JsonView::Text(match call.text_at("id"@) {
                Some(id) => id,
                None => default_call_id(index, tool_index),
            }),
            "type"@ => JsonView::Text("function"@),
            "function"@ => JsonView::Object(
                map![
                    "name"@ => function.at("name"@),
                    "arguments"@ => JsonView::Text(arguments_text(function.at("arguments"@))),
                ],
            ),
        ],
    )
}

/// The content of an assistant message: null where the message only calls
/// tools.
pub open spec fn assistant_content(message: JsonView) -> JsonView {
    let content = or_empty(message.text_at("content"@));
    if content.len() == 0 && message.field("tool_calls"@) is Some {
        JsonView::Null
    } else {
        JsonView::Text(content)
    }
}

/// A message as OpenAI wants it. The result of a tool whose call has no id is
/// told as a user message.
pub open spec fn openai_message(index: nat, message: JsonView) -> JsonView {
    let role = match message.text_at("role"@) {
        Some(role) => role,
        None => "user"@,
    };
    let content = or_empty(message.text_at("content"@));
    JsonView::Object(
        if role == "assistant"@ {
            let mapped = map![
                "role"@ => JsonView::Text("assistant"@),
                "content"@ => assistant_content(message),
            ];
            match message.at("tool_calls"@).as_array() {
                Some(calls) => mapped.insert(
                    "tool_calls"@,
                    JsonView::Array(
                        Seq::new(calls.len(), |i: int| openai_call(index, i as nat, calls[i])),
                    ),
                ),
                None => mapped,
            }
        } else if role == "tool"@ {
            match message.text_at("tool_call_id"@) {
                Some(id) => map![
                    "role"@ => JsonView::Text("tool"@),
                    "tool_call_id"@ => JsonView::Text(id),
                    "content"@ => JsonView::Text(content),
                ],
                None => map![
                    "role"@ => JsonView::Text("user"@),
                    "content"@ => JsonView::Text(
                        "Tool "@ + (match message.text_at("tool_name"@) {
                            Some(name) => name,
                            None => "unknown"@,
                        }) + " returned:\n"@ + content,
                    ),
                ],
            }
        } else {
            map!["role"@ => JsonView::Text(role), "content"@ => JsonView::Text(content)]
        },
    )
}

/// The arguments of a tool call as text. Arguments that come back from OpenAI
/// as the text that was sent are the same arguments; left out are those that
/// are a text themselves, which is sent as it is, and those that are not plain:
/// that hold numbers or the key that `serde_json` keeps for itself, or are
/// nested very deeply.
pub fn stringify_tool_arguments(arguments: &Json) -> (text: String)
    ensures
        text@ == arguments_text(arguments@),
        plain(arguments@, 100) && !(arguments@ is Text) ==> openai_arguments(text@)
            == arguments@,
{
    match arguments {
        Json::Text(text) => text.clone(),
        other => match other.to_compact() {
            Some(text) => text,
            None => "{}".to_owned(),
        },
    }
}

/// The content of an assistant message for OpenAI.
pub fn assistant_content_for_openai(message: &Json) -> (content: Json)
    ensures
        content@ == assistant_content(message@),
{
    let content: &str = message.str_or_empty("content");
    if content.is_empty() && message.get("tool_calls").is_some() {
        Json::Null
    } else {
        Json::text(content)
    }
}

fn map_call(index: usize, tool_index: usize, call: &Json) -> (mapped: Json)
    ensures
        mapped@ == openai_call(index as nat, tool_index as nat, call@),
{
    let id: String = match call.str_at("id") {
        Some(id) => id.to_owned(),
        None => {
            let mut id: String = joined("call_", decimal_text(index as u64).as_str());
            id.append("_");
            id.append(decimal_text(tool_index as u64).as_str());
            id
        },
    };
    let function: Json = call.copy_at("function");
    let mut inner: Vec<(String, Json)> = Vec::new();
    put(&mut inner, "name", function.copy_at("name"));
    put(
        &mut inner,
        "arguments",
        Json::Text(stringify_tool_arguments(&function.copy_at("arguments"))),
    );
    let mut entries: Vec<(String, Json)> = Vec::new();
    put(&mut entries, "id", Json::Text(id));
    put(&mut entries, "type", Json::text("function"));
    put(&mut entries, "function", Json::Object(inner));
    Json::Object(entries)
}

/// Turns the message at place `index` into the form that OpenAI wants.
pub fn map_message_for_openai(index: usize, message: &Json) -> (mapped: Json)
    ensures
        mapped@ == openai_message(index as nat, message@),
{
    let role: &str = match message.str_at("role") {
        Some(role) => role,
        None => "user",
    };
    let mut entries: Vec<(String, Json)> = Vec::new();
    if same_text(role, "assistant") {
        put(&mut entries, "role", Json::text("assistant"));
        put(&mut entries, "content", assistant_content_for_openai(message));
        if let Some(Json::Array(calls)) = message.get("tool_calls") {
            let mut mapped: Vec<Json> = Vec::new();
            let mut i: usize = 0;
            while i < calls.len()
                invariant
                    i <= calls.len(),
                    mapped.len() == i,
                    forall|k: int|
                        0 <= k < i ==> (#[trigger] mapped@[k]).view() == openai_call(
                            index as nat,
                            k as nat,
                            calls@[k].view(),
                        ),
                decreases calls.len() - i,
            {
                mapped.push(map_call(index, i, &calls[i]));
                i += 1;
            }
            assert(values(mapped@) =~= Seq::new(
                values(calls@).len(),
                |i: int| openai_call(index as nat, i as nat, values(calls@)[i]),
            ));
            put(&mut entries, "tool_calls", Json::Array(mapped));
        }
    } else if same_text(role, "tool") {
        let content: &str = message.str_or_empty("content");
        match message.str_at("tool_call_id") {
            Some(id) => {
                put(&mut entries, "role", Json::text("tool"));
                put(&mut entries, "tool_call_id", Json::text(id));
                put(&mut entries, "content", Json::text(content));
            },
            None => {
                let mut text: String = joined(
                    "Tool ",
                    match message.str_at("tool_name") {
                        Some(name) => name,
                        None => "unknown",
                    },
                );
                text.append(" returned:\n");
                text.append(content);
                put(&mut entries, "role", Json::text("user"));
                put(&mut entries, "content", Json::Text(text));
            },
        }
    } else {
        put(&mut entries, "role", Json::text(role));
        put(&mut entries, "content", Json::text(message.str_or_empty("content")));
    }
    Json::Object(entries)
}

fn map_messages(messages: &Vec<Json>) -> (mapped: Vec<Json>)
    ensures
        values(mapped@) == messages_for(Provider::OpenAI, values(messages@)),
{
    let mut mapped: Vec<Json> = Vec::new();
    let mut i: usize = 0;
    while i < messages.len()
        invariant
            i <= messages.len(),
            mapped.len() == i,
            forall|k: int|
                0 <= k < i ==> (#[trigger] mapped@[k]).view() == openai_message(
                    k as nat,
                    messages@[k].view(),
                ),
        decreases messages.len() - i,
    {
        mapped.push(map_message_for_openai(i, &messages[i]));
        i += 1;
    }
    assert(values(mapped@) =~= messages_for(Provider::OpenAI, values(messages@)));
    mapped
}

// ---------------------------------------------------------------------------
// What came back
// ---------------------------------------------------------------------------
/// A chat reply of OpenAI.
#[derive(Debug)]
pub struct OpenAIChatResponse {
    pub choices: Vec<OpenAIChoice>,
}

#[derive(Debug)]
pub struct OpenAIChoice {
    pub message: OpenAIMessage,
}

#[derive(Debug)]
pub struct OpenAIMessage {
    pub content: Option<String>,
    pub tool_calls: Option<Vec<OpenAIToolCall>>,
}

#[derive(Debug)]
pub struct OpenAIToolCall {
    pub id: String,
    pub function: OpenAIFunctionCall,
}

#[derive(Debug)]
pub struct OpenAIFunctionCall {
    pub name: String,
    pub arguments: String,
}

/// The reply of the model with the given text and tool calls: it stopped to
/// have tools run if and only if it calls some.
pub open spec fn agent_response(text: Seq<char>, calls: Seq<CallView>) -> ResponseView {
    ResponseView {
        text,
        stop_reason: if calls.len() == 0 {
            "end_turn"@
        } else {
            "tool_use"@
        },
        tool_uses: calls,
    }
}

/// Builds the reply of the model.
pub fn build_agent_response(text: String, tool_uses: Vec<ToolUseCall>) -> (response: AgentResponse)
    ensures
        response@ == agent_response(text@, call_views(tool_uses@)),
        response.text@ == text@,
        response.tool_uses == tool_uses,
        response.stop_reason@ == (if tool_uses@.len() >= 1 {
            "tool_use"@
        } else {
            "end_turn"@
        }),
{
    let stop_reason: String = if tool_uses.len() == 0 {
        "end_turn".to_owned()
    } else {
        "tool_use".to_owned()
    };
    AgentResponse { text, stop_reason, tool_uses }
}

/// What a request came to, as an error where there is no reply.
fn settle<R>(provider: Provider, purpose: Purpose, outcome: HttpOutcome<R>) -> (reply: Result<
    R,
    ClientError<String>,
>)
    ensures
        match outcome {
            HttpOutcome::Reply(sent) => reply == Ok::<R, ClientError<String>>(sent),
            _ => reply matches Err(error) && error@ == no_reply(provider, purpose, outcome),
        },
{
    match outcome {
        HttpOutcome::Failed => Err(ClientError::Failed(provider, purpose)),
        HttpOutcome::Status { status, text } => Err(
            ClientError::Returned { provider, status, text },
        ),
        HttpOutcome::Unreadable => Err(ClientError::Unreadable(provider, purpose)),
        HttpOutcome::Reply(sent) => Ok(sent),
    }
}

/// The error where there is no reply.
pub open spec fn no_reply<R>(
    provider: Provider,
    purpose: Purpose,
    outcome: HttpOutcome<R>,
) -> ClientError<Seq<char>> {
    match outcome {
        HttpOutcome::Status { status, text } => ClientError::Returned {
            provider,
            status: status@,
            text: text@,
        },
        HttpOutcome::Unreadable => ClientError::Unreadable(provider, purpose),
        _ => ClientError::Failed(provider, purpose),
    }
}

/// The tool calls of Ollama, which have no ids.
pub open spec fn ollama_calls(calls: Option<Vec<OllamaToolCall>>) -> Seq<CallView> {
    match calls {
        Some(calls) => Seq::new(
            calls@.len(),
            |i: int|
                CallView {
                    id: None,
                    name: calls@[i].function.name@,
                    arguments: calls@[i].function.arguments@,
                },
        ),
        None => Seq::empty(),
    }
}

/// The arguments of a tool call of OpenAI: the JSON value that they write, or
/// an object with the text where they write none.
pub open spec fn openai_arguments(text: Seq<char>) -> JsonView {
    match parsed_json(text) {
        Some(value) => value,
        None => JsonView::Object(map!["_raw"@ => JsonView::Text(text)]),
    }
}

/// The tool calls of OpenAI.
pub open spec fn openai_calls(calls: Option<Vec<OpenAIToolCall>>) -> Seq<CallView> {
    match calls {
        Some(calls) => Seq::new(
            calls@.len(),
            |i: int|
                CallView {
                    id: Some(calls@[i].id@),
                    name: calls@[i].function.name@,
                    arguments: openai_arguments(calls@[i].function.arguments@),
                },
        ),
        None => Seq::empty(),
    }
}

fn text_or_empty(text: &Option<String>) -> (found: String)
    ensures
        found@ == or_empty(opt_text(*text)),
{
    match text {
        Some(text) => text.clone(),
        None => {
            let none: String = String::new();
            assert(none@ =~= Seq::<char>::empty());
            none
        },
    }
}

/// The reply of Ollama to a chat request.
pub fn call_with_tools_ollama(outcome: HttpOutcome<OllamaChatResponse>) -> (reply: Result<
    AgentResponse,
    ClientError<String>,
>)
    ensures
        match outcome {
            HttpOutcome::Reply(sent) => reply matches Ok(reply) && reply@ == agent_response(
                or_empty(opt_text(sent.message.content)),
                ollama_calls(sent.message.tool_calls),
            ),
            _ => reply matches Err(error) && error@ == no_reply(
                Provider::Ollama,
                Purpose::Chat,
                outcome,
            ),
        },
        reply is Ok <==> outcome is Reply,
        outcome matches HttpOutcome::Reply(sent) ==> (reply matches Ok(reply) && ({
            let calls = match sent.message.tool_calls {
                Some(calls) => calls@,
                None => Seq::empty(),
            };
            &&& sent.message.content matches Some(content) ==> reply.text@ == content@
            &&& sent.message.content is None ==> reply.text@.len() == 0
            &&& reply.tool_uses@.len() == calls.len()
            &&& forall|i: int|
                0 <= i < calls.len() ==> (#[trigger] reply.tool_uses@[i]).id is None
                    && reply.tool_uses@[i].name@ == calls[i].function.name@
                    && reply.tool_uses@[i].arguments@ == calls[i].function.arguments@
        })),
        outcome matches HttpOutcome::Status { status, text } ==> (reply matches Err(
            ClientError::Returned { provider, status: told, text: said },
        ) && provider == Provider::Ollama && told@ == status@ && said@ == text@),
{
    let sent: OllamaChatResponse = match settle(Provider::Ollama, Purpose::Chat, outcome) {
        Ok(sent) => sent,
        Err(error) => {
            return Err(error);
        },
    };
    let mut tool_uses: Vec<ToolUseCall> = Vec::new();
    if let Some(calls) = &sent.message.tool_calls {
        let mut i: usize = 0;
        while i < calls.len()
            invariant
                i <= calls.len(),
                tool_uses.len() == i,
                forall|k: int|
                    0 <= k < i ==> (#[trigger] tool_uses@[k]).view() == (CallView {
                        id: None,
                        name: calls@[k].function.name@,
                        arguments: calls@[k].function.arguments@,
                    }),
            decreases calls.len() - i,
        {
            tool_uses.push(
                ToolUseCall {
                    id: None,
                    name: calls[i].function.name.clone(),
                    arguments: calls[i].function.arguments.clone(),
                },
            );
            i += 1;
        }
    }
    assert(call_views(tool_uses@) =~= ollama_calls(sent.message.tool_calls));
    Ok(build_agent_response(text_or_empty(&sent.message.content), tool_uses))
}

fn read_arguments(text: &str) -> (arguments: Json)
    ensures
        arguments@ == openai_arguments(text@),
{
    match Json::parse(text) {
        Some(value) => value,
        None => {
            let mut entries: Vec<(String, Json)> = Vec::new();
            put(&mut entries, "_raw", Json::text(text));
            Json::Object(entries)
        },
    }
}

/// The reply of OpenAI to a chat request: the first of its choices.
pub fn call_with_tools_openai(outcome: HttpOutcome<OpenAIChatResponse>) -> (reply: Result<
    AgentResponse,
    ClientError<String>,
>)
    ensures
        match outcome {
            HttpOutcome::Reply(sent) => if sent.choices.len() == 0 {
                reply matches Err(error) && error@ == ClientError::<Seq<char>>::NoChoices
            } else {
                reply matches Ok(reply) && reply@ == agent_response(
                    or_empty(opt_text(sent.choices@[0].message.content)),
                    openai_calls(sent.choices@[0].message.tool_calls),
                )
            },
            _ => reply matches Err(error) && error@ == no_reply(
                Provider::OpenAI,
                Purpose::Chat,
                outcome,
            ),
        },
        reply is Ok <==> (outcome matches HttpOutcome::Reply(sent) && sent.choices@.len() > 0),
        (outcome matches HttpOutcome::Reply(sent) && sent.choices@.len() > 0) ==> (reply matches Ok(
            reply,
        ) && ({
            let first = (outcome->Reply_0).choices@[0].message;
            let calls = match first.tool_calls {
                Some(calls) => calls@,
                None => Seq::empty(),
            };
            &&& first.content matches Some(content) ==> reply.text@ == content@
            &&& first.content is None ==> reply.text@.len() == 0
            &&& reply.tool_uses@.len() == calls.len()
            &&& forall|i: int|
                0 <= i < calls.len() ==> opt_text((#[trigger] reply.tool_uses@[i]).id) == Some(
                    calls[i].id@,
                ) && reply.tool_uses@[i].name@ == calls[i].function.name@
                    && reply.tool_uses@[i].arguments@ == openai_arguments(
                    calls[i].function.arguments@,
                )
        })),
        outcome matches HttpOutcome::Status { status, text } ==> (reply matches Err(
            ClientError::Returned { provider, status: told, text: said },
        ) && provider == Provider::OpenAI && told@ == status@ && said@ == text@),
{
    let sent: OpenAIChatResponse = match settle(Provider::OpenAI, Purpose::Chat, outcome) {
        Ok(sent) => sent,
        Err(error) => {
            return Err(error);
        },
    };
    if sent.choices.len() == 0 {
        return Err(ClientError::NoChoices);
    }
    let message: &OpenAIMessage = &sent.choices[0].message;
    let mut tool_uses: Vec<ToolUseCall> = Vec::new();
    if let Some(calls) = &message.tool_calls {
        let mut i: usize = 0;
        while i < calls.len()
            invariant
                i <= calls.len(),
                tool_uses.len() == i,
                forall|k: int|
                    0 <= k < i ==> (#[trigger] tool_uses@[k]).view() == (CallView {
                        id: Some(calls@[k].id@),
                        name: calls@[k].function.name@,
                        arguments: openai_arguments(calls@[k].function.arguments@),
                    }),
            decreases calls.len() - i,
        {
            tool_uses.push(
                ToolUseCall {
                    id: Some(calls[i].id.clone()),
                    name: calls[i].function.name.clone(),
                    arguments: read_arguments(calls[i].function.arguments.as_str()),
                },
            );
            i += 1;
        }
    }
    assert(call_views(tool_uses@) =~= openai_calls(message.tool_calls));
    Ok(build_agent_response(text_or_empty(&message.content), tool_uses))
}

/// The answer of Ollama to one question.
pub fn complete_prompt_ollama(outcome: HttpOutcome<OllamaChatResponse>) -> (answer: Result<
    String,
    ClientError<String>,
>)
    ensures
        match outcome {
            HttpOutcome::Reply(sent) => answer matches Ok(answer) && answer@ == or_empty(
                opt_text(sent.message.content),
            ),
            _ => answer matches Err(error) && error@ == no_reply(
                Provider::Ollama,
                Purpose::Prompt,
                outcome,
            ),
        },
{
    match settle(Provider::Ollama, Purpose::Prompt, outcome) {
        Ok(sent) => Ok(text_or_empty(&sent.message.content)),
        Err(error) => Err(error),
    }
}

/// The answer of OpenAI to one question: the first of its choices.
pub fn complete_prompt_openai(outcome: HttpOutcome<OpenAIChatResponse>) -> (answer: Result<
    String,
    ClientError<String>,
>)
    ensures
        match outcome {
            HttpOutcome::Reply(sent) => if sent.choices.len() == 0 {
                answer matches Err(error) && error@ == ClientError::<Seq<char>>::NoChoices
            } else {
                answer matches Ok(answer) && answer@ == or_empty(
                    opt_text(sent.choices@[0].message.content),
                )
            },
            _ => answer matches Err(error) && error@ == no_reply(
                Provider::OpenAI,
                Purpose::Prompt,
                outcome,
            ),
        },
{
    match settle(Provider::OpenAI, Purpose::Prompt, outcome) {
        Ok(sent) => {
            if sent.choices.len() == 0 {
                Err(ClientError::NoChoices)
            } else {
                Ok(text_or_empty(&sent.choices[0].message.content))
            }
        },
        Err(error) => Err(error),
    }
}

/// The models that a provider offers, in order and each once, from the names
/// in its answer.
pub fn listed_models(provider: Provider, outcome: HttpOutcome<Vec<String>>) -> (models: Result<
    Vec<String>,
    ClientError<String>,
>)
    ensures
        match outcome {
            HttpOutcome::Reply(names) => models matches Ok(models) && texts(models@) == sorted_list(
                texts(names@).to_set(),
            ) && is_sorted_list(texts(models@), texts(names@).to_set()),
            _ => models matches Err(error) && error@ == no_reply(
                provider,
                Purpose::Models,
                outcome,
            ),
        },
{
    match settle(provider, Purpose::Models, outcome) {
        Ok(names) => Ok(sorted_unique(&names)),
        Err(error) => Err(error),
    }
}

// ---------------------------------------------------------------------------
// Laws
// ---------------------------------------------------------------------------
/// A client that was made from settings always has the key that its provider
/// has to be shown.
pub proof fn client_of_settings_has_key(settings: SettingsView)
    ensures
        bearer_of(client_of(settings)) is Some,
{
}

/// Which provider the settings stand for.
pub open spec fn active_provider(settings: SettingsView) -> Provider {
    client_of(settings).provider
}

/// A model that was changed for the active provider is the one that the next
/// client of these settings asks for, and the provider stays the same.
pub proof fn changed_model_is_used(
    settings: SettingsView,
    base_url: Seq<char>,
    model: Seq<char>,
)
    ensures
        ({
            let provider = active_provider(settings);
            let client = client_of(with_model(settings, provider, base_url, model));
            client.provider == provider && client.model == model
        }),
{
}

/// Changing the model leaves the settings of the other provider alone, and
/// the key and the place of this one where it has them.
pub proof fn changing_model_keeps_the_rest(
    settings: SettingsView,
    provider: Provider,
    base_url: Seq<char>,
    model: Seq<char>,
)
    ensures
        ({
            let changed = with_model(settings, provider, base_url, model);
            &&& provider == Provider::Ollama ==> changed.openai == settings.openai
            &&& provider == Provider::OpenAI ==> changed.ollama == settings.ollama
            &&& provider == Provider::OpenAI && settings.openai is Some ==> changed.openai->0.api_key
                == settings.openai->0.api_key
            &&& provider == Provider::OpenAI && settings.openai is Some && !is_blank(
                settings.openai->0.base_url,
            ) ==> changed.openai->0.base_url == settings.openai->0.base_url
            &&& provider == Provider::Ollama && settings.ollama is Some && !is_blank(
                settings.ollama->0.url,
            ) ==> changed.ollama->0.url == settings.ollama->0.url
        }),
{
}

proof fn lemma_decimal_chars(number: nat)
    ensures
        decimal(number).len() > 0,
        forall|i: int| 0 <= i < decimal(number).len() ==> decimal(number)[i] != '_',
        numeral_value(decimal(number), 10) == number,
{
    numeral_reads_back(number, 10);
    assert(digit_of('_') == 16);
}

/// Tool calls at different places get different ids.
pub proof fn default_ids_differ(index: nat, tool_index: nat, other: nat, other_tool: nat)
    requires
        index != other || tool_index != other_tool,
    ensures
        default_call_id(index, tool_index) != default_call_id(other, other_tool),
{
    reveal_strlit("call_");
    reveal_strlit("_");
    lemma_decimal_chars(index);
    lemma_decimal_chars(tool_index);
    lemma_decimal_chars(other);
    lemma_decimal_chars(other_tool);
    let a = default_call_id(index, tool_index);
    let b = default_call_id(other, other_tool);
    let m = decimal(index).len() as int;
    let n = decimal(other).len() as int;
    if a == b {
        assert(a[5 + m] == '_');
        assert(b[5 + n] == '_');
        if m < n {
            assert(b[5 + m] == decimal(other)[m]);
        } else if n < m {
            assert(a[5 + n] == decimal(index)[n]);
        }
        assert(m == n);
        assert(decimal(index) =~= decimal(other)) by {
            assert forall|i: int| 0 <= i < m implies decimal(index)[i] == decimal(other)[i] by {
                assert(a[5 + i] == decimal(index)[i]);
                assert(b[5 + i] == decimal(other)[i]);
            }
        }
        assert(decimal(tool_index) =~= decimal(other_tool)) by {
            assert(decimal(tool_index).len() == a.len() - m - 6);
            assert forall|i: int| 0 <= i < decimal(tool_index).len() implies decimal(tool_index)[i]
                == decimal(other_tool)[i] by {
                assert(a[6 + m + i] == decimal(tool_index)[i]);
                assert(b[6 + m + i] == decimal(other_tool)[i]);
            }
        }
    }
}

/// The whole conversation is sent, and nothing else: the body of a request has a
/// message for each message, in its place. To Ollama it is that very message, to
/// OpenAI what OpenAI is sent for it. The model and the tools are those that
/// were asked for, and tools are not spoken of where there are none.
pub proof fn whole_conversation_is_sent(
    provider: Provider,
    model: Seq<char>,
    messages: Seq<JsonView>,
    tools: Seq<JsonView>,
    max_tokens: u32,
)
    ensures
        ({
            let body = chat_body(
                provider,
                model,
                messages_for(provider, messages),
                tools,
                max_tokens,
            );
            let sent = body.at("messages"@)->Array_0;
            &&& body.at("messages"@) is Array
            &&& sent.len() == messages.len()
            &&& provider == Provider::Ollama ==> forall|i: int|
                0 <= i < messages.len() ==> sent[i] == #[trigger] messages[i]
            &&& provider == Provider::OpenAI ==> forall|i: int|
                0 <= i < messages.len() ==> sent[i] == openai_message(
                    i as nat,
                    #[trigger] messages[i],
                )
            &&& body.at("model"@) == JsonView::Text(model)
            &&& body.at("stream"@) == JsonView::Bool(false)
            &&& tools.len() > 0 ==> body.at("tools"@) is Array && body.at("tools"@)->Array_0.len()
                == tools.len() && forall|i: int|
                0 <= i < tools.len() ==> body.at("tools"@)->Array_0[i] == #[trigger] tools[i]
            &&& tools.len() == 0 ==> body.field("tools"@) is None && body.field("tool_choice"@)
                is None
            &&& provider == Provider::OpenAI && tools.len() > 0 ==> body.at("tool_choice"@)
                == JsonView::Text("auto"@)
            &&& provider == Provider::Ollama ==> body.at("options"@).at("num_predict"@)
                == JsonView::Number(number_of(max_tokens)) && body.field("max_tokens"@) is None
            &&& provider == Provider::OpenAI ==> body.at("max_tokens"@) == JsonView::Number(
                number_of(max_tokens),
            ) && body.field("options"@) is None
        }),
{
    lemma_body_keys();
}

/// The same of the request itself: it carries the whole conversation.
pub proof fn request_carries_the_conversation(
    client: LLMClient,
    messages: Vec<Json>,
    tools: Vec<Json>,
    request: HttpRequest,
    i: int,
)
    requires
        call_ensures(
            LLMClient::call_with_tools,
            (&client, &messages, &tools),
            Ok::<HttpRequest, ClientError<String>>(request),
        ),
        0 <= i < messages@.len(),
    ensures
        request.body is Some,
        request.body->0@.at("messages"@) is Array,
        request.body->0@.at("messages"@)->Array_0.len() == messages@.len(),
        client@.provider == Provider::Ollama ==> request.body->0@.at("messages"@)->Array_0[i]
            == messages@[i]@,
        client@.provider == Provider::OpenAI ==> request.body->0@.at("messages"@)->Array_0[i]
            == openai_message(i as nat, messages@[i]@),
{
    let _ = messages@[i];
}

/// A request goes to the place of the settings, behind which stands what the
/// provider calls its chat, and shows the key of the settings to OpenAI and none
/// to Ollama.
pub proof fn request_goes_to_the_provider(client: ClientView)
    ensures
        client.provider == Provider::Ollama ==> chat_url(client) == client.base_url + "/api/chat"@
            && models_url(client) == client.base_url + "/api/tags"@ && bearer_of(client) == Some(
            None::<Seq<char>>,
        ),
        client.provider == Provider::OpenAI ==> chat_url(client) == client.base_url
            + "/chat/completions"@ && models_url(client) == client.base_url + "/models"@,
        client.provider == Provider::OpenAI && client.api_key is Some ==> bearer_of(client)
            == Some(client.api_key),
        client.provider == Provider::OpenAI && client.api_key is None ==> bearer_of(client)
            is None,
{
}

/// One question is sent as one message of the user that says it, and a summary
/// is asked for with the whole conversation at the end of the question.
pub proof fn question_is_sent_as_asked(prompt: Seq<char>, history: Seq<char>)
    ensures
        question(prompt).len() == 1,
        question(prompt)[0].at("role"@) == JsonView::Text("user"@),
        question(prompt)[0].at("content"@) == JsonView::Text(prompt),
        summary_prompt(history).len() >= history.len(),
        summary_prompt(history).skip(summary_prompt(history).len() - history.len()) == history,
{
    lemma_openai_keys();
    assert(summary_prompt(history).skip(summary_prompt(history).len() - history.len())
        =~= history);
}

/// The keys of messages for OpenAI differ.
proof fn lemma_openai_keys()
    ensures
        "role"@ != "content"@,
        "role"@ != "tool_calls"@,
        "role"@ != "tool_call_id"@,
        "content"@ != "tool_calls"@,
        "content"@ != "tool_call_id"@,
        "tool_calls"@ != "tool_call_id"@,
        "id"@ != "type"@,
        "id"@ != "function"@,
        "type"@ != "function"@,
        "name"@ != "arguments"@,
        "assistant"@ != "tool"@,
        "assistant"@ != "user"@,
        "tool"@ != "user"@,
{
    reveal_strlit("role");
    reveal_strlit("content");
    reveal_strlit("tool_calls");
    reveal_strlit("tool_call_id");
    reveal_strlit("id");
    reveal_strlit("type");
    reveal_strlit("function");
    reveal_strlit("name");
    reveal_strlit("arguments");
    reveal_strlit("assistant");
    reveal_strlit("tool");
    reveal_strlit("user");
    assert("role"@.len() == 4 && "content"@.len() == 7 && "tool_calls"@.len() == 10);
    assert("tool_call_id"@.len() == 12 && "id"@.len() == 2 && "type"@.len() == 4);
    assert("function"@.len() == 8 && "name"@.len() == 4 && "arguments"@.len() == 9);
    assert("assistant"@.len() == 9 && "tool"@[0] == 't' && "user"@[0] == 'u');
    assert("tool"@.len() == 4 && "user"@.len() == 4);
}

/// A message of the user, or of any role but those of the assistant and of
/// tools, is sent to OpenAI with its role and its content; one without a role
/// is the user's, and a content that is no text is empty.
pub proof fn openai_gets_plain_messages(index: nat, message: JsonView)
    ensures
        ({
            let mapped = openai_message(index, message);
            let role = message.text_at("role"@);
            let content = message.text_at("content"@);
            role != Some("assistant"@) && role != Some("tool"@) ==> {
                &&& role matches Some(role) ==> mapped.at("role"@) == JsonView::Text(role)
                &&& role is None ==> mapped.at("role"@) == JsonView::Text("user"@)
                &&& content matches Some(text) ==> mapped.at("content"@) == JsonView::Text(text)
                &&& content is None ==> mapped.at("content"@) == JsonView::Text(Seq::empty())
                &&& mapped.field("tool_calls"@) is None
                &&& mapped.field("tool_call_id"@) is None
            }
        }),
{
    lemma_openai_keys();
}

/// A message of the assistant is sent to OpenAI with its content, null where it
/// is empty and there are calls, and with its calls, in their order: each with
/// its id, or one that tells its place where it has none, its name, and its
/// arguments as text.
pub proof fn openai_gets_the_calls(index: nat, message: JsonView, i: int)
    requires
        message.text_at("role"@) == Some("assistant"@),
    ensures
        ({
            let mapped = openai_message(index, message);
            let content = message.text_at("content"@);
            let calls = message.at("tool_calls"@)->Array_0;
            let sent = mapped.at("tool_calls"@)->Array_0;
            &&& mapped.at("role"@) == JsonView::Text("assistant"@)
            &&& (content is Some && content->0.len() > 0) ==> mapped.at("content"@)
                == JsonView::Text(content->0)
            &&& (content is None || content->0.len() == 0) && message.field("tool_calls"@) is Some
                ==> mapped.at("content"@) is Null
            &&& (content is None || content->0.len() == 0) && message.field("tool_calls"@) is None
                ==> mapped.at("content"@) == JsonView::Text(Seq::empty())
            &&& mapped.field("tool_calls"@) is Some <==> message.at("tool_calls"@) is Array
            &&& message.at("tool_calls"@) is Array ==> mapped.at("tool_calls"@) is Array
                && sent.len() == calls.len()
            &&& message.at("tool_calls"@) is Array && 0 <= i < calls.len() ==> {
                let call = calls[i];
                let function = sent[i].at("function"@);
                &&& sent[i].at("type"@) == JsonView::Text("function"@)
                &&& call.text_at("id"@) matches Some(id) ==> sent[i].at("id"@) == JsonView::Text(
                    id,
                )
                &&& call.text_at("id"@) is None ==> sent[i].at("id"@) == JsonView::Text(
                    "call_"@ + decimal(index) + "_"@ + decimal(i as nat),
                )
                &&& function.at("name"@) == call.at("function"@).at("name"@)
                &&& call.at("function"@).at("arguments"@) matches JsonView::Text(text)
                    ==> function.at("arguments"@) == JsonView::Text(text)
                &&& !(call.at("function"@).at("arguments"@) is Text) ==> function.at("arguments"@)
                    == JsonView::Text(compact_json(call.at("function"@).at("arguments"@)))
            }
        }),
{
    lemma_openai_keys();
    if message.text_at("content"@) is Some && message.text_at("content"@)->0.len() == 0 {
        assert(message.text_at("content"@)->0 =~= Seq::<char>::empty());
    }
}

/// What a tool gave is sent to OpenAI as the answer to its call, where the call
/// has an id; where it has none, as a message of the user that names the tool
/// and ends with what it gave. Nothing of it is lost.
pub proof fn openai_gets_the_results(index: nat, message: JsonView)
    requires
        message.text_at("role"@) == Some("tool"@),
    ensures
        ({
            let mapped = openai_message(index, message);
            let content = match message.text_at("content"@) {
                Some(text) => text,
                None => Seq::empty(),
            };
            &&& message.text_at("tool_call_id"@) matches Some(id) ==> mapped.at("role"@)
                == JsonView::Text("tool"@) && mapped.at("tool_call_id"@) == JsonView::Text(id)
                && mapped.at("content"@) == JsonView::Text(content)
            &&& message.text_at("tool_call_id"@) is None ==> mapped.at("role"@) == JsonView::Text(
                "user"@,
            ) && mapped.field("tool_call_id"@) is None && mapped.at("content"@)
                == JsonView::Text(
                "Tool "@ + (match message.text_at("tool_name"@) {
                    Some(name) => name,
                    None => "unknown"@,
                }) + " returned:\n"@ + content,
            )
        }),
{
    lemma_openai_keys();
}

/// What the provider sent is what the reply says, whether or not it calls tools:
/// the text is the content, and the calls are those that came, in their order.
/// It stops for tools if and only if it calls one at least.
pub proof fn reply_says_what_was_sent(text: Seq<char>, calls: Seq<CallView>)
    ensures
        agent_response(text, calls).text == text,
        agent_response(text, calls).tool_uses == calls,
        agent_response(text, calls).stop_reason == "tool_use"@ <==> calls.len() >= 1,
        agent_response(text, calls).stop_reason == "end_turn"@ <==> calls.len() == 0,
{
    reveal_strlit("tool_use");
    reveal_strlit("end_turn");
    assert("tool_use"@[0] == 't' && "end_turn"@[0] == 'e');
}

/// The same of the reply that is built.
pub proof fn built_reply_says_what_was_sent(
    text: String,
    tool_uses: Vec<ToolUseCall>,
    response: AgentResponse,
)
    requires
        call_ensures(build_agent_response, (text, tool_uses), response),
    ensures
        response.text@ == text@,
        response.tool_uses@ == tool_uses@,
        response.stop_reason@ == "tool_use"@ <==> tool_uses@.len() >= 1,
{
    reveal_strlit("tool_use");
    reveal_strlit("end_turn");
    assert("tool_use"@[0] == 't' && "end_turn"@[0] == 'e');
}

/// The calls of a reply are those that the provider sent, each with its name and
/// its arguments: Ollama's as they are, without ids, and OpenAI's with their ids
/// and with the value that the text of the arguments writes, or that text itself
/// where it writes none.
pub proof fn calls_are_those_that_were_sent(
    ollama: Vec<OllamaToolCall>,
    openai: Vec<OpenAIToolCall>,
    i: int,
)
    ensures
        ollama_calls(None).len() == 0,
        openai_calls(None).len() == 0,
        ollama_calls(Some(ollama)).len() == ollama@.len(),
        openai_calls(Some(openai)).len() == openai@.len(),
        0 <= i < ollama@.len() ==> ({
            let call = ollama_calls(Some(ollama))[i];
            call.id is None && call.name == ollama@[i].function.name@ && call.arguments
                == ollama@[i].function.arguments@
        }),
        0 <= i < openai@.len() ==> ({
            let call = openai_calls(Some(openai))[i];
            let written = parsed_json(openai@[i].function.arguments@);
            &&& call.id == Some(openai@[i].id@)
            &&& call.name == openai@[i].function.name@
            &&& written is Some ==> call.arguments == written->0
            &&& written is None ==> call.arguments.at("_raw"@) == JsonView::Text(
                openai@[i].function.arguments@,
            )
        }),
{
}

/// Settings are good if and only if the provider that is used has all it needs:
/// OpenAI, where there are settings for it, a place, a key and a model; else
/// Ollama a place and a model. What is missing first is told.
pub proof fn good_settings_have_all_that_is_needed(settings: SettingsView)
    ensures
        settings_problem(settings) is None <==> (match settings.openai {
            Some(openai) => !is_blank(openai.base_url) && !is_blank(openai.api_key) && !is_blank(
                openai.model,
            ),
            None => settings.ollama is Some && !is_blank(settings.ollama->0.url) && !is_blank(
                settings.ollama->0.model,
            ),
        }),
        settings.openai is None && settings.ollama is None ==> settings_problem(settings) == Some(
            SettingsError::<Seq<char>>::NoProvider,
        ),
        (settings.openai matches Some(openai) && is_blank(openai.base_url)) ==> settings_problem(
            settings,
        ) == Some(SettingsError::Empty("settings.openai.base_url"@)),
        (settings.openai matches Some(openai) && !is_blank(openai.base_url) && is_blank(
            openai.api_key,
        )) ==> settings_problem(settings) == Some(SettingsError::Empty("settings.openai.api_key"@)),
        (settings.openai matches Some(openai) && !is_blank(openai.base_url) && !is_blank(
            openai.api_key,
        ) && is_blank(openai.model)) ==> settings_problem(settings) == Some(
            SettingsError::Empty("settings.openai.model"@),
        ),
        settings.openai is None && (settings.ollama matches Some(ollama) && is_blank(ollama.url))
            ==> settings_problem(settings) == Some(SettingsError::Empty("settings.ollama.url"@)),
        settings.openai is None && (settings.ollama matches Some(ollama) && !is_blank(ollama.url)
            && is_blank(ollama.model)) ==> settings_problem(settings) == Some(
            SettingsError::Empty("settings.ollama.model"@),
        ),
{
}

/// A client speaks to the provider that the settings have: to OpenAI where they
/// have it, whatever they say of Ollama, with its key and model, and to Ollama
/// else. The place is the one of the settings but for slashes at its end.
pub proof fn client_follows_the_settings(settings: SettingsView)
    ensures
        ({
            let client = client_of(settings);
            let place = match settings.openai {
                Some(openai) => openai.base_url,
                None => settings.ollama->0.url,
            };
            &&& settings.openai matches Some(openai) ==> client.provider == Provider::OpenAI
                && client.api_key == Some(openai.api_key) && client.model == openai.model
            &&& settings.openai is None ==> client.provider == Provider::Ollama
                && client.api_key is None && client.model == settings.ollama->0.model
            &&& client.max_tokens == 4096
            &&& client.base_url.len() <= place.len()
            &&& client.base_url == place.take(client.base_url.len() as int)
            &&& client.base_url.len() > 0 ==> client.base_url.last() != '/'
            &&& forall|i: int|
                client.base_url.len() <= i < place.len() ==> #[trigger] place[i] == '/'
        }),
{
    match settings.openai {
        Some(openai) => lemma_trailing_slashes(openai.base_url),
        None => lemma_trailing_slashes(settings.ollama->0.url),
    }
}

proof fn lemma_trailing_slashes(text: Seq<char>)
    ensures
        ({
            let part = without_trailing(text, '/');
            &&& part.len() <= text.len()
            &&& part == text.take(part.len() as int)
            &&& part.len() > 0 ==> part.last() != '/'
            &&& forall|i: int| part.len() <= i < text.len() ==> #[trigger] text[i] == '/'
        }),
    decreases text.len(),
{
    if text.len() > 0 && text.last() == '/' {
        lemma_trailing_slashes(text.drop_last());
        let part = without_trailing(text, '/');
        assert(text.drop_last().take(part.len() as int) =~= text.take(part.len() as int));
        assert forall|i: int| part.len() <= i < text.len() implies #[trigger] text[i] == '/' by {
            if i < text.len() - 1 {
                assert(text.drop_last()[i] == text[i]);
            }
        }
    } else {
        assert(text.take(text.len() as int) =~= text);
    }
}

/// Changing the model gives the provider that model, wherever there were settings
/// before, and a place where there was none; a new key is empty.
pub proof fn changed_settings_have_the_model(
    settings: SettingsView,
    base_url: Seq<char>,
    model: Seq<char>,
)
    ensures
        ({
            let ollama = with_model(settings, Provider::Ollama, base_url, model);
            let openai = with_model(settings, Provider::OpenAI, base_url, model);
            &&& ollama.ollama is Some && ollama.ollama->0.model == model
            &&& openai.openai is Some && openai.openai->0.model == model
            &&& ollama.openai == settings.openai
            &&& openai.ollama == settings.ollama
            &&& (settings.ollama is None || is_blank(settings.ollama->0.url))
                ==> ollama.ollama->0.url == base_url
            &&& (settings.openai is None || is_blank(settings.openai->0.base_url))
                ==> openai.openai->0.base_url == base_url
            &&& settings.openai is None ==> openai.openai->0.api_key.len() == 0
        }),
{
}

/// An error of the provider is told with its status and its text, and for the
/// provider that gave it.
pub proof fn provider_errors_are_told(provider: Provider, status: Seq<char>, text: Seq<char>)
    ensures
        client_message(ClientError::Returned { provider, status, text }) == (match provider {
            Provider::Ollama => "Ollama"@,
            Provider::OpenAI => "OpenAI"@,
        }) + " returned error "@ + status + ": "@ + text,
{
}

} // verus!
