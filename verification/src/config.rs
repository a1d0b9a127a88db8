//! The user's settings: where data lives, the API key, the chat model and
//! the workspace last opened.
use vstd::prelude::*;
use crate::repl;
use crate::text;
use crate::workspace::{join_path, join_path_exec};

verus! {

/// `dirs::data_dir`: the platform's per-user data directory, if known.
/// Nothing is stated of it: it depends on the environment.
#[verifier::external_body]
fn dirs_data_dir() -> (r: Option<String>) {
    dirs::data_dir().map(|p| p.to_string_lossy().into_owned())
}

/// `dirs::home_dir`: the user's home directory, if known. Nothing is stated
/// of it: it depends on the environment.
#[verifier::external_body]
fn dirs_home_dir() -> (r: Option<String>) {
    dirs::home_dir().map(|p| p.to_string_lossy().into_owned())
}

/// The application's data directory: `ArxivCat` under `%APPDATA%` when that
/// is set, else under the platform data directory, else under the home
/// directory, else under the current directory.
pub open spec fn cache_dir_spec(appdata: Option<Seq<char>>, data_dir: Option<Seq<char>>, home: Option<Seq<char>>) -> Seq<char> {
    match appdata {
        Some(a) => join_path(a, "ArxivCat"@),
        None => match data_dir {
            Some(d) => join_path(d, "ArxivCat"@),
            None => match home {
                Some(h) => join_path(h, "ArxivCat"@),
                None => join_path("."@, "ArxivCat"@),
            },
        },
    }
}

/// The application's data directory, from the places it may be found.
pub fn cache_dir_from(appdata: Option<&str>, data_dir: Option<&str>, home: Option<&str>) -> (r: String)
    ensures
        r@ == cache_dir_spec(
            match appdata { Some(a) => Some(a@), None => None },
            match data_dir { Some(d) => Some(d@), None => None },
            match home { Some(h) => Some(h@), None => None },
        ),
{
    let base: &str = match appdata {
        Some(a) => a,
        None => match data_dir {
            Some(d) => d,
            None => match home {
                Some(h) => h,
                None => ".",
            },
        },
    };
    join_path_exec(base, "ArxivCat")
}

/// The application's data directory, given the value of `APPDATA` (if set).
pub fn get_cache_dir(appdata: Option<&str>) -> (r: String)
    ensures
        appdata matches Some(a) ==> r@ == join_path(a@, "ArxivCat"@),
        appdata is None ==> exists|d: Option<Seq<char>>, h: Option<Seq<char>>|
            r@ == #[trigger] cache_dir_spec(None, d, h),
{
    match appdata {
        Some(a) => cache_dir_from(Some(a), None, None),
        None => {
            let d = dirs_data_dir();
            let h = dirs_home_dir();
            let dr: Option<&str> = match &d {
                Some(x) => Some(x.as_str()),
                None => None,
            };
            let hr: Option<&str> = match &h {
                Some(x) => Some(x.as_str()),
                None => None,
            };
            let r = cache_dir_from(None, dr, hr);
            assert(r@ == cache_dir_spec(None, repl::opt_view(d), repl::opt_view(h)));
            r
        },
    }
}

/// Where downloaded sources are cached, under the data directory.
pub fn get_downloads_dir(cache_dir: &str) -> (r: String)
    ensures
        r@ == join_path(cache_dir@, "downloads"@),
{
    join_path_exec(cache_dir, "downloads")
}

/// Where the settings file lives, under the data directory.
pub fn get_config_path(cache_dir: &str) -> (r: String)
    ensures
        r@ == join_path(cache_dir@, "config.json"@),
{
    join_path_exec(cache_dir, "config.json")
}

/// The settings.
pub struct Config {
    pub deepseek_api_key: Option<String>,
    pub chat_model: Option<String>,
    pub workspace_path: Option<String>,
}

/// The settings as values.
pub struct ConfigView {
    pub api_key: Option<Seq<char>>,
    pub chat_model: Option<Seq<char>>,
    pub workspace: Option<Seq<char>>,
}

impl View for Config {
    type V = ConfigView;

    open spec fn view(&self) -> ConfigView {
        ConfigView {
            api_key: repl::opt_view(self.deepseek_api_key),
            chat_model: repl::opt_view(self.chat_model),
            workspace: repl::opt_view(self.workspace_path),
        }
    }
}

impl Default for Config {
    /// No key, the Flash model, no workspace.
    fn default() -> (r: Self)
        ensures
            r@ == (ConfigView { api_key: None, chat_model: Some("Flash"@), workspace: None }),
    {
        Config {
            deepseek_api_key: None,
            chat_model: Some(String::from_str("Flash")),
            workspace_path: None,
        }
    }
}

/// The API key in use: the `DEEPSEEK_API_KEY` environment value when it is
/// set and not empty, else the stored one.
pub open spec fn key_in_use(c: ConfigView, env_key: Option<Seq<char>>) -> Option<Seq<char>> {
    match env_key {
        Some(k) => if k.len() > 0 { Some(k) } else { c.api_key },
        None => c.api_key,
    }
}

/// The preferred chat model, "Flash" when none is stored.
pub open spec fn model_in_use(c: ConfigView) -> Seq<char> {
    match c.chat_model {
        Some(m) => m,
        None => "Flash"@,
    }
}

impl Config {
    /// The API key in use (see [`key_in_use`]).
    pub fn resolve_api_key(&self, env_key: Option<&str>) -> (r: Option<String>)
        ensures
            repl::opt_view(r) == key_in_use(self@, match env_key { Some(k) => Some(k@), None => None }),
    {
        match env_key {
            Some(k) => {
                if k.unicode_len() > 0 {
                    return Some(String::from_str(k));
                }
            },
            None => {},
        }
        text::clone_opt_string(&self.deepseek_api_key)
    }
}

/// The workspace last opened.
pub fn load_workspace_path(cfg: &Config) -> (r: Option<String>)
    ensures
        repl::opt_view(r) == cfg@.workspace,
{
    text::clone_opt_string(&cfg.workspace_path)
}

/// Remembers the workspace; nothing else changes.
pub fn save_workspace_path(cfg: &mut Config, path: &str)
    ensures
        final(cfg)@ == (ConfigView { workspace: Some(path@), ..old(cfg)@ }),
{
    cfg.workspace_path = Some(String::from_str(path));
}

/// Stores the API key; nothing else changes.
pub fn save_token(cfg: &mut Config, token: &str)
    ensures
        final(cfg)@ == (ConfigView { api_key: Some(token@), ..old(cfg)@ }),
{
    cfg.deepseek_api_key = Some(String::from_str(token));
}

/// The API key in use (see [`key_in_use`]).
pub fn load_cached_token(cfg: &Config, env_key: Option<&str>) -> (r: Option<String>)
    ensures
        repl::opt_view(r) == key_in_use(cfg@, match env_key { Some(k) => Some(k@), None => None }),
{
    cfg.resolve_api_key(env_key)
}

/// Stores the preferred chat model; nothing else changes.
pub fn save_model_preference(cfg: &mut Config, model: &str)
    ensures
        final(cfg)@ == (ConfigView { chat_model: Some(model@), ..old(cfg)@ }),
{
    cfg.chat_model = Some(String::from_str(model));
}

/// The preferred chat model (see [`model_in_use`]).
pub fn load_model_preference(cfg: &Config) -> (r: String)
    ensures
        r@ == model_in_use(cfg@),
{
    match &cfg.chat_model {
        Some(m) => m.clone(),
        None => String::from_str("Flash"),
    }
}

// ---------------------------------------------------------------- laws

/// What is saved is what is read back: the workspace, the model and (unless
/// the environment supplies a key) the API key; saving one setting leaves
/// the others as they were.
pub proof fn law_settings_read_back(c: ConfigView, path: Seq<char>, token: Seq<char>, model: Seq<char>)
    ensures
        (ConfigView { workspace: Some(path), ..c }).workspace == Some(path),
        key_in_use(ConfigView { api_key: Some(token), ..c }, None) == Some(token),
        model_in_use(ConfigView { chat_model: Some(model), ..c }) == model,
        key_in_use(ConfigView { workspace: Some(path), ..c }, None) == key_in_use(c, None),
        model_in_use(ConfigView { api_key: Some(token), ..c }) == model_in_use(c),
        (ConfigView { chat_model: Some(model), ..c }).workspace == c.workspace,
{
}

/// A non-empty key in the environment wins over the stored one, whatever
/// was saved.
pub proof fn law_environment_key_wins(c: ConfigView, token: Seq<char>, env: Seq<char>)
    requires
        env.len() > 0,
    ensures
        key_in_use(ConfigView { api_key: Some(token), ..c }, Some(env)) == Some(env),
{
}

} // verus!
