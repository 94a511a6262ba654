//! Runtime configuration, resolved from environment variables, the
//! configuration file `~/.deepseek/config.toml`, and defaults (in that order
//! of precedence), and the choice of the workspace root.
use crate::text::{chars_of, string_of};
use vstd::prelude::*;

verus! {

/// The settings read from the configuration file.
pub struct ConfigFile {
    pub api_key: Option<String>,
    pub default_text_model: Option<String>,
    pub base_url: Option<String>,
}

/// Everything the configuration is resolved from: the environment variables
/// that were set (and valid Unicode), and the configuration file if it was
/// read and parsed.
pub struct ConfigSources {
    pub anthropic_api_key: Option<String>,
    pub deepseek_api_key: Option<String>,
    pub deepseek_model: Option<String>,
    pub anthropic_model: Option<String>,
    pub deepseek_base_url: Option<String>,
    pub anthropic_base_url: Option<String>,
    pub file: Option<ConfigFile>,
}

/// The configuration used at run time.
pub struct AppConfig {
    /// API key.
    pub api_key: String,
    /// Model name.
    pub model: String,
    /// API base URL; requests go to `<base_url>/v1/messages`.
    pub base_url: String,
}

/// Why no configuration could be resolved.
pub enum ConfigError {
    /// No API key in the environment or the configuration file.
    MissingApiKey,
}

impl ConfigError {
    /// The error text.
    pub fn message(&self) -> (s: String)
        ensures
            s@ == "API key not found. Set ANTHROPIC_API_KEY / DEEPSEEK_API_KEY env var, or api_key in ~/.deepseek/config.toml"@,
    {
        string_of(
            &chars_of(
                "API key not found. Set ANTHROPIC_API_KEY / DEEPSEEK_API_KEY env var, or api_key in ~/.deepseek/config.toml",
            ),
        )
    }
}

pub open spec fn ov(o: Option<String>) -> Option<Seq<char>> {
    match o {
        Some(s) => Some(s@),
        None => None,
    }
}

/// The first value that is present.
pub open spec fn first_of(a: Option<Seq<char>>, b: Option<Seq<char>>, c: Option<Seq<char>>) -> Option<
    Seq<char>,
> {
    if a is Some {
        a
    } else if b is Some {
        b
    } else {
        c
    }
}

pub open spec fn file_field(f: Option<ConfigFile>, which: int) -> Option<Seq<char>> {
    match f {
        Some(c) => if which == 0 {
            ov(c.api_key)
        } else if which == 1 {
            ov(c.default_text_model)
        } else {
            ov(c.base_url)
        },
        None => None,
    }
}

/// API key: `ANTHROPIC_API_KEY`, then `DEEPSEEK_API_KEY`, then the file.
pub open spec fn api_key_of(s: ConfigSources) -> Option<Seq<char>> {
    first_of(ov(s.anthropic_api_key), ov(s.deepseek_api_key), file_field(s.file, 0))
}

/// Model: `DEEPSEEK_MODEL`, then `ANTHROPIC_MODEL`, then the file's
/// `default_text_model`, then `deepseek-v4-pro`.
pub open spec fn model_of(s: ConfigSources) -> Seq<char> {
    match first_of(ov(s.deepseek_model), ov(s.anthropic_model), file_field(s.file, 1)) {
        Some(m) => m,
        None => "deepseek-v4-pro"@,
    }
}

/// Base URL: `DEEPSEEK_BASE_URL`, then `ANTHROPIC_BASE_URL`, then the file,
/// then `https://api.deepseek.com/anthropic`.
pub open spec fn base_url_of(s: ConfigSources) -> Seq<char> {
    match first_of(ov(s.deepseek_base_url), ov(s.anthropic_base_url), file_field(s.file, 2)) {
        Some(u) => u,
        None => "https://api.deepseek.com/anthropic"@,
    }
}

fn pick(a: Option<String>, b: Option<String>, c: Option<String>) -> (r: Option<String>)
    ensures
        ov(r) == first_of(ov(a), ov(b), ov(c)),
{
    match a {
        Some(x) => Some(x),
        None => match b {
            Some(x) => Some(x),
            None => c,
        },
    }
}

impl AppConfig {
    /// Resolves the configuration: environment variables over the
    /// configuration file over defaults. Fails only when no API key is found.
    pub fn resolve(sources: ConfigSources) -> (r: Result<AppConfig, ConfigError>)
        ensures
            r is Ok <==> api_key_of(sources) is Some,
            r matches Ok(c) ==> {
                &&& Some(c.api_key@) == api_key_of(sources)
                &&& c.model@ == model_of(sources)
                &&& c.base_url@ == base_url_of(sources)
            },
    {
        let ghost src = sources;
        let ConfigSources {
            anthropic_api_key,
            deepseek_api_key,
            deepseek_model,
            anthropic_model,
            deepseek_base_url,
            anthropic_base_url,
            file,
        } = sources;
        let (file_key, file_model, file_url) = match file {
            Some(f) => (f.api_key, f.default_text_model, f.base_url),
            None => (None, None, None),
        };
        assert(ov(file_key) == file_field(src.file, 0));
        assert(ov(file_model) == file_field(src.file, 1));
        assert(ov(file_url) == file_field(src.file, 2));
        let api_key = match pick(anthropic_api_key, deepseek_api_key, file_key) {
            Some(k) => k,
            None => {
                return Err(ConfigError::MissingApiKey);
            },
        };
        let model = match pick(deepseek_model, anthropic_model, file_model) {
            Some(m) => m,
            None => string_of(&chars_of("deepseek-v4-pro")),
        };
        let base_url = match pick(deepseek_base_url, anthropic_base_url, file_url) {
            Some(u) => u,
            None => string_of(&chars_of("https://api.deepseek.com/anthropic")),
        };
        Ok(AppConfig { api_key, model, base_url })
    }
}

/// What is known about the candidate workspace roots.
pub struct WorkspaceProbe {
    /// `AGENT_WORKSPACE` is set and names an existing path.
    pub env_root_exists: bool,
    /// The parent of `CARGO_MANIFEST_DIR` is known and holds an
    /// `agent_plugins` directory.
    pub manifest_parent_has_plugins: bool,
    /// The current directory is known.
    pub cwd_known: bool,
    /// The current directory holds an `agent_plugins` directory.
    pub cwd_has_plugins: bool,
    /// The current directory has a parent holding `agent_plugins`.
    pub cwd_parent_has_plugins: bool,
}

/// Which candidate becomes the workspace root.
pub enum WorkspaceChoice {
    EnvRoot,
    ManifestParent,
    CurrentDir,
    CurrentDirParent,
    /// `.` (the current directory is unknown).
    Dot,
}

/// The workspace root: `AGENT_WORKSPACE` if it exists; else the parent of
/// the crate directory if it holds `agent_plugins`; else the current
/// directory or its parent, whichever holds `agent_plugins` (the current
/// directory first); else the current directory, or `.`.
pub open spec fn workspace_choice_spec(p: WorkspaceProbe) -> WorkspaceChoice {
    if p.env_root_exists {
        WorkspaceChoice::EnvRoot
    } else if p.manifest_parent_has_plugins {
        WorkspaceChoice::ManifestParent
    } else if p.cwd_known && p.cwd_has_plugins {
        WorkspaceChoice::CurrentDir
    } else if p.cwd_known && p.cwd_parent_has_plugins {
        WorkspaceChoice::CurrentDirParent
    } else if p.cwd_known {
        WorkspaceChoice::CurrentDir
    } else {
        WorkspaceChoice::Dot
    }
}

/// Chooses the workspace root among the candidates.
pub fn choose_workspace(p: &WorkspaceProbe) -> (c: WorkspaceChoice)
    ensures
        c == workspace_choice_spec(*p),
{
    if p.env_root_exists {
        WorkspaceChoice::EnvRoot
    } else if p.manifest_parent_has_plugins {
        WorkspaceChoice::ManifestParent
    } else if p.cwd_known && p.cwd_has_plugins {
        WorkspaceChoice::CurrentDir
    } else if p.cwd_known && p.cwd_parent_has_plugins {
        WorkspaceChoice::CurrentDirParent
    } else if p.cwd_known {
        WorkspaceChoice::CurrentDir
    } else {
        WorkspaceChoice::Dot
    }
}

/// Priority law: an API key in the environment always wins over the file,
/// `ANTHROPIC_API_KEY` over `DEEPSEEK_API_KEY`; the file's key counts only
/// when neither variable is set. The model is `DEEPSEEK_MODEL`, else
/// `ANTHROPIC_MODEL`, else the file's model, else `deepseek-v4-pro`; the base
/// URL is `DEEPSEEK_BASE_URL`, else `ANTHROPIC_BASE_URL`, else the file's,
/// else `https://api.deepseek.com/anthropic`.
pub proof fn lemma_config_priority(s: ConfigSources)
    ensures
        s.anthropic_api_key matches Some(k) ==> api_key_of(s) == Some(k@),
        s.anthropic_api_key is None ==> (s.deepseek_api_key matches Some(k) ==> api_key_of(s)
            == Some(k@)),
        s.anthropic_api_key is None && s.deepseek_api_key is None ==> api_key_of(s) == match s.file {
            Some(f) => match f.api_key {
                Some(k) => Some(k@),
                None => None,
            },
            None => None,
        },
        s.deepseek_model matches Some(m) ==> model_of(s) == m@,
        s.deepseek_model is None ==> (s.anthropic_model matches Some(m) ==> model_of(s) == m@),
        s.deepseek_model is None && s.anthropic_model is None ==> model_of(s) == match s.file {
            Some(f) => match f.default_text_model {
                Some(m) => m@,
                None => "deepseek-v4-pro"@,
            },
            None => "deepseek-v4-pro"@,
        },
        s.deepseek_base_url matches Some(u) ==> base_url_of(s) == u@,
        s.deepseek_base_url is None ==> (s.anthropic_base_url matches Some(u) ==> base_url_of(s)
            == u@),
        s.deepseek_base_url is None && s.anthropic_base_url is None ==> base_url_of(s) == match s.file {
            Some(f) => match f.base_url {
                Some(u) => u@,
                None => "https://api.deepseek.com/anthropic"@,
            },
            None => "https://api.deepseek.com/anthropic"@,
        },
{
}

} // verus!
