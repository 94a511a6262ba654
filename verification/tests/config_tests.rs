use agent_host::config::{
    choose_workspace, AppConfig, ConfigFile, ConfigSources, WorkspaceChoice, WorkspaceProbe,
};

fn none() -> ConfigSources {
    ConfigSources {
        anthropic_api_key: None,
        deepseek_api_key: None,
        deepseek_model: None,
        anthropic_model: None,
        deepseek_base_url: None,
        anthropic_base_url: None,
        file: None,
    }
}

#[test]
fn missing_key_is_an_error() {
    match AppConfig::resolve(none()) {
        Err(e) => assert!(e.message().starts_with("API key not found.")),
        Ok(_) => panic!(),
    }
}

#[test]
fn defaults_apply() {
    let mut s = none();
    s.deepseek_api_key = Some("k2".to_string());
    let c = AppConfig::resolve(s).ok().unwrap();
    assert_eq!(c.api_key, "k2");
    assert_eq!(c.model, "deepseek-v4-pro");
    assert_eq!(c.base_url, "https://api.deepseek.com/anthropic");
}

#[test]
fn environment_beats_file() {
    let mut s = none();
    s.anthropic_api_key = Some("k1".to_string());
    s.deepseek_api_key = Some("k2".to_string());
    s.anthropic_model = Some("m-anthropic".to_string());
    s.file = Some(ConfigFile {
        api_key: Some("kf".to_string()),
        default_text_model: Some("m-file".to_string()),
        base_url: Some("https://file".to_string()),
    });
    let c = AppConfig::resolve(s).ok().unwrap();
    assert_eq!(c.api_key, "k1");
    assert_eq!(c.model, "m-anthropic");
    assert_eq!(c.base_url, "https://file");
}

#[test]
fn deepseek_model_beats_anthropic_model() {
    let mut s = none();
    s.file = Some(ConfigFile { api_key: Some("kf".to_string()), default_text_model: None, base_url: None });
    s.deepseek_model = Some("d".to_string());
    s.anthropic_model = Some("a".to_string());
    s.deepseek_base_url = Some("https://d".to_string());
    s.anthropic_base_url = Some("https://a".to_string());
    let c = AppConfig::resolve(s).ok().unwrap();
    assert_eq!(c.api_key, "kf");
    assert_eq!(c.model, "d");
    assert_eq!(c.base_url, "https://d");
}

fn probe(e: bool, m: bool, k: bool, c: bool, p: bool) -> WorkspaceProbe {
    WorkspaceProbe {
        env_root_exists: e,
        manifest_parent_has_plugins: m,
        cwd_known: k,
        cwd_has_plugins: c,
        cwd_parent_has_plugins: p,
    }
}

#[test]
fn workspace_priority() {
    assert!(matches!(choose_workspace(&probe(true, true, true, true, true)), WorkspaceChoice::EnvRoot));
    assert!(matches!(choose_workspace(&probe(false, true, true, true, true)), WorkspaceChoice::ManifestParent));
    assert!(matches!(choose_workspace(&probe(false, false, true, true, true)), WorkspaceChoice::CurrentDir));
    assert!(matches!(choose_workspace(&probe(false, false, true, false, true)), WorkspaceChoice::CurrentDirParent));
    assert!(matches!(choose_workspace(&probe(false, false, true, false, false)), WorkspaceChoice::CurrentDir));
    assert!(matches!(choose_workspace(&probe(false, false, false, false, false)), WorkspaceChoice::Dot));
}
