use pasua::config::{parse_u64_max, Config, EnvVars, TomlDefaults, TomlFile, TomlLsp};

fn env(pairs: &[(&str, &str)]) -> EnvVars {
    EnvVars { vars: pairs.iter().map(|(k, v)| (k.to_string(), v.to_string())).collect() }
}

fn toml(threshold: Option<usize>, timeout: Option<u64>, indexing: Option<u64>, langs: Option<Vec<(&str, u64)>>) -> TomlFile {
    TomlFile {
        defaults: Some(TomlDefaults { threshold }),
        lsp: Some(TomlLsp {
            timeout,
            indexing_timeout: indexing,
            timeouts: langs.map(|v| v.into_iter().map(|(k, s)| (k.to_string(), s)).collect()),
        }),
    }
}

#[test]
fn defaults_are_correct() {
    let cfg = Config::default();
    assert_eq!(cfg.threshold, 200);
    assert_eq!(cfg.lsp_timeout, 30);
    assert_eq!(cfg.lsp_indexing_timeout, 30);
}

#[test]
fn toml_overrides_defaults() {
    let file = toml(Some(500), Some(60), Some(120), Some(vec![("rust", 300)]));
    let cfg = Config::resolve(Some(&file), &env(&[]));
    assert_eq!(cfg.threshold, 500);
    assert_eq!(cfg.lsp_timeout, 60);
    assert_eq!(cfg.lsp_indexing_timeout, 120);
    assert_eq!(cfg.lsp_indexing_timeout_for("rust"), 300);
    assert_eq!(cfg.lsp_indexing_timeout_for("go"), 120, "go falls back to global");
}

#[test]
fn partial_toml_leaves_other_defaults_intact() {
    let file = TomlFile { defaults: Some(TomlDefaults { threshold: Some(100) }), lsp: None };
    let cfg = Config::resolve(Some(&file), &env(&[]));
    assert_eq!(cfg.threshold, 100);
    assert_eq!(cfg.lsp_timeout, 30, "unchanged");
}

#[test]
fn env_overrides_toml() {
    let file = TomlFile { defaults: Some(TomlDefaults { threshold: Some(500) }), lsp: None };
    let cfg = Config::resolve(Some(&file), &env(&[("PASUA_THRESHOLD", "999")]));
    assert_eq!(cfg.threshold, 999);
}

#[test]
fn per_lang_env_override() {
    let cfg = Config::resolve(None, &env(&[("PASUA_LSP_RUST_INDEXING_TIMEOUT", "180")]));
    assert_eq!(cfg.lsp_indexing_timeout_for("rust"), 180);
    assert_eq!(cfg.lsp_indexing_timeout_for("go"), 30, "go unaffected");
}

#[test]
fn unparsable_env_values_are_ignored() {
    let cfg = Config::resolve(None, &env(&[("PASUA_THRESHOLD", "lots"), ("PASUA_LSP_TIMEOUT", "-5"), ("PASUA_LSP_INDEXING_TIMEOUT", "+45")]));
    assert_eq!(cfg.threshold, 200);
    assert_eq!(cfg.lsp_timeout, 30);
    assert_eq!(cfg.lsp_indexing_timeout, 45);
}

#[test]
fn env_per_language_beats_file_per_language() {
    let file = toml(None, None, None, Some(vec![("go", 10), ("python", 20)]));
    let cfg = Config::resolve(Some(&file), &env(&[("PASUA_LSP_GO_INDEXING_TIMEOUT", "99")]));
    assert_eq!(cfg.lsp_indexing_timeout_for("go"), 99);
    assert_eq!(cfg.lsp_indexing_timeout_for("python"), 20);
    assert_eq!(cfg.lsp_indexing_timeout_for("elixir"), 30);
}

#[test]
fn load_matches_resolve() {
    let file = toml(Some(7), None, Some(8), None);
    let e = env(&[("PASUA_LSP_TIMEOUT", "9")]);
    let a = Config::load(Some(&file), &e);
    assert_eq!((a.threshold, a.lsp_timeout, a.lsp_indexing_timeout), (7, 9, 8));
}

#[test]
fn parses_unsigned_numbers() {
    assert_eq!(parse_u64_max("42", 100), Some(42));
    assert_eq!(parse_u64_max("+7", 100), Some(7));
    assert_eq!(parse_u64_max("101", 100), None);
    assert_eq!(parse_u64_max("", 100), None);
    assert_eq!(parse_u64_max("+", 100), None);
    assert_eq!(parse_u64_max("4 2", 100), None);
    assert_eq!(parse_u64_max("18446744073709551615", u64::MAX), Some(u64::MAX));
    assert_eq!(parse_u64_max("18446744073709551616", u64::MAX), None);
}

#[test]
fn first_env_value_of_a_name_wins() {
    let e = env(&[("A", "1"), ("A", "2")]);
    assert_eq!(e.var("A"), Some("1".to_string()));
    assert_eq!(e.var("B"), None);
}
