//! The preferences, the sessions' file and where they are kept.

use rterm::local_path::LocalPath;
use rterm::config::app_config::{
    log_dir, AppConfig, Language, LegacyAppConfig, LocaleEnv, LogLevel, TransferConfig,
    MAX_CONCURRENT, MIN_CONCURRENT,
};
use rterm::config::error::ConfigError;
use rterm::config::load::{
    backup_path, begin, first_launch_theme, is_legacy, parse_format, Loading, Reply,
};
use rterm::config::paths;
use rterm::config::paths::{cache_dir, config_dir, is_sandboxed, set_test_root, Location, Roots};
use rterm::config::session::{default_port, new_id, AuthMethod, SessionConfig};
use rterm::config::store::{export_sessions, import_sessions, SessionStore};
use rterm::crypto::Vault;

fn bits(f: f32) -> u32 {
    f.to_bits()
}

fn text_of(t: &toml::Table, key: &str, default: String) -> String {
    t.get(key).and_then(|v| v.as_str()).map(|s| s.to_string()).unwrap_or(default)
}

fn bool_of(t: &toml::Table, key: &str, default: bool) -> bool {
    t.get(key).and_then(|v| v.as_bool()).unwrap_or(default)
}

fn size_of(t: &toml::Table, key: &str) -> Option<u32> {
    t.get(key).and_then(|v| v.as_float()).map(|f| bits(f as f32))
}

fn whole_of(t: &toml::Table, key: &str) -> Option<i64> {
    t.get(key).and_then(|v| v.as_integer())
}

fn level_of(name: Option<&str>) -> LogLevel {
    let all = [
        LogLevel::Off,
        LogLevel::Error,
        LogLevel::Warn,
        LogLevel::Info,
        LogLevel::Debug,
        LogLevel::Trace,
    ];
    all.into_iter().find(|l| Some(l.name()) == name).unwrap_or(LegacyAppConfig::default().log_level)
}

fn language_of(name: Option<&str>) -> Language {
    match name {
        Some("zh-CN") => Language::ZhCn,
        Some("en") => Language::En,
        _ => Language::System,
    }
}

/// Preferences of an earlier version, from a table.
fn legacy_of(t: &toml::Table) -> LegacyAppConfig {
    let d = LegacyAppConfig::default();
    LegacyAppConfig {
        connect_timeout: whole_of(t, "connect_timeout").map_or(d.connect_timeout, |n| n as u64),
        font_size: size_of(t, "font_size").unwrap_or(d.font_size),
        theme: text_of(t, "theme", d.theme),
        ui_font: text_of(t, "ui_font", d.ui_font),
        terminal_font: text_of(t, "terminal_font", d.terminal_font),
        terminal_theme: text_of(t, "terminal_theme", d.terminal_theme),
        log_level: level_of(t.get("log_level").and_then(|v| v.as_str())),
        language: language_of(t.get("language").and_then(|v| v.as_str())),
        scrollback: whole_of(t, "scrollback").map_or(d.scrollback, |n| n as usize),
        auto_check_updates: bool_of(t, "auto_check_updates", d.auto_check_updates),
        last_update_check_unix: whole_of(t, "last_update_check_unix"),
        remember_master_key: bool_of(t, "remember_master_key", d.remember_master_key),
        trim_trailing_whitespace: bool_of(
            t,
            "trim_trailing_whitespace",
            d.trim_trailing_whitespace,
        ),
        cwd_bootstrap: bool_of(t, "cwd_bootstrap", d.cwd_bootstrap),
        suppress_bootstrap_echo: bool_of(t, "suppress_bootstrap_echo", d.suppress_bootstrap_echo),
        remember_window_size: bool_of(t, "remember_window_size", d.remember_window_size),
        window_width: size_of(t, "window_width"),
        window_height: size_of(t, "window_height"),
    }
}

/// Preferences of this version, from a table.
fn sectioned_of(t: &toml::Table) -> AppConfig {
    let mut c = AppConfig::default();
    if let Some(s) = t.get("connection").and_then(|v| v.as_table()) {
        c.connection.timeout = whole_of(s, "timeout").map_or(c.connection.timeout, |n| n as u64);
    }
    if let Some(s) = t.get("terminal").and_then(|v| v.as_table()) {
        c.terminal.font = text_of(s, "font", c.terminal.font);
        c.terminal.font_size = size_of(s, "font_size").unwrap_or(c.terminal.font_size);
    }
    if let Some(s) = t.get("appearance").and_then(|v| v.as_table()) {
        c.appearance.theme = text_of(s, "theme", c.appearance.theme);
    }
    if let Some(s) = t.get("transfer").and_then(|v| v.as_table()) {
        c.transfer.max_concurrent =
            whole_of(s, "max_concurrent").map_or(c.transfer.max_concurrent, |n| n as usize);
    }
    c
}

fn section(values: Vec<(&str, toml::Value)>) -> toml::Value {
    toml::Value::Table(values.into_iter().map(|(k, v)| (k.to_string(), v)).collect())
}

/// The text of preferences, in the sections that are read back.
fn sectioned_text(c: &AppConfig) -> String {
    let size = f64::from(f32::from_bits(c.terminal.font_size));
    let mut t = toml::Table::new();
    t.insert(
        "connection".to_string(),
        section(vec![("timeout", toml::Value::Integer(c.connection.timeout as i64))]),
    );
    t.insert(
        "terminal".to_string(),
        section(vec![
            ("font", toml::Value::String(c.terminal.font.clone())),
            ("font_size", toml::Value::Float(size)),
        ]),
    );
    t.insert(
        "appearance".to_string(),
        section(vec![("theme", toml::Value::String(c.appearance.theme.clone()))]),
    );
    t.insert(
        "transfer".to_string(),
        section(vec![(
            "max_concurrent",
            toml::Value::Integer(c.transfer.max_concurrent as i64),
        )]),
    );
    toml::to_string_pretty(&t).unwrap()
}

/// Preferences from a text, and whether they are those of an earlier version.
fn parse_config(content: &str) -> (AppConfig, bool) {
    let old = parse_format(content).ok().unwrap();
    let table: toml::Table = toml::from_str(content).unwrap();
    if old {
        (AppConfig::from_legacy(legacy_of(&table)), true)
    } else {
        (sectioned_of(&table), false)
    }
}

#[test]
fn remembered_size_requires_valid_positive_values() {
    assert_eq!(AppConfig::default().remembered_size(), None);
    let mut config = AppConfig::default();
    config.window.width = Some(bits(1280.0));
    config.window.height = Some(bits(720.0));
    assert_eq!(config.remembered_size(), Some((bits(1280.0), bits(720.0))));
    config.window.width = Some(bits(0.0));
    assert_eq!(config.remembered_size(), None);
    config.window.width = Some(bits(f32::NAN));
    config.window.height = Some(bits(720.0));
    assert_eq!(config.remembered_size(), None);
}

#[test]
fn sizes_that_are_none_are_not_remembered() {
    let mut config = AppConfig::default();
    config.window.height = Some(bits(720.0));
    for width in [-1.0, -0.0, f32::INFINITY, f32::NEG_INFINITY] {
        config.window.width = Some(bits(width));
        assert_eq!(config.remembered_size(), None);
    }
    config.window.width = Some(bits(f32::MIN_POSITIVE));
    assert!(config.remembered_size().is_some());
}

#[test]
fn remembered_size_respects_toggle() {
    let mut config = AppConfig::default();
    config.window.width = Some(bits(1280.0));
    config.window.height = Some(bits(720.0));
    config.window.remember_size = false;
    assert_eq!(config.remembered_size(), None);
    config.window.remember_size = true;
    assert_eq!(config.remembered_size(), Some((bits(1280.0), bits(720.0))));
}

#[test]
fn clear_window_size_erases_record() {
    let mut config = AppConfig::default();
    config.window.width = Some(bits(1280.0));
    config.window.height = Some(bits(720.0));
    config.clear_window_size();
    assert_eq!(config.window.width, None);
    assert_eq!(config.window.height, None);
    assert_eq!(config.remembered_size(), None);
}

#[test]
fn legacy_flat_config_is_migrated_field_by_field() {
    let legacy = r#"
connect_timeout = 45
font_size = 18.0
theme = "Dracula"
ui_font = "Noto Sans"
terminal_font = "JetBrains Mono"
terminal_theme = "One Dark"
log_level = "debug"
language = "zh-CN"
scrollback = 5000
auto_check_updates = false
last_update_check_unix = 1700000000
remember_master_key = false
trim_trailing_whitespace = false
cwd_bootstrap = false
suppress_bootstrap_echo = false
remember_window_size = false
window_width = 1280.0
window_height = 720.0
"#;
    let (config, migrated) = parse_config(legacy);
    assert!(migrated);
    assert_eq!(config.connection.timeout, 45);
    assert_eq!(config.terminal.font, "JetBrains Mono");
    assert_eq!(f32::from_bits(config.terminal.font_size), 18.0);
    assert_eq!(config.terminal.theme, "One Dark");
    assert_eq!(config.terminal.scrollback, 5000);
    assert!(!config.terminal.cwd_bootstrap);
    assert!(!config.terminal.suppress_bootstrap_echo);
    assert!(!config.terminal.trim_trailing_whitespace);
    assert_eq!(config.appearance.theme, "Dracula");
    assert_eq!(config.appearance.ui_font, "Noto Sans");
    assert_eq!(config.appearance.language, Language::ZhCn);
    assert_eq!(config.logging.level, LogLevel::Debug);
    assert!(!config.updates.auto_check);
    assert_eq!(config.updates.last_check_unix, Some(1_700_000_000));
    assert!(!config.security.remember_master_key);
    assert!(!config.window.remember_size);
    assert_eq!(config.window.width, Some(bits(1280.0)));
    assert_eq!(config.window.height, Some(bits(720.0)));
    assert_eq!(config.transfer.max_concurrent, 3);
}

#[test]
fn sectioned_config_parses_without_migration_and_fills_defaults() {
    let sectioned = r#"
[connection]
timeout = 12

[terminal]
font = "Fira Code"
font_size = 20.0

[appearance]
theme = "Light"
"#;
    let (config, migrated) = parse_config(sectioned);
    assert!(!migrated);
    assert_eq!(config.connection.timeout, 12);
    assert_eq!(config.terminal.font, "Fira Code");
    assert_eq!(f32::from_bits(config.terminal.font_size), 20.0);
    assert_eq!(config.appearance.theme, "Light");
    assert!(config.window.remember_size);
    assert_eq!(config.terminal.scrollback, 10_000);
    assert_eq!(config.appearance.language, Language::System);
}

#[test]
fn empty_config_falls_back_to_defaults() {
    let (config, migrated) = parse_config("");
    assert!(!migrated);
    assert_eq!(config.connection.timeout, 30);
    assert_eq!(f32::from_bits(config.terminal.font_size), 14.0);
    assert_eq!(config.terminal.theme, "Default");
    assert_eq!(config.appearance.theme, "Dark");
    assert_eq!(config.transfer.max_concurrent, 3);
    assert_eq!(config.transfer.retry_attempts, 2);
}

fn sandbox() -> Roots {
    let mut roots = Roots { test: None, workspace: None, config: None, cache: None };
    set_test_root(&mut roots, Some(LocalPath::of("/tmp/root")));
    roots
}

/// Loads preferences from a file of this content; tells them, the name and the content of the
/// backup, and what was written.
fn load(content: Option<&str>) -> (AppConfig, Option<(String, String)>, Option<String>) {
    let roots = sandbox();
    let mut state = begin(&roots);
    let mut backup: Option<(String, String)> = None;
    let mut written: Option<String> = None;
    loop {
        let reply = match &state {
            Loading::CreateDir { .. } => Reply::Completed,
            Loading::LookForFile { .. } => Reply::Found(content.is_some()),
            Loading::AskAppearance { .. } => Reply::Appearance(Some(false)),
            Loading::Read { .. } => Reply::Content(content.unwrap().to_string()),
            Loading::Parse { content, old_format, .. } => {
                let table: toml::Table = toml::from_str(content).unwrap();
                if *old_format {
                    Reply::Legacy(legacy_of(&table))
                } else {
                    Reply::Sectioned(sectioned_of(&table))
                }
            }
            Loading::LookForBackup { .. } => Reply::Taken(None),
            Loading::Backup { name, .. } => {
                let file = written.clone().unwrap_or_else(|| content.unwrap().to_string());
                backup = Some((name.clone(), file));
                Reply::Completed
            }
            Loading::Save { config } => {
                written = Some(sectioned_text(config));
                Reply::Completed
            }
            Loading::Done { .. } => match state {
                Loading::Done { config } => return (config, backup, written),
                _ => unreachable!(),
            },
            Loading::Failed { error } => panic!("{}", error.to_words()),
        };
        state = state.next(reply);
    }
}

#[test]
fn out_of_range_transfer_values_are_clamped_on_load() {
    for (written, expected) in [(0usize, MIN_CONCURRENT), (999, MAX_CONCURRENT)] {
        let content = format!("[transfer]\nmax_concurrent = {written}\n");
        let (config, _, _) = load(Some(&content));
        assert_eq!(config.transfer.max_concurrent, expected);
    }
    let mut t = TransferConfig { max_concurrent: 5, retry_attempts: 2 };
    t.normalize();
    assert_eq!(t.max_concurrent, 5);
}

#[test]
fn backup_path_appends_bak_and_timestamps_on_collision() {
    assert_eq!(backup_path(Some("config.toml"), None), "config.toml.bak");
    assert_eq!(backup_path(Some("config.toml"), Some(17)), "config.toml.bak.17");
    assert_eq!(backup_path(None, None), "config.toml.bak");
}

#[test]
fn new_migrates_legacy_file_and_creates_backup() {
    let legacy = "connect_timeout = 7\nfont_size = 22.0\nterminal_font = \"Hack\"\n";
    let (config, backup, written) = load(Some(legacy));
    assert_eq!(config.connection.timeout, 7);
    assert_eq!(f32::from_bits(config.terminal.font_size), 22.0);
    assert_eq!(config.terminal.font, "Hack");
    let new_content = written.expect("the file is written anew");
    assert!(new_content.contains("[connection]") && new_content.contains("[terminal]"));
    assert!(!new_content.contains("connect_timeout"));
    assert_eq!(backup, Some(("config.toml.bak".to_string(), legacy.to_string())));
}

#[test]
fn a_file_that_was_taken_over_is_only_read_the_next_time() {
    let legacy = "connect_timeout = 7\nfont_size = 22.0\nterminal_font = \"Hack\"\n";
    let (first, _, written) = load(Some(legacy));
    let text = written.unwrap();
    assert!(!parse_format(&text).ok().unwrap());
    let (second, backup, again) = load(Some(&text));
    assert_eq!(backup, None);
    assert_eq!(again, None);
    assert_eq!(second.connection.timeout, first.connection.timeout);
    assert_eq!(second.terminal.font, first.terminal.font);
    assert_eq!(second.terminal.font_size, first.terminal.font_size);
    assert_eq!(second.appearance.theme, first.appearance.theme);
    assert_eq!(second.transfer.max_concurrent, first.transfer.max_concurrent);
}

#[test]
fn a_first_start_takes_the_looks_of_the_system_and_writes_them() {
    let (config, backup, written) = load(None);
    assert_eq!(config.appearance.theme, "Light");
    assert_eq!(config.terminal.theme, "One Light");
    assert_eq!(backup, None);
    assert!(written.unwrap().contains("theme = \"Light\""));
    assert_eq!(first_launch_theme(None), ("Dark".to_string(), "One Dark".to_string()));
    assert_eq!(first_launch_theme(Some(true)).0, "Dark");
}

#[test]
fn a_file_of_this_version_is_not_written_again() {
    let (config, backup, written) = load(Some("[connection]\ntimeout = 3\n"));
    assert_eq!(config.connection.timeout, 3);
    assert_eq!(config.path.unwrap().names, vec!["config", "config.toml"]);
    assert_eq!(backup, None);
    assert_eq!(written, None);
}

#[test]
fn a_garbled_file_is_told() {
    assert!(matches!(parse_format("= ="), Err(ConfigError::Store(_))));
    assert!(matches!(
        begin(&Roots { test: None, workspace: None, config: None, cache: None }),
        Loading::Failed { error: ConfigError::ConfigDir(_) }
    ));
    let state = begin(&sandbox()).next(Reply::Failed("no".to_string()));
    assert!(matches!(state, Loading::Failed { error: ConfigError::Store(_) }));
}

#[test]
fn flat_names_tell_the_earlier_version() {
    assert!(is_legacy(&vec!["connect_timeout".to_string()]));
    assert!(!is_legacy(&vec!["connection".to_string()]));
    assert!(!is_legacy(&Vec::new()));
}

#[test]
fn errors_are_said_in_words() {
    assert!(ConfigError::Io("boom".to_string()).to_words().contains("boom"));
    assert!(ConfigError::TomlDe("x".to_string()).to_words().contains('x'));
    assert!(ConfigError::TomlSer("y".to_string()).to_words().contains('y'));
    assert!(ConfigError::Store("z".to_string()).to_words().contains('z'));
    assert!(ConfigError::ConfigDir("w".to_string()).to_words().contains('w'));
}

fn secret_session() -> SessionConfig {
    let vault = Vault::create_random();
    SessionConfig {
        id: "sess-test".into(),
        name: "demo".into(),
        host: "example.com".into(),
        port: 22,
        username: "root".into(),
        auth: AuthMethod::Password { password: Some(vault.encrypt("topsecret")) },
        group: None,
    }
}

#[test]
fn export_sessions_strips_credentials_and_crypto_header() {
    let sessions = vec![secret_session()];
    let file = export_sessions(&sessions);
    assert!(file.crypto.is_none());
    let imported = import_sessions(file);
    assert_eq!(imported.len(), 1);
    match &imported[0].auth {
        AuthMethod::Password { password } => assert!(password.is_none()),
        _ => panic!("the way to log in changed"),
    }
    let stripped = sessions[0].without_secrets();
    match &stripped.auth {
        AuthMethod::Password { password } => assert!(password.is_none()),
        _ => panic!("the way to log in changed"),
    }
    assert_eq!(stripped.host, "example.com");
    assert_eq!(stripped.username, "root");
}

#[test]
fn saved_sessions_are_read_back_with_their_header() {
    let vault = Vault::create_random();
    let sessions = vec![secret_session()];
    let file = SessionStore::save(&sessions, vault.header());
    assert!(!SessionStore::load_crypto_header(file).ok().unwrap().master_password_set);
    let file = SessionStore::save(&sessions, vault.header());
    assert_eq!(SessionStore::load(Some(file))[0].id, "sess-test");
    assert!(SessionStore::load(None).is_empty());
    assert!(SessionStore::load_crypto_header(export_sessions(&sessions)).is_err());
}

fn joined(l: &Location) -> String {
    let mut out = l.base.shown();
    for n in &l.names {
        out.push('/');
        out.push_str(n);
    }
    out
}

#[test]
fn a_test_root_moves_all_files_together() {
    let mut roots = Roots {
        test: None,
        workspace: None,
        config: Some(LocalPath::of("/home/u/.config")),
        cache: Some(LocalPath::of("/home/u/.cache")),
    };
    assert!(!is_sandboxed(&roots));
    assert_eq!(joined(&config_dir(&roots).unwrap()), "/home/u/.config/rterm");
    assert_eq!(joined(&cache_dir(&roots).unwrap()), "/home/u/.cache/rterm");
    assert_eq!(joined(&log_dir(&roots)), "/home/u/.cache/rterm/logs");
    roots.workspace = Some(LocalPath::of("/src"));
    assert!(is_sandboxed(&roots));
    assert_eq!(joined(&config_dir(&roots).unwrap()), "/src/.dev/config");
    set_test_root(&mut roots, Some(LocalPath::of("/t")));
    assert_eq!(joined(&config_dir(&roots).unwrap()), "/t/config");
    assert_eq!(joined(&paths::log_dir(&roots)), "/t/cache/logs");
    assert_eq!(
        joined(SessionStore::new(&roots).ok().unwrap().path()),
        "/t/config/sessions.toml"
    );
    set_test_root(&mut roots, None);
    assert_eq!(joined(&config_dir(&roots).unwrap()), "/src/.dev/config");
}

#[test]
fn a_directory_whose_name_is_no_unicode_is_used() {
    let odd = vec![b'/', b'h', 0xff, 0xfe];
    let roots = Roots {
        test: None,
        workspace: None,
        config: Some(LocalPath::from_bytes(odd.clone())),
        cache: None,
    };
    let dir = config_dir(&roots).unwrap();
    assert_eq!(dir.base.bytes(), &odd);
    assert_eq!(dir.names, vec!["rterm"]);
    assert!(matches!(begin(&roots), Loading::CreateDir { dir } if dir.base.bytes() == &odd));
}

#[test]
fn the_system_tells_its_directories() {
    let roots = Roots::of_system(None);
    let expected = dirs::config_dir().map(|p| p.into_os_string().into_encoded_bytes());
    assert_eq!(roots.config.map(|p| p.bytes().clone()), expected);
    let expected = dirs::cache_dir().map(|p| p.into_os_string().into_encoded_bytes());
    assert_eq!(roots.cache.map(|p| p.bytes().clone()), expected);
}

#[test]
fn without_directories_the_log_goes_to_the_current_one() {
    let roots = Roots { test: None, workspace: None, config: None, cache: None };
    assert_eq!(joined(&log_dir(&roots)), "./logs");
    assert!(config_dir(&roots).is_none());
    assert!(SessionStore::new(&roots).is_err());
}

#[test]
fn the_roots_of_the_system_have_no_test_root() {
    let roots = Roots::of_system(Some(LocalPath::of("/w")));
    assert!(roots.test.is_none());
    assert_eq!(roots.workspace, Some(LocalPath::of("/w")));
    assert_eq!(joined(&config_dir(&roots).unwrap()), "/w/.dev/config");
}

fn locale(lang: Option<&str>) -> LocaleEnv {
    LocaleEnv { lc_all: None, lang: lang.map(|s| s.to_string()), language: None }
}

#[test]
fn the_language_follows_what_is_reported() {
    let none = locale(None);
    assert_eq!(Language::detect_from(Some("zh-CN".to_string()), &none), Language::ZhCn);
    assert_eq!(Language::detect_from(Some("en-US".to_string()), &none), Language::En);
    assert_eq!(Language::detect_from(None, &locale(Some("zh_CN.UTF-8"))), Language::ZhCn);
    assert_eq!(Language::detect_from(None, &none), Language::En);
    assert_eq!(Language::En.resolve(&none), Language::En);
    assert_ne!(Language::System.resolve(&none), Language::System);
    assert_eq!(Language::ZhCn.as_locale(&none), "zh-CN");
    assert_eq!(Language::En.as_locale(&none), "en");
}

#[test]
fn ids_come_from_the_clock() {
    assert_ne!(new_id(1), new_id(2));
    assert_eq!(new_id(7), new_id(7));
    assert_eq!(default_port(), 22);
}
