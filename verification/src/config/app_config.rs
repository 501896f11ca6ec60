//! Preferences: what they are, how the file of an earlier version is taken over, and how they are
//! loaded when the program starts.

use crate::config::error::ConfigError;
use crate::config::paths::{self, Location, Roots};
use crate::text;
use vstd::prelude::*;

verus! {

/// How much is written to the log.
#[derive(Debug, Clone, Copy, PartialEq, Eq, Structural)]
pub enum LogLevel {
    /// Nothing.
    Off,
    /// Errors.
    Error,
    /// Warnings and what is above.
    Warn,
    /// What is worth knowing and what is above.
    Info,
    /// What helps to find faults and what is above.
    Debug,
    /// Everything.
    Trace,
}

impl Default for LogLevel {
    fn default() -> (r: LogLevel)
        ensures
            r == LogLevel::Info,
    {
        LogLevel::Info
    }
}

impl LogLevel {
    /// All levels, from the least to the most output.
    pub const ALL: [LogLevel; 6] = [
        LogLevel::Off,
        LogLevel::Error,
        LogLevel::Warn,
        LogLevel::Info,
        LogLevel::Debug,
        LogLevel::Trace,
    ];

    /// The name of the level, in lower case, as it is stored.
    pub open spec fn called(self) -> Seq<char> {
        match self {
            LogLevel::Off => "off"@,
            LogLevel::Error => "error"@,
            LogLevel::Warn => "warn"@,
            LogLevel::Info => "info"@,
            LogLevel::Debug => "debug"@,
            LogLevel::Trace => "trace"@,
        }
    }

    /// The name of the level, in lower case, as it is stored.
    pub fn name(self) -> (r: &'static str)
        ensures
            r@ == self.called(),
    {
        match self {
            LogLevel::Off => "off",
            LogLevel::Error => "error",
            LogLevel::Warn => "warn",
            LogLevel::Info => "info",
            LogLevel::Debug => "debug",
            LogLevel::Trace => "trace",
        }
    }
}

/// The language of the program.
#[derive(Debug, Clone, Copy, PartialEq, Eq, Structural)]
pub enum Language {
    /// That of the system.
    System,
    /// Simplified Chinese.
    ZhCn,
    /// English.
    En,
}

impl Default for Language {
    fn default() -> (r: Language)
        ensures
            r == Language::System,
    {
        Language::System
    }
}

/// What the environment says of the language.
pub struct LocaleEnv {
    /// The variable `LC_ALL`.
    pub lc_all: Option<String>,
    /// The variable `LANG`.
    pub lang: Option<String>,
    /// The variable `LANGUAGE`.
    pub language: Option<String>,
}

/// What a [`LocaleEnv`] holds.
pub struct LocaleEnvView {
    /// The variable `LC_ALL`.
    pub lc_all: Option<Seq<char>>,
    /// The variable `LANG`.
    pub lang: Option<Seq<char>>,
    /// The variable `LANGUAGE`.
    pub language: Option<Seq<char>>,
}

impl View for LocaleEnv {
    type V = LocaleEnvView;

    open spec fn view(&self) -> LocaleEnvView {
        LocaleEnvView {
            lc_all: text::opt(self.lc_all),
            lang: text::opt(self.lang),
            language: text::opt(self.language),
        }
    }
}

/// What is known of the system's language: what the system reports, or the first variable that
/// is set.
pub open spec fn known_locale(reported: Option<Seq<char>>, env: LocaleEnvView) -> Seq<char> {
    match (reported, env.lc_all, env.lang, env.language) {
        (Some(s), _, _, _) => s,
        (None, Some(s), _, _) => s,
        (None, None, Some(s), _) => s,
        (None, None, None, Some(s)) => s,
        (None, None, None, None) => Seq::empty(),
    }
}

/// The language of a system, from what it reports and what the environment says.
pub open spec fn detected(reported: Option<Seq<char>>, env: LocaleEnvView) -> Language {
    if text::found_in(text::lowercase(known_locale(reported, env)), "zh"@) {
        Language::ZhCn
    } else {
        Language::En
    }
}

/// A language, with that of the system put in its place.
pub open spec fn resolved(
    language: Language,
    reported: Option<Seq<char>>,
    env: LocaleEnvView,
) -> Language {
    match language {
        Language::System => detected(reported, env),
        other => other,
    }
}

/// The name under which the catalogue has a language.
pub open spec fn locale_name(language: Language) -> Seq<char> {
    match language {
        Language::ZhCn => "zh-CN"@,
        Language::En => "en"@,
        Language::System => "en"@,
    }
}

/// `sys_locale::get_locale`: the language that the system reports. Nothing is said of which it
/// is: it depends on the system and the user.
#[verifier::external_body]
fn system_locale() -> (r: Option<String>) {
    sys_locale::get_locale()
}

impl Language {
    /// All choices; that of the system comes first.
    pub const ALL: [Language; 3] = [Language::System, Language::ZhCn, Language::En];

    /// The language of the system: Chinese where what it reports has `zh` in it, else English.
    /// Where it reports nothing, the first variable that is set is asked.
    pub fn detect_system(env: &LocaleEnv) -> (r: Language)
        ensures
            exists|reported: Option<Seq<char>>| r == #[trigger] detected(reported, env@),
    {
        Language::detect_from(system_locale(), env)
    }

    /// The language of a system, from what it reports and what the environment says.
    pub fn detect_from(reported: Option<String>, env: &LocaleEnv) -> (r: Language)
        ensures
            r == detected(text::opt(reported), env@),
    {
        let lang = match &reported {
            Some(s) => s.clone(),
            None => match &env.lc_all {
                Some(s) => s.clone(),
                None => match &env.lang {
                    Some(s) => s.clone(),
                    None => match &env.language {
                        Some(s) => s.clone(),
                        None => String::new(),
                    },
                },
            },
        };
        assert(lang@ =~= known_locale(text::opt(reported), env@));
        if text::contains(lang.to_lowercase().as_str(), "zh") {
            Language::ZhCn
        } else {
            Language::En
        }
    }

    /// The language with that of the system put in its place.
    pub fn resolve(self, env: &LocaleEnv) -> (r: Language)
        ensures
            self != Language::System ==> r == self,
            exists|reported: Option<Seq<char>>| r == #[trigger] resolved(self, reported, env@),
            r != Language::System,
    {
        match self {
            Language::System => {
                let r = Language::detect_system(env);
                proof {
                    let reported = choose|reported: Option<Seq<char>>|
                        r == #[trigger] detected(reported, env@);
                    assert(r == resolved(self, reported, env@));
                }
                r
            },
            Language::ZhCn => {
                assert(resolved(self, None, env@) == Language::ZhCn);
                Language::ZhCn
            },
            Language::En => {
                assert(resolved(self, None, env@) == Language::En);
                Language::En
            },
        }
    }

    /// The name under which the catalogue has the language.
    pub fn as_locale(self, env: &LocaleEnv) -> (r: &'static str)
        ensures
            exists|reported: Option<Seq<char>>|
                r@ == locale_name(#[trigger] resolved(self, reported, env@)),
    {
        match self.resolve(env) {
            Language::ZhCn => "zh-CN",
            Language::En => "en",
            Language::System => "en",
        }
    }

    /// The name of the language, as it is shown.
    pub open spec fn called(self) -> Seq<char> {
        match self {
            Language::System => "跟随系统"@,
            Language::ZhCn => "简体中文"@,
            Language::En => "English"@,
        }
    }

    /// The name of the language, as it is shown.
    pub fn name(self) -> (r: &'static str)
        ensures
            r@ == self.called(),
    {
        match self {
            Language::System => "跟随系统",
            Language::ZhCn => "简体中文",
            Language::En => "English",
        }
    }
}

/// The directory of the log.
pub fn log_dir(roots: &Roots) -> (r: Location)
    ensures
        r@ == paths::log_dir_of(roots@),
{
    paths::log_dir(roots)
}

/// Preferences on connections.
#[derive(Debug, Clone, Copy, PartialEq, Eq, Structural)]
pub struct ConnectionConfig {
    /// How long a connection may take to open, in seconds; 0 is without a bound.
    pub timeout: u64,
}

impl Default for ConnectionConfig {
    fn default() -> (r: ConnectionConfig)
        ensures
            r == default_connection(),
    {
        ConnectionConfig { timeout: 30 }
    }
}

/// Preferences on connections, by default.
pub open spec fn default_connection() -> ConnectionConfig {
    ConnectionConfig { timeout: 30 }
}

/// The bits of 14.0, the font size by default.
pub const DEFAULT_FONT_SIZE: u32 = 0x4160_0000;

/// Preferences on terminals.
#[derive(Debug)]
pub struct TerminalConfig {
    /// The font; the system's monospaced one where the name is empty.
    pub font: String,
    /// The font size in pixels, as the bits of a single-precision number.
    pub font_size: u32,
    /// The name of the colours.
    pub theme: String,
    /// How many lines are kept to scroll back to; for terminals opened from then on.
    pub scrollback: usize,
    /// Whether the remote shell is made to tell its working directory.
    pub cwd_bootstrap: bool,
    /// Whether the shell's echo of that is suppressed.
    pub suppress_bootstrap_echo: bool,
    /// Whether spaces at the end of copied lines are left out.
    pub trim_trailing_whitespace: bool,
}

/// What a [`TerminalConfig`] holds.
#[verifier::ext_equal]
pub struct TerminalView {
    /// The font.
    pub font: Seq<char>,
    /// The font size.
    pub font_size: u32,
    /// The name of the colours.
    pub theme: Seq<char>,
    /// How many lines are kept to scroll back to.
    pub scrollback: usize,
    /// Whether the remote shell is made to tell its working directory.
    pub cwd_bootstrap: bool,
    /// Whether the shell's echo of that is suppressed.
    pub suppress_bootstrap_echo: bool,
    /// Whether spaces at the end of copied lines are left out.
    pub trim_trailing_whitespace: bool,
}

impl View for TerminalConfig {
    type V = TerminalView;

    open spec fn view(&self) -> TerminalView {
        TerminalView {
            font: self.font@,
            font_size: self.font_size,
            theme: self.theme@,
            scrollback: self.scrollback,
            cwd_bootstrap: self.cwd_bootstrap,
            suppress_bootstrap_echo: self.suppress_bootstrap_echo,
            trim_trailing_whitespace: self.trim_trailing_whitespace,
        }
    }
}

/// Preferences on terminals, by default.
pub open spec fn default_terminal() -> TerminalView {
    TerminalView {
        font: Seq::empty(),
        font_size: DEFAULT_FONT_SIZE,
        theme: "Default"@,
        scrollback: 10000,
        cwd_bootstrap: true,
        suppress_bootstrap_echo: true,
        trim_trailing_whitespace: true,
    }
}

impl Default for TerminalConfig {
    fn default() -> (r: TerminalConfig)
        ensures
            r@ == default_terminal(),
    {
        TerminalConfig {
            font: String::new(),
            font_size: DEFAULT_FONT_SIZE,
            theme: "Default".to_owned(),
            scrollback: 10000,
            cwd_bootstrap: true,
            suppress_bootstrap_echo: true,
            trim_trailing_whitespace: true,
        }
    }
}

/// The fewest transfers that may run at the same time.
pub const MIN_CONCURRENT: usize = 1;

/// The most transfers that may run at the same time.
pub const MAX_CONCURRENT: usize = 8;

/// Preferences on transfers.
#[derive(Debug, Clone, Copy, PartialEq, Eq, Structural)]
pub struct TransferConfig {
    /// How many transfers may run at the same time, over all tabs.
    pub max_concurrent: usize,
    /// How often a failed transfer is tried again by itself; 0 is never.
    pub retry_attempts: u32,
}

/// Preferences on transfers, by default.
pub open spec fn default_transfer() -> TransferConfig {
    TransferConfig { max_concurrent: 3, retry_attempts: 2 }
}

/// Preferences on transfers with the number of those at the same time brought into its bounds.
pub open spec fn normalized(t: TransferConfig) -> TransferConfig {
    TransferConfig {
        max_concurrent: if t.max_concurrent < MIN_CONCURRENT {
            MIN_CONCURRENT
        } else if t.max_concurrent > MAX_CONCURRENT {
            MAX_CONCURRENT
        } else {
            t.max_concurrent
        },
        ..t
    }
}

impl Default for TransferConfig {
    fn default() -> (r: TransferConfig)
        ensures
            r == default_transfer(),
    {
        TransferConfig { max_concurrent: 3, retry_attempts: 2 }
    }
}

impl TransferConfig {
    /// A number out of bounds, as a file written by hand may have it, is brought into them.
    pub fn normalize(&mut self)
        ensures
            *final(self) == normalized(*old(self)),
    {
        if self.max_concurrent < MIN_CONCURRENT {
            self.max_concurrent = MIN_CONCURRENT;
        } else if self.max_concurrent > MAX_CONCURRENT {
            self.max_concurrent = MAX_CONCURRENT;
        }
    }
}

/// Preferences on looks.
#[derive(Debug)]
pub struct AppearanceConfig {
    /// The name of the theme.
    pub theme: String,
    /// The font; the default one where the name is empty.
    pub ui_font: String,
    /// The language.
    pub language: Language,
}

/// What an [`AppearanceConfig`] holds.
#[verifier::ext_equal]
pub struct AppearanceView {
    /// The name of the theme.
    pub theme: Seq<char>,
    /// The font.
    pub ui_font: Seq<char>,
    /// The language.
    pub language: Language,
}

impl View for AppearanceConfig {
    type V = AppearanceView;

    open spec fn view(&self) -> AppearanceView {
        AppearanceView { theme: self.theme@, ui_font: self.ui_font@, language: self.language }
    }
}

/// Preferences on looks, by default.
pub open spec fn default_appearance() -> AppearanceView {
    AppearanceView { theme: "Dark"@, ui_font: Seq::empty(), language: Language::System }
}

impl Default for AppearanceConfig {
    fn default() -> (r: AppearanceConfig)
        ensures
            r@ == default_appearance(),
    {
        AppearanceConfig {
            theme: "Dark".to_owned(),
            ui_font: String::new(),
            language: Language::System,
        }
    }
}

/// Preferences on the log.
#[derive(Debug, Clone, Copy, PartialEq, Eq, Structural)]
pub struct LoggingConfig {
    /// How much is written.
    pub level: LogLevel,
}

/// Preferences on the log, by default.
pub open spec fn default_logging() -> LoggingConfig {
    LoggingConfig { level: LogLevel::Info }
}

impl Default for LoggingConfig {
    fn default() -> (r: LoggingConfig)
        ensures
            r == default_logging(),
    {
        LoggingConfig { level: LogLevel::Info }
    }
}

/// Preferences on updates.
#[derive(Debug, Clone, Copy, PartialEq, Eq, Structural)]
pub struct UpdatesConfig {
    /// Whether a newer version is looked for when the program starts.
    pub auto_check: bool,
    /// When it was last looked for, in seconds since 1970.
    pub last_check_unix: Option<i64>,
}

/// Preferences on updates, by default.
pub open spec fn default_updates() -> UpdatesConfig {
    UpdatesConfig { auto_check: true, last_check_unix: None }
}

impl Default for UpdatesConfig {
    fn default() -> (r: UpdatesConfig)
        ensures
            r == default_updates(),
    {
        UpdatesConfig { auto_check: true, last_check_unix: None }
    }
}

/// Preferences on secrets.
#[derive(Debug, Clone, Copy, PartialEq, Eq, Structural)]
pub struct SecurityConfig {
    /// Whether the system's keyring keeps the key, so that no password is asked for.
    pub remember_master_key: bool,
}

/// Preferences on secrets, by default.
pub open spec fn default_security() -> SecurityConfig {
    SecurityConfig { remember_master_key: true }
}

impl Default for SecurityConfig {
    fn default() -> (r: SecurityConfig)
        ensures
            r == default_security(),
    {
        SecurityConfig { remember_master_key: true }
    }
}

/// Preferences on the window.
#[derive(Debug, Clone, Copy, PartialEq, Eq, Structural)]
pub struct WindowConfig {
    /// Whether the window opens again in the size it had.
    pub remember_size: bool,
    /// The width it had, as the bits of a single-precision number.
    pub width: Option<u32>,
    /// The height it had, as the bits of a single-precision number.
    pub height: Option<u32>,
}

/// Preferences on the window, by default.
pub open spec fn default_window() -> WindowConfig {
    WindowConfig { remember_size: true, width: None, height: None }
}

impl Default for WindowConfig {
    fn default() -> (r: WindowConfig)
        ensures
            r == default_window(),
    {
        WindowConfig { remember_size: true, width: None, height: None }
    }
}

/// The bits of infinity as a single-precision number.
pub const INFINITY_BITS: u32 = 0x7f80_0000;

/// Whether the bits of a single-precision number are those of a finite one above zero: the sign
/// is plus, not all bits are zero, and the exponent is not that of infinity.
pub open spec fn is_size(bits: u32) -> bool {
    0 < bits < INFINITY_BITS
}

/// The size that the window opens in, where there is one to go by.
pub open spec fn size_of(w: WindowConfig) -> Option<(u32, u32)> {
    match (w.remember_size, w.width, w.height) {
        (true, Some(width), Some(height)) => if is_size(width) && is_size(height) {
            Some((width, height))
        } else {
            None
        },
        _ => None,
    }
}

/// All preferences.
pub struct AppConfig {
    /// Where they are kept.
    pub path: Option<Location>,
    /// On connections.
    pub connection: ConnectionConfig,
    /// On terminals.
    pub terminal: TerminalConfig,
    /// On transfers.
    pub transfer: TransferConfig,
    /// On looks.
    pub appearance: AppearanceConfig,
    /// On the log.
    pub logging: LoggingConfig,
    /// On updates.
    pub updates: UpdatesConfig,
    /// On secrets.
    pub security: SecurityConfig,
    /// On the window.
    pub window: WindowConfig,
}

/// What an [`AppConfig`] holds.
#[verifier::ext_equal]
pub struct AppView {
    /// Where it is kept.
    pub path: Option<paths::LocationView>,
    /// On connections.
    pub connection: ConnectionConfig,
    /// On terminals.
    pub terminal: TerminalView,
    /// On transfers.
    pub transfer: TransferConfig,
    /// On looks.
    pub appearance: AppearanceView,
    /// On the log.
    pub logging: LoggingConfig,
    /// On updates.
    pub updates: UpdatesConfig,
    /// On secrets.
    pub security: SecurityConfig,
    /// On the window.
    pub window: WindowConfig,
}

impl View for AppConfig {
    type V = AppView;

    open spec fn view(&self) -> AppView {
        AppView {
            path: paths::opt_location(self.path),
            connection: self.connection,
            terminal: self.terminal@,
            transfer: self.transfer,
            appearance: self.appearance@,
            logging: self.logging,
            updates: self.updates,
            security: self.security,
            window: self.window,
        }
    }
}

/// All preferences by default.
pub open spec fn default_app() -> AppView {
    AppView {
        path: None,
        connection: default_connection(),
        terminal: default_terminal(),
        transfer: default_transfer(),
        appearance: default_appearance(),
        logging: default_logging(),
        updates: default_updates(),
        security: default_security(),
        window: default_window(),
    }
}

impl Default for AppConfig {
    fn default() -> (r: AppConfig)
        ensures
            r@ == default_app(),
    {
        let r = AppConfig {
            path: None,
            connection: ConnectionConfig::default(),
            terminal: TerminalConfig::default(),
            transfer: TransferConfig::default(),
            appearance: AppearanceConfig::default(),
            logging: LoggingConfig::default(),
            updates: UpdatesConfig::default(),
            security: SecurityConfig::default(),
            window: WindowConfig::default(),
        };
        assert(r@ =~= default_app());
        r
    }
}

impl AppConfig {
    /// The size that the window opens in: where it is to be remembered, both numbers are there,
    /// and both are finite and above zero.
    pub fn remembered_size(&self) -> (r: Option<(u32, u32)>)
        ensures
            r == size_of(self@.window),
    {
        if !self.window.remember_size {
            return None;
        }
        match (self.window.width, self.window.height) {
            (Some(w), Some(h)) => if 0 < w && w < INFINITY_BITS && 0 < h && h < INFINITY_BITS {
                Some((w, h))
            } else {
                None
            },
            _ => None,
        }
    }

    /// The size is forgotten; the window that is open stays as it is.
    pub fn clear_window_size(&mut self)
        ensures
            final(self)@ == (AppView {
                window: WindowConfig { width: None, height: None, ..old(self)@.window },
                ..old(self)@
            }),
            size_of(final(self)@.window) is None,
    {
        self.window.width = None;
        self.window.height = None;
    }
}

/// Preferences as an earlier version wrote them, all of them side by side.
#[derive(Debug)]
pub struct LegacyAppConfig {
    /// How long a connection may take to open, in seconds.
    pub connect_timeout: u64,
    /// The font size, as the bits of a single-precision number.
    pub font_size: u32,
    /// The name of the theme.
    pub theme: String,
    /// The font.
    pub ui_font: String,
    /// The font of terminals.
    pub terminal_font: String,
    /// The name of the terminals' colours.
    pub terminal_theme: String,
    /// How much is written to the log.
    pub log_level: LogLevel,
    /// The language.
    pub language: Language,
    /// How many lines are kept to scroll back to.
    pub scrollback: usize,
    /// Whether a newer version is looked for.
    pub auto_check_updates: bool,
    /// When it was last looked for.
    pub last_update_check_unix: Option<i64>,
    /// Whether the keyring keeps the key.
    pub remember_master_key: bool,
    /// Whether spaces at the end of copied lines are left out.
    pub trim_trailing_whitespace: bool,
    /// Whether the remote shell is made to tell its working directory.
    pub cwd_bootstrap: bool,
    /// Whether the shell's echo of that is suppressed.
    pub suppress_bootstrap_echo: bool,
    /// Whether the window opens again in the size it had.
    pub remember_window_size: bool,
    /// The width it had, as the bits of a single-precision number.
    pub window_width: Option<u32>,
    /// The height it had, as the bits of a single-precision number.
    pub window_height: Option<u32>,
}

impl Default for LegacyAppConfig {
    fn default() -> (r: LegacyAppConfig)
        ensures
            taken_over(r) == default_app(),
    {
        let r = LegacyAppConfig {
            connect_timeout: 30,
            font_size: DEFAULT_FONT_SIZE,
            theme: "Dark".to_owned(),
            ui_font: String::new(),
            terminal_font: String::new(),
            terminal_theme: "Default".to_owned(),
            log_level: LogLevel::Info,
            language: Language::System,
            scrollback: 10000,
            auto_check_updates: true,
            last_update_check_unix: None,
            remember_master_key: true,
            trim_trailing_whitespace: true,
            cwd_bootstrap: true,
            suppress_bootstrap_echo: true,
            remember_window_size: true,
            window_width: None,
            window_height: None,
        };
        assert(taken_over(r) =~= default_app());
        r
    }
}

/// What the preferences of an earlier version become. It had none on transfers.
pub open spec fn taken_over(l: LegacyAppConfig) -> AppView {
    AppView {
        path: None,
        connection: ConnectionConfig { timeout: l.connect_timeout },
        terminal: TerminalView {
            font: l.terminal_font@,
            font_size: l.font_size,
            theme: l.terminal_theme@,
            scrollback: l.scrollback,
            cwd_bootstrap: l.cwd_bootstrap,
            suppress_bootstrap_echo: l.suppress_bootstrap_echo,
            trim_trailing_whitespace: l.trim_trailing_whitespace,
        },
        transfer: default_transfer(),
        appearance: AppearanceView {
            theme: l.theme@,
            ui_font: l.ui_font@,
            language: l.language,
        },
        logging: LoggingConfig { level: l.log_level },
        updates: UpdatesConfig {
            auto_check: l.auto_check_updates,
            last_check_unix: l.last_update_check_unix,
        },
        security: SecurityConfig { remember_master_key: l.remember_master_key },
        window: WindowConfig {
            remember_size: l.remember_window_size,
            width: l.window_width,
            height: l.window_height,
        },
    }
}

impl AppConfig {
    /// The preferences of an earlier version are taken over.
    pub fn from_legacy(l: LegacyAppConfig) -> (r: AppConfig)
        ensures
            r@ == taken_over(l),
    {
        let ghost old_l = l;
        let r = AppConfig {
            path: None,
            connection: ConnectionConfig { timeout: l.connect_timeout },
            terminal: TerminalConfig {
                font: l.terminal_font,
                font_size: l.font_size,
                theme: l.terminal_theme,
                scrollback: l.scrollback,
                cwd_bootstrap: l.cwd_bootstrap,
                suppress_bootstrap_echo: l.suppress_bootstrap_echo,
                trim_trailing_whitespace: l.trim_trailing_whitespace,
            },
            transfer: TransferConfig::default(),
            appearance: AppearanceConfig {
                theme: l.theme,
                ui_font: l.ui_font,
                language: l.language,
            },
            logging: LoggingConfig { level: l.log_level },
            updates: UpdatesConfig {
                auto_check: l.auto_check_updates,
                last_check_unix: l.last_update_check_unix,
            },
            security: SecurityConfig { remember_master_key: l.remember_master_key },
            window: WindowConfig {
                remember_size: l.remember_window_size,
                width: l.window_width,
                height: l.window_height,
            },
        };
        assert(r@ =~= taken_over(old_l));
        r
    }
}

/// Each preference of an earlier version is taken over in its own place, and what that version did
/// not know is as it is by default.
pub proof fn law_each_preference_is_taken_over(l: LegacyAppConfig)
    ensures
        ({
            let c = taken_over(l);
            &&& c.connection.timeout == l.connect_timeout
            &&& c.terminal.font == l.terminal_font@
            &&& c.terminal.font_size == l.font_size
            &&& c.terminal.theme == l.terminal_theme@
            &&& c.terminal.scrollback == l.scrollback
            &&& c.terminal.cwd_bootstrap == l.cwd_bootstrap
            &&& c.terminal.suppress_bootstrap_echo == l.suppress_bootstrap_echo
            &&& c.terminal.trim_trailing_whitespace == l.trim_trailing_whitespace
            &&& c.appearance.theme == l.theme@
            &&& c.appearance.ui_font == l.ui_font@
            &&& c.appearance.language == l.language
            &&& c.logging.level == l.log_level
            &&& c.updates.auto_check == l.auto_check_updates
            &&& c.updates.last_check_unix == l.last_update_check_unix
            &&& c.security.remember_master_key == l.remember_master_key
            &&& c.window.remember_size == l.remember_window_size
            &&& c.window.width == l.window_width
            &&& c.window.height == l.window_height
            &&& c.transfer == (TransferConfig { max_concurrent: 3, retry_attempts: 2 })
        }),
{
}

/// How many transfers may run is what was written, or the nearest that is supported; the rest of
/// what was written about transfers stays. To bring it in bounds twice changes no more.
pub proof fn law_bounds_are_kept(t: TransferConfig)
    ensures
        1 <= t.max_concurrent <= 8 ==> normalized(t) == t,
        t.max_concurrent < 1 ==> normalized(t).max_concurrent == 1,
        t.max_concurrent > 8 ==> normalized(t).max_concurrent == 8,
        normalized(t).retry_attempts == t.retry_attempts,
        normalized(normalized(t)) == normalized(t),
{
}

/// A window opens in the size that was written exactly where that is wished and both numbers are
/// there and are the size of something.
pub proof fn law_a_size_counts_where_it_is_one(w: WindowConfig, width: u32, height: u32)
    ensures
        size_of(w) == Some((width, height)) <==> w.remember_size && w.width == Some(width) && w.height
            == Some(height) && 0 < width < 0x7f80_0000 && 0 < height < 0x7f80_0000,
{
}

/// A language that is chosen is used. Where it is left to the system, what the system reports
/// counts before what the environment says, and there `LC_ALL` before `LANG` before `LANGUAGE`;
/// what has the sign of Chinese in it means Chinese, and all else English.
pub proof fn law_the_language_is_the_one_chosen(
    reported: Option<Seq<char>>,
    env: LocaleEnvView,
    words: Seq<char>,
)
    requires
        match reported {
            Some(s) => s == words,
            None => match env.lc_all {
                Some(s) => s == words,
                None => match env.lang {
                    Some(s) => s == words,
                    None => env.language == Some(words),
                },
            },
        },
    ensures
        resolved(Language::ZhCn, reported, env) == Language::ZhCn,
        resolved(Language::En, reported, env) == Language::En,
        text::found_in(text::lowercase(words), "zh"@) ==> resolved(Language::System, reported, env)
            == Language::ZhCn,
        !text::found_in(text::lowercase(words), "zh"@) ==> resolved(
            Language::System,
            reported,
            env,
        ) == Language::En,
        locale_name(Language::ZhCn) == "zh-CN"@,
        locale_name(Language::En) == "en"@,
{
}

/// What holds where nothing was set: half a minute to connect, three transfers at a time and two
/// more attempts each, ten thousand lines kept, and all helpers on.
pub proof fn law_what_holds_where_nothing_is_set()
    ensures
        ({
            let c = default_app();
            &&& c.path is None
            &&& c.connection.timeout == 30
            &&& c.transfer.max_concurrent == 3
            &&& c.transfer.retry_attempts == 2
            &&& c.terminal.scrollback == 10000
            &&& c.terminal.font.len() == 0
            &&& c.terminal.cwd_bootstrap
            &&& c.terminal.suppress_bootstrap_echo
            &&& c.terminal.trim_trailing_whitespace
            &&& c.appearance.theme == "Dark"@
            &&& c.appearance.ui_font.len() == 0
            &&& c.appearance.language == Language::System
            &&& c.logging.level == LogLevel::Info
            &&& c.updates.auto_check
            &&& c.updates.last_check_unix is None
            &&& c.security.remember_master_key
            &&& c.window.remember_size
            &&& c.window.width is None
            &&& c.window.height is None
            &&& normalized(c.transfer) == c.transfer
        }),
{
}

} // verus!
