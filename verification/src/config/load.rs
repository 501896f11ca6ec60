//! How the preferences are loaded when the program starts.
//!
//! Where there is no file yet, one is written with the system's light or dark looks. A file of an
//! earlier version is taken over: it is backed up and written anew. That it cannot be backed up or
//! written is no reason not to start: the next start tries again.

use crate::config::app_config::{AppConfig, LegacyAppConfig};
use crate::config::app_config;
use crate::config::error::{ConfigError, ConfigErrorView};
use crate::config::paths::{self, Location, LocationView, Roots};
use crate::text;
use vstd::prelude::*;

pub mod laws;

verus! {

/// The names at the top of a TOML text, in the order in which `toml` has them, or the words in
/// which it says that the text is none.
pub uninterp spec fn toml_names(content: Seq<char>) -> Result<Seq<Seq<char>>, Seq<char>>;

/// `toml::from_str` into a `toml::Table`: the names at the top of the text, or the words on what
/// is wrong with it.
#[verifier::external_body]
fn top_names(content: &str) -> (r: Result<Vec<String>, String>)
    ensures
        match r {
            Ok(names) => toml_names(content@) == Ok::<Seq<Seq<char>>, Seq<char>>(
                text::strings(names@),
            ),
            Err(words) => toml_names(content@) == Err::<Seq<Seq<char>>, Seq<char>>(words@),
        },
{
    match toml::from_str::<toml::Table>(content) {
        Ok(table) => Ok(table.keys().cloned().collect()),
        Err(e) => Err(e.to_string()),
    }
}

/// Whether this is the name of a preference that an earlier version had at the top.
pub open spec fn is_legacy_name(name: Seq<char>) -> bool {
    ||| name == "connect_timeout"@
    ||| name == "font_size"@
    ||| name == "theme"@
    ||| name == "ui_font"@
    ||| name == "terminal_font"@
    ||| name == "terminal_theme"@
    ||| name == "log_level"@
    ||| name == "language"@
    ||| name == "scrollback"@
    ||| name == "auto_check_updates"@
    ||| name == "last_update_check_unix"@
    ||| name == "remember_master_key"@
    ||| name == "trim_trailing_whitespace"@
    ||| name == "cwd_bootstrap"@
    ||| name == "suppress_bootstrap_echo"@
    ||| name == "remember_window_size"@
    ||| name == "window_width"@
    ||| name == "window_height"@
}

/// Whether a file with these names at the top is one of an earlier version.
pub open spec fn legacy(names: Seq<Seq<char>>) -> bool {
    exists|i: int| 0 <= i < names.len() && is_legacy_name(#[trigger] names[i])
}

/// Whether this is the name of a preference that an earlier version had at the top.
fn legacy_name(name: &str) -> (r: bool)
    ensures
        r == is_legacy_name(name@),
{
    text::same(name, "connect_timeout") || text::same(name, "font_size") || text::same(
        name,
        "theme",
    ) || text::same(name, "ui_font") || text::same(name, "terminal_font") || text::same(
        name,
        "terminal_theme",
    ) || text::same(name, "log_level") || text::same(name, "language") || text::same(
        name,
        "scrollback",
    ) || text::same(name, "auto_check_updates") || text::same(name, "last_update_check_unix")
        || text::same(name, "remember_master_key") || text::same(name, "trim_trailing_whitespace")
        || text::same(name, "cwd_bootstrap") || text::same(name, "suppress_bootstrap_echo")
        || text::same(name, "remember_window_size") || text::same(name, "window_width")
        || text::same(name, "window_height")
}

/// Whether a file with these names at the top is one of an earlier version. The names of the
/// sections that there are now are none of those that there were then.
pub fn is_legacy(names: &Vec<String>) -> (r: bool)
    ensures
        r == legacy(text::strings(names@)),
{
    let mut i: usize = 0;
    let ghost views = text::strings(names@);
    while i < names.len()
        invariant
            i <= names@.len(),
            views == text::strings(names@),
            forall|k: int| 0 <= k < i ==> !is_legacy_name(#[trigger] views[k]),
        decreases names@.len() - i,
    {
        if legacy_name(names[i].as_str()) {
            assert(is_legacy_name(views[i as int]));
            return true;
        }
        assert(!is_legacy_name(views[i as int]));
        i += 1;
    }
    false
}

/// What a text is: preferences of an earlier version or of this one, or why it is neither.
pub open spec fn format_of(content: Seq<char>) -> Result<bool, ConfigErrorView> {
    match toml_names(content) {
        Ok(names) => Ok(legacy(names)),
        Err(words) => Err(ConfigErrorView::Store("解析配置文件失败: "@ + words)),
    }
}

/// Whether a text holds preferences of an earlier version.
pub fn parse_format(content: &str) -> (r: Result<bool, ConfigError>)
    ensures
        match r {
            Ok(old_one) => format_of(content@) == Ok::<bool, ConfigErrorView>(old_one),
            Err(e) => format_of(content@) == Err::<bool, ConfigErrorView>(e@),
        },
{
    match top_names(content) {
        Ok(names) => Ok(is_legacy(&names)),
        Err(words) => Err(ConfigError::Store(text::concat("解析配置文件失败: ", words.as_str()))),
    }
}

/// The name of a backup: the file's name with `.bak` behind it, and with the time behind that
/// where there is a backup already.
pub open spec fn backup_name(file: Option<Seq<char>>, taken: Option<u64>) -> Seq<char> {
    let file = match file {
        Some(file) => file,
        None => "config.toml"@,
    };
    match taken {
        None => file + ".bak"@,
        Some(seconds) => file + ".bak"@ + "."@ + text::decimal(seconds as nat),
    }
}

/// The name of a backup of a file. `taken` is the time in seconds where there is a backup under
/// the plain name already. A file without a name, or with one that is no Unicode, counts as
/// `config.toml`.
pub fn backup_path(file: Option<&str>, taken: Option<u64>) -> (r: String)
    ensures
        r@ == backup_name(
            match file {
                Some(f) => Some(f@),
                None => None,
            },
            taken,
        ),
{
    let file = match file {
        Some(file) => file,
        None => "config.toml",
    };
    let plain = text::concat(file, ".bak");
    match taken {
        None => plain,
        Some(seconds) => {
            let number = text::to_decimal(seconds as u128);
            text::concat3(plain.as_str(), ".", number.as_str())
        },
    }
}

/// The theme and the terminals' colours of a first start.
pub open spec fn first_theme(is_dark: bool) -> (Seq<char>, Seq<char>) {
    if is_dark {
        ("Dark"@, "One Dark"@)
    } else {
        ("Light"@, "One Light"@)
    }
}

/// The theme and the terminals' colours of a first start, from whether the system looks dark.
/// Where it does not tell, it counts as dark.
pub fn first_launch_theme(is_dark: Option<bool>) -> (r: (String, String))
    ensures
        (r.0@, r.1@) == first_theme(is_dark != Some(false)),
{
    let dark = match is_dark {
        Some(d) => d,
        None => true,
    };
    if dark {
        ("Dark".to_owned(), "One Dark".to_owned())
    } else {
        ("Light".to_owned(), "One Light".to_owned())
    }
}

/// How far loading has come: what is to be done next.
pub enum Loading {
    /// The directory is to be created.
    CreateDir {
        /// The directory.
        dir: Location,
    },
    /// Whether the file is there is to be found out.
    LookForFile {
        /// The file.
        path: Location,
    },
    /// Whether the system looks dark is to be found out.
    AskAppearance {
        /// The file.
        path: Location,
    },
    /// The file is to be read.
    Read {
        /// The file.
        path: Location,
    },
    /// The text is to be read as preferences.
    Parse {
        /// The file.
        path: Location,
        /// The text.
        content: String,
        /// Whether they are those of an earlier version.
        old_format: bool,
    },
    /// Whether there is a backup under the plain name is to be found out, and what time it is.
    LookForBackup {
        /// The preferences.
        config: AppConfig,
    },
    /// The file is to be copied to a file of this name beside it.
    Backup {
        /// The preferences.
        config: AppConfig,
        /// The name.
        name: String,
    },
    /// The preferences are to be written to their file.
    Save {
        /// The preferences.
        config: AppConfig,
    },
    /// The preferences are loaded.
    Done {
        /// The preferences.
        config: AppConfig,
    },
    /// There are no preferences to be had.
    Failed {
        /// Why.
        error: ConfigError,
    },
}

/// What a [`Loading`] holds.
pub enum LoadingView {
    /// The directory is to be created.
    CreateDir {
        /// The directory.
        dir: LocationView,
    },
    /// Whether the file is there is to be found out.
    LookForFile {
        /// The file.
        path: LocationView,
    },
    /// Whether the system looks dark is to be found out.
    AskAppearance {
        /// The file.
        path: LocationView,
    },
    /// The file is to be read.
    Read {
        /// The file.
        path: LocationView,
    },
    /// The text is to be read as preferences.
    Parse {
        /// The file.
        path: LocationView,
        /// The text.
        content: Seq<char>,
        /// Whether they are those of an earlier version.
        old_format: bool,
    },
    /// Whether there is a backup under the plain name is to be found out.
    LookForBackup {
        /// The preferences.
        config: app_config::AppView,
    },
    /// The file is to be copied to a file of this name beside it.
    Backup {
        /// The preferences.
        config: app_config::AppView,
        /// The name.
        name: Seq<char>,
    },
    /// The preferences are to be written to their file.
    Save {
        /// The preferences.
        config: app_config::AppView,
    },
    /// The preferences are loaded.
    Done {
        /// The preferences.
        config: app_config::AppView,
    },
    /// There are no preferences to be had.
    Failed {
        /// Why.
        error: ConfigErrorView,
    },
}

impl View for Loading {
    type V = LoadingView;

    open spec fn view(&self) -> LoadingView {
        match *self {
            Loading::CreateDir { dir } => LoadingView::CreateDir { dir: dir@ },
            Loading::LookForFile { path } => LoadingView::LookForFile { path: path@ },
            Loading::AskAppearance { path } => LoadingView::AskAppearance { path: path@ },
            Loading::Read { path } => LoadingView::Read { path: path@ },
            Loading::Parse { path, content, old_format } => LoadingView::Parse {
                path: path@,
                content: content@,
                old_format,
            },
            Loading::LookForBackup { config } => LoadingView::LookForBackup { config: config@ },
            Loading::Backup { config, name } => LoadingView::Backup {
                config: config@,
                name: name@,
            },
            Loading::Save { config } => LoadingView::Save { config: config@ },
            Loading::Done { config } => LoadingView::Done { config: config@ },
            Loading::Failed { error } => LoadingView::Failed { error: error@ },
        }
    }
}

/// What came of what was to be done.
pub enum Reply {
    /// It was done.
    Completed,
    /// It failed, with words on why.
    Failed(String),
    /// Whether the file is there.
    Found(bool),
    /// Whether the system looks dark, where it tells.
    Appearance(Option<bool>),
    /// What the file holds.
    Content(String),
    /// What an earlier version wrote.
    Legacy(LegacyAppConfig),
    /// What this version wrote.
    Sectioned(AppConfig),
    /// The time in seconds since 1970, where there is a backup under the plain name already.
    Taken(Option<u64>),
}

/// Where loading begins.
pub open spec fn begun(roots: paths::RootsView) -> LoadingView {
    match paths::config_dir_of(roots) {
        Some(dir) => LoadingView::CreateDir { dir },
        None => LoadingView::Failed { error: ConfigErrorView::ConfigDir("无法定位系统配置目录"@) },
    }
}

/// Words behind what they are about, as an error.
pub open spec fn store_error(about: Seq<char>, words: Seq<char>) -> LoadingView {
    LoadingView::Failed { error: ConfigErrorView::Store(about + words) }
}

/// Preferences as they are once they were read: they know their file, and the number of transfers
/// is in its bounds.
pub open spec fn settled(config: app_config::AppView, path: LocationView) -> app_config::AppView {
    app_config::AppView {
        path: Some(path),
        transfer: app_config::normalized(config.transfer),
        ..config
    }
}

/// The preferences of a first start.
pub open spec fn first_config(path: LocationView, is_dark: Option<bool>) -> app_config::AppView {
    let d = app_config::default_app();
    let theme = first_theme(is_dark != Some(false));
    app_config::AppView {
        path: Some(path),
        appearance: app_config::AppearanceView { theme: theme.0, ..d.appearance },
        terminal: app_config::TerminalView { theme: theme.1, ..d.terminal },
        ..d
    }
}

/// How loading goes on. A reply that does not belong changes nothing.
pub open spec fn following(l: LoadingView, reply: Reply) -> LoadingView {
    match (l, reply) {
        (LoadingView::CreateDir { dir }, Reply::Completed) => LoadingView::LookForFile {
            path: paths::down(dir, "config.toml"@),
        },
        (LoadingView::CreateDir { .. }, Reply::Failed(words)) => store_error(
            "创建配置目录失败: "@,
            words@,
        ),
        (LoadingView::LookForFile { path }, Reply::Found(there)) => if there {
            LoadingView::Read { path }
        } else {
            LoadingView::AskAppearance { path }
        },
        (LoadingView::AskAppearance { path }, Reply::Appearance(is_dark)) => LoadingView::Save {
            config: first_config(path, is_dark),
        },
        (LoadingView::Read { path }, Reply::Content(content)) => match format_of(content@) {
            Ok(old_format) => LoadingView::Parse { path, content: content@, old_format },
            Err(error) => LoadingView::Failed { error },
        },
        (LoadingView::Read { .. }, Reply::Failed(words)) => store_error(
            "读取配置文件失败: "@,
            words@,
        ),
        (LoadingView::Parse { path, old_format: true, .. }, Reply::Legacy(l)) =>
            LoadingView::LookForBackup { config: settled(app_config::taken_over(l), path) },
        (LoadingView::Parse { path, old_format: false, .. }, Reply::Sectioned(config)) =>
            LoadingView::Done { config: settled(config@, path) },
        (LoadingView::Parse { old_format, .. }, Reply::Failed(words)) => store_error(
            if old_format {
                "解析旧版配置文件失败: "@
            } else {
                "解析配置文件失败: "@
            },
            words@,
        ),
        (LoadingView::LookForBackup { config }, Reply::Taken(taken)) => LoadingView::Backup {
            config,
            name: backup_name(Some("config.toml"@), taken),
        },
        (LoadingView::Backup { config, .. }, Reply::Completed) => LoadingView::Save { config },
        (LoadingView::Backup { config, .. }, Reply::Failed(_)) => LoadingView::Save { config },
        (LoadingView::Save { config }, Reply::Completed) => LoadingView::Done { config },
        (LoadingView::Save { config }, Reply::Failed(_)) => LoadingView::Done { config },
        _ => l,
    }
}

/// Loading begins.
pub fn begin(roots: &Roots) -> (r: Loading)
    ensures
        r@ == begun(roots@),
{
    match paths::config_dir(roots) {
        Some(dir) => Loading::CreateDir { dir },
        None => Loading::Failed {
            error: ConfigError::ConfigDir("无法定位系统配置目录".to_owned()),
        },
    }
}

/// Preferences are given their file, and the number of transfers is brought into its bounds.
fn settle(config: AppConfig, path: Location) -> (r: AppConfig)
    ensures
        r@ == settled(config@, path@),
{
    let mut config = config;
    config.path = Some(path);
    config.transfer.normalize();
    config
}

/// The preferences of a first start.
fn first(path: Location, is_dark: Option<bool>) -> (r: AppConfig)
    ensures
        r@ == first_config(path@, is_dark),
{
    let (theme, terminal_theme) = first_launch_theme(is_dark);
    let mut config = AppConfig::default();
    config.path = Some(path);
    config.appearance.theme = theme;
    config.terminal.theme = terminal_theme;
    assert(config@ =~= first_config(path@, is_dark));
    config
}

/// Words behind what they are about, as an error.
fn failed(about: &str, words: &str) -> (r: Loading)
    ensures
        r@ == store_error(about@, words@),
{
    Loading::Failed { error: ConfigError::Store(text::concat(about, words)) }
}

impl Loading {
    /// Loading goes on with what came of what was to be done.
    pub fn next(self, reply: Reply) -> (r: Loading)
        ensures
            r@ == following(self@, reply),
    {
        match (self, reply) {
            (Loading::CreateDir { dir }, Reply::Completed) => Loading::LookForFile {
                path: dir.down("config.toml"),
            },
            (Loading::CreateDir { .. }, Reply::Failed(words)) => failed(
                "创建配置目录失败: ",
                words.as_str(),
            ),
            (Loading::LookForFile { path }, Reply::Found(there)) => if there {
                Loading::Read { path }
            } else {
                Loading::AskAppearance { path }
            },
            (Loading::AskAppearance { path }, Reply::Appearance(is_dark)) => Loading::Save {
                config: first(path, is_dark),
            },
            (Loading::Read { path }, Reply::Content(content)) => match parse_format(
                content.as_str(),
            ) {
                Ok(old_format) => Loading::Parse { path, content, old_format },
                Err(error) => Loading::Failed { error },
            },
            (Loading::Read { .. }, Reply::Failed(words)) => failed(
                "读取配置文件失败: ",
                words.as_str(),
            ),
            (Loading::Parse { path, old_format: true, .. }, Reply::Legacy(l)) =>
                Loading::LookForBackup { config: settle(AppConfig::from_legacy(l), path) },
            (Loading::Parse { path, old_format: false, .. }, Reply::Sectioned(config)) =>
                Loading::Done { config: settle(config, path) },
            (Loading::Parse { old_format, .. }, Reply::Failed(words)) => failed(
                if old_format {
                    "解析旧版配置文件失败: "
                } else {
                    "解析配置文件失败: "
                },
                words.as_str(),
            ),
            (Loading::LookForBackup { config }, Reply::Taken(taken)) => Loading::Backup {
                config,
                name: backup_path(Some("config.toml"), taken),
            },
            (Loading::Backup { config, .. }, Reply::Completed) => Loading::Save { config },
            (Loading::Backup { config, .. }, Reply::Failed(_)) => Loading::Save { config },
            (Loading::Save { config }, Reply::Completed) => Loading::Done { config },
            (Loading::Save { config }, Reply::Failed(_)) => Loading::Done { config },
            (other, _) => other,
        }
    }
}

/// Once the preferences are known, nothing that fails stops the program from starting.
pub proof fn law_only_unreadable_preferences_stop_the_start(l: LoadingView, reply: Reply)
    requires
        following(l, reply) is Failed,
        !(l is Failed),
    ensures
        l is CreateDir || l is Read || l is Parse,
{
}

/// Preferences are written only on a first start, and where the file of an earlier version was
/// to be backed up before.
pub proof fn law_an_old_file_is_backed_up_before_it_is_written(l: LoadingView, reply: Reply)
    requires
        following(l, reply) is Save,
        !(l is Save),
    ensures
        l is AskAppearance || l is Backup,
        l is Backup ==> following(l, reply)->Save_config == l->Backup_config,
{
}

/// However the file was written, no more and no fewer transfers than the bounds allow run at the
/// same time once it was read, and the preferences know the file that they came from.
pub proof fn law_read_preferences_are_in_bounds(l: LoadingView, reply: Reply)
    requires
        l is Parse,
    ensures
        match following(l, reply) {
            LoadingView::Done { config } => app_config::MIN_CONCURRENT
                <= config.transfer.max_concurrent <= app_config::MAX_CONCURRENT && config.path
                == Some(l->Parse_path),
            LoadingView::LookForBackup { config } => app_config::MIN_CONCURRENT
                <= config.transfer.max_concurrent <= app_config::MAX_CONCURRENT && config.path
                == Some(l->Parse_path),
            _ => true,
        },
{
}

/// A backup stands beside the file, under its name with `.bak` behind it; where that is taken, the
/// time stands behind that, so that no other backup is written over.
pub proof fn law_backups_have_names_of_their_own(file: Seq<char>, seconds: u64, other: u64)
    requires
        seconds != other,
    ensures
        backup_name(Some(file), None) == file + ".bak"@,
        backup_name(Some(file), Some(seconds)) == file + ".bak"@ + "."@ + text::decimal(
            seconds as nat,
        ),
        backup_name(Some(file), Some(seconds)) != backup_name(Some(file), None),
        backup_name(Some(file), Some(seconds)) != backup_name(Some(file), Some(other)),
        backup_name(None, None) == backup_name(Some("config.toml"@), None),
{
    reveal_strlit(".");
    text::law_decimal_reads_back(seconds as nat, u64::MAX as nat);
    text::law_decimal_reads_back(other as nat, u64::MAX as nat);
    let front = file + ".bak"@ + "."@;
    let (a, b) = (backup_name(Some(file), Some(seconds)), backup_name(Some(file), Some(other)));
    assert(a.len() > backup_name(Some(file), None).len());
    if a == b {
        assert(a.skip(front.len() as int) =~= text::decimal(seconds as nat));
        assert(b.skip(front.len() as int) =~= text::decimal(other as nat));
    }
}

/// The names that only an earlier version wrote at the top of its file.
pub open spec fn earlier_names() -> Seq<Seq<char>> {
    seq![
        "connect_timeout"@,
        "font_size"@,
        "theme"@,
        "ui_font"@,
        "terminal_font"@,
        "terminal_theme"@,
        "log_level"@,
        "language"@,
        "scrollback"@,
        "auto_check_updates"@,
        "last_update_check_unix"@,
        "remember_master_key"@,
        "trim_trailing_whitespace"@,
        "cwd_bootstrap"@,
        "suppress_bootstrap_echo"@,
        "remember_window_size"@,
        "window_width"@,
        "window_height"@,
    ]
}

/// A file is one of an earlier version exactly where one of the names that such a version wrote
/// stands at its top, whatever else does.
pub proof fn law_an_old_file_is_told_by_its_names(names: Seq<Seq<char>>)
    ensures
        legacy(names) <==> exists|i: int, k: int|
            0 <= i < names.len() && 0 <= k < earlier_names().len() && #[trigger] names[i]
                == #[trigger] earlier_names()[k],
{
    assert forall|name: Seq<char>| is_legacy_name(name) implies exists|k: int|
        0 <= k < earlier_names().len() && name == #[trigger] earlier_names()[k] by {
        lemma_earlier_name(name);
    }
    if legacy(names) {
        let i = choose|i: int| 0 <= i < names.len() && is_legacy_name(#[trigger] names[i]);
        lemma_earlier_name(names[i]);
        let k = choose|k: int|
            0 <= k < earlier_names().len() && names[i] == #[trigger] earlier_names()[k];
        assert(names[i] == earlier_names()[k]);
    }
    if exists|i: int, k: int|
        0 <= i < names.len() && 0 <= k < earlier_names().len() && #[trigger] names[i]
            == #[trigger] earlier_names()[k] {
        let (i, k) = choose|i: int, k: int|
            0 <= i < names.len() && 0 <= k < earlier_names().len() && #[trigger] names[i]
                == #[trigger] earlier_names()[k];
        assert(is_legacy_name(names[i]));
    }
}

proof fn lemma_earlier_name(name: Seq<char>)
    requires
        is_legacy_name(name),
    ensures
        exists|k: int| 0 <= k < earlier_names().len() && name == #[trigger] earlier_names()[k],
{
    let all = earlier_names();
    assert(all[0] == name || all[1] == name || all[2] == name || all[3] == name || all[4] == name
        || all[5] == name || all[6] == name || all[7] == name || all[8] == name || all[9] == name
        || all[10] == name || all[11] == name || all[12] == name || all[13] == name || all[14] == name
        || all[15] == name || all[16] == name || all[17] == name);
}

/// A first start follows the system: light where that is light, and dark where it is dark or does
/// not tell; all else is as it is by default, and is written where the preferences belong.
pub proof fn law_a_first_start_follows_the_system(path: LocationView, is_dark: Option<bool>)
    ensures
        ({
            let next = following(LoadingView::AskAppearance { path }, Reply::Appearance(is_dark));
            let d = app_config::default_app();
            &&& next is Save
            &&& next->Save_config == (app_config::AppView {
                path: Some(path),
                appearance: app_config::AppearanceView {
                    theme: if is_dark == Some(false) {
                        "Light"@
                    } else {
                        "Dark"@
                    },
                    ..d.appearance
                },
                terminal: app_config::TerminalView {
                    theme: if is_dark == Some(false) {
                        "One Light"@
                    } else {
                        "One Dark"@
                    },
                    ..d.terminal
                },
                ..d
            })
        }),
{
}

/// A start goes from step to step: a directory that is made is looked into, a file that is there is
/// read and one that is not is begun, and what cannot be made, read or parsed is told with why. An
/// old file is put aside first, and whatever comes of that, the new one is written.
pub proof fn law_a_start_goes_from_step_to_step(
    dir: LocationView,
    path: LocationView,
    content: String,
    words: String,
    config: app_config::AppView,
)
    ensures
        following(LoadingView::CreateDir { dir }, Reply::Completed) == (LoadingView::LookForFile {
            path: paths::down(dir, "config.toml"@),
        }),
        following(LoadingView::LookForFile { path }, Reply::Found(true)) == (LoadingView::Read { path }),
        following(LoadingView::LookForFile { path }, Reply::Found(false)) == (
        LoadingView::AskAppearance { path }),
        format_of(content@) is Err ==> following(LoadingView::Read { path }, Reply::Content(content))
            == (LoadingView::Failed { error: format_of(content@)->Err_0 }),
        format_of(content@) is Ok ==> following(LoadingView::Read { path }, Reply::Content(content))
            == (LoadingView::Parse {
            path,
            content: content@,
            old_format: format_of(content@)->Ok_0,
        }),
        following(LoadingView::CreateDir { dir }, Reply::Failed(words)) == (LoadingView::Failed {
            error: ConfigErrorView::Store("创建配置目录失败: "@ + words@),
        }),
        following(LoadingView::Read { path }, Reply::Failed(words)) == (LoadingView::Failed {
            error: ConfigErrorView::Store("读取配置文件失败: "@ + words@),
        }),
        following(
            LoadingView::Parse { path, content: content@, old_format: false },
            Reply::Failed(words),
        ) == (LoadingView::Failed {
            error: ConfigErrorView::Store("解析配置文件失败: "@ + words@),
        }),
        following(
            LoadingView::Parse { path, content: content@, old_format: true },
            Reply::Failed(words),
        ) == (LoadingView::Failed {
            error: ConfigErrorView::Store("解析旧版配置文件失败: "@ + words@),
        }),
        forall|name: Seq<char>|
            #![trigger following(LoadingView::Backup { config, name }, Reply::Completed)]
            following(LoadingView::Backup { config, name }, Reply::Completed) == (
            LoadingView::Save { config }) && following(
                LoadingView::Backup { config, name },
                Reply::Failed(words),
            ) == (LoadingView::Save { config }),
        following(LoadingView::LookForBackup { config }, Reply::Taken(None)) == (
        LoadingView::Backup { config, name: "config.toml"@ + ".bak"@ }),
        following(LoadingView::Save { config }, Reply::Completed) == (LoadingView::Done { config }),
        following(LoadingView::Save { config }, Reply::Failed(words)) == (LoadingView::Done { config }),
{
}

/// What was read is what the program starts with, but that it knows its file and is in bounds.
pub proof fn law_what_was_read_is_used(
    path: LocationView,
    content: Seq<char>,
    config: AppConfig,
    old: LegacyAppConfig,
)
    ensures
        ({
            let read = following(
                LoadingView::Parse { path, content, old_format: false },
                Reply::Sectioned(config),
            );
            &&& read is Done
            &&& read->Done_config == (app_config::AppView {
                path: Some(path),
                transfer: read->Done_config.transfer,
                ..config@
            })
            &&& 1 <= config@.transfer.max_concurrent <= 8 ==> read->Done_config.transfer
                == config@.transfer
        }),
        ({
            let read = following(
                LoadingView::Parse { path, content, old_format: true },
                Reply::Legacy(old),
            );
            &&& read is LookForBackup
            &&& read->LookForBackup_config == (app_config::AppView {
                path: Some(path),
                ..app_config::taken_over(old)
            })
        }),
{
}

} // verus!
