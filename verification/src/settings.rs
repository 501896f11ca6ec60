//! The settings: what is shown of them, and what becomes of what is chosen.

use crate::config::app_config::{self, AppConfig, Language, LogLevel};
use crate::font::{self, FontLists};
use crate::text;
use vstd::prelude::*;

verus! {

/// What the settings are about.
#[derive(Debug, Clone, Copy, PartialEq, Eq, Structural)]
pub enum SettingsCategory {
    /// The connections, the log and the language.
    General,
    /// The master password.
    MasterPassword,
    /// How the program and the terminals look.
    Appearance,
    /// Newer versions.
    Updates,
    /// The program itself.
    About,
}

/// What is shown of the settings.
#[derive(Debug)]
pub struct State {
    /// Whether they are shown.
    pub show_settings: bool,
    /// What is shown of them.
    pub category: SettingsCategory,
    /// The fonts to choose from for the program.
    pub ui_font_options: Vec<String>,
    /// The fonts to choose from for the terminals.
    pub terminal_font_options: Vec<String>,
}

/// What a [`State`] holds.
#[verifier::ext_equal]
pub struct ShownView {
    /// Whether they are shown.
    pub show_settings: bool,
    /// What is shown of them.
    pub category: SettingsCategory,
    /// The fonts to choose from for the program.
    pub ui_font_options: Seq<Seq<char>>,
    /// The fonts to choose from for the terminals.
    pub terminal_font_options: Seq<Seq<char>>,
}

impl View for State {
    type V = ShownView;

    open spec fn view(&self) -> ShownView {
        ShownView {
            show_settings: self.show_settings,
            category: self.category,
            ui_font_options: text::strings(self.ui_font_options@),
            terminal_font_options: text::strings(self.terminal_font_options@),
        }
    }
}

/// What the user chooses.
#[derive(Debug)]
pub enum Message {
    /// The settings are to be shown, or put away.
    Toggle,
    /// This is to be shown of them.
    CategorySelected(SettingsCategory),
    /// How long to wait for a connection is typed.
    ConnectTimeout(String),
    /// How many lines a terminal keeps is typed.
    Scrollback(String),
    /// The size of the terminals' font: the bits of a single-precision number.
    FontSize(u32),
    /// How the program looks.
    Theme(String),
    /// The font of the program.
    UiFont(String),
    /// The font of the terminals.
    TerminalFont(String),
    /// How the terminals look.
    TerminalTheme(String),
    /// What is logged.
    LogLevel(LogLevel),
    /// The language.
    Language(Language),
    /// The directory of the logs is to be shown.
    OpenLogFolder,
    /// Whether a newer version is looked for at the start.
    AutoCheckUpdates(bool),
}

/// What is to be done.
#[derive(Debug)]
pub enum Event {
    /// How long to wait for a connection, in seconds; 0 for no limit.
    ConnectTimeout(u64),
    /// How many lines a terminal keeps.
    Scrollback(usize),
    /// The size of the terminals' font.
    FontSize(u32),
    /// How the program looks.
    Theme(String),
    /// The font of the program.
    UiFont(String),
    /// The font of the terminals.
    TerminalFont(String),
    /// How the terminals look.
    TerminalTheme(String),
    /// What is logged.
    LogLevel(LogLevel),
    /// The language.
    Language(Language),
    /// The directory of the logs is to be shown.
    OpenLogFolder,
    /// Whether a newer version is looked for at the start.
    AutoCheckUpdates(bool),
}

/// What an [`Event`] holds.
pub enum EventView {
    /// How long to wait for a connection.
    ConnectTimeout(u64),
    /// How many lines a terminal keeps.
    Scrollback(usize),
    /// The size of the terminals' font.
    FontSize(u32),
    /// How the program looks.
    Theme(Seq<char>),
    /// The font of the program.
    UiFont(Seq<char>),
    /// The font of the terminals.
    TerminalFont(Seq<char>),
    /// How the terminals look.
    TerminalTheme(Seq<char>),
    /// What is logged.
    LogLevel(LogLevel),
    /// The language.
    Language(Language),
    /// The directory of the logs is to be shown.
    OpenLogFolder,
    /// Whether a newer version is looked for at the start.
    AutoCheckUpdates(bool),
}

impl View for Event {
    type V = EventView;

    open spec fn view(&self) -> EventView {
        match *self {
            Event::ConnectTimeout(v) => EventView::ConnectTimeout(v),
            Event::Scrollback(v) => EventView::Scrollback(v),
            Event::FontSize(v) => EventView::FontSize(v),
            Event::Theme(v) => EventView::Theme(v@),
            Event::UiFont(v) => EventView::UiFont(v@),
            Event::TerminalFont(v) => EventView::TerminalFont(v@),
            Event::TerminalTheme(v) => EventView::TerminalTheme(v@),
            Event::LogLevel(v) => EventView::LogLevel(v),
            Event::Language(v) => EventView::Language(v),
            Event::OpenLogFolder => EventView::OpenLogFolder,
            Event::AutoCheckUpdates(v) => EventView::AutoCheckUpdates(v),
        }
    }
}

/// What an event holds, where there is one.
pub open spec fn opt_event(e: Option<Event>) -> Option<EventView> {
    match e {
        Some(e) => Some(e@),
        None => None,
    }
}

/// What the settings know of the rest.
pub struct Ctx<'a> {
    /// The font of the program.
    pub ui_font: &'a str,
    /// The font of the terminals.
    pub terminal_font: &'a str,
    /// What stands for the default font, in the language that is chosen.
    pub default_label: &'a str,
    /// The families of the system's fonts.
    pub fonts: &'a FontLists,
}

/// What a [`Ctx`] holds.
pub struct CtxView {
    /// The font of the program.
    pub ui_font: Seq<char>,
    /// The font of the terminals.
    pub terminal_font: Seq<char>,
    /// What stands for the default font.
    pub default_label: Seq<char>,
    /// The families of the system's fonts.
    pub fonts: font::ListsView,
}

impl<'a> View for Ctx<'a> {
    type V = CtxView;

    open spec fn view(&self) -> CtxView {
        CtxView {
            ui_font: self.ui_font@,
            terminal_font: self.terminal_font@,
            default_label: self.default_label@,
            fonts: self.fonts@,
        }
    }
}

/// The settings with the fonts to choose from made out anew.
pub open spec fn refreshed(s: ShownView, ctx: CtxView) -> ShownView {
    ShownView {
        ui_font_options: font::options(ctx.default_label, ctx.fonts.all, ctx.ui_font),
        terminal_font_options: font::options(ctx.default_label, ctx.fonts.mono, ctx.terminal_font),
        ..s
    }
}

/// What is shown, and what is to be done.
pub open spec fn step(s: ShownView, msg: Message, ctx: CtxView) -> (ShownView, Option<EventView>) {
    match msg {
        Message::Toggle => (ShownView { show_settings: !s.show_settings, ..s }, None),
        Message::CategorySelected(category) => (ShownView { category, ..s }, None),
        Message::ConnectTimeout(typed) => match text::number(typed@, u64::MAX as nat) {
            Some(v) => (s, Some(EventView::ConnectTimeout(v as u64))),
            None => (s, None),
        },
        Message::Scrollback(typed) => match text::number(typed@, usize::MAX as nat) {
            Some(v) => (s, Some(EventView::Scrollback(v as usize))),
            None => (s, None),
        },
        Message::FontSize(v) => (s, Some(EventView::FontSize(v))),
        Message::Theme(v) => (s, Some(EventView::Theme(v@))),
        Message::UiFont(v) => (s, Some(EventView::UiFont(v@))),
        Message::TerminalFont(v) => (s, Some(EventView::TerminalFont(v@))),
        Message::TerminalTheme(v) => (s, Some(EventView::TerminalTheme(v@))),
        Message::LogLevel(v) => (s, Some(EventView::LogLevel(v))),
        Message::Language(v) => (refreshed(s, ctx), Some(EventView::Language(v))),
        Message::OpenLogFolder => (s, Some(EventView::OpenLogFolder)),
        Message::AutoCheckUpdates(v) => (s, Some(EventView::AutoCheckUpdates(v))),
    }
}

impl State {
    /// The settings are not shown.
    pub fn new(ctx: &Ctx) -> (r: State)
        ensures
            r@ == refreshed(
                (ShownView {
                    show_settings: false,
                    category: SettingsCategory::General,
                    ui_font_options: Seq::empty(),
                    terminal_font_options: Seq::empty(),
                }),
                ctx@,
            ),
    {
        State {
            show_settings: false,
            category: SettingsCategory::General,
            ui_font_options: font::ui_font_options(ctx.default_label, ctx.fonts, ctx.ui_font),
            terminal_font_options: font::terminal_font_options(
                ctx.default_label,
                ctx.fonts,
                ctx.terminal_font,
            ),
        }
    }

    /// What is shown changes, and what is to be done is told.
    pub fn update(&mut self, msg: Message, ctx: &Ctx) -> (r: Option<Event>)
        ensures
            (final(self)@, opt_event(r)) == step(old(self)@, msg, ctx@),
    {
        match msg {
            Message::Toggle => {
                self.show_settings = !self.show_settings;
                None
            },
            Message::CategorySelected(category) => {
                self.category = category;
                None
            },
            Message::ConnectTimeout(typed) => match text::parse_number(&typed, u64::MAX) {
                Some(v) => Some(Event::ConnectTimeout(v)),
                None => None,
            },
            Message::Scrollback(typed) => match text::parse_number(&typed, usize::MAX as u64) {
                Some(v) => Some(Event::Scrollback(v as usize)),
                None => None,
            },
            Message::FontSize(v) => Some(Event::FontSize(v)),
            Message::Theme(v) => Some(Event::Theme(v)),
            Message::UiFont(v) => Some(Event::UiFont(v)),
            Message::TerminalFont(v) => Some(Event::TerminalFont(v)),
            Message::TerminalTheme(v) => Some(Event::TerminalTheme(v)),
            Message::LogLevel(v) => Some(Event::LogLevel(v)),
            Message::Language(v) => {
                self.ui_font_options =
                font::ui_font_options(ctx.default_label, ctx.fonts, ctx.ui_font);
                self.terminal_font_options =
                font::terminal_font_options(ctx.default_label, ctx.fonts, ctx.terminal_font);
                Some(Event::Language(v))
            },
            Message::OpenLogFolder => Some(Event::OpenLogFolder),
            Message::AutoCheckUpdates(v) => Some(Event::AutoCheckUpdates(v)),
        }
    }
}

/// The configuration with what was chosen.
pub open spec fn configured(c: app_config::AppView, e: EventView) -> app_config::AppView {
    match e {
        EventView::ConnectTimeout(v) => app_config::AppView {
            connection: app_config::ConnectionConfig { timeout: v },
            ..c
        },
        EventView::Scrollback(v) => app_config::AppView {
            terminal: app_config::TerminalView { scrollback: v, ..c.terminal },
            ..c
        },
        EventView::FontSize(v) => app_config::AppView {
            terminal: app_config::TerminalView { font_size: v, ..c.terminal },
            ..c
        },
        EventView::Theme(v) => app_config::AppView {
            appearance: app_config::AppearanceView { theme: v, ..c.appearance },
            ..c
        },
        EventView::UiFont(v) => app_config::AppView {
            appearance: app_config::AppearanceView { ui_font: v, ..c.appearance },
            ..c
        },
        EventView::TerminalFont(v) => app_config::AppView {
            terminal: app_config::TerminalView { font: v, ..c.terminal },
            ..c
        },
        EventView::TerminalTheme(v) => app_config::AppView {
            terminal: app_config::TerminalView { theme: v, ..c.terminal },
            ..c
        },
        EventView::LogLevel(v) => app_config::AppView {
            logging: app_config::LoggingConfig { level: v },
            ..c
        },
        EventView::Language(v) => app_config::AppView {
            appearance: app_config::AppearanceView { language: v, ..c.appearance },
            ..c
        },
        EventView::OpenLogFolder => c,
        EventView::AutoCheckUpdates(v) => app_config::AppView {
            updates: app_config::UpdatesConfig { auto_check: v, ..c.updates },
            ..c
        },
    }
}

/// What was chosen is written into the configuration.
pub fn configure(config: &mut AppConfig, e: &Event)
    ensures
        final(config)@ == configured(old(config)@, e@),
{
    match e {
        Event::ConnectTimeout(v) => {
            config.connection.timeout = *v;
        },
        Event::Scrollback(v) => {
            config.terminal.scrollback = *v;
        },
        Event::FontSize(v) => {
            config.terminal.font_size = *v;
        },
        Event::Theme(v) => {
            config.appearance.theme = v.clone();
        },
        Event::UiFont(v) => {
            config.appearance.ui_font = v.clone();
        },
        Event::TerminalFont(v) => {
            config.terminal.font = v.clone();
        },
        Event::TerminalTheme(v) => {
            config.terminal.theme = v.clone();
        },
        Event::LogLevel(v) => {
            config.logging.level = *v;
        },
        Event::Language(v) => {
            config.appearance.language = *v;
        },
        Event::OpenLogFolder => {},
        Event::AutoCheckUpdates(v) => {
            config.updates.auto_check = *v;
        },
    }
}

/// What is typed and is no number changes nothing and asks for nothing.
pub proof fn law_only_numbers_are_taken(s: ShownView, typed: String, ctx: CtxView)
    ensures
        text::number(typed@, u64::MAX as nat) is None ==> step(
            s,
            Message::ConnectTimeout(typed),
            ctx,
        ) == (s, None::<EventView>),
        text::number(typed@, usize::MAX as nat) is None ==> step(s, Message::Scrollback(typed), ctx)
            == (s, None::<EventView>),
{
}

/// Whatever is chosen, the file of the configuration, the transfers, what is kept of the master
/// password and the window stay as they are.
pub proof fn law_settings_touch_nothing_else(c: app_config::AppView, e: EventView)
    ensures
        configured(c, e).path == c.path,
        configured(c, e).transfer == c.transfer,
        configured(c, e).security == c.security,
        configured(c, e).window == c.window,
        configured(c, e).updates.last_check_unix == c.updates.last_check_unix,
{
}

/// Choosing the language makes out the fonts to choose from anew, and nothing else does.
pub proof fn law_the_language_renews_the_fonts(s: ShownView, msg: Message, ctx: CtxView)
    ensures
        msg is Language ==> step(s, msg, ctx).0 == refreshed(s, ctx),
        !(msg is Language) ==> step(s, msg, ctx).0.ui_font_options == s.ui_font_options && step(
            s,
            msg,
            ctx,
        ).0.terminal_font_options == s.terminal_font_options,
{
}

/// What the preferences are once something was chosen: what was chosen is one of them, and all
/// others are as they were. A number that was typed is the one that it spells.
pub proof fn law_a_choice_becomes_the_preference(
    c: app_config::AppView,
    s: ShownView,
    ctx: CtxView,
    v: String,
    n: u32,
    level: LogLevel,
    language: Language,
    on: bool,
)
    ensures
        ({
            let theme = step(s, Message::Theme(v), ctx).1;
            theme is Some && configured(c, theme->0) == (app_config::AppView {
                appearance: app_config::AppearanceView { theme: v@, ..c.appearance },
                ..c
            })
        }),
        ({
            let font = step(s, Message::UiFont(v), ctx).1;
            font is Some && configured(c, font->0) == (app_config::AppView {
                appearance: app_config::AppearanceView { ui_font: v@, ..c.appearance },
                ..c
            })
        }),
        ({
            let font = step(s, Message::TerminalFont(v), ctx).1;
            font is Some && configured(c, font->0) == (app_config::AppView {
                terminal: app_config::TerminalView { font: v@, ..c.terminal },
                ..c
            })
        }),
        ({
            let theme = step(s, Message::TerminalTheme(v), ctx).1;
            theme is Some && configured(c, theme->0) == (app_config::AppView {
                terminal: app_config::TerminalView { theme: v@, ..c.terminal },
                ..c
            })
        }),
        ({
            let size = step(s, Message::FontSize(n), ctx).1;
            size is Some && configured(c, size->0) == (app_config::AppView {
                terminal: app_config::TerminalView { font_size: n, ..c.terminal },
                ..c
            })
        }),
        ({
            let chosen = step(s, Message::LogLevel(level), ctx).1;
            chosen is Some && configured(c, chosen->0) == (app_config::AppView {
                logging: app_config::LoggingConfig { level },
                ..c
            })
        }),
        ({
            let chosen = step(s, Message::Language(language), ctx).1;
            chosen is Some && configured(c, chosen->0) == (app_config::AppView {
                appearance: app_config::AppearanceView { language, ..c.appearance },
                ..c
            })
        }),
        ({
            let chosen = step(s, Message::AutoCheckUpdates(on), ctx).1;
            chosen is Some && configured(c, chosen->0) == (app_config::AppView {
                updates: app_config::UpdatesConfig { auto_check: on, ..c.updates },
                ..c
            })
        }),
        v@ == text::decimal(n as nat) ==> ({
            let timeout = step(s, Message::ConnectTimeout(v), ctx).1;
            timeout is Some && configured(c, timeout->0) == (app_config::AppView {
                connection: app_config::ConnectionConfig { timeout: n as u64 },
                ..c
            })
        }),
        v@ == text::decimal(n as nat) ==> ({
            let lines = step(s, Message::Scrollback(v), ctx).1;
            lines is Some && configured(c, lines->0) == (app_config::AppView {
                terminal: app_config::TerminalView { scrollback: n as usize, ..c.terminal },
                ..c
            })
        }),
{
    text::law_decimal_reads_back(n as nat, u64::MAX as nat);
    text::law_decimal_reads_back(n as nat, usize::MAX as nat);
}

/// The panel is shown and put away in turn, and shows the part that was picked; that changes no
/// preference. To ask for the logs asks for them.
pub proof fn law_the_panel_shows_what_was_picked(
    s: ShownView,
    ctx: CtxView,
    category: SettingsCategory,
)
    ensures
        step(s, Message::Toggle, ctx) == (
            ShownView { show_settings: !s.show_settings, ..s },
            None::<EventView>,
        ),
        step(s, Message::CategorySelected(category), ctx) == (
            ShownView { category, ..s },
            None::<EventView>,
        ),
        step(s, Message::OpenLogFolder, ctx) == (s, Some(EventView::OpenLogFolder)),
{
}

} // verus!
