//! What goes wrong with preferences and sessions.

use crate::text;
use vstd::prelude::*;

verus! {

/// What goes wrong with preferences and sessions. Each carries words on what was wrong.
#[derive(Debug)]
pub enum ConfigError {
    /// A file cannot be read or written.
    Io(String),
    /// A file does not read as what it should be.
    TomlDe(String),
    /// A value cannot be written down.
    TomlSer(String),
    /// A store cannot be used.
    Store(String),
    /// There is no directory for the files.
    ConfigDir(String),
}

/// What a [`ConfigError`] holds.
pub enum ConfigErrorView {
    /// A file cannot be read or written.
    Io(Seq<char>),
    /// A file does not read as what it should be.
    TomlDe(Seq<char>),
    /// A value cannot be written down.
    TomlSer(Seq<char>),
    /// A store cannot be used.
    Store(Seq<char>),
    /// There is no directory for the files.
    ConfigDir(Seq<char>),
}

impl View for ConfigError {
    type V = ConfigErrorView;

    open spec fn view(&self) -> ConfigErrorView {
        match *self {
            ConfigError::Io(words) => ConfigErrorView::Io(words@),
            ConfigError::TomlDe(words) => ConfigErrorView::TomlDe(words@),
            ConfigError::TomlSer(words) => ConfigErrorView::TomlSer(words@),
            ConfigError::Store(words) => ConfigErrorView::Store(words@),
            ConfigError::ConfigDir(words) => ConfigErrorView::ConfigDir(words@),
        }
    }
}

/// What an error says.
pub open spec fn said(e: ConfigErrorView) -> Seq<char> {
    match e {
        ConfigErrorView::Io(words) => "I/O 错误: "@ + words,
        ConfigErrorView::TomlDe(words) => "配置解析失败: "@ + words,
        ConfigErrorView::TomlSer(words) => "配置序列化失败: "@ + words,
        ConfigErrorView::Store(words) => "配置存储错误: "@ + words,
        ConfigErrorView::ConfigDir(words) => "配置目录不可用: "@ + words,
    }
}

impl ConfigError {
    /// What the error says.
    pub fn to_words(&self) -> (r: String)
        ensures
            r@ == said(self@),
    {
        match self {
            ConfigError::Io(words) => text::concat("I/O 错误: ", words),
            ConfigError::TomlDe(words) => text::concat("配置解析失败: ", words),
            ConfigError::TomlSer(words) => text::concat("配置序列化失败: ", words),
            ConfigError::Store(words) => text::concat("配置存储错误: ", words),
            ConfigError::ConfigDir(words) => text::concat("配置目录不可用: ", words),
        }
    }
}

} // verus!
