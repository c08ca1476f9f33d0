//! A support library for command-line tools: process arguments become a
//! subcommand name with a multi-valued option map, and diagnostics go
//! through a rate-limited console reporter whose message text is resolved
//! from a key-value language pack.

pub mod cmd;
pub mod console;
pub mod file;
pub mod langpack;
pub mod numtext;

use crate::console::{spec_limit_text, ConsoleLogLimit, ConsoleLogTranslator, TranslationResult};
use vstd::prelude::*;

verus! {

/// Languages that the built-in diagnostic messages are available in.
#[derive(Clone, Copy, Debug, PartialEq, Eq)]
pub enum InternalLanguage {
    English,
    Japanese,
}

/// The internal language selected by a language name such as `"en"`.
pub open spec fn spec_language_of(s: Seq<char>) -> Option<InternalLanguage> {
    if s == "en"@ {
        Some(InternalLanguage::English)
    } else if s == "ja"@ {
        Some(InternalLanguage::Japanese)
    } else {
        None
    }
}

impl InternalLanguage {
    /// Selects the internal language for a language name such as `"en"`.
    pub fn from(s: &str) -> (r: Option<InternalLanguage>)
        ensures
            r == spec_language_of(s@),
    {
        let t = String::from_str(s);
        if t == String::from_str("en") {
            Some(InternalLanguage::English)
        } else if t == String::from_str("ja") {
            Some(InternalLanguage::Japanese)
        } else {
            None
        }
    }
}

/// The built-in diagnostic messages: log titles, then descriptions.
#[derive(Clone, Debug, PartialEq, Eq)]
pub enum InternalTranslator {
    ExpectedDirectoryPathNotFilePath,
    ExpectedFilePathNotDirectoryPath,
    FailedToGetCurrentDirectory,
    FailedToGetEnvironmentVariable,
    FailedToOpenDirectory,
    FailedToOpenFile,
    FailedToOpenFileOrDirectory,
    FailedToReadFile,
    FailedToWriteFile,
    LogLimitExceeded { log_limit: ConsoleLogLimit },
    PathDoesNotExist,
    NameDescription { name: String },
    PathDescription { path: String },
}

/// The text of each built-in message in each language.
pub open spec fn spec_internal_message(t: InternalTranslator, lang: InternalLanguage) -> Seq<
    char,
> {
    match t {
        InternalTranslator::ExpectedDirectoryPathNotFilePath => match lang {
            InternalLanguage::English => "expected directory path not file path"@,
            InternalLanguage::Japanese => "ファイルパスでなくディレクトリパスが必要です"@,
        },
        InternalTranslator::ExpectedFilePathNotDirectoryPath => match lang {
            InternalLanguage::English => "expected file path not directory path"@,
            InternalLanguage::Japanese => "ディレクトリパスでなくファイルパスが必要です"@,
        },
        InternalTranslator::FailedToGetCurrentDirectory => match lang {
            InternalLanguage::English => "failed to get current directory"@,
            InternalLanguage::Japanese => "カレントディレクトリの取得に失敗しました"@,
        },
        InternalTranslator::FailedToGetEnvironmentVariable => match lang {
            InternalLanguage::English => "failed to get environment variable"@,
            InternalLanguage::Japanese => "環境変数の取得に失敗しました"@,
        },
        InternalTranslator::FailedToOpenDirectory => match lang {
            InternalLanguage::English => "failed to open directory"@,
            InternalLanguage::Japanese => "ディレクトリのオープンに失敗しました"@,
        },
        InternalTranslator::FailedToOpenFile => match lang {
            InternalLanguage::English => "failed to open file"@,
            InternalLanguage::Japanese => "ファイルのオープンに失敗しました"@,
        },
        InternalTranslator::FailedToOpenFileOrDirectory => match lang {
            InternalLanguage::English => "failed to open file or directory"@,
            InternalLanguage::Japanese => "ファイルもしくはディレクトリのオープンに失敗しました"@,
        },
        InternalTranslator::FailedToReadFile => match lang {
            InternalLanguage::English => "failed to read file"@,
            InternalLanguage::Japanese => "ファイルの読み込みに失敗しました"@,
        },
        InternalTranslator::FailedToWriteFile => match lang {
            InternalLanguage::English => "failed to write file"@,
            InternalLanguage::Japanese => "ファイルの書き込みに失敗しました"@,
        },
        InternalTranslator::LogLimitExceeded { log_limit } => match lang {
            InternalLanguage::English => "log limit "@ + spec_limit_text(log_limit)
                + " exceeded"@,
            InternalLanguage::Japanese => "ログ制限 "@ + spec_limit_text(log_limit)
                + " を超過しました"@,
        },
        InternalTranslator::PathDoesNotExist => match lang {
            InternalLanguage::English => "path does not exist"@,
            InternalLanguage::Japanese => "パスが存在しません"@,
        },
        InternalTranslator::NameDescription { name } => match lang {
            InternalLanguage::English => "name:\n"@ + name@,
            InternalLanguage::Japanese => "名前:\n"@ + name@,
        },
        InternalTranslator::PathDescription { path } => match lang {
            InternalLanguage::English => "path:\t"@ + path@,
            InternalLanguage::Japanese => "パス:\t"@ + path@,
        },
    }
}

fn wrapped_text(before: &str, middle: &ConsoleLogLimit, after: &str) -> (r: String)
    ensures
        r@ == before@ + spec_limit_text(*middle) + after@,
{
    let mut s = String::from_str(before);
    s.append(middle.to_text().as_str());
    s.append(after);
    s
}

fn prefixed_text(prefix: &str, value: &String) -> (r: String)
    ensures
        r@ == prefix@ + value@,
{
    let mut s = String::from_str(prefix);
    s.append(value.as_str());
    s
}

impl InternalTranslator {
    /// Renders this message in the named language; `UnknownLanguage` when
    /// the name names none of the internal languages.
    pub fn translate(&self, lang_name: &str) -> (r: TranslationResult)
        ensures
            ({
                match spec_language_of(lang_name@) {
                    Some(lang) => match r {
                        TranslationResult::Success(s) => s@ == spec_internal_message(*self, lang),
                        TranslationResult::UnknownLanguage => false,
                    },
                    None => r == TranslationResult::UnknownLanguage,
                }
            }),
    {
        let lang = match InternalLanguage::from(lang_name) {
            Some(v) => v,
            None => {
                return TranslationResult::UnknownLanguage;
            },
        };
        let s = match self {
            InternalTranslator::ExpectedDirectoryPathNotFilePath => match lang {
                InternalLanguage::English => String::from_str(
                    "expected directory path not file path",
                ),
                InternalLanguage::Japanese => String::from_str(
                    "ファイルパスでなくディレクトリパスが必要です",
                ),
            },
            InternalTranslator::ExpectedFilePathNotDirectoryPath => match lang {
                InternalLanguage::English => String::from_str(
                    "expected file path not directory path",
                ),
                InternalLanguage::Japanese => String::from_str(
                    "ディレクトリパスでなくファイルパスが必要です",
                ),
            },
            InternalTranslator::FailedToGetCurrentDirectory => match lang {
                InternalLanguage::English => String::from_str("failed to get current directory"),
                InternalLanguage::Japanese => String::from_str(
                    "カレントディレクトリの取得に失敗しました",
                ),
            },
            InternalTranslator::FailedToGetEnvironmentVariable => match lang {
                InternalLanguage::English => String::from_str(
                    "failed to get environment variable",
                ),
                InternalLanguage::Japanese => String::from_str("環境変数の取得に失敗しました"),
            },
            InternalTranslator::FailedToOpenDirectory => match lang {
                InternalLanguage::English => String::from_str("failed to open directory"),
                InternalLanguage::Japanese => String::from_str(
                    "ディレクトリのオープンに失敗しました",
                ),
            },
            InternalTranslator::FailedToOpenFile => match lang {
                InternalLanguage::English => String::from_str("failed to open file"),
                InternalLanguage::Japanese => String::from_str(
                    "ファイルのオープンに失敗しました",
                ),
            },
            InternalTranslator::FailedToOpenFileOrDirectory => match lang {
                InternalLanguage::English => String::from_str("failed to open file or directory"),
                InternalLanguage::Japanese => String::from_str(
                    "ファイルもしくはディレクトリのオープンに失敗しました",
                ),
            },
            InternalTranslator::FailedToReadFile => match lang {
                InternalLanguage::English => String::from_str("failed to read file"),
                InternalLanguage::Japanese => String::from_str(
                    "ファイルの読み込みに失敗しました",
                ),
            },
            InternalTranslator::FailedToWriteFile => match lang {
                InternalLanguage::English => String::from_str("failed to write file"),
                InternalLanguage::Japanese => String::from_str(
                    "ファイルの書き込みに失敗しました",
                ),
            },
            InternalTranslator::LogLimitExceeded { log_limit } => match lang {
                InternalLanguage::English => wrapped_text("log limit ", log_limit, " exceeded"),
                InternalLanguage::Japanese => wrapped_text(
                    "ログ制限 ",
                    log_limit,
                    " を超過しました",
                ),
            },
            InternalTranslator::PathDoesNotExist => match lang {
                InternalLanguage::English => String::from_str("path does not exist"),
                InternalLanguage::Japanese => String::from_str("パスが存在しません"),
            },
            InternalTranslator::NameDescription { name } => match lang {
                InternalLanguage::English => prefixed_text("name:\n", name),
                InternalLanguage::Japanese => prefixed_text("名前:\n", name),
            },
            InternalTranslator::PathDescription { path } => match lang {
                InternalLanguage::English => prefixed_text("path:\t", path),
                InternalLanguage::Japanese => prefixed_text("パス:\t", path),
            },
        };
        TranslationResult::Success(s)
    }
}

impl ConsoleLogTranslator for InternalTranslator {
    fn translate(&self, lang_name: &str) -> TranslationResult {
        self.translate(lang_name)
    }
}

} // verus!
