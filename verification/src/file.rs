//! Typed file errors, their diagnostic entries, and the path helpers that
//! need no filesystem access.

use crate::console::{ConsoleLog, ConsoleLogDescription, ConsoleLogKind, ConsoleLogger, LogView};
use vstd::prelude::*;

verus! {

/// Why a filesystem operation failed.
#[derive(Clone, Debug, PartialEq, Eq)]
pub enum FileError {
    CurrentDirectoryReadFailure,
    DirectoryReadFailure { dir_path: String },
    FileOpenFailure { file_path: String },
    FileReadFailure { file_path: String },
    FileWriteFailure { file_path: String },
    EnvironmentVariableReadFailure { var_name: String },
    InvalidPath { path: String },
    MetadataReadFailure { path: String },
    PathNotDirectory { path: String },
    PathNotExists { path: String },
    PathNotFile { path: String },
}

/// The one diagnostic entry reported for a file error.
pub open spec fn spec_file_error_log(e: FileError) -> LogView {
    match e {
        FileError::CurrentDirectoryReadFailure => LogView {
            kind: ConsoleLogKind::Error,
            title: "{^file.err.1069}"@,
            descs: seq![
                (
                    false,
                    "{^console.spec_link}: https://ches.gant.work/en/spec/console/file/error/1069/index.html"@,
                ),
            ],
        },
        FileError::DirectoryReadFailure { dir_path } => LogView {
            kind: ConsoleLogKind::Error,
            title: "{^file.err.5978}"@,
            descs: seq![
                (true, "{^file.dir_path}: "@ + dir_path@),
                (
                    false,
                    "{^console.spec_link}: https://ches.gant.work/en/spec/console/file/error/5978/index.html"@,
                ),
            ],
        },
        FileError::FileOpenFailure { file_path } => LogView {
            kind: ConsoleLogKind::Error,
            title: "{^file.err.0117}"@,
            descs: seq![
                (true, "{^file.file_path}: "@ + file_path@),
                (
                    false,
                    "{^console.spec_link}: https://ches.gant.work/en/spec/console/file/error/0117/index.html"@,
                ),
            ],
        },
        FileError::FileReadFailure { file_path } => LogView {
            kind: ConsoleLogKind::Error,
            title: "{^file.err.3995}"@,
            descs: seq![
                (true, "{^file.file_path}: "@ + file_path@),
                (
                    false,
                    "{^console.spec_link}: https://ches.gant.work/en/spec/console/file/error/3995/index.html"@,
                ),
            ],
        },
        FileError::FileWriteFailure { file_path } => LogView {
            kind: ConsoleLogKind::Error,
            title: "{^file.err.}"@,
            descs: seq![
                (true, "{^file.file_path}: "@ + file_path@),
                (
                    false,
                    "{^console.spec_link}: https://ches.gant.work/en/spec/console/file/error//index.html"@,
                ),
            ],
        },
        FileError::EnvironmentVariableReadFailure { var_name } => LogView {
            kind: ConsoleLogKind::Error,
            title: "{^file.err.9798}"@,
            descs: seq![
                (true, "{^file.env_var_name}: "@ + var_name@),
                (
                    false,
                    "{^console.spec_link}: https://ches.gant.work/en/spec/console/file/error/9798/index.html"@,
                ),
            ],
        },
        FileError::InvalidPath { path } => LogView {
            kind: ConsoleLogKind::Error,
            title: "{^file.err.2711}"@,
            descs: seq![
                (true, "{^file.file_path}: "@ + path@),
                (
                    false,
                    "{^console.spec_link}: https://ches.gant.work/en/spec/console/file/error/2711/index.html"@,
                ),
            ],
        },
        FileError::MetadataReadFailure { path } => LogView {
            kind: ConsoleLogKind::Error,
            title: "metadata read failure"@,
            descs: seq![(true, "{^file.path}: "@ + path@)],
        },
        FileError::PathNotDirectory { path } => LogView {
            kind: ConsoleLogKind::Error,
            title: "{^file.err.0077}"@,
            descs: seq![
                (true, "{^file.file_path}: "@ + path@),
                (
                    false,
                    "{^console.spec_link}: https://ches.gant.work/en/spec/console/file/error/0077/index.html"@,
                ),
            ],
        },
        FileError::PathNotExists { path } => LogView {
            kind: ConsoleLogKind::Error,
            title: "{^file.err.8531}"@,
            descs: seq![
                (true, "{^file.file_path}: "@ + path@),
                (
                    false,
                    "{^console.spec_link}: https://ches.gant.work/en/spec/console/file/error/8531/index.html"@,
                ),
            ],
        },
        FileError::PathNotFile { path } => LogView {
            kind: ConsoleLogKind::Error,
            title: "{^file.err.2160}"@,
            descs: seq![
                (true, "{^file.file_path}: "@ + path@),
                (
                    false,
                    "{^console.spec_link}: https://ches.gant.work/en/spec/console/file/error/2160/index.html"@,
                ),
            ],
        },
    }
}

fn labeled(label: &str, value: &String) -> (r: String)
    ensures
        r@ == label@ + value@,
{
    let mut s = String::from_str(label);
    s.append(value.as_str());
    s
}

fn error_entry(title: &str, normal: String, link: &str) -> (r: ConsoleLog)
    ensures
        r.deep_view() == (LogView {
            kind: ConsoleLogKind::Error,
            title: title@,
            descs: seq![(true, normal@), (false, link@)],
        }),
{
    let mut descs: Vec<ConsoleLogDescription> = Vec::new();
    descs.push(ConsoleLogDescription::Normal(normal));
    descs.push(ConsoleLogDescription::Optional(String::from_str(link)));
    let r = ConsoleLog { kind: ConsoleLogKind::Error, title: String::from_str(title), descs };
    proof {
        assert(r.deep_view().descs =~= seq![(true, normal@), (false, link@)]);
    }
    r
}

impl FileError {
    /// The diagnostic entry that reports this error.
    pub fn get_log(&self) -> (r: ConsoleLog)
        ensures
            r.deep_view() == spec_file_error_log(*self),
    {
        match self {
            FileError::CurrentDirectoryReadFailure => {
                let mut descs: Vec<ConsoleLogDescription> = Vec::new();
                descs.push(ConsoleLogDescription::Optional(String::from_str(
                    "{^console.spec_link}: https://ches.gant.work/en/spec/console/file/error/1069/index.html",
                )));
                let r = ConsoleLog {
                    kind: ConsoleLogKind::Error,
                    title: String::from_str("{^file.err.1069}"),
                    descs,
                };
                proof {
                    assert(r.deep_view().descs =~= spec_file_error_log(*self).descs);
                }
                r
            },
            FileError::DirectoryReadFailure { dir_path } => error_entry(
                "{^file.err.5978}",
                labeled("{^file.dir_path}: ", dir_path),
                "{^console.spec_link}: https://ches.gant.work/en/spec/console/file/error/5978/index.html",
            ),
            FileError::FileOpenFailure { file_path } => error_entry(
                "{^file.err.0117}",
                labeled("{^file.file_path}: ", file_path),
                "{^console.spec_link}: https://ches.gant.work/en/spec/console/file/error/0117/index.html",
            ),
            FileError::FileReadFailure { file_path } => error_entry(
                "{^file.err.3995}",
                labeled("{^file.file_path}: ", file_path),
                "{^console.spec_link}: https://ches.gant.work/en/spec/console/file/error/3995/index.html",
            ),
            FileError::FileWriteFailure { file_path } => error_entry(
                "{^file.err.}",
                labeled("{^file.file_path}: ", file_path),
                "{^console.spec_link}: https://ches.gant.work/en/spec/console/file/error//index.html",
            ),
            FileError::EnvironmentVariableReadFailure { var_name } => error_entry(
                "{^file.err.9798}",
                labeled("{^file.env_var_name}: ", var_name),
                "{^console.spec_link}: https://ches.gant.work/en/spec/console/file/error/9798/index.html",
            ),
            FileError::InvalidPath { path } => error_entry(
                "{^file.err.2711}",
                labeled("{^file.file_path}: ", path),
                "{^console.spec_link}: https://ches.gant.work/en/spec/console/file/error/2711/index.html",
            ),
            FileError::MetadataReadFailure { path } => {
                let mut descs: Vec<ConsoleLogDescription> = Vec::new();
                descs.push(ConsoleLogDescription::Normal(labeled("{^file.path}: ", path)));
                let r = ConsoleLog {
                    kind: ConsoleLogKind::Error,
                    title: String::from_str("metadata read failure"),
                    descs,
                };
                proof {
                    assert(r.deep_view().descs =~= spec_file_error_log(*self).descs);
                }
                r
            },
            FileError::PathNotDirectory { path } => error_entry(
                "{^file.err.0077}",
                labeled("{^file.file_path}: ", path),
                "{^console.spec_link}: https://ches.gant.work/en/spec/console/file/error/0077/index.html",
            ),
            FileError::PathNotExists { path } => error_entry(
                "{^file.err.8531}",
                labeled("{^file.file_path}: ", path),
                "{^console.spec_link}: https://ches.gant.work/en/spec/console/file/error/8531/index.html",
            ),
            FileError::PathNotFile { path } => error_entry(
                "{^file.err.2160}",
                labeled("{^file.file_path}: ", path),
                "{^console.spec_link}: https://ches.gant.work/en/spec/console/file/error/2160/index.html",
            ),
        }
    }
}

impl ConsoleLogger for FileError {
    fn get_log(&self) -> ConsoleLog {
        self.get_log()
    }
}

/// The position of the last `.` at or before `i`.
pub open spec fn last_dot_from(path: Seq<char>, i: int) -> Option<int>
    decreases i + 1,
{
    if i < 0 || i >= path.len() {
        None
    } else if path[i] == '.' {
        Some(i)
    } else {
        last_dot_from(path, i - 1)
    }
}

/// A path with its extension changed: everything through the last dot is
/// kept and the new extension follows; a path without a dot gets a dot and
/// the extension appended.
pub open spec fn spec_rename_ext(path: Seq<char>, new_ext: Seq<char>) -> Seq<char> {
    match last_dot_from(path, path.len() - 1) {
        None => path + "."@ + new_ext,
        Some(i) => path.take(i + 1) + new_ext,
    }
}

proof fn lemma_last_dot_skip(path: Seq<char>, k: int, hi: int)
    requires
        -1 <= k <= hi < path.len(),
        forall|j: int| k < j <= hi ==> #[trigger] path[j] != '.',
    ensures
        last_dot_from(path, hi) == last_dot_from(path, k),
    decreases hi - k,
{
    if k < hi {
        lemma_last_dot_skip(path, k, hi - 1);
    }
}

/// The filesystem helpers of the library that are pure path arithmetic.
pub struct FileMan {}

impl FileMan {
    /// Changes a path's extension, or appends one when the path has none.
    pub fn rename_ext(path: &str, new_ext: &str) -> (r: String)
        ensures
            r@ == spec_rename_ext(path@, new_ext@),
    {
        let n = path.unicode_len();
        let mut i = n;
        while i > 0
            invariant
                i <= n,
                n == path@.len(),
                forall|j: int| i <= j < n ==> #[trigger] path@[j] != '.',
            decreases i,
        {
            let k = i - 1;
            if path.get_char(k) == '.' {
                proof {
                    if k < n - 1 {
                        lemma_last_dot_skip(path@, k as int, n - 1);
                    }
                    assert(last_dot_from(path@, n - 1) == Some(k as int));
                }
                let mut r = String::from_str(path.substring_char(0, k + 1));
                r.append(new_ext);
                proof {
                    assert(r@ =~= spec_rename_ext(path@, new_ext@));
                }
                return r;
            }
            i = k;
        }
        proof {
            if n > 0 {
                lemma_last_dot_skip(path@, -1, n - 1);
            }
            assert(last_dot_from(path@, n - 1) is None);
        }
        let mut r = String::from_str(path);
        r.append(".");
        r.append(new_ext);
        proof {
            reveal_strlit(".");
        }
        r
    }

    /// The resource path of a language pack under a root directory.
    pub fn get_langpack_path(root: &str, lang_name: &str) -> (r: String)
        ensures
            r@ == root@ + "/lib/lang/"@ + lang_name@ + ".lang"@,
    {
        let mut r = String::from_str(root);
        r.append("/lib/lang/");
        r.append(lang_name);
        r.append(".lang");
        r
    }
}

} // verus!
