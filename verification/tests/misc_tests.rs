use ches_console::console::{
    ConsoleLogDescription, ConsoleLogKind, ConsoleLogLimit, ConsoleLogTranslator, ConsoleLogger,
    TranslationResult,
};
use ches_console::file::{FileError, FileMan};
use ches_console::numtext::{parse_usize, usize_to_dec};
use ches_console::{InternalLanguage, InternalTranslator};

#[test]
fn rename_ext_replaces_the_last_extension() {
    assert_eq!(FileMan::rename_ext("a.txt", "bin"), "a.bin");
    assert_eq!(FileMan::rename_ext("a.b.c", "x"), "a.b.x");
    assert_eq!(FileMan::rename_ext("dir.d/file.o", "rs"), "dir.d/file.rs");
}

#[test]
fn rename_ext_appends_when_no_extension() {
    assert_eq!(FileMan::rename_ext("noext", "bin"), "noext.bin");
    assert_eq!(FileMan::rename_ext("", "bin"), ".bin");
    assert_eq!(FileMan::rename_ext(".", "x"), ".x");
}

#[test]
fn langpack_path_under_root() {
    assert_eq!(
        FileMan::get_langpack_path("/opt/ches", "en"),
        "/opt/ches/lib/lang/en.lang"
    );
}

#[test]
fn file_error_log_for_missing_path() {
    let log = FileError::PathNotExists { path: "/p".to_string() }.get_log();
    assert_eq!(log.kind, ConsoleLogKind::Error);
    assert_eq!(log.title, "{^file.err.8531}");
    assert_eq!(log.descs.len(), 2);
    assert_eq!(
        log.descs[0],
        ConsoleLogDescription::Normal("{^file.file_path}: /p".to_string())
    );
    assert_eq!(
        log.descs[1],
        ConsoleLogDescription::Optional(
            "{^console.spec_link}: https://ches.gant.work/en/spec/console/file/error/8531/index.html"
                .to_string()
        )
    );
}

#[test]
fn file_error_log_titles() {
    assert_eq!(FileError::CurrentDirectoryReadFailure.get_log().title, "{^file.err.1069}");
    assert_eq!(
        FileError::DirectoryReadFailure { dir_path: "d".to_string() }.get_log().title,
        "{^file.err.5978}"
    );
    assert_eq!(
        FileError::FileOpenFailure { file_path: "f".to_string() }.get_log().title,
        "{^file.err.0117}"
    );
    assert_eq!(
        FileError::FileReadFailure { file_path: "f".to_string() }.get_log().title,
        "{^file.err.3995}"
    );
    assert_eq!(
        FileError::FileWriteFailure { file_path: "f".to_string() }.get_log().title,
        "{^file.err.}"
    );
    assert_eq!(
        FileError::EnvironmentVariableReadFailure { var_name: "V".to_string() }.get_log().title,
        "{^file.err.9798}"
    );
    assert_eq!(
        FileError::InvalidPath { path: "p".to_string() }.get_log().title,
        "{^file.err.2711}"
    );
    assert_eq!(
        FileError::PathNotDirectory { path: "p".to_string() }.get_log().title,
        "{^file.err.0077}"
    );
    assert_eq!(
        FileError::PathNotFile { path: "p".to_string() }.get_log().title,
        "{^file.err.2160}"
    );
}

#[test]
fn metadata_error_log_has_no_link() {
    let log = FileError::MetadataReadFailure { path: "/p".to_string() }.get_log();
    assert_eq!(log.title, "metadata read failure");
    assert_eq!(
        log.descs,
        vec![ConsoleLogDescription::Normal("{^file.path}: /p".to_string())]
    );
}

#[test]
fn current_directory_error_log_has_only_the_link() {
    let log = FileError::CurrentDirectoryReadFailure.get_log();
    assert_eq!(log.descs.len(), 1);
    assert!(matches!(log.descs[0], ConsoleLogDescription::Optional(_)));
}

#[test]
fn file_error_reports_through_the_logger_trait() {
    let err = FileError::PathNotFile { path: "p".to_string() };
    let log = ConsoleLogger::get_log(&err);
    assert_eq!(log.title, "{^file.err.2160}");
}

#[test]
fn decimal_formatting() {
    assert_eq!(usize_to_dec(0), "0");
    assert_eq!(usize_to_dec(7), "7");
    assert_eq!(usize_to_dec(10), "10");
    assert_eq!(usize_to_dec(12345), "12345");
}

#[test]
fn decimal_parsing() {
    assert_eq!(parse_usize("0"), Some(0));
    assert_eq!(parse_usize("42"), Some(42));
    assert_eq!(parse_usize(""), None);
    assert_eq!(parse_usize("4x"), None);
    assert_eq!(parse_usize("-1"), None);
    assert_eq!(parse_usize("99999999999999999999999"), None);
}

#[test]
fn decimal_round_trip() {
    for n in [0usize, 9, 10, 99, 100, 65536] {
        assert_eq!(parse_usize(&usize_to_dec(n)), Some(n));
    }
}

#[test]
fn internal_language_names() {
    assert_eq!(InternalLanguage::from("en"), Some(InternalLanguage::English));
    assert_eq!(InternalLanguage::from("ja"), Some(InternalLanguage::Japanese));
    assert_eq!(InternalLanguage::from("fr"), None);
    assert_eq!(InternalLanguage::from(""), None);
}

#[test]
fn internal_messages_in_both_languages() {
    assert_eq!(
        InternalTranslator::FailedToOpenFile.translate("en"),
        TranslationResult::Success("failed to open file".to_string())
    );
    assert_eq!(
        InternalTranslator::FailedToOpenFile.translate("ja"),
        TranslationResult::Success("ファイルのオープンに失敗しました".to_string())
    );
    assert_eq!(
        InternalTranslator::PathDoesNotExist.translate("en"),
        TranslationResult::Success("path does not exist".to_string())
    );
}

#[test]
fn internal_message_for_unknown_language() {
    assert_eq!(
        InternalTranslator::FailedToOpenFile.translate("de"),
        TranslationResult::UnknownLanguage
    );
}

#[test]
fn internal_limit_message_carries_the_limit() {
    assert_eq!(
        InternalTranslator::LogLimitExceeded { log_limit: ConsoleLogLimit::Limited(3) }
            .translate("en"),
        TranslationResult::Success("log limit 3 exceeded".to_string())
    );
    assert_eq!(
        InternalTranslator::LogLimitExceeded { log_limit: ConsoleLogLimit::NoLimit }
            .translate("en"),
        TranslationResult::Success("log limit [no limit] exceeded".to_string())
    );
}

#[test]
fn internal_description_messages() {
    assert_eq!(
        InternalTranslator::NameDescription { name: "X".to_string() }.translate("en"),
        TranslationResult::Success("name:\nX".to_string())
    );
    assert_eq!(
        InternalTranslator::PathDescription { path: "/p".to_string() }.translate("ja"),
        TranslationResult::Success("パス:\t/p".to_string())
    );
}

#[test]
fn internal_translator_through_the_trait() {
    let msg = InternalTranslator::FailedToReadFile;
    let r = ConsoleLogTranslator::translate(&msg, "en");
    assert_eq!(r, TranslationResult::Success("failed to read file".to_string()));
}
