use ches_console::console::{
    Console, ConsoleLog, ConsoleLogDescription, ConsoleLogKind, ConsoleLogLimit,
};

fn entry(kind: ConsoleLogKind, title: &str, descs: Vec<ConsoleLogDescription>) -> ConsoleLog {
    ConsoleLog::new(kind, title.to_string(), descs)
}

fn lines(rows: &[&str]) -> Vec<String> {
    rows.iter().map(|r| r.to_string()).collect()
}

#[test]
fn kind_colors_and_names() {
    assert_eq!(ConsoleLogKind::Error.get_log_color_num(), 31);
    assert_eq!(ConsoleLogKind::Warning.get_log_color_num(), 33);
    assert_eq!(ConsoleLogKind::Notice.get_log_color_num(), 34);
    assert_eq!(ConsoleLogKind::Error.get_log_kind_name(), "err");
    assert_eq!(ConsoleLogKind::Warning.get_log_kind_name(), "warn");
    assert_eq!(ConsoleLogKind::Notice.get_log_kind_name(), "note");
}

#[test]
fn to_vec_marks_question_prefixed_texts_optional() {
    let descs = ConsoleLogDescription::to_vec(lines(&["a", "?b", ""]));
    assert_eq!(
        descs,
        vec![
            ConsoleLogDescription::Normal("a".to_string()),
            ConsoleLogDescription::Optional("?b".to_string()),
            ConsoleLogDescription::Normal("".to_string()),
        ]
    );
}

#[test]
fn reverse_kind_flips_visibility() {
    let normal = ConsoleLogDescription::Normal("m".to_string());
    assert_eq!(normal.reverse_kind(), ConsoleLogDescription::Optional("m".to_string()));
    assert_eq!(
        normal.reverse_kind().reverse_kind(),
        ConsoleLogDescription::Normal("m".to_string())
    );
}

#[test]
fn limit_text_forms() {
    assert_eq!(ConsoleLogLimit::NoLimit.to_text(), "[no limit]");
    assert_eq!(ConsoleLogLimit::Limited(25).to_text(), "25");
    assert_eq!(ConsoleLogLimit::Limited(0).to_text(), "0");
}

#[test]
fn print_renders_title_and_normal_descs() {
    let cons = Console::load(Some(&lines(&["t Hello"])), ConsoleLogLimit::NoLimit);
    let log = entry(
        ConsoleLogKind::Error,
        "{^t}",
        vec![
            ConsoleLogDescription::Normal("d1".to_string()),
            ConsoleLogDescription::Optional("d2".to_string()),
        ],
    );
    let printed = cons.print(&log);
    assert_eq!(printed, vec!["\x1b[31m[err]\x1b[m Hello", "\td1", ""]);
}

#[test]
fn limited_console_stops_after_two_entries() {
    let mut cons = Console::load(None, ConsoleLogLimit::Limited(2));
    let first = cons.log(entry(ConsoleLogKind::Error, "e1", vec![]), false);
    assert_eq!(first, vec!["\x1b[31m[err]\x1b[m e1", ""]);
    let second = cons.log(entry(ConsoleLogKind::Error, "e2", vec![]), false);
    assert_eq!(
        second,
        vec![
            "\x1b[31m[err]\x1b[m e2",
            "",
            "\x1b[34m[note]\x1b[m {^console.note.4768}",
            "\t{^console.log_limit}: 2",
            "",
        ]
    );
    let third = cons.log(entry(ConsoleLogKind::Error, "e3", vec![]), false);
    assert!(third.is_empty());
    let fourth = cons.log(entry(ConsoleLogKind::Notice, "e4", vec![]), true);
    assert!(fourth.is_empty());
}

#[test]
fn zero_limit_emits_only_the_notice() {
    let mut cons = Console::load(None, ConsoleLogLimit::Limited(0));
    let first = cons.log(entry(ConsoleLogKind::Error, "e1", vec![]), false);
    assert_eq!(
        first,
        vec![
            "\x1b[34m[note]\x1b[m {^console.note.4768}",
            "\t{^console.log_limit}: 0",
            "",
        ]
    );
    let second = cons.log(entry(ConsoleLogKind::Error, "e2", vec![]), false);
    assert!(second.is_empty());
}

#[test]
fn show_details_surfaces_optional_text_in_follow_up_notice() {
    let mut cons = Console::load(None, ConsoleLogLimit::NoLimit);
    let log = entry(
        ConsoleLogKind::Error,
        "t",
        vec![ConsoleLogDescription::Optional("secret".to_string())],
    );
    let printed = cons.log(log, true);
    assert_eq!(
        printed,
        vec![
            "\x1b[31m[err]\x1b[m t",
            "",
            "\x1b[34m[note]\x1b[m t",
            "\tsecret",
            "",
        ]
    );
    // the hidden text appears only in the synthetic notice
    assert!(!printed[0].contains("secret") && !printed[1].contains("secret"));
}

#[test]
fn show_details_hides_normal_text_in_the_follow_up_notice() {
    let mut cons = Console::load(None, ConsoleLogLimit::NoLimit);
    let log = entry(
        ConsoleLogKind::Warning,
        "t",
        vec![ConsoleLogDescription::Normal("plain".to_string())],
    );
    let printed = cons.log(log, true);
    // the notice carries the text with visibility turned around, so the
    // normal line shows only in the primary entry
    assert_eq!(
        printed,
        vec![
            "\x1b[33m[warn]\x1b[m t",
            "\tplain",
            "",
            "\x1b[34m[note]\x1b[m t",
            "",
        ]
    );
}

#[test]
fn detail_notice_counts_against_the_limit() {
    let mut cons = Console::load(None, ConsoleLogLimit::Limited(2));
    let log = entry(
        ConsoleLogKind::Error,
        "t",
        vec![ConsoleLogDescription::Optional("secret".to_string())],
    );
    // the entry takes the first slot; the detail notice takes the second and
    // last slot, so the self-notice follows it at once
    let printed = cons.log(log, true);
    assert_eq!(
        printed,
        vec![
            "\x1b[31m[err]\x1b[m t",
            "",
            "\x1b[34m[note]\x1b[m t",
            "\tsecret",
            "",
            "\x1b[34m[note]\x1b[m {^console.note.4768}",
            "\t{^console.log_limit}: 2",
            "",
        ]
    );
    assert!(cons.log(entry(ConsoleLogKind::Error, "e", vec![]), false).is_empty());
}

#[test]
fn detail_notice_is_blocked_by_the_limit() {
    let mut cons = Console::load(None, ConsoleLogLimit::Limited(1));
    let log = entry(
        ConsoleLogKind::Error,
        "t",
        vec![ConsoleLogDescription::Optional("secret".to_string())],
    );
    let printed = cons.log(log, true);
    // the entry itself reaches the limit: the self-notice follows it and the
    // detail notice is dropped
    assert_eq!(
        printed,
        vec![
            "\x1b[31m[err]\x1b[m t",
            "",
            "\x1b[34m[note]\x1b[m {^console.note.4768}",
            "\t{^console.log_limit}: 1",
            "",
        ]
    );
}

#[test]
fn unlimited_console_prints_every_entry() {
    let mut cons = Console::load(None, ConsoleLogLimit::NoLimit);
    for i in 0..5 {
        let printed = cons.log(entry(ConsoleLogKind::Warning, &format!("w{}", i), vec![]), false);
        assert_eq!(printed.len(), 2);
    }
}

#[test]
fn print_all_respects_the_limit() {
    let mut cons = Console::load(None, ConsoleLogLimit::Limited(1));
    cons.append_log(entry(ConsoleLogKind::Error, "e1", vec![]));
    cons.append_log(entry(ConsoleLogKind::Error, "e2", vec![]));
    cons.append_log(entry(ConsoleLogKind::Error, "e3", vec![]));
    let printed = cons.print_all();
    assert_eq!(
        printed,
        vec![
            "\x1b[31m[err]\x1b[m e1",
            "",
            "\x1b[34m[note]\x1b[m {^console.note.4768}",
            "\t{^console.log_limit}: 1",
            "",
        ]
    );
}

#[test]
fn print_all_without_limit_prints_everything() {
    let mut cons = Console::load(None, ConsoleLogLimit::NoLimit);
    cons.append_log(entry(ConsoleLogKind::Error, "e1", vec![]));
    cons.append_log(entry(ConsoleLogKind::Notice, "n1", vec![]));
    let printed = cons.print_all();
    assert_eq!(
        printed,
        vec!["\x1b[31m[err]\x1b[m e1", "", "\x1b[34m[note]\x1b[m n1", ""]
    );
}

#[test]
fn print_all_translates_through_the_langpack() {
    let mut cons = Console::load(Some(&lines(&["msg Ready"])), ConsoleLogLimit::NoLimit);
    cons.append_log(entry(ConsoleLogKind::Notice, "{^msg}", vec![]));
    let printed = cons.print_all();
    assert_eq!(printed, vec!["\x1b[34m[note]\x1b[m Ready", ""]);
}

#[test]
fn pop_log_and_clear_shrink_the_buffer() {
    let mut cons = Console::load(None, ConsoleLogLimit::NoLimit);
    cons.append_log(entry(ConsoleLogKind::Error, "e1", vec![]));
    cons.append_log(entry(ConsoleLogKind::Error, "e2", vec![]));
    cons.pop_log();
    let printed = cons.print_all();
    assert_eq!(printed, vec!["\x1b[31m[err]\x1b[m e1", ""]);
    cons.clear();
    assert!(cons.print_all().is_empty());
    cons.pop_log();
    assert!(cons.print_all().is_empty());
}

#[test]
fn terminate_message_text() {
    assert_eq!(Console::get_terminate_msg(), "Program was aborted with error.");
}
