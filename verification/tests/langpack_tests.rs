use ches_console::langpack::Langpack;

fn lines(rows: &[&str]) -> Vec<String> {
    rows.iter().map(|r| r.to_string()).collect()
}

#[test]
fn greeting_scenario() {
    let pack = Langpack::load(&lines(&["greet.hi Hello, friend"]));
    assert_eq!(pack.translate(&"{^greet.hi}!".to_string()), "Hello, friend!");
    assert_eq!(pack.translate(&"{^missing.key}".to_string()), "{^missing.key}");
}

#[test]
fn duplicate_keys_keep_last_value() {
    let pack = Langpack::load(&lines(&["k one", "k two"]));
    assert_eq!(pack.translate(&"{^k}".to_string()), "two");
}

#[test]
fn line_without_space_is_skipped() {
    let pack = Langpack::load(&lines(&["nospace", "k v"]));
    assert_eq!(pack.translate(&"{^nospace}".to_string()), "{^nospace}");
    assert_eq!(pack.translate(&"{^k}".to_string()), "v");
}

#[test]
fn line_with_empty_key_is_skipped() {
    let pack = Langpack::load(&lines(&[" value", "k v"]));
    assert_eq!(pack.translate(&"{^k}".to_string()), "v");
}

#[test]
fn value_keeps_internal_spaces() {
    let pack = Langpack::load(&lines(&["k a b  c"]));
    assert_eq!(pack.translate(&"{^k}".to_string()), "a b  c");
}

#[test]
fn value_may_be_empty() {
    let pack = Langpack::load(&lines(&["k "]));
    assert_eq!(pack.translate(&"{^k}".to_string()), "");
}

#[test]
fn several_placeholders_resolve_in_one_pass() {
    let pack = Langpack::load(&lines(&["a 1", "b 2"]));
    assert_eq!(pack.translate(&"{^a} and {^b}".to_string()), "1 and 2");
    assert_eq!(pack.translate(&"{^a}{^a}".to_string()), "11");
}

#[test]
fn resolved_value_is_not_rescanned() {
    let pack = Langpack::load(&lines(&["a {^b}", "b X"]));
    assert_eq!(pack.translate(&"{^a}".to_string()), "{^b}");
}

#[test]
fn malformed_placeholders_stay_verbatim() {
    let pack = Langpack::load(&lines(&["a 1"]));
    assert_eq!(pack.translate(&"{^}".to_string()), "{^}");
    assert_eq!(pack.translate(&"{^a".to_string()), "{^a");
    assert_eq!(pack.translate(&"{a}".to_string()), "{a}");
    assert_eq!(pack.translate(&"{^a b}".to_string()), "{^a b}");
}

#[test]
fn translate_is_idempotent_without_resolvable_keys() {
    let pack = Langpack::get_empty();
    let template = "{^none.here} literal text {^other-key_2}".to_string();
    let once = pack.translate(&template);
    assert_eq!(once, template);
    let twice = pack.translate(&once);
    assert_eq!(twice, once);
}

#[test]
fn empty_pack_translates_to_identity() {
    let pack = Langpack::get_empty();
    assert_eq!(pack.translate(&"plain".to_string()), "plain");
    assert_eq!(pack.translate(&"".to_string()), "");
}

#[test]
fn unicode_keys_and_values() {
    let pack = Langpack::load(&lines(&["greet こんにちは 世界"]));
    assert_eq!(pack.translate(&"{^greet}!".to_string()), "こんにちは 世界!");
}
