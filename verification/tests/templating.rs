use rust_samples::placeholder::placeholder_pattern_text;
use rust_samples::template_value::{resolve_placeholder, templating, try_templating, TemplateTable, TemplateValue};

fn sample_data() -> TemplateValue {
    let mut data = TemplateTable::new();
    data.insert("string_data".to_string(), TemplateValue::String("string_data value".to_string()));
    let mut nested = TemplateTable::new();
    nested.insert("data".to_string(), TemplateValue::String("nested.data value".to_string()));
    data.insert("nested".to_string(), TemplateValue::Table(nested));
    TemplateValue::Table(data)
}

#[test]
fn regex_sample_template() {
    let template = "\
    hoge
        fuga
    [{string_data}]
    [{nested.data}]
        fizz
    "
    .to_string();
    let out = templating(template, sample_data());
    assert_eq!(
        out,
        "hoge\n        fuga\n    [string_data value]\n    [nested.data value]\n        fizz\n    "
    );
}

#[test]
fn string_reached_early_ignores_remaining_segments() {
    let data = sample_data();
    assert_eq!(resolve_placeholder(&data, "string_data.more.segments"), Some("string_data value".to_string()));
}

#[test]
fn map_reached_at_end_gives_empty_text() {
    let data = sample_data();
    assert_eq!(resolve_placeholder(&data, "nested"), Some(String::new()));
}

#[test]
fn top_level_string_answers_every_key() {
    let data = TemplateValue::String("all".to_string());
    assert_eq!(templating("<{x}> <{y.z}>".to_string(), data), "<all> <all>");
}

#[test]
fn missing_key_is_reported() {
    assert_eq!(resolve_placeholder(&sample_data(), "nested.nothing"), None);
    assert_eq!(try_templating("{missing}".to_string(), sample_data()), None);
    assert_eq!(try_templating("[{string_data}]".to_string(), sample_data()), Some("[string_data value]".to_string()));
}

#[test]
fn insert_replaces_existing_name() {
    let mut entries = TemplateTable::new();
    entries.insert("k".to_string(), TemplateValue::String("old".to_string()));
    entries.insert("k".to_string(), TemplateValue::String("new".to_string()));
    let data = TemplateValue::Table(entries);
    assert_eq!(resolve_placeholder(&data, "k"), Some("new".to_string()));
}

#[test]
fn text_without_placeholders_is_kept() {
    assert_eq!(templating("no {braces here".to_string(), sample_data()), "no {braces here");
}

#[test]
fn placeholder_pattern_is_braced_word_key() {
    assert_eq!(placeholder_pattern_text(), r"\{([\w\.]*)\}");
}
