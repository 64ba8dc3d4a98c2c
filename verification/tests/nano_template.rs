use rust_samples::keys::{split_at_char, split_dotted};
use rust_samples::nano::{nano, try_nano, NanoData};

const TEMPLATE: &str = "\
=======
a => {a}
a.b => {a.b}
a.b.c => {a.b.c}
=======
    ";

const RENDERED: &str = "\
=======
a => a value
a.b => a.b value
a.b.c => a.b.c value
=======
    ";

#[test]
fn with_put() {
    let template = "\
=======
a => {a}
a.b => {a.b}
a.b.c => {a.b.c}
=======
    ";
    let mut data = NanoData::new();
    data.put("a", "a value".to_string());
    data.put("a.b", "a.b value".to_string());
    data.put("a.b.c", "a.b.c value".to_string());
    let out = nano(template, data);
    println!("{}", out);
    assert_eq!(out, RENDERED);
}

#[test]
fn with_put_data() {
    let template = "\
=======
a => {a}
a.b => {a.b}
a.b.c => {a.b.c}
=======
    ";
    let mut data = NanoData::new();
    data.put("a", "a value".to_string());
    let mut a = NanoData::new();
    a.put("b", "a.b value".to_string());
    let mut b = NanoData::new();
    b.put("c", "a.b.c value".to_string());
    data.put_data("a", a);
    data.put_data("a.b", b);
    let out = nano(template, data);
    println!("{}", out);
    assert_eq!(out, RENDERED);
}

#[test]
fn get_returns_what_put_stored() {
    let mut data = NanoData::new();
    data.put("x.y", "first".to_string());
    assert_eq!(data.get("x.y"), "first");
    data.put("x.y", "second".to_string());
    assert_eq!(data.get("x.y"), "second");
}

#[test]
fn put_leaves_other_keys_alone() {
    let mut data = NanoData::new();
    data.put("a", "1".to_string());
    data.put("a.b", "2".to_string());
    data.put("c", "3".to_string());
    assert_eq!(data.get("a"), "1");
    assert_eq!(data.get("a.b"), "2");
    assert_eq!(data.get("c"), "3");
    assert_eq!(data.lookup("b"), None);
    assert_eq!(data.lookup("a.c"), None);
}

#[test]
fn get_data_after_put_data() {
    let mut inner = NanoData::new();
    inner.put("k", "v".to_string());
    let mut data = NanoData::new();
    data.put_data("p.q", inner);
    let copy = data.get_data("p.q");
    assert_eq!(copy.get("k"), "v");
    assert_eq!(data.get("p.q.k"), "v");
}

#[test]
fn new_data_answers_nothing() {
    let data = NanoData::new();
    assert_eq!(data.lookup("a"), None);
    assert_eq!(data.lookup(""), None);
    let d = NanoData::default();
    assert_eq!(d.lookup("a.b"), None);
}

#[test]
fn clone_keeps_content() {
    let mut data = NanoData::new();
    data.put("a.b", "ab".to_string());
    data.put("c", "c".to_string());
    let copy = data.clone();
    assert_eq!(copy.get("a.b"), "ab");
    assert_eq!(copy.get("c"), "c");
}

#[test]
fn template_without_placeholders_is_kept() {
    let out = nano("plain text { not a placeholder", NanoData::new());
    assert_eq!(out, "plain text { not a placeholder");
}

#[test]
fn try_nano_reports_missing_key() {
    let mut data = NanoData::new();
    data.put("a", "x".to_string());
    assert_eq!(try_nano("{a}-{b}", data.clone()), None);
    assert_eq!(try_nano("{a}-{a}", data), Some("x-x".to_string()));
    assert_eq!(try_nano(TEMPLATE, NanoData::new()), None);
}

#[test]
fn empty_key_segments() {
    let mut data = NanoData::new();
    data.put("", "empty".to_string());
    data.put("a..b", "gap".to_string());
    assert_eq!(nano("[{}] [{a..b}]", data), "[empty] [gap]");
}

#[test]
fn puts_to_different_keys_commute() {
    let mut first = NanoData::new();
    first.put("a.b", "1".to_string());
    first.put("a", "2".to_string());
    let mut second = NanoData::new();
    second.put("a", "2".to_string());
    second.put("a.b", "1".to_string());
    let template = "{a}/{a.b}";
    assert_eq!(nano(template, first), nano(template, second));
}

#[test]
fn dotted_keys_split_into_segments() {
    assert_eq!(split_dotted("a.b..c"), vec!["a", "b", "", "c"]);
    assert_eq!(split_dotted(""), vec![""]);
    assert_eq!(split_dotted("."), vec!["", ""]);
    assert_eq!(split_at_char("x\ny", '\n'), vec!["x", "y"]);
    assert_eq!(split_dotted("a.b.c").join("."), "a.b.c");
}

#[test]
fn joined_lookup_matches_nested_lookup() {
    let mut data = NanoData::new();
    data.put("a.b.c", "deep".to_string());
    assert_eq!(data.get("a.b.c"), data.get_data("a").get("b.c"));
    assert_eq!(data.get_data("a.b").get("c"), "deep");
    assert_eq!(data.get_data("a").get_data("b").get("c"), data.get_data("a.b").get("c"));
}

#[test]
fn second_put_overwrites_and_repeat_is_stable() {
    let mut once = NanoData::new();
    once.put("x.y", "v2".to_string());
    let mut twice = NanoData::new();
    twice.put("x.y", "v1".to_string());
    twice.put("x.y", "v2".to_string());
    twice.put("x.y", "v2".to_string());
    assert_eq!(nano("{x.y}", once), nano("{x.y}", twice));
}

#[test]
fn put_data_keeps_values_outside_the_stored_path() {
    let mut data = NanoData::new();
    data.put("a", "value of a".to_string());
    data.put("a.b", "old".to_string());
    data.put("c", "value of c".to_string());
    let mut fresh = NanoData::new();
    fresh.put("z", "z".to_string());
    data.put_data("a", fresh);
    assert_eq!(data.get("a"), "value of a");
    assert_eq!(data.get("c"), "value of c");
    assert_eq!(data.lookup("a.b"), None);
    assert_eq!(data.get("a.z"), "z");
}

#[test]
fn puts_create_prefixes_and_keep_other_data() {
    let mut data = NanoData::new();
    data.put("p.q", "1".to_string());
    data.put("m.n.o", "2".to_string());
    assert_eq!(data.get_data("m").get_data("n").get("o"), "2");
    data.put_data("m.k.l", NanoData::new());
    assert_eq!(data.get_data("m.k").lookup("l"), None);
    assert_eq!(data.get("m.n.o"), "2");
    assert_eq!(data.get("p.q"), "1");
}
