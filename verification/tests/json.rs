use clip_server::answer::{answer_object, answer_of};
use clip_server::ask::ask_of;
use clip_server::clip::clip_of;
use clip_server::project::{path_body, path_of, projects_of};

fn value(text: &str) -> serde_json::Value {
    serde_json::from_str(text).unwrap()
}

#[test]
fn members_of_other_types_count_as_missing() {
    assert_eq!(path_of(&value("{\"path\":\"/p\"}")).as_deref(), Some("/p"));
    assert_eq!(path_of(&value("{\"path\":null}")), None);
    let ask = ask_of(&value("{\"question\":[],\"projectPath\":false,\"timeoutMs\":18446744073709551615}"));
    assert_eq!(ask.question, None);
    assert_eq!(ask.project_path, None);
    assert_eq!(ask.timeout_ms, Some(u64::MAX));
    let clip = clip_of(&value("{\"title\":\"t\",\"url\":1,\"content\":\"c\"}"));
    assert_eq!(clip.title.as_deref(), Some("t"));
    assert_eq!(clip.url, None);
    assert_eq!(clip.content.as_deref(), Some("c"));
    assert_eq!(clip.project_path, None);
    let answer = answer_of(&value("{\"id\":\"i\",\"ok\":0,\"references\":{},\"error\":\"e\"}"));
    assert_eq!(answer.id.as_deref(), Some("i"));
    assert_eq!(answer.ok, None);
    assert!(answer.references.is_none());
    assert_eq!(answer.error.as_deref(), Some("e"));
}

#[test]
fn last_of_equal_keys_counts() {
    assert_eq!(path_of(&value("{\"path\":\"a\",\"path\":\"b\"}")).as_deref(), Some("b"));
}

#[test]
fn entries_are_read_in_order() {
    let entries = projects_of(&value("{\"projects\":[{\"path\":\"b\"},[],{\"name\":\"n\"}]}")).unwrap();
    let expected = [("", "b"), ("", ""), ("n", "")];
    assert_eq!(entries.len(), expected.len());
    for (entry, expected) in entries.iter().zip(expected.iter()) {
        assert_eq!((entry.0.as_str(), entry.1.as_str()), *expected);
    }
    assert!(projects_of(&value("{\"projects\":1}")).is_none());
}

#[test]
fn written_values_read_as_they_were() {
    let text = "\u{0}\u{1f}\"\\/\u{7f}\u{2028}\u{10ffff}é";
    let body = path_body(text);
    assert_eq!(value(&body)["path"].as_str(), Some(text));
    assert_eq!(value(&body)["ok"].as_bool(), Some(true));
    let references = vec![value("[1,{\"a\":[18446744073709551615]}]"), value("null")];
    let body = answer_object("i", text, references.clone());
    let read = value(&body);
    assert_eq!(read["answer"].as_str(), Some(text));
    assert_eq!(read["references"].as_array(), Some(&references));
}

#[test]
fn values_are_read_up_to_the_nesting_limit() {
    let nested = |levels: usize| format!("{}{}", "[".repeat(levels), "]".repeat(levels));
    assert!(serde_json::from_str::<serde_json::Value>(&nested(127)).is_ok());
    assert!(serde_json::from_str::<serde_json::Value>(&nested(128)).is_err());
}

#[test]
fn integers_come_back_and_fractions_stay_fractions() {
    let integers = vec![
        value("-1"),
        value("-9223372036854775808"),
        value("0"),
        value("18446744073709551615"),
    ];
    let read = value(&answer_object("i", "a", integers.clone()));
    assert_eq!(read["references"].as_array(), Some(&integers));
    let mut floats: Vec<f64> = vec![0.0, -0.0, 1.0, -1.5, 0.1, 1e16, 1e17, 5e-324, 2.5e-310, -1e300];
    let mut bits = f64::MAX.to_bits();
    for _ in 0..2000 {
        floats.push(f64::from_bits(bits));
        floats.push(-f64::from_bits(bits));
        bits -= 1;
    }
    for float in floats {
        let references = vec![value("-7"), serde_json::Value::from(float), value("{\"k\":[3]}")];
        let read = value(&answer_object("i", "a", references.clone()));
        assert_eq!(read["ok"].as_bool(), Some(true));
        assert_eq!(read["id"].as_str(), Some("i"));
        assert_eq!(read["answer"].as_str(), Some("a"));
        assert_eq!(read["references"][0], references[0]);
        assert_eq!(read["references"][2], references[2]);
        assert!(read["references"][1].is_f64());
        assert_eq!(read["references"].as_array().map(|items| items.len()), Some(3));
    }
    for text in ["-9223372036854775809", "18446744073709551616", "-0"] {
        assert!(value(text).is_f64());
    }
}
