use shelldon::command::{
    has_no_place, is_unambiguous, locate, overrides_of, parse_prompt, placeholder_regex, substitute,
    substitute_settled, KeyValue,
};
use shelldon::config::{merge_values, Prompt, PromptValue};
use shelldon::error::Error;
use shelldon::template::Placements;

fn value(name: &str, value: &str) -> PromptValue {
    PromptValue { name: name.to_string(), value: value.to_string() }
}

fn pair(key: &str, value: &str) -> KeyValue {
    KeyValue { key: key.to_string(), value: value.to_string() }
}

fn summarize() -> Prompt {
    Prompt {
        name: "summarize".to_string(),
        content: "Summarize in {style:tone}".to_string(),
        values: vec![value("style", "neutral")],
    }
}

#[test]
fn no_prompt_name_gives_the_fallback() {
    let text = parse_prompt(None, None, Vec::new(), "Default instruction").unwrap();
    assert_eq!(text, "Default instruction");
}

#[test]
fn no_prompt_name_ignores_a_stored_prompt_and_overrides() {
    let text =
        parse_prompt(None, Some(summarize()), vec![pair("style", "casual")], "Default instruction")
            .unwrap();
    assert_eq!(text, "Default instruction");
}

#[test]
fn missing_prompt_gives_the_fallback_unchanged() {
    let fallback = "Act as {shell} expert.\n  Keep {this:that} and $1 as they are. ";
    let text = parse_prompt(
        Some("nowhere".to_string()),
        None,
        vec![pair("shell", "zsh"), pair("this", "x")],
        fallback,
    ).unwrap();
    assert_eq!(text, fallback);
}

#[test]
fn empty_fallback_stays_empty() {
    let text = parse_prompt(Some("nowhere".to_string()), None, Vec::new(), "").unwrap();
    assert_eq!(text, "");
}

#[test]
fn override_replaces_the_stored_value() {
    let text = parse_prompt(
        Some("summarize".to_string()),
        Some(summarize()),
        vec![pair("style", "casual")],
        "unused",
    ).unwrap();
    assert_eq!(text, "Summarize in casual");
}

#[test]
fn stored_value_is_used_without_an_override() {
    let text =
        parse_prompt(Some("summarize".to_string()), Some(summarize()), Vec::new(), "unused")
            .unwrap();
    assert_eq!(text, "Summarize in neutral");
}

#[test]
fn both_placeholder_forms_are_replaced_everywhere() {
    let prompt = Prompt {
        name: "p".to_string(),
        content: "{lang} and {lang:rust} and {lang:go_1}; {language} stays; {lang:any text, really!}"
            .to_string(),
        values: vec![value("lang", "rust")],
    };
    let text =
        parse_prompt(Some("p".to_string()), Some(prompt), vec![pair("lang", "C")], "unused")
            .unwrap();
    assert_eq!(text, "C and C and C; {language} stays; C");
}

#[test]
fn unknown_placeholders_are_left_as_they_are() {
    let prompt = Prompt {
        name: "p".to_string(),
        content: "{a:x} {b} {c:y}".to_string(),
        values: vec![value("a", "x")],
    };
    let text = parse_prompt(Some("p".to_string()), Some(prompt), Vec::new(), "unused").unwrap();
    assert_eq!(text, "x {b} {c:y}");
}

#[test]
fn override_for_an_undeclared_name_is_filled_in() {
    let prompt = Prompt {
        name: "p".to_string(),
        content: "Rewrite to {lang}".to_string(),
        values: Vec::new(),
    };
    let text =
        parse_prompt(Some("p".to_string()), Some(prompt), vec![pair("lang", "French")], "unused")
            .unwrap();
    assert_eq!(text, "Rewrite to French");
}

#[test]
fn values_are_inserted_literally() {
    let prompt = Prompt {
        name: "p".to_string(),
        content: "Say {what:word}".to_string(),
        values: vec![value("what", "word")],
    };
    let text = parse_prompt(
        Some("p".to_string()),
        Some(prompt),
        vec![pair("what", "$1 ${0} \\n $what")],
        "unused",
    ).unwrap();
    assert_eq!(text, "Say $1 ${0} \\n $what");
}

#[test]
fn rejected_pattern_is_reported() {
    let prompt = Prompt {
        name: "p".to_string(),
        content: "Say {what}".to_string(),
        values: Vec::new(),
    };
    let result =
        parse_prompt(Some("p".to_string()), Some(prompt), vec![pair("(", "x")], "unused");
    match result {
        Err(Error::Regex { message }) => assert!(!message.is_empty()),
        other => panic!("expected a pattern error, got {:?}", other),
    }
}

#[test]
fn substitution_stops_at_the_first_rejected_pattern() {
    let values = vec![value("a", "1"), value("[", "2"), value("(", "3")];
    let first = match substitute("{a}", &values) {
        Err(Error::Regex { message }) => message,
        other => panic!("expected a pattern error, got {:?}", other),
    };
    let alone = match substitute("{a}", &vec![value("[", "2")]) {
        Err(Error::Regex { message }) => message,
        other => panic!("expected a pattern error, got {:?}", other),
    };
    assert_eq!(first, alone);
}

#[test]
fn substitution_twice_equals_once_when_nothing_is_left() {
    let values = vec![value("style", "casual"), value("lang", "French")];
    let (once, settled) = substitute_settled("Write {style:tone} in {lang}.", &values).unwrap();
    assert_eq!(once, "Write casual in French.");
    assert!(settled);
    assert_eq!(substitute(&once, &values).unwrap(), once);
    assert_eq!(substitute_settled(&once, &values), Ok((once, true)));
}

#[test]
fn a_result_that_spells_a_placeholder_is_not_settled() {
    let values = vec![value("a", "{a}!")];
    let (once, settled) = substitute_settled("{a}", &values).unwrap();
    assert_eq!(once, "{a}!");
    assert!(!settled);
    assert_eq!(substitute(&once, &values).unwrap(), "{a}!!");
}

#[test]
fn what_a_value_brings_in_is_not_expanded() {
    let stored = Prompt {
        name: "p".to_string(),
        content: "{a:x} {b:y}".to_string(),
        values: vec![value("a", "x"), value("b", "y")],
    };
    let overrides = vec![pair("a", "{b}"), pair("b", "Z")];
    let text = parse_prompt(Some("p".to_string()), Some(stored), overrides, "unused").unwrap();
    assert_eq!(text, "{b} Z");
}

#[test]
fn the_order_of_the_values_does_not_matter() {
    let forward = vec![value("a", "{b}"), value("b", "Z"), value("c", "{a}{c}")];
    let backward = vec![value("c", "{a}{c}"), value("b", "Z"), value("a", "{b}")];
    let content = "{a:x} {b:y} {c} {a}{b}";
    assert_eq!(substitute(content, &forward).unwrap(), "{b} Z {a}{c} {b}Z");
    assert_eq!(substitute(content, &backward).unwrap(), "{b} Z {a}{c} {b}Z");
}

#[test]
fn places_are_counted_in_characters() {
    let values = vec![value("gruß", "höflich"), value("a", "✔")];
    assert_eq!(
        substitute("größe ✔ {gruß:x} — {a}·{a:é}{gruß}", &values).unwrap(),
        "größe ✔ höflich — ✔·✔höflich"
    );
}

#[test]
fn two_values_at_one_place_give_it_to_the_first() {
    let values = vec![value("a", "first"), value("[a]", "second")];
    assert_eq!(substitute("{a}", &values).unwrap(), "first");
    let values = vec![value("[a]", "second"), value("a", "first")];
    assert_eq!(substitute("{a}", &values).unwrap(), "second");
}

#[test]
fn distinct_names_are_unambiguous() {
    let values = vec![value("a", "{b}"), value("b", "Z"), value("ab", "{a}")];
    assert_eq!(is_unambiguous("{a:x} {b:y} {ab} {a}{b}", &values), Ok(true));
    assert_eq!(is_unambiguous("", &values), Ok(true));
    assert_eq!(is_unambiguous("{a}", &Vec::new()), Ok(true));
}

#[test]
fn names_that_find_the_same_placeholder_are_ambiguous() {
    let values = vec![value("a", "first"), value("[a]", "second")];
    assert_eq!(is_unambiguous("x {a}", &values), Ok(false));
    assert_eq!(is_unambiguous("x {b}", &values), Ok(true));
    match is_unambiguous("{a}", &vec![value("a", "1"), value("(", "2")]) {
        Err(Error::Regex { message }) => assert!(!message.is_empty()),
        other => panic!("expected a pattern error, got {:?}", other),
    }
}

#[test]
fn places_are_found_for_each_value() {
    let values = vec![value("a", "1"), value("é", "2"), value("none", "3")];
    let placements = locate("é{a}{é:x} {a:long text}", &values).unwrap();
    assert_eq!(
        placements,
        vec![
            Placements { value: "1".to_string(), spans: vec![(1, 4), (10, 23)] },
            Placements { value: "2".to_string(), spans: vec![(4, 9)] },
            Placements { value: "3".to_string(), spans: Vec::new() },
        ]
    );
    assert!(!has_no_place(&placements));
    assert!(has_no_place(&locate("plain", &values).unwrap()));
    assert!(has_no_place(&Vec::new()));
}

#[test]
fn substitution_without_values_returns_the_content() {
    assert_eq!(substitute("{a} {b:c}", &Vec::new()).unwrap(), "{a} {b:c}");
}

#[test]
fn placeholder_pattern_is_built_from_the_name() {
    assert_eq!(placeholder_regex("style"), "\\{style(:[^}]*)?\\}");
    assert_eq!(placeholder_regex(""), "\\{(:[^}]*)?\\}");
}

#[test]
fn merged_value_of_a_shared_key_is_the_override() {
    let stored = vec![value("k", "from store"), value("other", "kept")];
    let overrides = vec![value("k", "from command line")];
    let merged = merge_values(&stored, &overrides);
    assert_eq!(merged, vec![value("k", "from command line"), value("other", "kept")]);
}

#[test]
fn merge_keeps_first_appearance_and_last_value() {
    let stored = vec![value("a", "1"), value("b", "2"), value("a", "3")];
    let overrides = vec![value("c", "4"), value("b", "5"), value("c", "6")];
    let merged = merge_values(&stored, &overrides);
    assert_eq!(merged, vec![value("a", "3"), value("b", "5"), value("c", "6")]);
}

#[test]
fn merge_of_nothing_is_empty() {
    assert_eq!(merge_values(&Vec::new(), &Vec::new()), Vec::new());
}

#[test]
fn overrides_become_prompt_values() {
    let overrides = overrides_of(&vec![pair("a", "1"), pair("b", "")]);
    assert_eq!(overrides, vec![value("a", "1"), value("b", "")]);
}

#[test]
fn key_value_converts_into_a_prompt_value() {
    let converted: PromptValue = pair("style", "casual").into();
    assert_eq!(converted, value("style", "casual"));
    assert_eq!(PromptValue::from(pair("", "")), value("", ""));
}
