use shelldon::command::{parse_key_val, read_input, with_piped, KeyValue};

#[test]
fn key_and_value_are_split_at_the_sign() {
    assert_eq!(
        parse_key_val("style=casual"),
        Ok(KeyValue { key: "style".to_string(), value: "casual".to_string() })
    );
}

#[test]
fn only_the_first_sign_splits() {
    assert_eq!(
        parse_key_val("expr=a=b=c"),
        Ok(KeyValue { key: "expr".to_string(), value: "a=b=c".to_string() })
    );
}

#[test]
fn key_or_value_may_be_empty() {
    assert_eq!(
        parse_key_val("=value"),
        Ok(KeyValue { key: "".to_string(), value: "value".to_string() })
    );
    assert_eq!(
        parse_key_val("key="),
        Ok(KeyValue { key: "key".to_string(), value: "".to_string() })
    );
    assert_eq!(parse_key_val("="), Ok(KeyValue { key: "".to_string(), value: "".to_string() }));
}

#[test]
fn characters_beyond_ascii_are_kept() {
    assert_eq!(
        parse_key_val("größe=très grand ✔"),
        Ok(KeyValue { key: "größe".to_string(), value: "très grand ✔".to_string() })
    );
}

#[test]
fn argument_without_a_sign_is_refused() {
    assert_eq!(
        parse_key_val("style"),
        Err("Invalid key=value: no `=` found in `style`".to_string())
    );
    assert_eq!(parse_key_val(""), Err("Invalid key=value: no `=` found in ``".to_string()));
}

#[test]
fn piped_text_comes_before_the_input() {
    assert_eq!(read_input(Some("a log line\n"), "explain this"), "a log line\nexplain this");
}

#[test]
fn piped_text_keeps_its_whitespace() {
    assert_eq!(read_input(Some("  text  "), "q"), "  text  q");
}

#[test]
fn blank_piped_text_is_left_out() {
    assert_eq!(read_input(Some(" \n\t "), "explain this"), "explain this");
    assert_eq!(read_input(Some(""), "explain this"), "explain this");
}

#[test]
fn input_alone_without_a_pipe() {
    assert_eq!(read_input(None, "explain this"), "explain this");
    assert_eq!(read_input(None, ""), "");
}

#[test]
fn piped_text_is_joined_as_told() {
    assert_eq!(with_piped(Some("x"), false, "y"), "xy");
    assert_eq!(with_piped(Some("x"), true, "y"), "y");
    assert_eq!(with_piped(None, false, "y"), "y");
}
