use noir_playground::params::{encode_params, parse_params};
use std::collections::HashMap;

fn pairs(items: &[(&str, &str)]) -> Vec<(String, String)> {
    items
        .iter()
        .map(|(k, v)| (k.to_string(), v.to_string()))
        .collect()
}

#[test]
fn encode_simple_mapping() {
    let ps = pairs(&[("x", "1"), ("y", "2")]);
    let text = encode_params(&ps).expect("plain pairs encode");
    assert_eq!(text, "x = \"1\"\ny = \"2\"\n");
}

#[test]
fn encode_escapes_value() {
    let ps = pairs(&[("msg", "a \"quoted\" line\nwith\\slash\tand\rmore")]);
    let text = encode_params(&ps).expect("escapable value encodes");
    assert_eq!(
        text,
        "msg = \"a \\\"quoted\\\" line\\nwith\\\\slash\\tand\\rmore\"\n"
    );
}

#[test]
fn encode_quotes_nonbare_key() {
    let ps = pairs(&[("two words", "v"), ("", "w")]);
    let text = encode_params(&ps).expect("keys encode quoted");
    assert_eq!(text, "\"two words\" = \"v\"\n\"\" = \"w\"\n");
}

#[test]
fn encode_rejects_bare_control_character() {
    let ps = pairs(&[("x", "\u{0}")]);
    assert!(encode_params(&ps).is_none());
}

#[test]
fn roundtrip_exact() {
    let ps = pairs(&[
        ("x", "1"),
        ("quoted key", "line one\nline two"),
        ("path", "C:\\tmp\\\"dir\""),
        ("empty", ""),
        ("", "empty key"),
        ("unicode", "päivää ünïcode"),
    ]);
    let text = encode_params(&ps).expect("pairs encode");
    let back = parse_params(&text).expect("encoded text parses");
    assert_eq!(back, ps);
}

#[test]
fn parse_toolchain_generated_file() {
    let text = "x = \"\"\ny = \"\"\n";
    let back = parse_params(text).expect("generated file parses");
    assert_eq!(back, pairs(&[("x", ""), ("y", "")]));
}

#[test]
fn parse_skips_blank_and_comment_lines() {
    let text = "# prover inputs\n\nx = \"1\"\n# trailing comment\ny = \"2\"\n";
    let back = parse_params(text).expect("commented file parses");
    assert_eq!(back, pairs(&[("x", "1"), ("y", "2")]));
}

#[test]
fn parse_accepts_loose_spacing_and_missing_final_newline() {
    let text = "  x   =   \"1\"  ";
    let back = parse_params(text).expect("spaced line parses");
    assert_eq!(back, pairs(&[("x", "1")]));
}

#[test]
fn parse_rejects_unquoted_value() {
    assert!(parse_params("x = 1\n").is_none());
}

#[test]
fn parse_rejects_table_header() {
    assert!(parse_params("[section]\nx = \"1\"\n").is_none());
}

#[test]
fn parse_rejects_unterminated_string() {
    assert!(parse_params("x = \"abc\n").is_none());
}

#[test]
fn encoded_text_is_valid_toml() {
    let ps = pairs(&[("x", "1"), ("note", "a \"b\"\nc\\d"), ("two words", "v")]);
    let text = encode_params(&ps).expect("pairs encode");
    let parsed: HashMap<String, String> = toml::from_str(&text).expect("toml accepts the file");
    assert_eq!(parsed.len(), ps.len());
    for (k, v) in &ps {
        assert_eq!(parsed.get(k), Some(v));
    }
}
