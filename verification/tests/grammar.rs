use synthpass::grammar::{extraction_gbnf, prompted_fields, FIELD_COUNT, GRAMMAR_ROOT, VALUE_RULES};
use synthpass::repair::{needs_repair, prepare_extraction_json};

#[test]
fn grammar_names_every_prompted_field_in_order() {
    let gbnf = extraction_gbnf();
    let mut cursor = 0;
    for field in prompted_fields() {
        let needle = format!("\\\"{field}\\\"");
        let at = gbnf[cursor..]
            .find(&needle)
            .unwrap_or_else(|| panic!("grammar is missing the '{field}' key:\n{gbnf}"));
        cursor += at + needle.len();
    }
}

#[test]
fn grammar_defines_every_rule_it_references() {
    let gbnf = extraction_gbnf();
    for rule in ["root", "value", "string", "ws"] {
        assert!(
            gbnf.contains(&format!("{rule} ")),
            "grammar references '{rule}' but never defines it:\n{gbnf}"
        );
    }
}

#[test]
fn a_value_is_only_ever_a_string_or_null() {
    let gbnf = extraction_gbnf();
    let value_rule = gbnf
        .lines()
        .find(|l| l.starts_with("value"))
        .expect("the grammar defines a `value` rule");
    let alternatives: Vec<&str> = value_rule
        .split("::=")
        .nth(1)
        .expect("a rule has a right-hand side")
        .split('|')
        .map(str::trim)
        .collect();
    assert_eq!(alternatives, ["string", "\"null\""]);
}

#[test]
fn grammar_shaped_output_needs_no_repair() {
    let body: Vec<String> = prompted_fields()
        .iter()
        .map(|f| format!("\"{f}\":null"))
        .collect();
    let doc = format!("{{{}}}", body.join(","));

    assert!(
        !needs_repair(&doc),
        "grammar-conforming output must take the clean parse path"
    );
    let prepared = prepare_extraction_json(&doc);
    assert!(!prepared.repaired);
    assert_eq!(prepared.json, Ok(doc.clone()));
}

#[test]
fn grammar_permits_whitespace_a_model_would_naturally_emit() {
    let doc = "{\n  \"document_type\": \"P\",\n  \"surname\": null\n}";
    assert!(
        serde_json::from_str::<serde_json::Value>(doc).is_ok(),
        "the whitespace shape the grammar permits must be valid JSON"
    );
    assert!(!needs_repair(doc));
}

#[test]
fn the_prompted_fields_are_the_ten_extraction_keys_in_order() {
    assert_eq!(FIELD_COUNT, 10);
    assert_eq!(
        prompted_fields(),
        vec![
            "document_type",
            "issuing_country",
            "document_number",
            "surname",
            "given_names",
            "nationality",
            "date_of_birth",
            "sex",
            "date_of_expiry",
            "mrz_line",
        ]
    );
}

#[test]
fn the_grammar_is_exactly_the_generated_text() {
    let mut expected = String::from("root ::= \"{\" ws");
    for (i, field) in prompted_fields().iter().enumerate() {
        if i > 0 {
            expected.push_str(" \",\" ws");
        }
        expected.push_str(&format!(" \"\\\"{field}\\\"\" ws \":\" ws value ws"));
    }
    expected.push_str(" \"}\"\n");
    expected.push_str(
        r#"
value  ::= string | "null"
string ::= "\"" ( [^"\\] | "\\" (["\\/bfnrt] | "u" [0-9a-fA-F] [0-9a-fA-F] [0-9a-fA-F] [0-9a-fA-F]) )* "\""
ws     ::= [ \t\n]*
"#,
    );
    assert_eq!(extraction_gbnf(), expected);
    assert!(extraction_gbnf().starts_with(GRAMMAR_ROOT));
    assert!(extraction_gbnf().ends_with(VALUE_RULES));
}

#[test]
fn the_first_member_has_no_leading_comma() {
    let gbnf = extraction_gbnf();
    assert!(gbnf.starts_with("root ::= \"{\" ws \"\\\"document_type\\\"\" ws \":\" ws value ws \",\" ws"));
    assert!(gbnf.contains("\"\\\"mrz_line\\\"\" ws \":\" ws value ws \"}\"\n"));
}
