use synthpass::json::JsonKind;
use synthpass::repair::{
    needs_repair, outcome_after_repair, prepare_extraction_json, repair_json_text,
    repair_needed_for,
};
use synthpass::text::{chars_of, is_whitespace};

#[test]
fn strips_code_fences() {
    let raw = "```json\n{\"surname\": \"DOE\"}\n```";
    assert_eq!(repair_json_text(raw), "{\"surname\": \"DOE\"}");
}

#[test]
fn strips_bare_fences() {
    let raw = "```\n{\"surname\": \"DOE\"}\n```";
    assert_eq!(repair_json_text(raw), "{\"surname\": \"DOE\"}");
}

#[test]
fn narrows_to_outermost_object_with_surrounding_prose() {
    let raw = "Sure, here is the JSON:\n{\"surname\": \"DOE\"}\nHope that helps!";
    assert_eq!(repair_json_text(raw), "{\"surname\": \"DOE\"}");
}

#[test]
fn strips_trailing_commas() {
    let raw = r#"{"a": 1, "b": [1, 2,], "c": 3,}"#;
    assert_eq!(repair_json_text(raw), r#"{"a": 1, "b": [1, 2], "c": 3}"#);
}

#[test]
fn parse_extraction_rejects_garbage() {
    assert!(prepare_extraction_json("not json at all").json.is_err());
}

#[test]
fn clean_json_does_not_need_repair() {
    assert!(!needs_repair(r#"{"surname":"DOE"}"#));
    assert!(
        !needs_repair("  {\"surname\": \"DOE\"}\n"),
        "surrounding whitespace alone is not drift"
    );
}

#[test]
fn the_drift_this_module_exists_for_needs_repair() {
    for drifted in [
        "```json\n{\"surname\": \"DOE\"}\n```",
        "Sure, here is the JSON:\n{\"surname\": \"DOE\"}",
        r#"{"surname": "DOE",}"#,
        "not json at all",
    ] {
        assert!(
            needs_repair(drifted),
            "should have been routed to repair: {drifted}"
        );
    }
}

#[test]
fn a_bare_json_scalar_is_not_an_extraction() {
    assert!(needs_repair("\"just a string\""));
    assert!(needs_repair("[1, 2, 3]"));
    assert!(prepare_extraction_json("[1, 2, 3]").json.is_err());
}

#[test]
fn a_fenced_document_takes_the_repair_path() {
    let prepared = prepare_extraction_json("```json\n{\"surname\": \"DOE\"}\n```");
    assert!(prepared.repaired);
    assert_eq!(prepared.json, Ok("{\"surname\": \"DOE\"}".to_string()));
}

#[test]
fn a_clean_document_is_taken_trimmed() {
    let prepared = prepare_extraction_json("  {\"surname\": \"DOE\"}\n");
    assert!(!prepared.repaired);
    assert_eq!(prepared.json, Ok("{\"surname\": \"DOE\"}".to_string()));
}

#[test]
fn repaired_text_that_is_not_an_object_is_refused() {
    let prepared = prepare_extraction_json("```json\n[1, 2, 3]\n```");
    assert!(prepared.repaired);
    assert_eq!(
        prepared.json,
        Err("model output was valid JSON but not an object".to_string())
    );
}

#[test]
fn repaired_text_that_does_not_parse_carries_the_parser_error() {
    let raw = "not json at all";
    let parser_error = serde_json::from_str::<serde_json::Value>(raw).unwrap_err();
    let prepared = prepare_extraction_json(raw);
    assert!(prepared.repaired);
    assert_eq!(
        prepared.json,
        Err(format!("invalid JSON after repair: {parser_error}"))
    );
}

#[test]
fn the_outcome_follows_the_parse() {
    let cleaned = "{\"a\": 1}".to_string();
    assert_eq!(
        outcome_after_repair(cleaned.clone(), Ok(JsonKind::Object)),
        Ok(cleaned.clone())
    );
    for kind in [
        JsonKind::Null,
        JsonKind::Bool,
        JsonKind::Number,
        JsonKind::String,
        JsonKind::Array,
    ] {
        assert_eq!(
            outcome_after_repair(cleaned.clone(), Ok(kind)),
            Err("model output was valid JSON but not an object".to_string())
        );
    }
    assert_eq!(
        outcome_after_repair(cleaned, Err("EOF while parsing".to_string())),
        Err("invalid JSON after repair: EOF while parsing".to_string())
    );
}

#[test]
fn only_an_object_needs_no_repair() {
    assert!(!repair_needed_for(&Ok(JsonKind::Object)));
    assert!(repair_needed_for(&Ok(JsonKind::Array)));
    assert!(repair_needed_for(&Ok(JsonKind::Null)));
    assert!(repair_needed_for(&Err("bad".to_string())));
}

#[test]
fn each_json_kind_is_told_apart() {
    // Through the public path: only an object skips repair, whatever else parses.
    assert!(!needs_repair("{}"));
    assert!(needs_repair("null"));
    assert!(needs_repair("true"));
    assert!(needs_repair("12.5"));
    assert!(needs_repair("[]"));
    assert!(needs_repair(""));
}

#[test]
fn a_clean_object_comes_through_unchanged() {
    for clean in [
        "{}",
        r#"{"a":1}"#,
        "{\"surname\": \"DOE\", \"given_names\": null}",
        "{\"x\": \"```\"}",
    ] {
        assert_eq!(repair_json_text(clean), clean);
    }
}

#[test]
fn repair_frames_the_outermost_object() {
    let out = repair_json_text("noise } { \"a\": {\"b\": 1,} } trailing } end");
    assert!(out.starts_with('{'));
    assert!(out.ends_with('}'));
    assert_eq!(out, "{ \"a\": {\"b\": 1} } trailing }");
}

#[test]
fn a_closing_brace_before_any_opening_one_leaves_the_text_whole() {
    assert_eq!(repair_json_text("} prose {"), "} prose {");
    assert_eq!(repair_json_text("no braces at all"), "no braces at all");
}

#[test]
fn only_trailing_commas_are_removed() {
    assert_eq!(repair_json_text("{\"a\": [1, 2 ,\n ] ,\t}"), "{\"a\": [1, 2 \n ] \t}");
    // A comma before a comma stays: only the last one is trailing.
    assert_eq!(repair_json_text("{\"a\": 1, ,}"), "{\"a\": 1, }");
    // Commas inside strings are not special-cased.
    assert_eq!(repair_json_text("{\"a\": \",}\"}"), "{\"a\": \"}\"}");
    let input = "{\"a\": [1,2,],\"b\":{,},}";
    let output = repair_json_text(input);
    let no_commas = |s: &str| s.chars().filter(|&c| c != ',').collect::<String>();
    assert_eq!(no_commas(&output), no_commas(input));
    assert!(output.len() <= input.len());
}

#[test]
fn an_opening_fence_without_a_newline_loses_only_its_backticks() {
    assert_eq!(repair_json_text("```{\"a\": 1}"), "{\"a\": 1}");
}

#[test]
fn a_closing_fence_followed_by_text_is_kept() {
    assert_eq!(repair_json_text("x ``` y"), "x ``` y");
    assert_eq!(repair_json_text("x ```  \n"), "x");
}

#[test]
fn the_last_fence_is_the_rightmost_match() {
    // `str::rfind` returns the start of the rightmost match, even when
    // matches overlap; the repair cuts there.
    assert_eq!("a````".rfind("```"), Some(2));
    assert_eq!(repair_json_text("a````"), "a`");
}

#[test]
fn unicode_whitespace_is_trimmed() {
    assert_eq!(repair_json_text("\u{3000}\u{85} {\"a\": 1}\u{a0}\n"), "{\"a\": 1}");
    assert_eq!(repair_json_text(" \t "), "");
    assert_eq!(repair_json_text(""), "");
}

#[test]
fn whitespace_agrees_with_char_is_whitespace() {
    for c in (0u32..=0x10FFFF).filter_map(char::from_u32) {
        assert_eq!(is_whitespace(c), c.is_whitespace(), "disagreement at {:?}", c);
    }
}

#[test]
fn chars_of_reads_every_character() {
    assert_eq!(chars_of("aé😀"), vec!['a', 'é', '😀']);
    assert_eq!(chars_of(""), Vec::<char>::new());
}

#[test]
fn a_fenced_clean_object_repairs_to_the_object_whatever_the_tag() {
    let body = "{\"surname\": \"DOE\", \"sex\": null}";
    for tag in ["", "json", "JSON5 extra words", " "] {
        let raw = format!("```{tag}\n{body}\n```");
        assert_eq!(repair_json_text(&raw), body);
    }
}
