use propshow::document::{Document, LookupBehavior, ResultKind};
use propshow::render::{escape_value, query, render_line, LookupOutcome};
use propshow::show::{show, show_lines};
use propshow::split::split_names;

fn property(value: &str) -> LookupBehavior {
    LookupBehavior::Found(ResultKind::Property(value.to_string()))
}

fn lines_for(doc: &Document, raw: &str) -> Vec<String> {
    show_lines(doc, &Some(raw.to_string()))
}

#[test]
fn found_property_is_quoted() {
    let mut doc = Document::new();
    doc.push_entry("title".to_string(), property("Hello"));
    let lines = lines_for(&doc, "title");
    assert_eq!(lines, vec!["- title: \"Hello\"".to_string()]);
}

#[test]
fn missing_property_is_undefined() {
    let doc = Document::new();
    let lines = lines_for(&doc, "missing");
    assert_eq!(lines, vec!["- missing: undefined".to_string()]);
}

#[test]
fn non_property_result_is_undefined() {
    let mut doc = Document::new();
    doc.push_entry("links".to_string(), LookupBehavior::Found(ResultKind::Other));
    let lines = lines_for(&doc, "links");
    assert_eq!(lines, vec!["- links: undefined".to_string()]);
}

#[test]
fn failing_lookup_is_not_found() {
    let mut doc = Document::new();
    doc.push_entry("broken".to_string(), LookupBehavior::Fails);
    let lines = lines_for(&doc, "broken");
    assert_eq!(lines, vec!["- broken: not found!".to_string()]);
    let outcome = query(&doc, &"broken".to_string());
    assert!(matches!(outcome, LookupOutcome::LookupFailed));
}

#[test]
fn absent_spec_yields_no_lines_and_succeeds() {
    let mut doc = Document::new();
    doc.push_entry("title".to_string(), property("Hello"));
    let lines = show_lines(&doc, &None);
    assert_eq!(lines.len(), 0);
    assert!(show(&doc, &None).is_ok());
}

#[test]
fn empty_segments_are_queried_as_names() {
    let mut doc = Document::new();
    doc.push_entry("a".to_string(), property("A"));
    doc.push_entry("b".to_string(), property("B"));
    let lines = lines_for(&doc, "a,,b");
    assert_eq!(
        lines,
        vec![
            "- a: \"A\"".to_string(),
            "- : undefined".to_string(),
            "- b: \"B\"".to_string(),
        ]
    );
}

#[test]
fn empty_string_name_is_a_literal_key() {
    let mut doc = Document::new();
    doc.push_entry("".to_string(), property("blank"));
    let lines = lines_for(&doc, "a,,b");
    assert_eq!(lines[1], "- : \"blank\"".to_string());
    let alone = lines_for(&doc, "");
    assert_eq!(alone, vec!["- : \"blank\"".to_string()]);
}

#[test]
fn line_count_equals_segment_count() {
    let doc = Document::new();
    assert_eq!(lines_for(&doc, "").len(), 1);
    assert_eq!(lines_for(&doc, "x").len(), 1);
    assert_eq!(lines_for(&doc, "a,b").len(), 2);
    assert_eq!(lines_for(&doc, ",a,").len(), 3);
    assert_eq!(lines_for(&doc, ",,,").len(), 4);
}

#[test]
fn output_preserves_input_order() {
    let mut doc = Document::new();
    doc.push_entry("a".to_string(), property("1"));
    doc.push_entry("b".to_string(), property("2"));
    doc.push_entry("c".to_string(), property("3"));
    let lines = lines_for(&doc, "b,a,c");
    assert_eq!(
        lines,
        vec![
            "- b: \"2\"".to_string(),
            "- a: \"1\"".to_string(),
            "- c: \"3\"".to_string(),
        ]
    );
}

#[test]
fn duplicate_names_print_independently() {
    let mut doc = Document::new();
    doc.push_entry("x".to_string(), property("v"));
    let lines = lines_for(&doc, "x,x");
    assert_eq!(lines.len(), 2);
    assert_eq!(lines[0], "- x: \"v\"".to_string());
    assert_eq!(lines[0], lines[1]);
}

#[test]
fn repeated_calls_give_identical_output() {
    let mut doc = Document::new();
    doc.push_entry("a".to_string(), property("1"));
    doc.push_entry("broken".to_string(), LookupBehavior::Fails);
    let first = lines_for(&doc, "a,broken,zz");
    let second = lines_for(&doc, "a,broken,zz");
    assert_eq!(first, second);
}

#[test]
fn names_are_looked_up_verbatim() {
    let mut doc = Document::new();
    doc.push_entry("title".to_string(), property("Hello"));
    let lines = lines_for(&doc, " title,title ");
    assert_eq!(
        lines,
        vec![
            "-  title: undefined".to_string(),
            "- title : undefined".to_string(),
        ]
    );
}

#[test]
fn first_entry_for_a_name_wins() {
    let mut doc = Document::new();
    doc.push_entry("k".to_string(), property("first"));
    doc.push_entry("k".to_string(), property("second"));
    let lines = lines_for(&doc, "k");
    assert_eq!(lines, vec!["- k: \"first\"".to_string()]);
}

#[test]
fn values_are_escaped_structurally() {
    let mut doc = Document::new();
    doc.push_entry("q".to_string(), property("say \"hi\"\\now"));
    let lines = lines_for(&doc, "q");
    assert_eq!(lines, vec!["- q: \"say \\\"hi\\\"\\\\now\"".to_string()]);
}

#[test]
fn escape_value_escapes_quotes_and_backslashes() {
    assert_eq!(escape_value("plain"), "plain".to_string());
    assert_eq!(escape_value("a\"b\\c"), "a\\\"b\\\\c".to_string());
    assert_eq!(escape_value(""), "".to_string());
}

#[test]
fn render_line_formats_each_outcome() {
    let name = "n".to_string();
    assert_eq!(
        render_line(&name, &LookupOutcome::Found("v".to_string())),
        "- n: \"v\"".to_string()
    );
    assert_eq!(
        render_line(&name, &LookupOutcome::Undefined),
        "- n: undefined".to_string()
    );
    assert_eq!(
        render_line(&name, &LookupOutcome::LookupFailed),
        "- n: not found!".to_string()
    );
}

#[test]
fn split_names_keeps_every_segment() {
    let split = |s: &str| -> Vec<String> { split_names(s) };
    assert_eq!(split("a,,b"), vec!["a", "", "b"]);
    assert_eq!(split(""), vec![""]);
    assert_eq!(split("a b , c"), vec!["a b ", " c"]);
    assert_eq!(split(",x,"), vec!["", "x", ""]);
    assert_eq!(split("solo"), vec!["solo"]);
}

#[test]
fn split_round_trips_with_commas() {
    for raw in ["", "a", "a,,b", ",x,", "no,comma,in,any,segment,"] {
        assert_eq!(split_names(raw).join(","), raw.to_string());
    }
}

#[test]
fn show_succeeds_on_mixed_outcomes() {
    let mut doc = Document::new();
    doc.push_entry("good".to_string(), property("ok"));
    doc.push_entry("bad".to_string(), LookupBehavior::Fails);
    assert!(show(&doc, &Some("good,bad,missing".to_string())).is_ok());
}
