use example_runner::errors::ErrorKind;
use example_runner::scenario::parse_scenario;

#[test]
fn two_quoted_steps_parse_in_order() {
    let text = "steps:\n  - wait-serial: \"BOOT\"\n  - wait-serial: \"READY\"\n";
    let sc = parse_scenario(text).unwrap();
    assert_eq!(sc.steps.len(), 2);
    assert_eq!(sc.steps[0].match_text, "BOOT");
    assert_eq!(sc.steps[1].match_text, "READY");
}

#[test]
fn unquoted_values_are_taken_literally() {
    let text = "steps:\n  - wait-serial: hello world\n";
    let sc = parse_scenario(text).unwrap();
    assert_eq!(sc.steps.len(), 1);
    assert_eq!(sc.steps[0].match_text, "hello world");
}

#[test]
fn blank_lines_and_indentation_are_tolerated() {
    let text = "\n  steps:\n\n- wait-serial: \"A\"\n   - wait-serial: \"B\"\n\n";
    let sc = parse_scenario(text).unwrap();
    assert_eq!(sc.steps.len(), 2);
    assert_eq!(sc.steps[0].match_text, "A");
    assert_eq!(sc.steps[1].match_text, "B");
}

#[test]
fn header_with_no_entries_is_the_empty_scenario() {
    let sc = parse_scenario("steps:\n").unwrap();
    assert_eq!(sc.steps.len(), 0);
}

#[test]
fn empty_document_is_malformed() {
    assert!(matches!(parse_scenario(""), Err(ErrorKind::Configuration)));
    assert!(matches!(parse_scenario("\n\n"), Err(ErrorKind::Configuration)));
}

#[test]
fn wrong_header_is_malformed() {
    assert!(matches!(parse_scenario("stepz:\n- wait-serial: \"A\"\n"), Err(ErrorKind::Configuration)));
}

#[test]
fn stray_entry_line_is_malformed() {
    assert!(matches!(
        parse_scenario("steps:\n- wait-serial: \"A\"\nname: demo\n"),
        Err(ErrorKind::Configuration)
    ));
}

#[test]
fn quotes_inside_an_unquoted_value_survive() {
    let sc = parse_scenario("steps:\n- wait-serial: \"half quoted\n").unwrap();
    assert_eq!(sc.steps[0].match_text, "\"half quoted");
}
