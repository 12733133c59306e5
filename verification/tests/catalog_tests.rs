use example_runner::catalog::discover_test_cases;
use example_runner::descriptor::BuildMode;

#[test]
fn discovery_pairs_modes_and_sorts_by_name() {
    let names = vec![
        String::from("blinky.rs"),
        String::from("alarm.rs"),
    ];
    let cases = discover_test_cases(&names);
    assert_eq!(cases.len(), 4);
    assert_eq!(cases[0].name, "alarm");
    assert_eq!(cases[0].mode, BuildMode::Debug);
    assert_eq!(cases[1].name, "alarm");
    assert_eq!(cases[1].mode, BuildMode::Release);
    assert_eq!(cases[2].name, "blinky");
    assert_eq!(cases[2].mode, BuildMode::Debug);
    assert_eq!(cases[3].name, "blinky");
    assert_eq!(cases[3].mode, BuildMode::Release);
}

#[test]
fn non_source_files_are_ignored() {
    let names = vec![
        String::from("notes.txt"),
        String::from("blinky.rs.bak"),
        String::from("Makefile"),
    ];
    let cases = discover_test_cases(&names);
    assert_eq!(cases.len(), 0);
}

#[test]
fn a_bare_suffix_has_no_stem_and_is_ignored() {
    let names = vec![String::from(".rs")];
    let cases = discover_test_cases(&names);
    assert_eq!(cases.len(), 0);
}

#[test]
fn empty_listing_yields_the_empty_catalog() {
    let names: Vec<String> = Vec::new();
    let cases = discover_test_cases(&names);
    assert_eq!(cases.len(), 0);
}

#[test]
fn inner_dots_stay_in_the_example_name() {
    let names = vec![String::from("multi.part.rs")];
    let cases = discover_test_cases(&names);
    assert_eq!(cases.len(), 2);
    assert_eq!(cases[0].name, "multi.part");
}
