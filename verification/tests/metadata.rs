use eso_addons::addons::Addon;
use eso_addons::metadata::extract_dependency;
use eso_addons::metadata::parse_dependencies;
use eso_addons::metadata::read_addon;
use eso_addons::metadata::read_dependencies;
use eso_addons::text::contains_name;
use eso_addons::text::same_text;
use eso_addons::text::split_on;
use eso_addons::text::split_on_either;
use eso_addons::text::starts_with;

fn strings(items: &[&str]) -> Vec<String> {
    items.iter().map(|s| s.to_string()).collect()
}

#[test]
fn depends_on_line_gives_bare_names() {
    let lines = strings(&["## Title: Some Addon", "## DependsOn: X>=1.0 Y", "## Version: 3"]);
    let addon = read_addon("D", &lines);
    assert_eq!(addon, Addon { name: "D".to_string(), depends_on: strings(&["X", "Y"]) });
}

#[test]
fn first_depends_on_line_wins() {
    let lines = strings(&["## DependsOn: A B", "## DependsOn: C"]);
    assert_eq!(read_dependencies(&lines), strings(&["A", "B"]));
}

#[test]
fn file_without_declaration_has_no_dependencies() {
    let lines = strings(&["## Title: Lonely", "; a comment", ""]);
    assert_eq!(read_dependencies(&lines), Vec::<String>::new());
    assert_eq!(read_dependencies(&Vec::new()), Vec::<String>::new());
}

#[test]
fn declaration_must_begin_the_line_and_hold_the_space() {
    assert_eq!(read_dependencies(&strings(&[" ## DependsOn: A"])), Vec::<String>::new());
    assert_eq!(read_dependencies(&strings(&["## DependsOn:A"])), Vec::<String>::new());
    assert_eq!(read_dependencies(&strings(&["## OptionalDependsOn: A"])), Vec::<String>::new());
    assert_eq!(read_dependencies(&strings(&["## DependsOn:A", "## DependsOn: B"])), strings(&["B"]));
}

#[test]
fn duplicates_and_order_are_kept() {
    assert_eq!(parse_dependencies("B A B>=2 A<1"), strings(&["B", "A", "B", "A"]));
}

#[test]
fn empty_tokens_are_dropped() {
    assert_eq!(parse_dependencies(""), Vec::<String>::new());
    assert_eq!(parse_dependencies("  A   B "), strings(&["A", "B"]));
    assert_eq!(parse_dependencies(">=1.0 A"), strings(&["A"]));
}

#[test]
fn every_comparator_ends_the_name() {
    assert_eq!(extract_dependency("LibA>=1.0"), Some("LibA".to_string()));
    assert_eq!(extract_dependency("LibA<=1.0"), Some("LibA".to_string()));
    assert_eq!(extract_dependency("LibA=1.0"), Some("LibA".to_string()));
    assert_eq!(extract_dependency("LibA<>=<1.0>2"), Some("LibA".to_string()));
    assert_eq!(extract_dependency("LibA>"), Some("LibA".to_string()));
    assert_eq!(extract_dependency("LibA"), Some("LibA".to_string()));
    assert_eq!(extract_dependency(""), None);
    assert_eq!(extract_dependency("=1"), None);
}

#[test]
fn names_are_not_normalised() {
    assert_eq!(extract_dependency("Lib-Ädd.on_2>=7"), Some("Lib-Ädd.on_2".to_string()));
    assert_eq!(parse_dependencies("liba LibA"), strings(&["liba", "LibA"]));
}

#[test]
fn split_keeps_empty_pieces() {
    assert_eq!(split_on("a b", ' '), strings(&["a", "b"]));
    assert_eq!(split_on("", ' '), strings(&[""]));
    assert_eq!(split_on(" a  b ", ' '), strings(&["", "a", "", "b", ""]));
    assert_eq!(split_on_either("a/b\\c", '/', '\\'), strings(&["a", "b", "c"]));
}

#[test]
fn text_helpers_compare_characters() {
    assert!(starts_with("## DependsOn: A", "## DependsOn: "));
    assert!(starts_with("abc", ""));
    assert!(!starts_with("ab", "abc"));
    assert!(!starts_with("abd", "abc"));
    assert!(same_text("é", "é"));
    assert!(!same_text("a", "ab"));
    assert!(contains_name(&strings(&["a", "b"]), "b"));
    assert!(!contains_name(&strings(&["a", "b"]), "c"));
}
