use eso_addons::addons::Addon;
use eso_addons::config::default_dependency;
use eso_addons::config::AddonEntry;
use eso_addons::find_entry;
use eso_addons::get_missing_dependencies;
use eso_addons::get_unmanaged_addons;
use eso_addons::get_unused_dependencies;
use eso_addons::has_addon;
use eso_addons::has_dependent;
use eso_addons::is_listed;

fn addon(name: &str, depends_on: &[&str]) -> Addon {
    Addon { name: name.to_string(), depends_on: depends_on.iter().map(|s| s.to_string()).collect() }
}

fn entry(name: &str, dependency: bool) -> AddonEntry {
    AddonEntry { name: name.to_string(), url: None, dependency }
}

fn sorted(mut names: Vec<String>) -> Vec<String> {
    names.sort();
    names
}

#[test]
fn absent_dependency_is_missing() {
    let installed = vec![addon("A", &["LibX"])];
    assert_eq!(get_missing_dependencies(&installed), vec!["LibX".to_string()]);
}

#[test]
fn dependency_is_not_missing_once_installed() {
    let installed = vec![addon("A", &["LibX"]), addon("LibX", &[])];
    assert_eq!(get_missing_dependencies(&installed), Vec::<String>::new());
}

#[test]
fn missing_dependencies_are_listed_once() {
    let installed = vec![
        addon("A", &["LibX", "LibY", "LibX"]),
        addon("B", &["LibY", "A", "LibZ"]),
        addon("LibZ", &["B"]),
    ];
    assert_eq!(sorted(get_missing_dependencies(&installed)), vec!["LibX".to_string(), "LibY".to_string()]);
}

#[test]
fn nothing_installed_nothing_missing() {
    assert_eq!(get_missing_dependencies(&Vec::new()), Vec::<String>::new());
    assert_eq!(get_unused_dependencies(&Vec::new(), &vec![entry("A", false)]), Vec::<String>::new());
}

#[test]
fn dependency_names_are_compared_exactly() {
    let installed = vec![addon("A", &["libx"]), addon("LibX", &[])];
    assert_eq!(get_missing_dependencies(&installed), vec!["libx".to_string()]);
}

#[test]
fn orphan_without_entry_is_unused() {
    let installed = vec![addon("A", &[])];
    assert_eq!(get_unused_dependencies(&installed, &Vec::new()), vec!["A".to_string()]);
}

#[test]
fn orphan_wanted_for_itself_is_not_unused() {
    let installed = vec![addon("A", &[])];
    let desired = vec![entry("A", false)];
    assert_eq!(get_unused_dependencies(&installed, &desired), Vec::<String>::new());
}

#[test]
fn orphan_wanted_as_dependency_is_unused() {
    let installed = vec![addon("A", &[]), addon("B", &[])];
    let desired = vec![entry("A", true), entry("B", false)];
    assert_eq!(get_unused_dependencies(&installed, &desired), vec!["A".to_string()]);
}

#[test]
fn addon_with_dependent_is_not_unused() {
    let installed = vec![addon("A", &["LibX"]), addon("LibX", &[])];
    let desired = vec![entry("A", false)];
    assert_eq!(get_unused_dependencies(&installed, &desired), Vec::<String>::new());
    let installed = vec![addon("Self", &["Self"])];
    assert_eq!(get_unused_dependencies(&installed, &Vec::new()), Vec::<String>::new());
}

#[test]
fn first_entry_of_a_name_decides() {
    let installed = vec![addon("A", &[])];
    let desired = vec![entry("A", true), entry("A", false)];
    assert_eq!(get_unused_dependencies(&installed, &desired), vec!["A".to_string()]);
    assert_eq!(find_entry(&desired, "A"), Some(&desired[0]));
    assert_eq!(find_entry(&desired, "B"), None);
}

#[test]
fn unused_addons_are_listed_once() {
    let installed = vec![addon("A", &[]), addon("B", &["C"]), addon("A", &[])];
    assert_eq!(sorted(get_unused_dependencies(&installed, &Vec::new())), vec!["A".to_string(), "B".to_string()]);
}

#[test]
fn missing_dependency_is_never_unused() {
    let installed = vec![addon("A", &["LibX"])];
    let desired = vec![entry("A", false)];
    assert_eq!(get_unused_dependencies(&installed, &desired), Vec::<String>::new());
}

#[test]
fn unlisted_addon_is_unmanaged() {
    let installed = vec![addon("A", &[]), addon("B", &[]), addon("C", &["A"])];
    let desired = vec![entry("B", true)];
    let unmanaged = get_unmanaged_addons(&desired, &installed);
    assert_eq!(unmanaged, vec![&installed[0], &installed[2]]);
}

#[test]
fn listed_addon_is_not_unmanaged() {
    let installed = vec![addon("A", &[])];
    let desired = vec![entry("A", false)];
    assert_eq!(get_unmanaged_addons(&desired, &installed), Vec::<&Addon>::new());
    assert_eq!(get_unmanaged_addons(&Vec::new(), &Vec::new()), Vec::<&Addon>::new());
}

#[test]
fn lookups_by_name() {
    let installed = vec![addon("A", &["LibX"]), addon("B", &[])];
    assert!(has_addon(&installed, "B"));
    assert!(!has_addon(&installed, "LibX"));
    assert!(has_dependent(&installed, "LibX"));
    assert!(!has_dependent(&installed, "A"));
    assert!(is_listed(&vec![entry("A", true)], "A"));
    assert!(!is_listed(&vec![entry("A", true)], "a"));
}

#[test]
fn entry_is_no_dependency_unless_it_says_so() {
    assert!(!default_dependency());
}
