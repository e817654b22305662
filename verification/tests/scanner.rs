use eso_addons::scanner::choose_metadata_file;
use eso_addons::scanner::find_addons;
use eso_addons::scanner::find_addons_given;
use eso_addons::scanner::find_metadata_file;
use eso_addons::scanner::Directory;
use eso_addons::scanner::MetadataFile;

fn strings(items: &[&str]) -> Vec<String> {
    items.iter().map(|s| s.to_string()).collect()
}

fn directory(name: &str, files: &[&str]) -> Directory {
    Directory { name: name.to_string(), files: strings(files) }
}

#[test]
fn metadata_file_has_the_name_of_its_directory() {
    let files = strings(&["readme.md", "Foo.txt", "Foo.lua"]);
    assert_eq!(find_metadata_file("Foo", &files), Some("Foo.txt".to_string()));
}

#[test]
fn metadata_file_may_be_in_lower_case() {
    let files = strings(&["foo.txt", "Foo.lua"]);
    assert_eq!(find_metadata_file("Foo", &files), Some("foo.txt".to_string()));
    let files = strings(&["ärger.txt"]);
    assert_eq!(find_metadata_file("ÄRGER", &files), Some("ärger.txt".to_string()));
}

#[test]
fn exact_metadata_file_is_preferred() {
    let files = strings(&["foo.txt", "Foo.txt"]);
    assert_eq!(find_metadata_file("Foo", &files), Some("Foo.txt".to_string()));
    assert_eq!(choose_metadata_file("Foo", "foo", &files), Some("Foo.txt".to_string()));
}

#[test]
fn directory_without_metadata_file_is_no_addon() {
    let files = strings(&["FOO.txt", "Foo.txt.bak", "Bar.txt"]);
    assert_eq!(find_metadata_file("Foo", &files), None);
    assert_eq!(find_metadata_file("Foo", &Vec::new()), None);
}

#[test]
fn nested_addons_are_found_each_on_its_own() {
    let walk = vec![
        directory("AddOns", &[]),
        directory("CombatMetrics", &["CombatMetrics.txt", "CombatMetrics.lua"]),
        directory("CombatMetricsFightData", &["CombatMetricsFightData.txt"]),
        directory("lang", &["en.lua", "de.lua"]),
        directory("libs", &["readme.txt"]),
        directory("LibFoo", &["libfoo.txt"]),
    ];
    assert_eq!(
        find_addons(&walk),
        vec![
            MetadataFile { directory: 1, file: "CombatMetrics.txt".to_string() },
            MetadataFile { directory: 2, file: "CombatMetricsFightData.txt".to_string() },
            MetadataFile { directory: 5, file: "libfoo.txt".to_string() },
        ]
    );
}

#[test]
fn walk_without_addons_finds_none() {
    assert_eq!(find_addons(&Vec::new()), Vec::<MetadataFile>::new());
    assert_eq!(find_addons(&vec![directory("AddOns", &["notes.txt"])]), Vec::<MetadataFile>::new());
}

#[test]
fn nested_directory_with_only_the_lower_case_file_is_an_addon() {
    let walk = vec![
        directory("AddOns", &[]),
        directory("CombatMetrics", &["CombatMetrics.txt"]),
        directory("CombatMetricsFightData", &["combatmetricsfightdata.txt", "data.lua"]),
    ];
    let expected = vec![
        MetadataFile { directory: 1, file: "CombatMetrics.txt".to_string() },
        MetadataFile { directory: 2, file: "combatmetricsfightdata.txt".to_string() },
    ];
    assert_eq!(find_addons(&walk), expected);
    let lowered = strings(&["addons", "combatmetrics", "combatmetricsfightdata"]);
    assert_eq!(find_addons_given(&walk, &lowered), expected);
}

#[test]
fn directory_without_a_lower_case_name_is_judged_by_its_own() {
    let walk = vec![directory("Foo", &["foo.txt"]), directory("Bar", &["Bar.txt"])];
    assert_eq!(find_addons_given(&walk, &strings(&["foo"])), vec![
        MetadataFile { directory: 0, file: "foo.txt".to_string() },
        MetadataFile { directory: 1, file: "Bar.txt".to_string() },
    ]);
    assert_eq!(find_addons_given(&walk, &Vec::new()), vec![
        MetadataFile { directory: 1, file: "Bar.txt".to_string() },
    ]);
}
