use eso_addons::archive::entry_destination;
use eso_addons::archive::get_root_dir;
use eso_addons::archive::holds_forbidden;
use eso_addons::archive::is_directory;
use eso_addons::archive::plan_extraction;
use eso_addons::archive::ExtractStep;
use eso_addons::archive::ExtractionPlan;
use eso_addons::errors::Error;

fn strings(items: &[&str]) -> Vec<String> {
    items.iter().map(|s| s.to_string()).collect()
}

const URL: &str = "https://www.esoui.com/downloads/info1-Foo.html";

#[test]
fn entry_that_goes_up_is_rejected() {
    assert_eq!(entry_destination("../../evil.txt"), None);
    assert_eq!(entry_destination("Foo/../../evil.txt"), None);
    assert_eq!(entry_destination(".."), None);
    assert_eq!(entry_destination("..\\evil.txt"), None);
}

#[test]
fn absolute_entry_is_rejected() {
    assert_eq!(entry_destination("/etc/passwd"), None);
    assert_eq!(entry_destination("\\Windows\\evil.dll"), None);
    assert_eq!(entry_destination("/"), None);
}

#[test]
fn entry_with_nul_is_rejected() {
    assert_eq!(entry_destination("Foo/a\0b.txt"), None);
}

#[test]
fn entry_with_drive_or_stream_is_rejected() {
    assert_eq!(entry_destination("C:evil.txt"), None);
    assert_eq!(entry_destination("C:\\Windows\\evil.dll"), None);
    assert_eq!(entry_destination("Foo/C:/evil.txt"), None);
    assert_eq!(entry_destination("Foo/notes.txt:stream"), None);
    assert_eq!(get_root_dir("C:evil.txt"), None);
    assert!(holds_forbidden("a:b"));
    assert!(holds_forbidden("a\0b"));
    assert!(!holds_forbidden("Foo/Foo.txt"));
}

#[test]
fn archive_with_drive_entry_is_refused_whole() {
    let names = strings(&["Foo/Foo.txt", "C:evil.txt"]);
    assert_eq!(
        plan_extraction(URL, &names),
        Err(Error::PathTraversalRejected(URL.to_string(), "C:evil.txt".to_string()))
    );
}

#[test]
fn entry_is_resolved_below_the_root() {
    assert_eq!(entry_destination("Foo/Foo.txt"), Some(strings(&["Foo", "Foo.txt"])));
    assert_eq!(entry_destination("Foo/./lang//en.lua"), Some(strings(&["Foo", "lang", "en.lua"])));
    assert_eq!(entry_destination("Foo/lang/../Foo.txt"), Some(strings(&["Foo", "Foo.txt"])));
    assert_eq!(entry_destination("Foo\\lang\\en.lua"), Some(strings(&["Foo", "lang", "en.lua"])));
    assert_eq!(entry_destination("Foo/"), Some(strings(&["Foo"])));
    assert_eq!(entry_destination("Foo/.."), Some(Vec::new()));
    assert_eq!(entry_destination(""), Some(Vec::new()));
    assert_eq!(entry_destination("...hidden/a..b"), Some(strings(&["...hidden", "a..b"])));
}

#[test]
fn directory_entries_end_in_a_separator() {
    assert!(is_directory("Foo/"));
    assert!(is_directory("Foo\\lang\\"));
    assert!(!is_directory("Foo/Foo.txt"));
    assert!(!is_directory(""));
}

#[test]
fn root_dir_is_the_outermost_segment() {
    assert_eq!(get_root_dir("Foo/Foo/Foo.txt"), Some("Foo".to_string()));
    assert_eq!(get_root_dir("Foo"), Some("Foo".to_string()));
    assert_eq!(get_root_dir("./Foo/Bar/"), Some("Foo".to_string()));
    assert_eq!(get_root_dir("Foo/../Bar/x.lua"), Some("Bar".to_string()));
    assert_eq!(get_root_dir(""), None);
    assert_eq!(get_root_dir("../Foo"), None);
}

#[test]
fn plan_has_one_step_for_each_entry() {
    let names = strings(&["Foo/", "Foo/Foo.txt", "Foo/lang/", "Foo/lang/en.lua"]);
    let plan = plan_extraction(URL, &names).unwrap();
    assert_eq!(
        plan,
        ExtractionPlan {
            steps: vec![
                ExtractStep { path: strings(&["Foo"]), is_dir: true },
                ExtractStep { path: strings(&["Foo", "Foo.txt"]), is_dir: false },
                ExtractStep { path: strings(&["Foo", "lang"]), is_dir: true },
                ExtractStep { path: strings(&["Foo", "lang", "en.lua"]), is_dir: false },
            ],
            installed: "Foo".to_string(),
        }
    );
}

#[test]
fn plan_for_nested_folders_of_one_name() {
    let names = strings(&["Foo/Foo/Foo.txt"]);
    let plan = plan_extraction(URL, &names).unwrap();
    assert_eq!(plan.installed, "Foo");
    assert_eq!(plan.steps, vec![ExtractStep { path: strings(&["Foo", "Foo", "Foo.txt"]), is_dir: false }]);
}

#[test]
fn archive_with_traversal_is_refused_whole() {
    let names = strings(&["Foo/Foo.txt", "../../evil.txt", "Foo/more.lua"]);
    assert_eq!(
        plan_extraction(URL, &names),
        Err(Error::PathTraversalRejected(URL.to_string(), "../../evil.txt".to_string()))
    );
    let names = strings(&["../../evil.txt"]);
    assert_eq!(
        plan_extraction(URL, &names),
        Err(Error::PathTraversalRejected(URL.to_string(), "../../evil.txt".to_string()))
    );
}

#[test]
fn first_bad_entry_is_reported() {
    let names = strings(&["Foo/", "/abs", "../up"]);
    assert_eq!(
        plan_extraction(URL, &names),
        Err(Error::PathTraversalRejected(URL.to_string(), "/abs".to_string()))
    );
}

#[test]
fn empty_archive_is_refused() {
    assert_eq!(
        plan_extraction(URL, &Vec::new()),
        Err(Error::CannotExtractAddon(URL.to_string(), "archive is empty".to_string()))
    );
}

#[test]
fn file_entry_without_name_is_refused() {
    let names = strings(&["Foo/Foo.txt", "Foo/.."]);
    assert_eq!(
        plan_extraction(URL, &names),
        Err(Error::CannotExtractAddon(URL.to_string(), "archive entry names no file".to_string()))
    );
}

#[test]
fn archive_without_top_level_directory_is_refused() {
    let names = strings(&["./", "Foo/Foo.txt"]);
    assert_eq!(
        plan_extraction(URL, &names),
        Err(Error::CannotExtractAddon(URL.to_string(), "archive has no top-level directory".to_string()))
    );
}
