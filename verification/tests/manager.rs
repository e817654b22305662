use eso_addons::addons::read_scanned;
use eso_addons::addons::take_named;
use eso_addons::addons::Addon;
use eso_addons::addons::AddonList;
use eso_addons::addons::Manager;
use eso_addons::addons::ScannedAddon;
use eso_addons::archive::is_plain;
use eso_addons::errors::Error;

fn strings(items: &[&str]) -> Vec<String> {
    items.iter().map(|s| s.to_string()).collect()
}

fn scanned(name: &str, lines: &[&str]) -> ScannedAddon {
    ScannedAddon { name: name.to_string(), metadata: Ok(strings(lines)) }
}

fn unreadable(name: &str, cause: &str) -> ScannedAddon {
    ScannedAddon { name: name.to_string(), metadata: Err(cause.to_string()) }
}

fn addon(name: &str, depends_on: &[&str]) -> Addon {
    Addon { name: name.to_string(), depends_on: strings(depends_on) }
}

#[test]
fn manager_keeps_its_directory() {
    let manager = Manager::new("/home/user/AddOns");
    assert_eq!(manager.addon_dir(), "/home/user/AddOns");
}

#[test]
fn scan_lists_an_addon_with_its_dependencies() {
    let manager = Manager::new("/addons");
    let walk = Ok(vec![scanned("D", &["## Title: D", "## DependsOn: X>=1.0 Y"])]);
    let list = manager.get_addons(walk).unwrap();
    assert_eq!(list, AddonList { addons: vec![addon("D", &["X", "Y"])], errors: vec![] });
}

#[test]
fn scan_of_nested_addons_lists_both() {
    let manager = Manager::new("/addons");
    let walk = Ok(vec![
        scanned("CombatMetrics", &["## DependsOn: LibAddonMenu-2.0>=28 LibCombat>=63"]),
        scanned("CombatMetricsFightData", &["## Title: Fight Data"]),
    ]);
    let list = manager.get_addons(walk).unwrap();
    assert_eq!(list.errors.len(), 0);
    assert_eq!(list.addons.len(), 2);
    assert_eq!(list.addons[0], addon("CombatMetrics", &["LibAddonMenu-2.0", "LibCombat"]));
    assert_eq!(list.addons[1], addon("CombatMetricsFightData", &[]));
}

#[test]
fn scan_of_empty_directory_lists_nothing() {
    let manager = Manager::new("/addons");
    let list = manager.get_addons(Ok(Vec::new())).unwrap();
    assert_eq!(list.addons.len(), 0);
    assert_eq!(list.errors.len(), 0);
}

#[test]
fn unreadable_addon_is_collected_not_fatal() {
    let manager = Manager::new("/addons");
    let walk = Ok(vec![
        scanned("A", &[]),
        unreadable("B", "permission denied"),
        scanned("C", &["## DependsOn: A"]),
        unreadable("D", "missing addon metadata file"),
    ]);
    let list = manager.get_addons(walk).unwrap();
    assert_eq!(list.addons, vec![addon("A", &[]), addon("C", &["A"])]);
    assert_eq!(
        list.errors,
        vec![
            Error::CannotReadAddon("B".to_string(), "permission denied".to_string()),
            Error::CannotReadAddon("D".to_string(), "missing addon metadata file".to_string()),
        ]
    );
}

#[test]
fn unavailable_directory_is_fatal() {
    let manager = Manager::new("/nowhere");
    assert_eq!(
        manager.get_addons(Err("No such file or directory".to_string())),
        Err(Error::CannotOpenAddonDirectory("/nowhere".to_string(), "No such file or directory".to_string()))
    );
    assert_eq!(
        manager.get_addon(Err("No such file or directory".to_string()), "A"),
        Err(Error::CannotOpenAddonDirectory("/nowhere".to_string(), "No such file or directory".to_string()))
    );
}

#[test]
fn addon_is_found_by_name() {
    let manager = Manager::new("/addons");
    let walk = || Ok(vec![scanned("A", &[]), scanned("B", &["## DependsOn: A"]), scanned("B", &[])]);
    assert_eq!(manager.get_addon(walk(), "B"), Ok(Some(addon("B", &["A"]))));
    assert_eq!(manager.get_addon(walk(), "A"), Ok(Some(addon("A", &[]))));
    assert_eq!(manager.get_addon(walk(), "C"), Ok(None));
    assert_eq!(manager.get_addon(walk(), "b"), Ok(None));
}

#[test]
fn unreadable_addon_is_not_found() {
    let manager = Manager::new("/addons");
    let walk = Ok(vec![unreadable("A", "permission denied")]);
    assert_eq!(manager.get_addon(walk, "A"), Ok(None));
}

#[test]
fn take_named_takes_the_first() {
    let addons = vec![addon("A", &[]), addon("B", &["1"]), addon("B", &["2"])];
    assert_eq!(take_named(addons, "B"), Some(addon("B", &["1"])));
    assert_eq!(take_named(Vec::new(), "B"), None);
}

#[test]
fn delete_removes_the_directory_of_the_addon() {
    let manager = Manager::new("/home/user/AddOns");
    assert_eq!(manager.delete_addon(&addon("Foo", &[])), Ok("/home/user/AddOns/Foo".to_string()));
}

#[test]
fn delete_refuses_what_is_outside_the_directory() {
    let manager = Manager::new("/home/user/AddOns");
    for name in ["..", ".", "", "../Other", "Foo/Bar", "/etc", "Foo\\Bar", "a\0b", "C:", "C:evil"] {
        assert_eq!(
            manager.delete_addon(&addon(name, &[])),
            Err(Error::CannotRemoveAddon(
                name.to_string(),
                "addon is not inside the addon directory".to_string()
            ))
        );
    }
}

#[test]
fn plain_names_name_one_directory() {
    assert!(is_plain("Foo"));
    assert!(is_plain("..."));
    assert!(is_plain("Lib Addon-Menu_2.0"));
    assert!(!is_plain(".."));
    assert!(!is_plain("a/b"));
    assert!(!is_plain("C:"));
    assert!(!is_plain("C:evil.txt"));
}

#[test]
fn scanned_directory_gives_an_addon_or_an_error() {
    assert_eq!(read_scanned(&scanned("A", &["## DependsOn: B>=2"])), Ok(addon("A", &["B"])));
    assert_eq!(
        read_scanned(&unreadable("A", "stream did not contain valid UTF-8")),
        Err(Error::CannotReadAddon("A".to_string(), "stream did not contain valid UTF-8".to_string()))
    );
}
