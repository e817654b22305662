use eso_addons::addons::Addon;
use eso_addons::cli::clean_action;
use eso_addons::cli::is_already_listed;
use eso_addons::cli::list_installed;
use eso_addons::cli::status_rows;
use eso_addons::cli::unlist;
use eso_addons::cli::update_outcome;
use eso_addons::cli::AddCommand;
use eso_addons::cli::CleanAction;
use eso_addons::cli::Error;
use eso_addons::cli::StatusRow;
use eso_addons::cli::UpdateOutcome;
use eso_addons::config::AddonEntry;

const PAGE: &str = r#"<html><head><meta property="og:title" content="Combat Metrics"></head>
<body><a href="https://cdn.esoui.com/downloads/file1360/CombatMetrics.zip">Download</a></body></html>"#;

fn addon(name: &str, depends_on: &[&str]) -> Addon {
    Addon { name: name.to_string(), depends_on: depends_on.iter().map(|s| s.to_string()).collect() }
}

fn entry(name: &str, url: Option<&str>, dependency: bool) -> AddonEntry {
    AddonEntry { name: name.to_string(), url: url.map(|u| u.to_string()), dependency }
}

fn row(name: &str, installed: Option<bool>, missing: bool, unused: bool) -> StatusRow {
    StatusRow { name: name.to_string(), installed, missing, unused }
}

fn sorted(mut rows: Vec<StatusRow>) -> Vec<StatusRow> {
    rows.sort_by(|a, b| a.name.cmp(&b.name));
    rows
}

#[test]
fn entry_is_named_by_the_page_title() {
    let command = AddCommand {
        addon_url: Some("https://www.esoui.com/downloads/info1360-CombatMetrics.html".to_string()),
        dependency: true,
    };
    assert_eq!(
        command.get_entry(PAGE),
        Ok(entry("Combat Metrics", Some("https://www.esoui.com/downloads/download1360"), true))
    );
}

#[test]
fn entry_for_other_address_has_no_download_page() {
    let command = AddCommand { addon_url: Some("https://example.com/addon".to_string()), dependency: false };
    assert_eq!(command.get_entry(PAGE), Ok(entry("Combat Metrics", None, false)));
}

#[test]
fn entry_needs_an_address_and_a_title() {
    let command = AddCommand { addon_url: None, dependency: false };
    assert_eq!(command.get_entry(PAGE), Err(Error::Other("missing addon URL".to_string())));
    let command = AddCommand { addon_url: Some("https://example.com/addon".to_string()), dependency: false };
    assert_eq!(
        command.get_entry("<html></html>"),
        Err(Error::Other("failed to get addon name".to_string()))
    );
    assert_eq!(
        command.entry_with(None, Some("https://x".to_string())),
        Err(Error::Other("failed to get addon name".to_string()))
    );
}

#[test]
fn listed_download_page_is_not_installed_again() {
    let desired = vec![entry("A", Some("https://a"), false), entry("B", None, false)];
    assert!(is_already_listed(&desired, &Some("https://a".to_string())));
    assert!(!is_already_listed(&desired, &Some("https://b".to_string())));
    assert!(is_already_listed(&desired, &None));
    assert!(!is_already_listed(&Vec::new(), &None));
}

#[test]
fn installed_addon_is_listed_under_its_own_name() {
    let mut desired = vec![entry("A", None, false)];
    list_installed(&mut desired, entry("Combat Metrics", Some("https://c"), true), &addon("CombatMetrics", &[]));
    assert_eq!(desired, vec![entry("A", None, false), entry("CombatMetrics", Some("https://c"), true)]);
}

#[test]
fn unlisting_takes_the_first_entry_of_the_name() {
    let mut desired = vec![entry("A", None, false), entry("B", Some("1"), false), entry("B", Some("2"), true)];
    assert_eq!(unlist(&mut desired, "B"), Ok(entry("B", Some("1"), false)));
    assert_eq!(desired, vec![entry("A", None, false), entry("B", Some("2"), true)]);
}

#[test]
fn unlisting_an_unknown_name_fails() {
    let mut desired = vec![entry("A", None, false)];
    assert_eq!(unlist(&mut desired, "B"), Err(Error::AddonNotFound("B".to_string())));
    assert_eq!(desired, vec![entry("A", None, false)]);
}

#[test]
fn update_outcomes() {
    let wanted = entry("A", None, false);
    assert_eq!(update_outcome(&wanted, Some(&addon("A", &[]))), UpdateOutcome::Updated);
    assert_eq!(
        update_outcome(&wanted, Some(&addon("B", &[]))),
        UpdateOutcome::Renamed { installed: "B".to_string() }
    );
    assert_eq!(update_outcome(&wanted, None), UpdateOutcome::NotPresent);
}

#[test]
fn clean_actions() {
    assert_eq!(clean_action(0, Some(true)), CleanAction::Nothing);
    assert_eq!(clean_action(0, None), CleanAction::Nothing);
    assert_eq!(clean_action(2, Some(true)), CleanAction::Remove);
    assert_eq!(clean_action(2, Some(false)), CleanAction::Show);
    assert_eq!(clean_action(1, None), CleanAction::ShowAndAsk);
}

#[test]
fn listing_has_a_row_for_each_name_of_interest() {
    let desired = vec![entry("A", None, false), entry("Gone", None, false), entry("A", None, true)];
    let installed = vec![addon("A", &["LibX", "LibY"]), addon("LibX", &[]), addon("Orphan", &[])];
    let rows = sorted(status_rows(&desired, &installed));
    assert_eq!(
        rows,
        vec![
            row("A", Some(true), false, false),
            row("Gone", Some(false), false, false),
            row("LibY", None, true, false),
            row("Orphan", None, false, true),
        ]
    );
}

#[test]
fn listing_of_nothing_is_empty() {
    assert_eq!(status_rows(&Vec::new(), &Vec::new()), Vec::<StatusRow>::new());
}

#[test]
fn command_error_messages() {
    assert_eq!(Error::AddonNotFound("Foo".to_string()).message(), "addon Foo not found");
    assert_eq!(Error::NoAddonsInstalled.message(), "no addons installed");
    assert_eq!(
        Error::AppError(eso_addons::errors::Error::CannotLoadConfig).message(),
        "app error: cannot load config"
    );
    assert_eq!(Error::Other("boom".to_string()).message(), "other error: boom");
}
