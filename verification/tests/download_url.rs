use eso_addons::addons::download_url_from;
use eso_addons::addons::get_download_url;

#[test]
fn test_get_download_link() {
    let tests: Vec<(&str, Option<String>)> = vec![
        (
            "https://www.esoui.com/downloads/info1360-CombatMetrics",
            Some("https://www.esoui.com/downloads/download1360".to_string()),
        ),
        (
            "https://www.esoui.com/downloads/info1360-CombatMetrics.html",
            Some("https://www.esoui.com/downloads/download1360".to_string()),
        ),
        (
            "https://www.esoui.com/downloads/fileinfo.php?id=2817",
            Some("https://www.esoui.com/downloads/download2817".to_string()),
        ),
    ];

    for test in tests {
        let url = get_download_url(test.0);
        assert!(url == test.1, "Got value: {:?}", url);
    }
}

#[test]
fn download_link_of_other_address_is_none() {
    assert_eq!(get_download_url("https://example.com/"), None);
    assert_eq!(get_download_url("https://www.esoui.com/downloads/download1360"), None);
    assert_eq!(get_download_url(""), None);
}

#[test]
fn download_link_needs_a_number_and_a_name() {
    assert_eq!(get_download_url("https://www.esoui.com/downloads/info-CombatMetrics"), None);
    assert_eq!(get_download_url("https://www.esoui.com/downloads/info1360-"), None);
    assert_eq!(get_download_url("http://www.esoui.com/downloads/info1360-CombatMetrics"), None);
    assert_eq!(get_download_url("https://www.esoui.com/downloads/fileinfo.php?id="), None);
}

#[test]
fn download_link_is_not_the_address_itself() {
    let address = "https://www.esoui.com/downloads/info7-LibAddonMenu.html";
    let url = get_download_url(address).unwrap();
    assert_ne!(url, address);
    assert_eq!(url, "https://www.esoui.com/downloads/download7");
}

#[test]
fn first_pattern_wins_over_second() {
    let both = download_url_from(Some("1".to_string()), Some("2".to_string()));
    assert_eq!(both, Some("https://www.esoui.com/downloads/download1".to_string()));
    let second = download_url_from(None, Some("2".to_string()));
    assert_eq!(second, Some("https://www.esoui.com/downloads/download2".to_string()));
    assert_eq!(download_url_from(None, None), None);
}
