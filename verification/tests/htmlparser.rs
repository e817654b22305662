use eso_addons::errors::Error;
use eso_addons::htmlparser::cdn_link_among;
use eso_addons::htmlparser::get_addon_name;
use eso_addons::htmlparser::get_cdn_download_link;
use eso_addons::htmlparser::resolve_download;
use eso_addons::htmlparser::resolve_with;
use eso_addons::htmlparser::title_among;
use eso_addons::htmlparser::ResolvedDownload;

const PAGE_URL: &str = "https://www.esoui.com/downloads/info7-LibAddonMenu.html";

const PAGE: &str = r#"<!DOCTYPE html>
<html>
<head>
<meta charset="utf-8">
<meta property="og:type" content="website">
<meta property="og:title" content="LibAddonMenu-2.0">
<meta property="og:title" content="Second Title">
<title>LibAddonMenu : Libraries : Elder Scrolls Online AddOns</title>
</head>
<body>
<a name="top"></a>
<a href="https://www.esoui.com/downloads/download7">Download</a>
<div><a href="https://cdn.esoui.com/downloads/file7/LibAddonMenu-2.0r35.zip?1690000000">Click here</a></div>
<a href="https://cdn.esoui.com/downloads/file7/other.zip">Other</a>
</body>
</html>"#;

fn row(values: &[Option<&str>]) -> Vec<Option<String>> {
    values.iter().map(|v| v.map(|s| s.to_string())).collect()
}

#[test]
fn title_is_content_of_first_og_title() {
    assert_eq!(get_addon_name(PAGE), Some("LibAddonMenu-2.0".to_string()));
}

#[test]
fn page_without_og_title_has_no_title() {
    let page = r#"<html><head><meta name="og:title" content="x"><title>T</title></head></html>"#;
    assert_eq!(get_addon_name(page), None);
    assert_eq!(get_addon_name(""), None);
}

#[test]
fn link_is_first_href_on_the_trusted_host() {
    assert_eq!(
        get_cdn_download_link(PAGE),
        Some("https://cdn.esoui.com/downloads/file7/LibAddonMenu-2.0r35.zip?1690000000".to_string())
    );
}

#[test]
fn page_without_trusted_link_has_no_link() {
    let page = r#"<html><body><a href="http://cdn.esoui.com/x.zip">a</a>
        <a href="https://evil.example/https://cdn.esoui.com/x.zip">b</a><a>c</a></body></html>"#;
    assert_eq!(get_cdn_download_link(page), None);
}

#[test]
fn page_resolves_to_link_and_title() {
    assert_eq!(
        resolve_download(PAGE_URL, PAGE),
        Ok(ResolvedDownload {
            download_url: "https://cdn.esoui.com/downloads/file7/LibAddonMenu-2.0r35.zip?1690000000"
                .to_string(),
            display_name: "LibAddonMenu-2.0".to_string(),
        })
    );
}

#[test]
fn page_without_title_fails_with_metadata_missing() {
    let page = r#"<html><body><a href="https://cdn.esoui.com/x.zip">a</a></body></html>"#;
    assert_eq!(resolve_download(PAGE_URL, page), Err(Error::MetadataMissing(PAGE_URL.to_string())));
}

#[test]
fn page_with_neither_title_nor_link_fails_with_link_not_found() {
    assert_eq!(resolve_download(PAGE_URL, ""), Err(Error::LinkNotFound(PAGE_URL.to_string())));
    let page = r#"<html><head><title>T</title></head><body><a href="https://www.esoui.com/">home</a></body></html>"#;
    assert_eq!(resolve_download(PAGE_URL, page), Err(Error::LinkNotFound(PAGE_URL.to_string())));
}

#[test]
fn page_without_link_fails_with_link_not_found() {
    let page = r#"<html><head><meta property="og:title" content="Foo"></head><body></body></html>"#;
    assert_eq!(resolve_download(PAGE_URL, page), Err(Error::LinkNotFound(PAGE_URL.to_string())));
}

#[test]
fn resolution_reports_a_missing_link_first() {
    assert_eq!(resolve_with(PAGE_URL, None, None), Err(Error::LinkNotFound(PAGE_URL.to_string())));
    assert_eq!(
        resolve_with(PAGE_URL, Some("Foo".to_string()), None),
        Err(Error::LinkNotFound(PAGE_URL.to_string()))
    );
    assert_eq!(
        resolve_with(PAGE_URL, None, Some("https://cdn.esoui.com/f.zip".to_string())),
        Err(Error::MetadataMissing(PAGE_URL.to_string()))
    );
    assert_eq!(
        resolve_with(PAGE_URL, Some("Foo".to_string()), Some("https://cdn.esoui.com/f.zip".to_string())),
        Ok(ResolvedDownload {
            download_url: "https://cdn.esoui.com/f.zip".to_string(),
            display_name: "Foo".to_string(),
        })
    );
}

#[test]
fn first_og_title_wins_even_without_content() {
    let metas = vec![
        row(&[None, Some("x")]),
        row(&[Some("og:type"), Some("website")]),
        row(&[Some("og:title"), None]),
        row(&[Some("og:title"), Some("Later")]),
    ];
    assert_eq!(title_among(&metas), None);
    let metas = vec![row(&[Some("og:title"), Some("First")]), row(&[Some("og:title"), Some("Later")])];
    assert_eq!(title_among(&metas), Some("First".to_string()));
    assert_eq!(title_among(&Vec::new()), None);
}

#[test]
fn first_trusted_href_wins() {
    let anchors = vec![
        row(&[None]),
        row(&[Some("https://www.esoui.com/")]),
        row(&[Some("https://cdn.esoui.com/a.zip")]),
        row(&[Some("https://cdn.esoui.com/b.zip")]),
    ];
    assert_eq!(cdn_link_among(&anchors), Some("https://cdn.esoui.com/a.zip".to_string()));
    assert_eq!(cdn_link_among(&vec![row(&[Some("https://cdn.esoui.co")])]), None);
    assert_eq!(cdn_link_among(&vec![row(&[Some("https://cdn.esoui.com")])]), Some("https://cdn.esoui.com".to_string()));
}

#[test]
fn link_moved_by_the_parser_is_taken_where_it_lands() {
    // An anchor inside a table but outside a cell is moved in front of the table.
    let page = r#"<html><head><meta property="og:title" content="Foo"></head><body>
<table><tr><td><a href="https://cdn.esoui.com/inside.zip">inside</a></td></tr>
<a href="https://cdn.esoui.com/moved.zip">moved</a></table></body></html>"#;
    assert_eq!(get_cdn_download_link(page), Some("https://cdn.esoui.com/moved.zip".to_string()));
}
