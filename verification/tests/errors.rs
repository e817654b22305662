use eso_addons::errors::Error;

fn s(text: &str) -> String {
    text.to_string()
}

#[test]
fn messages_name_the_subject_and_the_cause() {
    assert_eq!(
        Error::CannotOpenAddonDirectory(s("/addons"), s("not found")).message(),
        "cannot open addon directory /addons: not found"
    );
    assert_eq!(Error::CannotReadAddon(s("Foo"), s("denied")).message(), "cannot read addon Foo: denied");
    assert_eq!(Error::CannotRemoveAddon(s("Foo"), s("busy")).message(), "cannot remove addon Foo: busy");
    assert_eq!(Error::CannotLoadConfig.message(), "cannot load config");
    assert_eq!(
        Error::CannotDownloadAddon(s("https://x"), s("timeout")).message(),
        "cannot download addon https://x: timeout"
    );
    assert_eq!(
        Error::CannotExtractAddon(s("https://x"), s("bad archive")).message(),
        "cannot extract addon https://x: bad archive"
    );
    assert_eq!(Error::Other(s("anything")).message(), "anything");
}

#[test]
fn messages_of_page_and_archive_faults() {
    assert_eq!(
        Error::MetadataMissing(s("https://x")).message(),
        "cannot download addon https://x: addon title missing"
    );
    assert_eq!(
        Error::LinkNotFound(s("https://x")).message(),
        "cannot download addon https://x: CDN link missing"
    );
    assert_eq!(
        Error::PathTraversalRejected(s("https://x"), s("../../evil.txt")).message(),
        "cannot extract addon https://x: entry leaves the addon directory: ../../evil.txt"
    );
}
