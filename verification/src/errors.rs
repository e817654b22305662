//! The failures that the library reports.

use vstd::prelude::*;
use vstd::string::*;

verus! {

/// Why an operation on the addon directory, on a page or on an archive failed.
/// The first field names what was worked on, the second gives the cause.
#[derive(Debug, PartialEq, Eq)]
pub enum Error {
    /// The addon directory is missing or cannot be listed: fatal to a whole scan.
    CannotOpenAddonDirectory(String, String),
    /// One addon's metadata file is missing or unreadable: collected, not fatal.
    CannotReadAddon(String, String),
    /// An addon's directory could not be removed.
    CannotRemoveAddon(String, String),
    /// The configuration could not be loaded.
    CannotLoadConfig,
    /// The page or the archive behind it could not be fetched.
    CannotDownloadAddon(String, String),
    /// The archive could not be read or unpacked.
    CannotExtractAddon(String, String),
    /// The page names no addon title.
    MetadataMissing(String),
    /// The page holds no link to an archive on the trusted host.
    LinkNotFound(String),
    /// An archive entry would be written outside the addon directory; the
    /// second field is the entry's stored path.
    PathTraversalRejected(String, String),
    /// Any other failure.
    Other(String),
}

/// An `Error` with its strings as character sequences.
pub enum ErrorView {
    CannotOpenAddonDirectory(Seq<char>, Seq<char>),
    CannotReadAddon(Seq<char>, Seq<char>),
    CannotRemoveAddon(Seq<char>, Seq<char>),
    CannotLoadConfig,
    CannotDownloadAddon(Seq<char>, Seq<char>),
    CannotExtractAddon(Seq<char>, Seq<char>),
    MetadataMissing(Seq<char>),
    LinkNotFound(Seq<char>),
    PathTraversalRejected(Seq<char>, Seq<char>),
    Other(Seq<char>),
}

impl View for Error {
    type V = ErrorView;

    open spec fn view(&self) -> ErrorView {
        match self {
            Error::CannotOpenAddonDirectory(a, b) => ErrorView::CannotOpenAddonDirectory(a@, b@),
            Error::CannotReadAddon(a, b) => ErrorView::CannotReadAddon(a@, b@),
            Error::CannotRemoveAddon(a, b) => ErrorView::CannotRemoveAddon(a@, b@),
            Error::CannotLoadConfig => ErrorView::CannotLoadConfig,
            Error::CannotDownloadAddon(a, b) => ErrorView::CannotDownloadAddon(a@, b@),
            Error::CannotExtractAddon(a, b) => ErrorView::CannotExtractAddon(a@, b@),
            Error::MetadataMissing(a) => ErrorView::MetadataMissing(a@),
            Error::LinkNotFound(a) => ErrorView::LinkNotFound(a@),
            Error::PathTraversalRejected(a, b) => ErrorView::PathTraversalRejected(a@, b@),
            Error::Other(a) => ErrorView::Other(a@),
        }
    }
}

impl DeepView for Error {
    type V = ErrorView;

    open spec fn deep_view(&self) -> ErrorView {
        self@
    }
}

/// The text shown to a user for an error.
pub open spec fn message_of(e: ErrorView) -> Seq<char> {
    match e {
        ErrorView::CannotOpenAddonDirectory(dir, cause) => "cannot open addon directory "@ + dir
            + ": "@ + cause,
        ErrorView::CannotReadAddon(name, cause) => "cannot read addon "@ + name + ": "@ + cause,
        ErrorView::CannotRemoveAddon(name, cause) => "cannot remove addon "@ + name + ": "@
            + cause,
        ErrorView::CannotLoadConfig => "cannot load config"@,
        ErrorView::CannotDownloadAddon(url, cause) => "cannot download addon "@ + url + ": "@
            + cause,
        ErrorView::CannotExtractAddon(url, cause) => "cannot extract addon "@ + url + ": "@
            + cause,
        ErrorView::MetadataMissing(url) => "cannot download addon "@ + url
            + ": addon title missing"@,
        ErrorView::LinkNotFound(url) => "cannot download addon "@ + url + ": CDN link missing"@,
        ErrorView::PathTraversalRejected(url, entry) => "cannot extract addon "@ + url
            + ": entry leaves the addon directory: "@ + entry,
        ErrorView::Other(cause) => cause,
    }
}

/// `head`, `subject`, `middle` and `tail` joined in that order.
fn phrase(head: &str, subject: &str, middle: &str, tail: &str) -> (out: String)
    ensures
        out@ == head@ + subject@ + middle@ + tail@,
{
    let mut out = String::from_str(head);
    out.append(subject);
    out.append(middle);
    out.append(tail);
    out
}

impl Error {
    /// The text shown to a user for this error.
    pub fn message(&self) -> (out: String)
        ensures
            out@ == message_of(self@),
    {
        match self {
            Error::CannotOpenAddonDirectory(dir, cause) => phrase(
                "cannot open addon directory ",
                dir.as_str(),
                ": ",
                cause.as_str(),
            ),
            Error::CannotReadAddon(name, cause) => phrase(
                "cannot read addon ",
                name.as_str(),
                ": ",
                cause.as_str(),
            ),
            Error::CannotRemoveAddon(name, cause) => phrase(
                "cannot remove addon ",
                name.as_str(),
                ": ",
                cause.as_str(),
            ),
            Error::CannotLoadConfig => String::from_str("cannot load config"),
            Error::CannotDownloadAddon(url, cause) => phrase(
                "cannot download addon ",
                url.as_str(),
                ": ",
                cause.as_str(),
            ),
            Error::CannotExtractAddon(url, cause) => phrase(
                "cannot extract addon ",
                url.as_str(),
                ": ",
                cause.as_str(),
            ),
            Error::MetadataMissing(url) => {
                let out = phrase("cannot download addon ", url.as_str(), ": addon title missing", "");
                proof {
                    reveal_strlit("");
                    assert(out@ == "cannot download addon "@ + url@ + ": addon title missing"@);
                }
                out
            },
            Error::LinkNotFound(url) => {
                let out = phrase("cannot download addon ", url.as_str(), ": CDN link missing", "");
                proof {
                    reveal_strlit("");
                    assert(out@ == "cannot download addon "@ + url@ + ": CDN link missing"@);
                }
                out
            },
            Error::PathTraversalRejected(url, entry) => phrase(
                "cannot extract addon ",
                url.as_str(),
                ": entry leaves the addon directory: ",
                entry.as_str(),
            ),
            Error::Other(cause) => cause.clone(),
        }
    }
}

} // verus!
