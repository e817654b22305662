//! Installing an addon from its web page, as a machine of states.
//!
//! The work outside the library (fetching, storing, unpacking, reading) is
//! done by the caller. After each piece of it the caller reports an event;
//! `step` answers with the next state and with what to do next. A failure
//! ends the installation: nothing is tried again.
//!
//! `Idle -> Fetching -> LinkResolved -> Downloading -> Extracting ->
//! Rescanning -> Done`, and `Failed` from any of them.

use vstd::prelude::*;
use vstd::string::*;

use crate::addons::read_scanned;
use crate::addons::scan_outcome;
use crate::addons::Addon;
use crate::addons::AddonView;
use crate::addons::ScannedAddon;
use crate::addons::ScannedAddonView;
use crate::archive::is_plain_segment;
use crate::archive::destination;
use crate::archive::lemma_plan_is_confined;
use crate::archive::lemma_plan_refuses_escape;
use crate::archive::plan_extraction;
use crate::archive::planned;
use crate::archive::ExtractStep;
use crate::archive::ExtractStepView;
use crate::errors::Error;
use crate::errors::ErrorView;
use crate::htmlparser::page_cdn_link;
use crate::htmlparser::page_title;
use crate::htmlparser::resolution;
use crate::htmlparser::resolve_download;

verus! {

/// How far an installation has come.
#[derive(Debug, PartialEq, Eq)]
pub enum InstallState {
    /// Nothing was asked for yet.
    Idle,
    /// The addon's page is being fetched.
    Fetching { page_url: String },
    /// The page named the archive and the addon's title.
    LinkResolved { page_url: String, download_url: String, display_name: String },
    /// The archive is being stored.
    Downloading { page_url: String },
    /// The archive is being unpacked; its addon goes to `installed`.
    Extracting { page_url: String, installed: String },
    /// The metadata file of the unpacked addon is being read.
    Rescanning { page_url: String, installed: String },
    /// The addon is installed.
    Done { addon: Addon },
    /// The installation failed.
    Failed { error: Error },
}

/// What the caller reports.
#[derive(Debug, PartialEq, Eq)]
pub enum InstallEvent {
    /// The addon at `page_url` is to be installed.
    Requested { page_url: String },
    /// The page was fetched; `html` is its text.
    PageFetched { html: String },
    /// The server began to send the archive.
    DownloadStarted,
    /// The archive was stored and opened; `entries` are the stored paths of
    /// its entries, in order.
    ArchiveStored { entries: Vec<String> },
    /// Every step of the plan was carried out.
    Unpacked,
    /// The metadata file of the unpacked addon was looked for: its lines, or
    /// why there are none.
    MetadataRead { metadata: Result<Vec<String>, String> },
    /// A transfer failed.
    TransferFailed { cause: String },
    /// The archive could not be read, or an entry could not be written.
    ArchiveFailed { cause: String },
}

/// What the caller does next.
#[derive(Debug, PartialEq, Eq)]
pub enum InstallAction {
    /// Fetch the page at `url` and report `PageFetched`.
    FetchPage { url: String },
    /// Ask for the archive at `url` and report `DownloadStarted`.
    FetchArchive { url: String },
    /// Store the archive, open it and report `ArchiveStored`.
    StoreArchive,
    /// Carry out the steps, the i-th for the i-th entry, and report
    /// `Unpacked`.
    Unpack { steps: Vec<ExtractStep> },
    /// Read the metadata file of the addon in `directory`, below the addon
    /// directory, and report `MetadataRead`.
    ReadMetadata { directory: String },
    /// Nothing: the installation is over.
    Stop,
}

/// An `InstallState` with its strings as character sequences.
pub enum InstallStateView {
    Idle,
    Fetching { page_url: Seq<char> },
    LinkResolved { page_url: Seq<char>, download_url: Seq<char>, display_name: Seq<char> },
    Downloading { page_url: Seq<char> },
    Extracting { page_url: Seq<char>, installed: Seq<char> },
    Rescanning { page_url: Seq<char>, installed: Seq<char> },
    Done { addon: AddonView },
    Failed { error: ErrorView },
}

/// An `InstallEvent` with its strings as character sequences.
pub enum InstallEventView {
    Requested { page_url: Seq<char> },
    PageFetched { html: Seq<char> },
    DownloadStarted,
    ArchiveStored { entries: Seq<Seq<char>> },
    Unpacked,
    MetadataRead { metadata: Result<Seq<Seq<char>>, Seq<char>> },
    TransferFailed { cause: Seq<char> },
    ArchiveFailed { cause: Seq<char> },
}

/// An `InstallAction` with its strings as character sequences.
pub enum InstallActionView {
    FetchPage { url: Seq<char> },
    FetchArchive { url: Seq<char> },
    StoreArchive,
    Unpack { steps: Seq<ExtractStepView> },
    ReadMetadata { directory: Seq<char> },
    Stop,
}

impl View for InstallState {
    type V = InstallStateView;

    open spec fn view(&self) -> InstallStateView {
        match self {
            InstallState::Idle => InstallStateView::Idle,
            InstallState::Fetching { page_url } => InstallStateView::Fetching {
                page_url: page_url@,
            },
            InstallState::LinkResolved {
                page_url,
                download_url,
                display_name,
            } => InstallStateView::LinkResolved {
                page_url: page_url@,
                download_url: download_url@,
                display_name: display_name@,
            },
            InstallState::Downloading { page_url } => InstallStateView::Downloading {
                page_url: page_url@,
            },
            InstallState::Extracting { page_url, installed } => InstallStateView::Extracting {
                page_url: page_url@,
                installed: installed@,
            },
            InstallState::Rescanning { page_url, installed } => InstallStateView::Rescanning {
                page_url: page_url@,
                installed: installed@,
            },
            InstallState::Done { addon } => InstallStateView::Done { addon: addon@ },
            InstallState::Failed { error } => InstallStateView::Failed { error: error@ },
        }
    }
}

impl View for InstallEvent {
    type V = InstallEventView;

    open spec fn view(&self) -> InstallEventView {
        match self {
            InstallEvent::Requested { page_url } => InstallEventView::Requested {
                page_url: page_url@,
            },
            InstallEvent::PageFetched { html } => InstallEventView::PageFetched { html: html@ },
            InstallEvent::DownloadStarted => InstallEventView::DownloadStarted,
            InstallEvent::ArchiveStored { entries } => InstallEventView::ArchiveStored {
                entries: entries.deep_view(),
            },
            InstallEvent::Unpacked => InstallEventView::Unpacked,
            InstallEvent::MetadataRead { metadata } => InstallEventView::MetadataRead {
                metadata: match metadata {
                    Ok(lines) => Ok(lines.deep_view()),
                    Err(cause) => Err(cause@),
                },
            },
            InstallEvent::TransferFailed { cause } => InstallEventView::TransferFailed {
                cause: cause@,
            },
            InstallEvent::ArchiveFailed { cause } => InstallEventView::ArchiveFailed {
                cause: cause@,
            },
        }
    }
}

impl View for InstallAction {
    type V = InstallActionView;

    open spec fn view(&self) -> InstallActionView {
        match self {
            InstallAction::FetchPage { url } => InstallActionView::FetchPage { url: url@ },
            InstallAction::FetchArchive { url } => InstallActionView::FetchArchive { url: url@ },
            InstallAction::StoreArchive => InstallActionView::StoreArchive,
            InstallAction::Unpack { steps } => InstallActionView::Unpack {
                steps: steps.deep_view(),
            },
            InstallAction::ReadMetadata { directory } => InstallActionView::ReadMetadata {
                directory: directory@,
            },
            InstallAction::Stop => InstallActionView::Stop,
        }
    }
}

/// Whether an installation is over.
pub open spec fn is_over(state: InstallStateView) -> bool {
    state is Done || state is Failed
}

/// The page that an installation under way is for.
pub open spec fn page_of(state: InstallStateView) -> Option<Seq<char>> {
    match state {
        InstallStateView::Fetching { page_url } => Some(page_url),
        InstallStateView::LinkResolved { page_url, .. } => Some(page_url),
        InstallStateView::Downloading { page_url } => Some(page_url),
        InstallStateView::Extracting { page_url, .. } => Some(page_url),
        InstallStateView::Rescanning { page_url, .. } => Some(page_url),
        _ => None,
    }
}

/// The state of an installation that failed with `error`, and nothing to do.
pub open spec fn failed(error: ErrorView) -> (InstallStateView, InstallActionView) {
    (InstallStateView::Failed { error: error }, InstallActionView::Stop)
}

/// The answer to an event that the state does not wait for.
pub open spec fn out_of_order() -> (InstallStateView, InstallActionView) {
    failed(ErrorView::Other("event out of order"@))
}

/// The answer to an event that is no failure: the state that follows, and what
/// is to be done in it.
pub open spec fn advance(state: InstallStateView, event: InstallEventView) -> (
    InstallStateView,
    InstallActionView,
) {
    match (state, event) {
        (InstallStateView::Idle, InstallEventView::Requested { page_url }) => (
            InstallStateView::Fetching { page_url: page_url },
            InstallActionView::FetchPage { url: page_url },
        ),
        (InstallStateView::Fetching { page_url }, InstallEventView::PageFetched { html }) => {
            match resolution(page_url, page_title(html), page_cdn_link(html)) {
                Ok(resolved) => (
                    InstallStateView::LinkResolved {
                        page_url: page_url,
                        download_url: resolved.download_url,
                        display_name: resolved.display_name,
                    },
                    InstallActionView::FetchArchive { url: resolved.download_url },
                ),
                Err(error) => failed(error),
            }
        },
        (InstallStateView::LinkResolved { page_url, .. }, InstallEventView::DownloadStarted) => (
            InstallStateView::Downloading { page_url: page_url },
            InstallActionView::StoreArchive,
        ),
        (
            InstallStateView::Downloading { page_url },
            InstallEventView::ArchiveStored { entries },
        ) => {
            match planned(page_url, entries) {
                Ok(plan) => (
                    InstallStateView::Extracting { page_url: page_url, installed: plan.installed },
                    InstallActionView::Unpack { steps: plan.steps },
                ),
                Err(error) => failed(error),
            }
        },
        (InstallStateView::Extracting { page_url, installed }, InstallEventView::Unpacked) => (
            InstallStateView::Rescanning { page_url: page_url, installed: installed },
            InstallActionView::ReadMetadata { directory: installed },
        ),
        (
            InstallStateView::Rescanning { page_url, installed },
            InstallEventView::MetadataRead { metadata },
        ) => {
            match scan_outcome(ScannedAddonView { name: installed, metadata: metadata }) {
                Ok(addon) => (InstallStateView::Done { addon: addon }, InstallActionView::Stop),
                Err(error) => failed(error),
            }
        },
        _ => out_of_order(),
    }
}

/// The answer to an event. An installation that is over stays as it is. A
/// failure reported while an installation is under way ends it, with the
/// page's address in the error.
pub open spec fn next(state: InstallStateView, event: InstallEventView) -> (
    InstallStateView,
    InstallActionView,
) {
    if is_over(state) {
        (state, InstallActionView::Stop)
    } else {
        match event {
            InstallEventView::TransferFailed { cause } => match page_of(state) {
                Some(page_url) => failed(ErrorView::CannotDownloadAddon(page_url, cause)),
                None => out_of_order(),
            },
            InstallEventView::ArchiveFailed { cause } => match page_of(state) {
                Some(page_url) => failed(ErrorView::CannotExtractAddon(page_url, cause)),
                None => out_of_order(),
            },
            _ => advance(state, event),
        }
    }
}

/// How many steps an installation has behind it.
pub open spec fn stage(state: InstallStateView) -> nat {
    match state {
        InstallStateView::Idle => 0,
        InstallStateView::Fetching { .. } => 1,
        InstallStateView::LinkResolved { .. } => 2,
        InstallStateView::Downloading { .. } => 3,
        InstallStateView::Extracting { .. } => 4,
        InstallStateView::Rescanning { .. } => 5,
        InstallStateView::Done { .. } => 6,
        InstallStateView::Failed { .. } => 6,
    }
}

/// An installation that is over stays as it is, whatever is reported.
pub proof fn lemma_over_is_final(state: InstallStateView, event: InstallEventView)
    requires
        is_over(state),
    ensures
        next(state, event) == (state, InstallActionView::Stop),
{
}

/// A failure reported while an installation is not over ends it: nothing is
/// tried again.
pub proof fn lemma_failure_ends(state: InstallStateView, event: InstallEventView)
    requires
        !is_over(state),
        event is TransferFailed || event is ArchiveFailed,
    ensures
        next(state, event).0 is Failed,
        next(state, event).1 is Stop,
{
}

/// The caller is told to stop exactly when the installation is over.
pub proof fn lemma_stops_when_over(state: InstallStateView, event: InstallEventView)
    ensures
        next(state, event).1 is Stop <==> is_over(next(state, event).0),
{
}

/// Where an installation is not over after an event, it is one step further
/// than before: no state is skipped and none is entered twice.
pub proof fn lemma_advances_by_one(state: InstallStateView, event: InstallEventView)
    requires
        !(next(state, event).0 is Failed),
        !is_over(state),
    ensures
        stage(next(state, event).0) == stage(state) + 1,
{
}

/// An addon counts as installed only after its metadata file was read: the
/// only way into `Done` is from `Rescanning`, and the addon has the name of
/// the directory that was unpacked.
pub proof fn lemma_done_follows_rescanning(state: InstallStateView, event: InstallEventView)
    requires
        !is_over(state),
        next(state, event).0 is Done,
    ensures
        state is Rescanning,
        event is MetadataRead,
        event->MetadataRead_metadata is Ok,
        next(state, event).0->Done_addon.name == state->Rescanning_installed,
{
}

/// Whatever the archive holds, the caller is only ever told to unpack below
/// the addon directory: each segment of each step names one file or
/// directory, and there is one step for each entry.
pub proof fn lemma_unpacks_below_addon_directory(state: InstallStateView, event: InstallEventView)
    requires
        next(state, event).1 is Unpack,
    ensures
        state is Downloading,
        event is ArchiveStored,
        next(state, event).1->Unpack_steps.len() == event->ArchiveStored_entries.len(),
        forall|i: int, k: int|
            0 <= i < next(state, event).1->Unpack_steps.len() && 0 <= k < next(
                state,
                event,
            ).1->Unpack_steps[i].path.len() ==> is_plain_segment(
                #[trigger] next(state, event).1->Unpack_steps[i].path[k],
            ),
{
    let page_url = state->Downloading_page_url;
    let entries = event->ArchiveStored_entries;
    lemma_plan_is_confined(page_url, entries);
}

/// A page without an archive link ends the installation with `LinkNotFound`
/// and the page's address, whether the page has a title or not: no archive
/// is asked for.
pub proof fn lemma_missing_link_ends_installation(page_url: Seq<char>, html: Seq<char>)
    requires
        page_cdn_link(html) is None,
    ensures
        next(
            (InstallStateView::Fetching { page_url: page_url }),
            (InstallEventView::PageFetched { html: html }),
        ) == failed(ErrorView::LinkNotFound(page_url)),
{
}

/// An archive is asked for only at the address that the page names, and only
/// once the page was fetched.
pub proof fn lemma_archive_is_asked_for_by_link(state: InstallStateView, event: InstallEventView)
    requires
        next(state, event).1 is FetchArchive,
    ensures
        state is Fetching,
        event is PageFetched,
        page_cdn_link(event->PageFetched_html) == Some(next(state, event).1->FetchArchive_url),
{
}

/// An archive with an entry that would leave the addon directory ends the
/// installation before anything is unpacked.
pub proof fn lemma_escape_ends_installation(
    page_url: Seq<char>,
    entries: Seq<Seq<char>>,
    i: int,
)
    requires
        0 <= i < entries.len(),
        destination(entries[i]) is None,
    ensures
        next(
            (InstallStateView::Downloading { page_url: page_url }),
            (InstallEventView::ArchiveStored { entries: entries }),
        ).0 is Failed,
        next(
            (InstallStateView::Downloading { page_url: page_url }),
            (InstallEventView::ArchiveStored { entries: entries }),
        ).1 is Stop,
{
    lemma_plan_refuses_escape(page_url, entries, i);
}

/// Whether the directory that a state speaks of is directly below the addon
/// directory. Every state that `step` reaches from `Idle` is such a state.
pub open spec fn is_sound(state: InstallStateView) -> bool {
    match state {
        InstallStateView::Extracting { installed, .. } => is_plain_segment(installed),
        InstallStateView::Rescanning { installed, .. } => is_plain_segment(installed),
        InstallStateView::Done { addon } => is_plain_segment(addon.name),
        _ => true,
    }
}

/// No event leads out of the sound states. So the addon that an installation
/// ends with has the name of one directory directly below the addon
/// directory: the one that was unpacked, and the one that removing the addon
/// removes.
pub proof fn lemma_soundness_is_kept(state: InstallStateView, event: InstallEventView)
    requires
        is_sound(state),
    ensures
        is_sound(next(state, event).0),
{
    if state is Downloading && event is ArchiveStored {
        lemma_plan_is_confined(state->Downloading_page_url, event->ArchiveStored_entries);
    }
}

/// The state and the action for an event out of order.
fn refuse() -> (answer: (InstallState, InstallAction))
    ensures
        (answer.0@, answer.1@) == out_of_order(),
{
    (
        InstallState::Failed { error: Error::Other(String::from_str("event out of order")) },
        InstallAction::Stop,
    )
}

/// The state and the action for a failure.
fn fail(error: Error) -> (answer: (InstallState, InstallAction))
    ensures
        (answer.0@, answer.1@) == failed(error@),
{
    (InstallState::Failed { error: error }, InstallAction::Stop)
}

/// The page that an installation under way is for.
fn page_url_of(state: &InstallState) -> (page: Option<String>)
    ensures
        page.deep_view() == page_of(state@),
{
    match state {
        InstallState::Fetching { page_url } => Some(page_url.clone()),
        InstallState::LinkResolved { page_url, .. } => Some(page_url.clone()),
        InstallState::Downloading { page_url } => Some(page_url.clone()),
        InstallState::Extracting { page_url, .. } => Some(page_url.clone()),
        InstallState::Rescanning { page_url, .. } => Some(page_url.clone()),
        _ => None,
    }
}

/// The state in which nothing was asked for yet.
pub fn begin() -> (state: InstallState)
    ensures
        state@ == InstallStateView::Idle,
{
    InstallState::Idle
}

/// The answer to an event: the state that follows `state`, and what the
/// caller does next.
pub fn step(state: InstallState, event: InstallEvent) -> (answer: (InstallState, InstallAction))
    ensures
        (answer.0@, answer.1@) == next(state@, event@),
{
    match state {
        InstallState::Done { addon } => {
            return (InstallState::Done { addon: addon }, InstallAction::Stop);
        },
        InstallState::Failed { error } => {
            return (InstallState::Failed { error: error }, InstallAction::Stop);
        },
        _ => {},
    }
    match event {
        InstallEvent::TransferFailed { cause } => {
            return match page_url_of(&state) {
                Some(page_url) => fail(Error::CannotDownloadAddon(page_url, cause)),
                None => refuse(),
            };
        },
        InstallEvent::ArchiveFailed { cause } => {
            return match page_url_of(&state) {
                Some(page_url) => fail(Error::CannotExtractAddon(page_url, cause)),
                None => refuse(),
            };
        },
        _ => {},
    }
    match state {
        InstallState::Idle => match event {
            InstallEvent::Requested { page_url } => {
                let url = page_url.clone();
                (InstallState::Fetching { page_url: page_url }, InstallAction::FetchPage { url: url })
            },
            _ => refuse(),
        },
        InstallState::Fetching { page_url } => match event {
            InstallEvent::PageFetched { html } => {
                match resolve_download(page_url.as_str(), html.as_str()) {
                    Ok(resolved) => {
                        let url = resolved.download_url.clone();
                        (
                            InstallState::LinkResolved {
                                page_url: page_url,
                                download_url: resolved.download_url,
                                display_name: resolved.display_name,
                            },
                            InstallAction::FetchArchive { url: url },
                        )
                    },
                    Err(error) => fail(error),
                }
            },
            _ => refuse(),
        },
        InstallState::LinkResolved { page_url, .. } => match event {
            InstallEvent::DownloadStarted => (
                InstallState::Downloading { page_url: page_url },
                InstallAction::StoreArchive,
            ),
            _ => refuse(),
        },
        InstallState::Downloading { page_url } => match event {
            InstallEvent::ArchiveStored { entries } => {
                match plan_extraction(page_url.as_str(), &entries) {
                    Ok(plan) => (
                        InstallState::Extracting { page_url: page_url, installed: plan.installed },
                        InstallAction::Unpack { steps: plan.steps },
                    ),
                    Err(error) => fail(error),
                }
            },
            _ => refuse(),
        },
        InstallState::Extracting { page_url, installed } => match event {
            InstallEvent::Unpacked => {
                let directory = installed.clone();
                (
                    InstallState::Rescanning { page_url: page_url, installed: installed },
                    InstallAction::ReadMetadata { directory: directory },
                )
            },
            _ => refuse(),
        },
        InstallState::Rescanning { page_url, installed } => match event {
            InstallEvent::MetadataRead { metadata } => {
                let scanned = ScannedAddon { name: installed, metadata: metadata };
                match read_scanned(&scanned) {
                    Ok(addon) => (InstallState::Done { addon: addon }, InstallAction::Stop),
                    Err(error) => fail(error),
                }
            },
            _ => refuse(),
        },
        InstallState::Done { addon } => (InstallState::Done { addon: addon }, InstallAction::Stop),
        InstallState::Failed { error } => (
            InstallState::Failed { error: error },
            InstallAction::Stop,
        ),
    }
}

} // verus!
