//! What the commands of the front end decide. Asking, fetching and printing
//! are the front end's own; which entry is written, which status an addon
//! has and what an update came to are decided here.

use vstd::prelude::*;
use vstd::string::*;

use crate::addons::captured;
use crate::addons::download_url_of;
use crate::addons::file_page_pattern;
use crate::addons::get_download_url;
use crate::addons::info_page_pattern;
use crate::addons::Addon;
use crate::addons::AddonView;
use crate::config::AddonEntry;
use crate::config::AddonEntryView;
use crate::errors::message_of;
use crate::errors::ErrorView;
use crate::get_missing_dependencies;
use crate::get_unused_dependencies;
use crate::has_addon;
use crate::htmlparser::get_addon_name;
use crate::htmlparser::page_title;
use crate::is_desired;
use crate::is_installed;
use crate::is_listed;
use crate::missing_dependencies;
use crate::text::add_name;
use crate::text::contains_name;
use crate::text::same_text;
use crate::unused_dependencies;

verus! {

/// Why a command failed.
#[derive(Debug, PartialEq, Eq)]
pub enum Error {
    /// The configuration lists no addon of that name.
    AddonNotFound(String),
    /// There is no addon to choose from.
    NoAddonsInstalled,
    /// The library failed.
    AppError(crate::errors::Error),
    /// Any other failure.
    Other(String),
}

/// An `Error` with its strings as character sequences.
pub enum CommandErrorView {
    AddonNotFound(Seq<char>),
    NoAddonsInstalled,
    AppError(ErrorView),
    Other(Seq<char>),
}

impl View for Error {
    type V = CommandErrorView;

    open spec fn view(&self) -> CommandErrorView {
        match self {
            Error::AddonNotFound(name) => CommandErrorView::AddonNotFound(name@),
            Error::NoAddonsInstalled => CommandErrorView::NoAddonsInstalled,
            Error::AppError(error) => CommandErrorView::AppError(error@),
            Error::Other(cause) => CommandErrorView::Other(cause@),
        }
    }
}

/// The text shown to a user for a command's error.
pub open spec fn command_message_of(error: CommandErrorView) -> Seq<char> {
    match error {
        CommandErrorView::AddonNotFound(name) => "addon "@ + name + " not found"@,
        CommandErrorView::NoAddonsInstalled => "no addons installed"@,
        CommandErrorView::AppError(inner) => "app error: "@ + message_of(inner),
        CommandErrorView::Other(cause) => "other error: "@ + cause,
    }
}

impl Error {
    /// The text shown to a user for this error.
    pub fn message(&self) -> (out: String)
        ensures
            out@ == command_message_of(self@),
    {
        match self {
            Error::AddonNotFound(name) => {
                let mut out = String::from_str("addon ");
                out.append(name.as_str());
                out.append(" not found");
                out
            },
            Error::NoAddonsInstalled => String::from_str("no addons installed"),
            Error::AppError(inner) => {
                let mut out = String::from_str("app error: ");
                out.append(inner.message().as_str());
                out
            },
            Error::Other(cause) => {
                let mut out = String::from_str("other error: ");
                out.append(cause.as_str());
                out
            },
        }
    }
}

/// The command that adds an addon: the address of its page, if it was given,
/// and whether it is wanted only as a dependency.
#[derive(Debug, PartialEq, Eq)]
pub struct AddCommand {
    pub addon_url: Option<String>,
    pub dependency: bool,
}

/// The entry for an addon given the address of its page, the title found on
/// the page and its download page, as far as there is one.
pub open spec fn entry_of(
    addon_url: Option<Seq<char>>,
    dependency: bool,
    title: Option<Seq<char>>,
    download_url: Option<Seq<char>>,
) -> Result<AddonEntryView, CommandErrorView> {
    if addon_url is None {
        Err(CommandErrorView::Other("missing addon URL"@))
    } else {
        match title {
            None => Err(CommandErrorView::Other("failed to get addon name"@)),
            Some(name) => Ok(
                AddonEntryView { name: name, url: download_url, dependency: dependency },
            ),
        }
    }
}

impl AddCommand {
    /// The entry that this command adds to the configuration, given the title
    /// found on the addon's page and the addon's download page: named by the
    /// title. An error where no address was given or the page has no title.
    pub fn entry_with(&self, title: Option<String>, download_url: Option<String>) -> (entry: Result<
        AddonEntry,
        Error,
    >)
        ensures
            match entry {
                Ok(e) => entry_of(
                    self.addon_url.deep_view(),
                    self.dependency,
                    title.deep_view(),
                    download_url.deep_view(),
                ) == Ok::<AddonEntryView, CommandErrorView>(e@),
                Err(e) => entry_of(
                    self.addon_url.deep_view(),
                    self.dependency,
                    title.deep_view(),
                    download_url.deep_view(),
                ) == Err::<AddonEntryView, CommandErrorView>(e@),
            },
    {
        if self.addon_url.is_none() {
            return Err(Error::Other(String::from_str("missing addon URL")));
        }
        match title {
            None => Err(Error::Other(String::from_str("failed to get addon name"))),
            Some(name) => Ok(
                AddonEntry { name: name, url: download_url, dependency: self.dependency },
            ),
        }
    }

    /// The entry that this command adds to the configuration, given the text
    /// of the addon's page.
    pub fn get_entry(&self, html: &str) -> (entry: Result<AddonEntry, Error>)
        ensures
            match entry {
                Ok(e) => self.addon_url matches Some(url) && entry_of(
                    Some(url@),
                    self.dependency,
                    page_title(html@),
                    download_url_of(
                        captured(info_page_pattern(), url@, 1),
                        captured(file_page_pattern(), url@, 1),
                    ),
                ) == Ok::<AddonEntryView, CommandErrorView>(e@),
                Err(e) => match self.addon_url {
                    None => e@ == CommandErrorView::Other("missing addon URL"@),
                    Some(url) => page_title(html@) is None && e@ == CommandErrorView::Other(
                        "failed to get addon name"@,
                    ),
                },
            },
    {
        match &self.addon_url {
            None => self.entry_with(None, None),
            Some(url) => {
                let title = get_addon_name(html);
                let download_url = get_download_url(url.as_str());
                self.entry_with(title, download_url)
            },
        }
    }
}

/// Whether the configuration lists an entry with that download page. Entries
/// without a download page count as having the same.
pub open spec fn lists_url(desired: Seq<AddonEntryView>, url: Option<Seq<char>>) -> bool {
    exists|i: int| 0 <= i < desired.len() && (#[trigger] desired[i]).url == url
}

/// Whether two download pages are the same.
fn same_url(a: &Option<String>, b: &Option<String>) -> (same: bool)
    ensures
        same == (a.deep_view() == b.deep_view()),
{
    match a {
        None => b.is_none(),
        Some(x) => match b {
            None => false,
            Some(y) => same_text(x.as_str(), y.as_str()),
        },
    }
}

/// Whether the configuration lists an entry with that download page, so that
/// the addon is not installed a second time.
pub fn is_already_listed(desired: &Vec<AddonEntry>, url: &Option<String>) -> (listed: bool)
    ensures
        listed == lists_url(desired.deep_view(), url.deep_view()),
{
    let mut i: usize = 0;
    while i < desired.len()
        invariant
            i <= desired.len(),
            forall|k: int| 0 <= k < i ==> (#[trigger] desired.deep_view()[k]).url != url.deep_view(),
        decreases desired.len() - i,
    {
        if same_url(&desired[i].url, url) {
            assert(desired.deep_view()[i as int].url == url.deep_view());
            return true;
        }
        i = i + 1;
    }
    false
}

/// Lists an installed addon: the entry is added at the end, under the name
/// that the addon was installed with.
pub fn list_installed(desired: &mut Vec<AddonEntry>, entry: AddonEntry, installed: &Addon)
    ensures
        final(desired).deep_view() == old(desired).deep_view().push(
            (AddonEntryView { name: installed@.name, ..entry@ }),
        ),
{
    let ghost before = desired.deep_view();
    let listed = AddonEntry {
        name: installed.name.clone(),
        url: entry.url,
        dependency: entry.dependency,
    };
    desired.push(listed);
    assert(desired.deep_view() == before.push(listed@));
}

/// Whether the entry at `i` is the first of that name.
pub open spec fn is_first_listed(desired: Seq<AddonEntryView>, name: Seq<char>, i: int) -> bool {
    &&& 0 <= i < desired.len()
    &&& desired[i].name == name
    &&& forall|k: int| 0 <= k < i ==> (#[trigger] desired[k]).name != name
}

/// Takes the first entry of that name out of the configuration; the others
/// keep their order. An error where no entry has the name.
pub fn unlist(desired: &mut Vec<AddonEntry>, name: &str) -> (removed: Result<AddonEntry, Error>)
    ensures
        match removed {
            Ok(entry) => exists|i: int|
                is_first_listed(old(desired).deep_view(), name@, i) && entry@ == old(
                    desired,
                ).deep_view()[i] && final(desired).deep_view() == old(desired).deep_view().remove(i),
            Err(error) => !is_desired(old(desired).deep_view(), name@) && error@
                == CommandErrorView::AddonNotFound(name@) && final(desired).deep_view() == old(
                desired,
            ).deep_view(),
        },
{
    let ghost before = desired.deep_view();
    let mut i: usize = 0;
    while i < desired.len()
        invariant
            i <= desired.len(),
            desired.deep_view() == before,
            before == old(desired).deep_view(),
            forall|k: int| 0 <= k < i ==> (#[trigger] before[k]).name != name@,
        decreases desired.len() - i,
    {
        if same_text(desired[i].name.as_str(), name) {
            let ghost wanted = desired[i as int];
            let entry = desired.remove(i);
            proof {
                assert(entry@ == wanted@);
                assert(before[i as int] == wanted@);
                assert(desired.deep_view() =~= before.remove(i as int));
                assert(is_first_listed(before, name@, i as int));
            }
            return Ok(entry);
        }
        i = i + 1;
    }
    Err(Error::AddonNotFound(name.to_owned()))
}

/// What an update of one desired addon came to.
#[derive(Debug, PartialEq, Eq)]
pub enum UpdateOutcome {
    /// The addon is installed under the name that the configuration has.
    Updated,
    /// The addon is installed, under another name than the configuration has.
    Renamed { installed: String },
    /// The addon is to be installed by hand, and is not.
    NotPresent,
}

/// An `UpdateOutcome` with its strings as character sequences.
pub enum UpdateOutcomeView {
    Updated,
    Renamed { installed: Seq<char> },
    NotPresent,
}

impl View for UpdateOutcome {
    type V = UpdateOutcomeView;

    open spec fn view(&self) -> UpdateOutcomeView {
        match self {
            UpdateOutcome::Updated => UpdateOutcomeView::Updated,
            UpdateOutcome::Renamed { installed } => UpdateOutcomeView::Renamed {
                installed: installed@,
            },
            UpdateOutcome::NotPresent => UpdateOutcomeView::NotPresent,
        }
    }
}

/// What an update came to, for an entry and the addon that is installed for
/// it, if one is.
pub open spec fn outcome_of(entry: AddonEntryView, installed: Option<AddonView>) -> UpdateOutcomeView {
    match installed {
        None => UpdateOutcomeView::NotPresent,
        Some(addon) => if addon.name == entry.name {
            UpdateOutcomeView::Updated
        } else {
            UpdateOutcomeView::Renamed { installed: addon.name }
        },
    }
}

/// What an update came to, for an entry and the addon that is installed for
/// it, if one is.
pub fn update_outcome(entry: &AddonEntry, installed: Option<&Addon>) -> (outcome: UpdateOutcome)
    ensures
        outcome@ == outcome_of(entry@, installed.deep_view()),
{
    match installed {
        None => UpdateOutcome::NotPresent,
        Some(addon) => {
            if same_text(addon.name.as_str(), entry.name.as_str()) {
                UpdateOutcome::Updated
            } else {
                UpdateOutcome::Renamed { installed: addon.name.clone() }
            }
        },
    }
}

/// What the cleaning command does with the unmanaged addons.
#[derive(Debug, Clone, Copy, PartialEq, Eq)]
pub enum CleanAction {
    /// There is nothing to clean.
    Nothing,
    /// Remove them.
    Remove,
    /// Show them.
    Show,
    /// Show them, ask, and remove them if the answer is yes.
    ShowAndAsk,
}

/// What the cleaning command does with `unmanaged` addons, given whether it
/// was told to remove them, told not to, or told nothing.
pub fn clean_action(unmanaged: usize, remove: Option<bool>) -> (action: CleanAction)
    ensures
        action == if unmanaged == 0 {
            CleanAction::Nothing
        } else {
            match remove {
                Some(true) => CleanAction::Remove,
                Some(false) => CleanAction::Show,
                None => CleanAction::ShowAndAsk,
            }
        },
{
    if unmanaged == 0 {
        CleanAction::Nothing
    } else {
        match remove {
            Some(true) => CleanAction::Remove,
            Some(false) => CleanAction::Show,
            None => CleanAction::ShowAndAsk,
        }
    }
}

/// The status of one name in the listing.
#[derive(Debug, PartialEq, Eq)]
pub struct StatusRow {
    pub name: String,
    /// For a name that the configuration lists: whether it is installed.
    pub installed: Option<bool>,
    /// Whether an installed addon depends on it and it is not installed.
    pub missing: bool,
    /// Whether it is installed and flagged as unused.
    pub unused: bool,
}

/// A `StatusRow` with its strings as character sequences.
pub struct StatusRowView {
    pub name: Seq<char>,
    pub installed: Option<bool>,
    pub missing: bool,
    pub unused: bool,
}

impl View for StatusRow {
    type V = StatusRowView;

    open spec fn view(&self) -> StatusRowView {
        StatusRowView {
            name: self.name@,
            installed: self.installed,
            missing: self.missing,
            unused: self.unused,
        }
    }
}

impl DeepView for StatusRow {
    type V = StatusRowView;

    open spec fn deep_view(&self) -> StatusRowView {
        self@
    }
}

/// The status of a name.
pub open spec fn status_of(
    desired: Seq<AddonEntryView>,
    installed: Seq<AddonView>,
    name: Seq<char>,
) -> StatusRowView {
    StatusRowView {
        name: name,
        installed: if is_desired(desired, name) {
            Some(is_installed(installed, name))
        } else {
            None
        },
        missing: missing_dependencies(installed).contains(name),
        unused: unused_dependencies(installed, desired).contains(name),
    }
}

/// Whether a name has a row in the listing: the configuration lists it, or it
/// is missing, or it is unused.
pub open spec fn is_shown(
    desired: Seq<AddonEntryView>,
    installed: Seq<AddonView>,
    name: Seq<char>,
) -> bool {
    is_desired(desired, name) || missing_dependencies(installed).contains(name)
        || unused_dependencies(installed, desired).contains(name)
}

/// The names of the rows.
pub open spec fn row_names(rows: Seq<StatusRowView>) -> Seq<Seq<char>> {
    rows.map_values(|row: StatusRowView| row.name)
}

/// The rows of the listing: one for each name that the configuration lists,
/// that is missing, or that is unused, each with its status.
pub fn status_rows(desired: &Vec<AddonEntry>, installed: &Vec<Addon>) -> (rows: Vec<StatusRow>)
    ensures
        row_names(rows.deep_view()).no_duplicates(),
        forall|name: Seq<char>| #[trigger]
            row_names(rows.deep_view()).contains(name) <==> is_shown(
                desired.deep_view(),
                installed.deep_view(),
                name,
            ),
        forall|i: int|
            0 <= i < rows.len() ==> #[trigger] rows.deep_view()[i] == status_of(
                desired.deep_view(),
                installed.deep_view(),
                rows.deep_view()[i].name,
            ),
{
    let missing = get_missing_dependencies(installed);
    let unused = get_unused_dependencies(installed, desired);
    let ghost want = desired.deep_view();
    let ghost have = installed.deep_view();
    let mut names: Vec<String> = Vec::new();
    let mut i: usize = 0;
    while i < desired.len()
        invariant
            i <= desired.len(),
            want == desired.deep_view(),
            names.deep_view().no_duplicates(),
            forall|name: Seq<char>| #[trigger]
                names.deep_view().contains(name) <==> is_desired(want.take(i as int), name),
        decreases desired.len() - i,
    {
        add_name(&mut names, desired[i].name.as_str());
        proof {
            let name = desired[i as int].name@;
            assert(want[i as int].name == name);
            assert forall|n: Seq<char>|
                is_desired(want.take(i + 1), n) <==> is_desired(want.take(i as int), n) || n
                    == name by {
                if is_desired(want.take(i + 1), n) {
                    let k = choose|k: int| 0 <= k < i + 1 && (#[trigger] want.take(i + 1)[k]).name == n;
                    if k < i {
                        assert(want.take(i as int)[k].name == n);
                    }
                }
                if is_desired(want.take(i as int), n) {
                    let k = choose|k: int| 0 <= k < i && (#[trigger] want.take(i as int)[k]).name == n;
                    assert(want.take(i + 1)[k].name == n);
                }
                if n == name {
                    assert(want.take(i + 1)[i as int].name == n);
                }
            }
        }
        i = i + 1;
    }
    assert(want.take(desired.len() as int) == want);
    add_names(&mut names, &missing);
    add_names(&mut names, &unused);
    proof {
        assert forall|name: Seq<char>| #[trigger]
            names.deep_view().contains(name) <==> is_shown(want, have, name) by {
            assert(missing.deep_view().contains(name) <==> missing.deep_view().to_set().contains(
                name,
            ));
            assert(unused.deep_view().contains(name) <==> unused.deep_view().to_set().contains(
                name,
            ));
        }
    }
    let mut rows: Vec<StatusRow> = Vec::new();
    let mut j: usize = 0;
    assert(row_names(rows.deep_view()) =~= names.deep_view().take(0));
    while j < names.len()
        invariant
            j <= names.len(),
            want == desired.deep_view(),
            have == installed.deep_view(),
            missing.deep_view().to_set() == missing_dependencies(have),
            unused.deep_view().to_set() == unused_dependencies(have, want),
            rows.len() == j,
            row_names(rows.deep_view()) == names.deep_view().take(j as int),
            forall|k: int|
                0 <= k < j ==> #[trigger] rows.deep_view()[k] == status_of(
                    want,
                    have,
                    rows.deep_view()[k].name,
                ),
        decreases names.len() - j,
    {
        let name = &names[j];
        let ghost before = rows.deep_view();
        let row = StatusRow {
            name: name.clone(),
            installed: if is_listed(desired, name.as_str()) {
                Some(has_addon(installed, name.as_str()))
            } else {
                None
            },
            missing: contains_name(&missing, name.as_str()),
            unused: contains_name(&unused, name.as_str()),
        };
        proof {
            assert(missing.deep_view().contains(name@) <==> missing.deep_view().to_set().contains(
                name@,
            ));
            assert(unused.deep_view().contains(name@) <==> unused.deep_view().to_set().contains(
                name@,
            ));
            assert(row@ == status_of(want, have, name@));
        }
        rows.push(row);
        proof {
            assert(rows.deep_view() == before.push(row@));
            assert(row_names(rows.deep_view()) =~= names.deep_view().take(j + 1));
        }
        j = j + 1;
    }
    proof {
        assert(names.deep_view().take(names.len() as int) == names.deep_view());
    }
    rows
}

/// Adds to `names` each of `more` that they do not hold.
fn add_names(names: &mut Vec<String>, more: &Vec<String>)
    requires
        old(names).deep_view().no_duplicates(),
    ensures
        final(names).deep_view().no_duplicates(),
        forall|name: Seq<char>| #[trigger]
            final(names).deep_view().contains(name) <==> old(names).deep_view().contains(name)
                || more.deep_view().contains(name),
{
    let mut i: usize = 0;
    while i < more.len()
        invariant
            i <= more.len(),
            names.deep_view().no_duplicates(),
            forall|name: Seq<char>| #[trigger]
                names.deep_view().contains(name) <==> old(names).deep_view().contains(name)
                    || more.deep_view().take(i as int).contains(name),
        decreases more.len() - i,
    {
        proof {
            let seen = more.deep_view().take(i as int);
            assert(more.deep_view().take(i + 1) == seen.push(more[i as int]@));
            crate::text::lemma_push_contains(seen, more[i as int]@);
        }
        add_name(names, more[i].as_str());
        i = i + 1;
    }
    assert(more.deep_view().take(more.len() as int) == more.deep_view());
}

} // verus!
