//! Installed addons and the manager of the directory that holds them.

use regex::Regex;
use vstd::prelude::*;
use vstd::string::*;

use crate::archive::is_plain;
use crate::archive::is_plain_segment;
use crate::errors::Error;
use crate::errors::ErrorView;
use crate::metadata::declared_dependencies;
use crate::metadata::depends_prefix;
use crate::metadata::is_constraint;
use crate::metadata::is_declarable;
use crate::metadata::is_depends_line;
use crate::metadata::lemma_declared_names;
use crate::metadata::lemma_first_declaration_wins;
use crate::metadata::read_addon;
use crate::metadata::tokens_of;
use crate::text::join;
use crate::text::same_text;

verus! {

/// One installed addon: the name of its directory and the names of the addons
/// that it declares to depend on, in the order of the declaration.
#[derive(Debug, PartialEq, Eq)]
pub struct Addon {
    pub name: String,
    pub depends_on: Vec<String>,
}

/// An `Addon` with its strings as character sequences.
pub struct AddonView {
    pub name: Seq<char>,
    pub depends_on: Seq<Seq<char>>,
}

impl View for Addon {
    type V = AddonView;

    open spec fn view(&self) -> AddonView {
        AddonView { name: self.name@, depends_on: self.depends_on.deep_view() }
    }
}

impl DeepView for Addon {
    type V = AddonView;

    open spec fn deep_view(&self) -> AddonView {
        self@
    }
}

/// The result of a scan: the addons that could be read, and one error for each
/// that could not.
#[derive(Debug, PartialEq, Eq)]
pub struct AddonList {
    pub addons: Vec<Addon>,
    pub errors: Vec<Error>,
}

/// An `AddonList` with its strings as character sequences.
pub struct AddonListView {
    pub addons: Seq<AddonView>,
    pub errors: Seq<ErrorView>,
}

impl View for AddonList {
    type V = AddonListView;

    open spec fn view(&self) -> AddonListView {
        AddonListView { addons: self.addons.deep_view(), errors: self.errors.deep_view() }
    }
}

/// What was found for one addon directory: its name, and the lines of its
/// metadata file or why they could not be read.
#[derive(Debug, PartialEq, Eq)]
pub struct ScannedAddon {
    pub name: String,
    pub metadata: Result<Vec<String>, String>,
}

/// A `ScannedAddon` with its strings as character sequences.
pub struct ScannedAddonView {
    pub name: Seq<char>,
    pub metadata: Result<Seq<Seq<char>>, Seq<char>>,
}

impl View for ScannedAddon {
    type V = ScannedAddonView;

    open spec fn view(&self) -> ScannedAddonView {
        ScannedAddonView {
            name: self.name@,
            metadata: match self.metadata {
                Ok(lines) => Ok(lines.deep_view()),
                Err(cause) => Err(cause@),
            },
        }
    }
}

impl DeepView for ScannedAddon {
    type V = ScannedAddonView;

    open spec fn deep_view(&self) -> ScannedAddonView {
        self@
    }
}

/// The addon that a scanned directory holds, or the error that stands for it.
pub open spec fn scan_outcome(scanned: ScannedAddonView) -> Result<AddonView, ErrorView> {
    match scanned.metadata {
        Ok(lines) => Ok(
            AddonView { name: scanned.name, depends_on: declared_dependencies(lines) },
        ),
        Err(cause) => Err(ErrorView::CannotReadAddon(scanned.name, cause)),
    }
}

/// The listing for the scanned directories: each gives an addon or an error,
/// in the order of the directories. One that cannot be read takes nothing
/// from the others.
pub open spec fn collected(scanned: Seq<ScannedAddonView>) -> AddonListView
    decreases scanned.len(),
{
    if scanned.len() == 0 {
        AddonListView { addons: Seq::empty(), errors: Seq::empty() }
    } else {
        let earlier = collected(scanned.drop_last());
        match scan_outcome(scanned.last()) {
            Ok(addon) => AddonListView {
                addons: earlier.addons.push(addon),
                errors: earlier.errors,
            },
            Err(error) => AddonListView {
                addons: earlier.addons,
                errors: earlier.errors.push(error),
            },
        }
    }
}

/// A directory `name` whose metadata file declares names with their
/// constraints in its first declaring line is listed as one addon of that
/// name that depends on those names, and as no error.
pub proof fn lemma_scan_reads_declaration(
    name: Seq<char>,
    lines: Seq<Seq<char>>,
    i: int,
    names: Seq<Seq<char>>,
    constraints: Seq<Seq<char>>,
)
    requires
        0 <= i < lines.len(),
        lines[i] == depends_prefix() + join(tokens_of(names, constraints), ' '),
        forall|k: int| 0 <= k < i ==> !is_depends_line(#[trigger] lines[k]),
        names.len() == constraints.len(),
        names.len() > 0,
        forall|k: int| 0 <= k < names.len() ==> is_declarable(#[trigger] names[k]),
        forall|k: int| 0 <= k < constraints.len() ==> is_constraint(#[trigger] constraints[k]),
    ensures
        collected(seq![(ScannedAddonView { name: name, metadata: Ok(lines) })]) == (AddonListView {
            addons: seq![(AddonView { name: name, depends_on: names })],
            errors: Seq::empty(),
        }),
{
    let rest = join(tokens_of(names, constraints), ' ');
    let line = lines[i];
    assert(line.subrange(0, depends_prefix().len() as int) =~= depends_prefix());
    assert(line.subrange(depends_prefix().len() as int, line.len() as int) =~= rest);
    lemma_first_declaration_wins(lines, i);
    lemma_declared_names(names, constraints);
    let scanned = seq![ScannedAddonView { name: name, metadata: Ok(lines) }];
    assert(scanned.drop_last() =~= Seq::<ScannedAddonView>::empty());
    assert(collected(scanned.drop_last()).addons =~= Seq::<AddonView>::empty());
    assert(collected(scanned).addons =~= seq![AddonView { name: name, depends_on: names }]);
}

/// An addon that cannot be read takes nothing from the listing: every scanned
/// directory gives one addon or one error.
pub proof fn lemma_collected_counts(scanned: Seq<ScannedAddonView>)
    ensures
        collected(scanned).addons.len() + collected(scanned).errors.len() == scanned.len(),
    decreases scanned.len(),
{
    if scanned.len() > 0 {
        lemma_collected_counts(scanned.drop_last());
    }
}

/// The addon that a scanned directory holds: read from the lines of its
/// metadata file, or an error with the directory's name and the cause where
/// the file is missing or cannot be read.
pub fn read_scanned(scanned: &ScannedAddon) -> (outcome: Result<Addon, Error>)
    ensures
        match outcome {
            Ok(addon) => scan_outcome(scanned@) == Ok::<AddonView, ErrorView>(addon@),
            Err(error) => scan_outcome(scanned@) == Err::<AddonView, ErrorView>(error@),
        },
{
    match &scanned.metadata {
        Ok(lines) => Ok(read_addon(scanned.name.as_str(), lines)),
        Err(cause) => Err(Error::CannotReadAddon(scanned.name.clone(), cause.clone())),
    }
}

/// A directory whose metadata file is missing or cannot be read gives an
/// error that names it and the cause, and no addon.
pub proof fn lemma_unreadable_is_an_error(name: Seq<char>, cause: Seq<char>)
    ensures
        scan_outcome((ScannedAddonView { name: name, metadata: Err(cause) })) == Err::<
            AddonView,
            ErrorView,
        >(ErrorView::CannotReadAddon(name, cause)),
{
}

/// The first addon of that name.
pub open spec fn first_named(addons: Seq<AddonView>, name: Seq<char>) -> Option<AddonView>
    decreases addons.len(),
{
    if addons.len() == 0 {
        None
    } else if addons[0].name == name {
        Some(addons[0])
    } else {
        first_named(addons.drop_first(), name)
    }
}

/// The path of `name` directly below the directory `root`.
pub open spec fn child_path(root: Seq<char>, name: Seq<char>) -> Seq<char> {
    root + "/"@ + name
}

/// What is removed for an addon below the directory `root`: the directory of
/// the addon's name directly below `root`, or an error where the name is not
/// the name of one directory.
pub open spec fn removal_of(root: Seq<char>, name: Seq<char>) -> Result<Seq<char>, ErrorView> {
    if is_plain_segment(name) {
        Ok(child_path(root, name))
    } else {
        Err(ErrorView::CannotRemoveAddon(name, "addon is not inside the addon directory"@))
    }
}

/// The manager of one addon directory.
pub struct Manager {
    addon_dir: String,
}

impl View for Manager {
    type V = Seq<char>;

    /// The path of the addon directory.
    closed spec fn view(&self) -> Seq<char> {
        self.addon_dir@
    }
}

impl Manager {
    /// The manager of the addon directory at `addon_dir`.
    pub fn new(addon_dir: &str) -> (manager: Manager)
        ensures
            manager@ == addon_dir@,
    {
        Manager { addon_dir: addon_dir.to_owned() }
    }

    /// The path of the addon directory.
    pub fn addon_dir(&self) -> (path: &str)
        ensures
            path@ == self@,
    {
        self.addon_dir.as_str()
    }

    /// The listing of the installed addons, given what a walk of the addon
    /// directory found: the scanned addon directories, or why the directory
    /// could not be walked. A failed walk is an error; an addon that cannot be
    /// read is an entry among the listing's errors.
    pub fn get_addons(&self, walk: Result<Vec<ScannedAddon>, String>) -> (listing: Result<
        AddonList,
        Error,
    >)
        ensures
            match walk {
                Ok(scanned) => listing matches Ok(list) && list@ == collected(scanned.deep_view()),
                Err(cause) => listing matches Err(error) && error@
                    == ErrorView::CannotOpenAddonDirectory(self@, cause@),
            },
    {
        match walk {
            Err(cause) => Err(Error::CannotOpenAddonDirectory(self.addon_dir.clone(), cause)),
            Ok(scanned) => {
                let mut list = AddonList { addons: Vec::new(), errors: Vec::new() };
                let mut i: usize = 0;
                proof {
                    assert(scanned.deep_view().take(0) == Seq::<ScannedAddonView>::empty());
                    assert(list.addons.deep_view() == Seq::<AddonView>::empty());
                    assert(list.errors.deep_view() == Seq::<ErrorView>::empty());
                }
                while i < scanned.len()
                    invariant
                        i <= scanned.len(),
                        list@ == collected(scanned.deep_view().take(i as int)),
                    decreases scanned.len() - i,
                {
                    let found = &scanned[i];
                    let ghost addons = list.addons.deep_view();
                    let ghost errors = list.errors.deep_view();
                    proof {
                        let seen = scanned.deep_view().take(i + 1);
                        assert(seen.drop_last() == scanned.deep_view().take(i as int));
                        assert(seen.last() == found@);
                    }
                    match read_scanned(found) {
                        Ok(addon) => {
                            list.addons.push(addon);
                            assert(list.addons.deep_view() == addons.push(addon@));
                        },
                        Err(error) => {
                            list.errors.push(error);
                            assert(list.errors.deep_view() == errors.push(error@));
                        },
                    }
                    i = i + 1;
                }
                assert(scanned.deep_view().take(scanned.len() as int) == scanned.deep_view());
                Ok(list)
            },
        }
    }

    /// The installed addon of that name, given what a walk of the addon
    /// directory found: the first in the listing, `None` where there is none.
    pub fn get_addon(&self, walk: Result<Vec<ScannedAddon>, String>, name: &str) -> (found: Result<
        Option<Addon>,
        Error,
    >)
        ensures
            match walk {
                Ok(scanned) => found matches Ok(addon) && addon.deep_view() == first_named(
                    collected(scanned.deep_view()).addons,
                    name@,
                ),
                Err(cause) => found matches Err(error) && error@
                    == ErrorView::CannotOpenAddonDirectory(self@, cause@),
            },
    {
        match self.get_addons(walk) {
            Err(error) => Err(error),
            Ok(list) => Ok(take_named(list.addons, name)),
        }
    }

    /// The directory to remove for an addon: the one of its name directly
    /// below the addon directory. An addon whose name is not the name of one
    /// directory is refused, so that nothing outside the addon directory is
    /// ever removed.
    pub fn delete_addon(&self, addon: &Addon) -> (target: Result<String, Error>)
        ensures
            match target {
                Ok(path) => removal_of(self@, addon@.name) == Ok::<Seq<char>, ErrorView>(path@),
                Err(error) => removal_of(self@, addon@.name) == Err::<Seq<char>, ErrorView>(
                    error@,
                ),
            },
    {
        if is_plain(addon.name.as_str()) {
            let mut path = self.addon_dir.clone();
            path.append("/");
            path.append(addon.name.as_str());
            Ok(path)
        } else {
            Err(
                Error::CannotRemoveAddon(
                    addon.name.clone(),
                    String::from_str("addon is not inside the addon directory"),
                ),
            )
        }
    }
}

/// The first addon of that name, taken out of the list.
pub fn take_named(addons: Vec<Addon>, name: &str) -> (found: Option<Addon>)
    ensures
        found.deep_view() == first_named(addons.deep_view(), name@),
{
    let ghost all = addons.deep_view();
    let mut left = addons;
    let mut i: usize = 0;
    assert(all.skip(0) == all);
    while i < left.len()
        invariant
            i <= left.len(),
            left.deep_view() == all,
            addons.deep_view() == all,
            first_named(all, name@) == first_named(all.skip(i as int), name@),
        decreases left.len() - i,
    {
        let ghost tail = all.skip(i as int);
        assert(tail[0] == left[i as int]@);
        if same_text(left[i].name.as_str(), name) {
            let ghost wanted = left[i as int];
            let addon = left.swap_remove(i);
            assert(addon@ == wanted@);
            return Some(addon);
        }
        assert(tail.drop_first() == all.skip(i + 1));
        i = i + 1;
    }
    None
}

/// What `regex` captures: the text of capture group `group` in the leftmost
/// match of `pattern` in `text`; `None` where `pattern` is no valid pattern,
/// nothing matches, or the group takes no part in the match.
pub uninterp spec fn captured(pattern: Seq<char>, text: Seq<char>, group: nat) -> Option<Seq<char>>;

/// Compiles `pattern` with `Regex::new`, searches `text` with
/// `Regex::captures` and reads the group with `Captures::get`. The result is
/// named, not described.
#[verifier::external_body]
fn capture(pattern: &str, text: &str, group: usize) -> (found: Option<String>)
    ensures
        found.deep_view() == captured(pattern@, text@, group as nat),
{
    let regex = Regex::new(pattern).ok()?;
    let captures = regex.captures(text)?;
    Some(captures.get(group)?.as_str().to_owned())
}

/// The pattern of an addon's information page; its first group is the
/// addon's number.
pub open spec fn info_page_pattern() -> Seq<char> {
    "^https://.*esoui\\.com/downloads/info(\\d+)-(.+)$"@
}

/// The pattern of an addon's file page; its first group is the addon's
/// number.
pub open spec fn file_page_pattern() -> Seq<char> {
    "^https://.+esoui\\.com/downloads/fileinfo\\.php\\?id=(\\d+)$"@
}

/// The download page of the addon with that number.
pub open spec fn download_page(id: Seq<char>) -> Seq<char> {
    "https://www.esoui.com/downloads/download"@ + id
}

/// The download page for an address, given the addon's number as each of the
/// two patterns finds it: the patterns are tried in order and the first that
/// finds a number wins.
pub open spec fn download_url_of(by_info_page: Option<Seq<char>>, by_file_page: Option<Seq<char>>) -> Option<
    Seq<char>,
> {
    match by_info_page {
        Some(id) => Some(download_page(id)),
        None => match by_file_page {
            Some(id) => Some(download_page(id)),
            None => None,
        },
    }
}

/// The download page for an address, given the addon's number as each of the
/// two patterns finds it.
pub fn download_url_from(by_info_page: Option<String>, by_file_page: Option<String>) -> (url: Option<
    String,
>)
    ensures
        url.deep_view() == download_url_of(by_info_page.deep_view(), by_file_page.deep_view()),
{
    let id = match by_info_page {
        Some(id) => Some(id),
        None => by_file_page,
    };
    match id {
        Some(id) => Some(String::from_str("https://www.esoui.com/downloads/download").concat(id.as_str())),
        None => None,
    }
}

/// The download page of the addon whose information page or file page has
/// the address `addon_url`; `None` for any other address.
pub fn get_download_url(addon_url: &str) -> (url: Option<String>)
    ensures
        url.deep_view() == download_url_of(
            captured(info_page_pattern(), addon_url@, 1),
            captured(file_page_pattern(), addon_url@, 1),
        ),
{
    let by_info_page = capture("^https://.*esoui\\.com/downloads/info(\\d+)-(.+)$", addon_url, 1);
    let by_file_page = match by_info_page {
        Some(_) => None,
        None => capture("^https://.+esoui\\.com/downloads/fileinfo\\.php\\?id=(\\d+)$", addon_url, 1),
    };
    download_url_from(by_info_page, by_file_page)
}

} // verus!
