//! Addon lifecycle management for a game's addon directory: what is installed,
//! what the installed addons depend on, what is missing or no longer needed,
//! and how a new addon is resolved, unpacked and read.

use vstd::prelude::*;

use crate::addons::Addon;
use crate::addons::AddonView;
use crate::config::AddonEntry;
use crate::config::AddonEntryView;
use crate::text::add_name;
use crate::text::contains_name;
use crate::text::lemma_push_contains;
use crate::text::same_text;

pub mod addons;
pub mod archive;
pub mod cli;
pub mod config;
pub mod errors;
pub mod htmlparser;
pub mod install;
pub mod metadata;
pub mod scanner;
pub mod text;

verus! {

/// Whether an addon of that name is installed.
pub open spec fn is_installed(installed: Seq<AddonView>, name: Seq<char>) -> bool {
    exists|i: int| 0 <= i < installed.len() && (#[trigger] installed[i]).name == name
}

/// Whether one of the first `upto` installed addons depends on that name.
pub open spec fn is_required_by_first(installed: Seq<AddonView>, upto: int, name: Seq<char>) -> bool {
    exists|i: int| 0 <= i < upto && (#[trigger] installed[i]).depends_on.contains(name)
}

/// Whether an installed addon depends on that name.
pub open spec fn is_required(installed: Seq<AddonView>, name: Seq<char>) -> bool {
    is_required_by_first(installed, installed.len() as int, name)
}

/// The installed addons that depend on a name, by their names.
pub open spec fn dependents(installed: Seq<AddonView>, name: Seq<char>) -> Set<Seq<char>> {
    Set::new(
        |dependent: Seq<char>|
            exists|i: int|
                0 <= i < installed.len() && (#[trigger] installed[i]).name == dependent
                    && installed[i].depends_on.contains(name),
    )
}

/// The names that installed addons depend on and that no installed addon has.
pub open spec fn missing_dependencies(installed: Seq<AddonView>) -> Set<Seq<char>> {
    Set::new(|name: Seq<char>| is_required(installed, name) && !is_installed(installed, name))
}

/// The first desired entry of that name.
pub open spec fn desired_entry(desired: Seq<AddonEntryView>, name: Seq<char>) -> Option<
    AddonEntryView,
>
    decreases desired.len(),
{
    if desired.len() == 0 {
        None
    } else if desired[0].name == name {
        Some(desired[0])
    } else {
        desired_entry(desired.drop_first(), name)
    }
}

/// Whether the configuration lets an addon that nothing depends on be flagged:
/// it does unless it lists the addon as wanted for its own sake.
pub open spec fn may_be_unused(desired: Seq<AddonEntryView>, name: Seq<char>) -> bool {
    match desired_entry(desired, name) {
        Some(entry) => entry.dependency,
        None => true,
    }
}

/// Whether an addon is installed, no installed addon depends on it, and the
/// configuration does not list it as wanted for its own sake.
pub open spec fn is_unused(
    installed: Seq<AddonView>,
    desired: Seq<AddonEntryView>,
    name: Seq<char>,
) -> bool {
    is_installed(installed, name) && !is_required(installed, name) && may_be_unused(desired, name)
}

/// The names of the unused addons.
pub open spec fn unused_dependencies(
    installed: Seq<AddonView>,
    desired: Seq<AddonEntryView>,
) -> Set<Seq<char>> {
    Set::new(|name: Seq<char>| is_unused(installed, desired, name))
}

/// Whether the configuration lists that name at all.
pub open spec fn is_desired(desired: Seq<AddonEntryView>, name: Seq<char>) -> bool {
    exists|i: int| 0 <= i < desired.len() && (#[trigger] desired[i]).name == name
}

/// The test that the configuration does not list an addon.
pub open spec fn is_unmanaged(desired: Seq<AddonEntryView>) -> spec_fn(AddonView) -> bool {
    |addon: AddonView| !is_desired(desired, addon.name)
}

/// The installed addons that the configuration does not list, in the order in
/// which they are installed.
pub open spec fn unmanaged_addons(
    desired: Seq<AddonEntryView>,
    installed: Seq<AddonView>,
) -> Seq<AddonView> {
    installed.filter(is_unmanaged(desired))
}

/// Whether an addon of that name is installed.
pub fn has_addon(installed: &Vec<Addon>, name: &str) -> (found: bool)
    ensures
        found == is_installed(installed.deep_view(), name@),
{
    let mut i: usize = 0;
    while i < installed.len()
        invariant
            i <= installed.len(),
            forall|k: int| 0 <= k < i ==> (#[trigger] installed.deep_view()[k]).name != name@,
        decreases installed.len() - i,
    {
        if same_text(installed[i].name.as_str(), name) {
            assert(installed.deep_view()[i as int].name == name@);
            return true;
        }
        i = i + 1;
    }
    false
}

/// Whether an installed addon depends on that name.
pub fn has_dependent(installed: &Vec<Addon>, name: &str) -> (found: bool)
    ensures
        found == is_required(installed.deep_view(), name@),
{
    let mut i: usize = 0;
    while i < installed.len()
        invariant
            i <= installed.len(),
            !is_required_by_first(installed.deep_view(), i as int, name@),
        decreases installed.len() - i,
    {
        if contains_name(&installed[i].depends_on, name) {
            assert(installed.deep_view()[i as int].depends_on.contains(name@));
            return true;
        }
        assert(!installed.deep_view()[i as int].depends_on.contains(name@));
        i = i + 1;
    }
    false
}

/// The first desired entry of that name.
pub fn find_entry<'a>(desired: &'a Vec<AddonEntry>, name: &str) -> (entry: Option<&'a AddonEntry>)
    ensures
        entry.deep_view() == desired_entry(desired.deep_view(), name@),
{
    let mut i: usize = 0;
    assert(desired.deep_view().skip(0) == desired.deep_view());
    while i < desired.len()
        invariant
            i <= desired.len(),
            desired_entry(desired.deep_view(), name@) == desired_entry(
                desired.deep_view().skip(i as int),
                name@,
            ),
        decreases desired.len() - i,
    {
        let ghost tail = desired.deep_view().skip(i as int);
        assert(tail[0] == desired[i as int]@);
        if same_text(desired[i].name.as_str(), name) {
            return Some(&desired[i]);
        }
        assert(tail.drop_first() == desired.deep_view().skip(i + 1));
        i = i + 1;
    }
    None
}

/// Adds to `found` each of `names` that is not installed and not yet in it.
fn add_missing(installed: &Vec<Addon>, names: &Vec<String>, found: &mut Vec<String>)
    requires
        old(found).deep_view().no_duplicates(),
    ensures
        final(found).deep_view().no_duplicates(),
        forall|name: Seq<char>| #[trigger]
            final(found).deep_view().contains(name) <==> old(found).deep_view().contains(name) || (
            names.deep_view().contains(name) && !is_installed(installed.deep_view(), name)),
{
    let mut j: usize = 0;
    while j < names.len()
        invariant
            j <= names.len(),
            found.deep_view().no_duplicates(),
            forall|name: Seq<char>| #[trigger]
                found.deep_view().contains(name) <==> old(found).deep_view().contains(name) || (
                names.deep_view().take(j as int).contains(name) && !is_installed(
                    installed.deep_view(),
                    name,
                )),
        decreases names.len() - j,
    {
        let name = &names[j];
        proof {
            let seen = names.deep_view().take(j as int);
            assert(names.deep_view().take(j + 1) == seen.push(name@));
            lemma_push_contains(seen, name@);
        }
        if !has_addon(installed, name.as_str()) {
            add_name(found, name.as_str());
        }
        j = j + 1;
    }
    assert(names.deep_view().take(names.len() as int) == names.deep_view());
}

/// The names that installed addons depend on and that no installed addon has,
/// each once.
pub fn get_missing_dependencies(installed: &Vec<Addon>) -> (missing: Vec<String>)
    ensures
        missing.deep_view().no_duplicates(),
        missing.deep_view().to_set() == missing_dependencies(installed.deep_view()),
{
    let mut missing: Vec<String> = Vec::new();
    let mut i: usize = 0;
    while i < installed.len()
        invariant
            i <= installed.len(),
            missing.deep_view().no_duplicates(),
            forall|name: Seq<char>| #[trigger]
                missing.deep_view().contains(name) <==> is_required_by_first(
                    installed.deep_view(),
                    i as int,
                    name,
                ) && !is_installed(installed.deep_view(), name),
        decreases installed.len() - i,
    {
        let ghost before = missing.deep_view();
        add_missing(installed, &installed[i].depends_on, &mut missing);
        proof {
            let all = installed.deep_view();
            assert(all[i as int].depends_on == installed[i as int].depends_on.deep_view());
            assert forall|name: Seq<char>| #[trigger]
                missing.deep_view().contains(name) <==> is_required_by_first(all, i + 1, name)
                    && !is_installed(all, name) by {
                if is_required_by_first(all, i + 1, name) {
                    let k = choose|k: int| 0 <= k < i + 1 && (#[trigger] all[k]).depends_on.contains(name);
                    if k < i {
                        assert(is_required_by_first(all, i as int, name));
                    }
                }
                if is_required_by_first(all, i as int, name) {
                    let k = choose|k: int| 0 <= k < i && (#[trigger] all[k]).depends_on.contains(name);
                    assert(all[k].depends_on.contains(name));
                }
                if all[i as int].depends_on.contains(name) {
                    assert(is_required_by_first(all, i + 1, name));
                }
                assert(missing.deep_view().contains(name) <==> before.contains(name) || (
                all[i as int].depends_on.contains(name) && !is_installed(all, name)));
            }
        }
        i = i + 1;
    }
    assert(missing.deep_view().to_set() =~= missing_dependencies(installed.deep_view()));
    missing
}

/// The installed addons that the configuration does not list, in the order in
/// which they are installed.
pub fn get_unmanaged_addons<'a>(desired: &Vec<AddonEntry>, installed: &'a Vec<Addon>) -> (unmanaged:
    Vec<&'a Addon>)
    ensures
        unmanaged.deep_view() == unmanaged_addons(desired.deep_view(), installed.deep_view()),
{
    let mut unmanaged: Vec<&'a Addon> = Vec::new();
    let mut i: usize = 0;
    proof {
        reveal(Seq::filter);
        assert(installed.deep_view().take(0) == Seq::<AddonView>::empty());
        assert(unmanaged.deep_view() == Seq::<AddonView>::empty());
    }
    while i < installed.len()
        invariant
            i <= installed.len(),
            unmanaged.deep_view() == installed.deep_view().take(i as int).filter(
                is_unmanaged(desired.deep_view()),
            ),
        decreases installed.len() - i,
    {
        let addon = &installed[i];
        let ghost before = unmanaged.deep_view();
        let ghost seen = installed.deep_view().take(i as int);
        proof {
            assert(installed.deep_view().take(i + 1) == seen.push(addon@));
            seen.lemma_filter_push(addon@, is_unmanaged(desired.deep_view()));
        }
        if !is_listed(desired, addon.name.as_str()) {
            unmanaged.push(addon);
            assert(unmanaged.deep_view() == before.push(addon@));
        }
        i = i + 1;
    }
    assert(installed.deep_view().take(installed.len() as int) == installed.deep_view());
    unmanaged
}

/// Whether the configuration lists that name at all.
pub fn is_listed(desired: &Vec<AddonEntry>, name: &str) -> (listed: bool)
    ensures
        listed == is_desired(desired.deep_view(), name@),
{
    let mut i: usize = 0;
    while i < desired.len()
        invariant
            i <= desired.len(),
            forall|k: int| 0 <= k < i ==> (#[trigger] desired.deep_view()[k]).name != name@,
        decreases desired.len() - i,
    {
        if same_text(desired[i].name.as_str(), name) {
            assert(desired.deep_view()[i as int].name == name@);
            return true;
        }
        i = i + 1;
    }
    false
}

/// The names of the installed addons that no installed addon depends on and
/// that the configuration does not list as wanted for their own sake, each
/// once. An addon that the configuration does not list at all is among them.
pub fn get_unused_dependencies(installed: &Vec<Addon>, desired: &Vec<AddonEntry>) -> (unused: Vec<
    String,
>)
    ensures
        unused.deep_view().no_duplicates(),
        unused.deep_view().to_set() == unused_dependencies(
            installed.deep_view(),
            desired.deep_view(),
        ),
{
    let mut unused: Vec<String> = Vec::new();
    let mut i: usize = 0;
    while i < installed.len()
        invariant
            i <= installed.len(),
            unused.deep_view().no_duplicates(),
            forall|name: Seq<char>| #[trigger]
                unused.deep_view().contains(name) <==> is_installed(
                    installed.deep_view().take(i as int),
                    name,
                ) && !is_required(installed.deep_view(), name) && may_be_unused(
                    desired.deep_view(),
                    name,
                ),
        decreases installed.len() - i,
    {
        let name = &installed[i].name;
        let ghost all = installed.deep_view();
        let flagged = !has_dependent(installed, name.as_str()) && match find_entry(
            desired,
            name.as_str(),
        ) {
            Some(entry) => entry.dependency,
            None => true,
        };
        if flagged {
            add_name(&mut unused, name.as_str());
        }
        proof {
            assert(all[i as int].name == name@);
            assert(flagged == (!is_required(all, name@) && may_be_unused(desired.deep_view(), name@)));
            assert forall|n: Seq<char>|
                is_installed(all.take(i + 1), n) <==> is_installed(all.take(i as int), n) || n
                    == name@ by {
                if is_installed(all.take(i + 1), n) {
                    let k = choose|k: int| 0 <= k < i + 1 && (#[trigger] all.take(i + 1)[k]).name == n;
                    if k < i {
                        assert(all.take(i as int)[k].name == n);
                    }
                }
                if is_installed(all.take(i as int), n) {
                    let k = choose|k: int| 0 <= k < i && (#[trigger] all.take(i as int)[k]).name == n;
                    assert(all.take(i + 1)[k].name == n);
                }
                if n == name@ {
                    assert(all.take(i + 1)[i as int].name == n);
                }
            }
        }
        i = i + 1;
    }
    proof {
        let all = installed.deep_view();
        assert(all.take(installed.len() as int) == all);
        assert(unused.deep_view().to_set() =~= unused_dependencies(all, desired.deep_view()));
    }
    unused
}

/// No installed addon is ever missing.
pub proof fn lemma_installed_is_never_missing(installed: Seq<AddonView>, name: Seq<char>)
    requires
        is_installed(installed, name),
    ensures
        !missing_dependencies(installed).contains(name),
{
}

/// A name is missing exactly when an installed addon depends on it and no
/// installed addon has it.
pub proof fn lemma_missing_membership(installed: Seq<AddonView>, i: int, j: int)
    requires
        0 <= i < installed.len(),
        0 <= j < installed[i].depends_on.len(),
    ensures
        missing_dependencies(installed).contains(installed[i].depends_on[j]) <==> !is_installed(
            installed,
            installed[i].depends_on[j],
        ),
{
    assert(installed[i].depends_on.contains(installed[i].depends_on[j]));
}

/// One installed addon that depends on one name other than its own: exactly
/// that name is missing.
pub proof fn lemma_missing_of_single_addon(addon: AddonView, dependency: Seq<char>)
    requires
        addon.depends_on == seq![dependency],
        addon.name != dependency,
    ensures
        missing_dependencies(seq![addon]) == set![dependency],
{
    let installed = seq![addon];
    assert forall|name: Seq<char>| missing_dependencies(installed).contains(name) <==> name
        == dependency by {
        if name == dependency {
            assert(installed[0].depends_on[0] == name);
            assert(installed[0].depends_on.contains(name));
            assert(is_required(installed, name));
        }
    }
    assert(missing_dependencies(installed) =~= set![dependency]);
}

/// Once an addon of the missing name is installed too, and depends on nothing
/// but the two of them, nothing is missing.
pub proof fn lemma_missing_is_mended_by_installing(addon: AddonView, provider: AddonView)
    requires
        addon.depends_on == seq![provider.name],
        forall|j: int|
            0 <= j < provider.depends_on.len() ==> #[trigger] provider.depends_on[j] == addon.name
                || provider.depends_on[j] == provider.name,
    ensures
        missing_dependencies(seq![addon, provider]) == Set::<Seq<char>>::empty(),
{
    let installed = seq![addon, provider];
    assert forall|name: Seq<char>| !missing_dependencies(installed).contains(name) by {
        if is_required(installed, name) {
            let i = choose|i: int|
                0 <= i < installed.len() && (#[trigger] installed[i]).depends_on.contains(name);
            let j = choose|j: int|
                0 <= j < installed[i].depends_on.len() && installed[i].depends_on[j] == name;
            assert(installed[0].name == addon.name);
            assert(installed[1].name == provider.name);
        }
    }
    assert(missing_dependencies(installed) =~= Set::<Seq<char>>::empty());
}

/// A name has no dependents exactly when no installed addon depends on it.
pub proof fn lemma_no_dependents(installed: Seq<AddonView>, name: Seq<char>)
    ensures
        dependents(installed, name) == Set::<Seq<char>>::empty() <==> !is_required(installed, name),
{
    if is_required(installed, name) {
        let i = choose|i: int|
            0 <= i < installed.len() && (#[trigger] installed[i]).depends_on.contains(name);
        assert(dependents(installed, name).contains(installed[i].name));
    } else {
        assert(dependents(installed, name) =~= Set::<Seq<char>>::empty());
    }
}

/// The first desired entry of a name is the one at `i` when no earlier entry
/// has that name.
pub proof fn lemma_desired_entry_at(desired: Seq<AddonEntryView>, name: Seq<char>, i: int)
    requires
        0 <= i < desired.len(),
        desired[i].name == name,
        forall|k: int| 0 <= k < i ==> (#[trigger] desired[k]).name != name,
    ensures
        desired_entry(desired, name) == Some(desired[i]),
    decreases i,
{
    if i > 0 {
        let rest = desired.drop_first();
        assert(rest[i - 1] == desired[i]);
        assert forall|k: int| 0 <= k < i - 1 implies (#[trigger] rest[k]).name != name by {
            assert(rest[k] == desired[k + 1]);
        }
        lemma_desired_entry_at(rest, name, i - 1);
    }
}

/// A name that the configuration does not list has no desired entry.
pub proof fn lemma_desired_entry_absent(desired: Seq<AddonEntryView>, name: Seq<char>)
    requires
        !is_desired(desired, name),
    ensures
        desired_entry(desired, name) is None,
    decreases desired.len(),
{
    if desired.len() > 0 {
        assert(desired[0].name != name);
        let rest = desired.drop_first();
        assert forall|k: int| 0 <= k < rest.len() implies (#[trigger] rest[k]).name != name by {
            assert(rest[k] == desired[k + 1]);
        }
        lemma_desired_entry_absent(rest, name);
    }
}

/// An installed addon that nothing depends on and that the configuration does
/// not list is flagged as unused.
pub proof fn lemma_unlisted_orphan_is_unused(
    installed: Seq<AddonView>,
    desired: Seq<AddonEntryView>,
    name: Seq<char>,
)
    requires
        is_installed(installed, name),
        !is_required(installed, name),
        !is_desired(desired, name),
    ensures
        unused_dependencies(installed, desired).contains(name),
{
    lemma_desired_entry_absent(desired, name);
}

/// An addon whose first entry in the configuration says that it is wanted for
/// its own sake is never flagged as unused.
pub proof fn lemma_wanted_addon_is_kept(
    installed: Seq<AddonView>,
    desired: Seq<AddonEntryView>,
    name: Seq<char>,
    i: int,
)
    requires
        0 <= i < desired.len(),
        desired[i].name == name,
        !desired[i].dependency,
        forall|k: int| 0 <= k < i ==> (#[trigger] desired[k]).name != name,
    ensures
        !unused_dependencies(installed, desired).contains(name),
{
    lemma_desired_entry_at(desired, name, i);
}

/// An addon that an installed addon depends on is never flagged as unused,
/// and neither is a name that is not installed.
pub proof fn lemma_unused_is_installed_orphan(
    installed: Seq<AddonView>,
    desired: Seq<AddonEntryView>,
    name: Seq<char>,
)
    requires
        unused_dependencies(installed, desired).contains(name),
    ensures
        is_installed(installed, name),
        !is_required(installed, name),
{
}

/// An installed addon is among the unmanaged ones exactly when the
/// configuration does not list its name, and every unmanaged addon is an
/// installed one.
pub proof fn lemma_unmanaged_membership(
    desired: Seq<AddonEntryView>,
    installed: Seq<AddonView>,
    addon: AddonView,
)
    ensures
        unmanaged_addons(desired, installed).contains(addon) <==> installed.contains(addon)
            && !is_desired(desired, addon.name),
{
    let test = is_unmanaged(desired);
    let kept = installed.filter(test);
    if kept.contains(addon) {
        let k = choose|k: int| 0 <= k < kept.len() && kept[k] == addon;
        installed.lemma_filter_pred(test, k);
        installed.lemma_filter_contains_rev(test, addon);
    }
    if installed.contains(addon) && !is_desired(desired, addon.name) {
        let k = choose|k: int| 0 <= k < installed.len() && installed[k] == addon;
        installed.lemma_filter_contains(test, k);
    }
}

} // verus!
