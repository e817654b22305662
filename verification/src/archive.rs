//! Where the entries of a downloaded archive are unpacked.
//!
//! An archive is untrusted. The stored path of each entry is resolved to a
//! destination below the addon directory before anything is written, and an
//! archive with one entry that would leave the directory is refused whole.
//! A destination is a list of segments, each of which names one file or
//! directory on every system, so that joining them to the addon directory
//! one by one stays below it.

use vstd::prelude::*;
use vstd::string::*;

use crate::errors::Error;
use crate::errors::ErrorView;
use crate::text::chars_of;
use crate::text::first_of;
use crate::text::is_prefix;
use crate::text::lemma_first_of;
use crate::text::lemma_first_of_is;
use crate::text::same_text;
use crate::text::split;
use crate::text::split_on_either;

verus! {

/// The characters that separate the segments of a stored path. Archives written
/// on any system may hold either.
pub open spec fn separators() -> Set<char> {
    set!['/', '\\']
}

/// The characters that no stored path and no addon name may hold: NUL, which
/// ends a path early, and `:`, which on some systems names a drive or a
/// stream, so that a segment with it need not lie below the directory that
/// it is joined to.
pub open spec fn forbidden() -> Set<char> {
    set!['\0', ':']
}

/// Whether a segment names one file or directory on every system: it is not
/// empty, is neither `.` nor `..`, and holds no separator and no forbidden
/// character.
pub open spec fn is_plain_segment(segment: Seq<char>) -> bool {
    &&& segment.len() > 0
    &&& segment != "."@
    &&& segment != ".."@
    &&& forall|k: int|
        0 <= k < segment.len() ==> !separators().contains(#[trigger] segment[k])
            && !forbidden().contains(segment[k])
}

/// Whether a text holds a forbidden character.
pub open spec fn has_forbidden(text: Seq<char>) -> bool {
    exists|k: int| 0 <= k < text.len() && forbidden().contains(#[trigger] text[k])
}

/// The segments that remain when `.` and empty segments are dropped and each
/// `..` takes back the segment before it; `None` where a `..` has nothing to
/// take back.
pub open spec fn resolve(segments: Seq<Seq<char>>) -> Option<Seq<Seq<char>>>
    decreases segments.len(),
{
    if segments.len() == 0 {
        Some(Seq::empty())
    } else {
        match resolve(segments.drop_last()) {
            None => None,
            Some(kept) => {
                let segment = segments.last();
                if segment.len() == 0 || segment == "."@ {
                    Some(kept)
                } else if segment == ".."@ {
                    if kept.len() == 0 {
                        None
                    } else {
                        Some(kept.drop_last())
                    }
                } else {
                    Some(kept.push(segment))
                }
            },
        }
    }
}

/// The destination of an entry, as segments below the addon directory; `None`
/// where the stored path holds a forbidden character, is absolute, or leaves
/// the directory.
pub open spec fn destination(name: Seq<char>) -> Option<Seq<Seq<char>>> {
    if has_forbidden(name) || (name.len() > 0 && separators().contains(name[0])) {
        None
    } else {
        resolve(split(name, separators()))
    }
}

/// Whether an entry is a directory: its stored path ends in a separator.
pub open spec fn is_directory_entry(name: Seq<char>) -> bool {
    name.len() > 0 && separators().contains(name.last())
}

/// The outermost segment of a path's destination.
pub open spec fn top_level(path: Seq<char>) -> Option<Seq<char>> {
    match destination(path) {
        Some(segments) => if segments.len() > 0 {
            Some(segments[0])
        } else {
            None
        },
        None => None,
    }
}

/// How far below the directory a walk along the segments ends: `.` and empty
/// segments stay, `..` goes up and any other segment goes down. `None` where
/// the walk leaves the directory on its way.
pub open spec fn depth_after(segments: Seq<Seq<char>>) -> Option<nat>
    decreases segments.len(),
{
    if segments.len() == 0 {
        Some(0)
    } else {
        match depth_after(segments.drop_last()) {
            None => None,
            Some(depth) => {
                let segment = segments.last();
                if segment.len() == 0 || segment == "."@ {
                    Some(depth)
                } else if segment == ".."@ {
                    if depth == 0 {
                        None
                    } else {
                        Some((depth - 1) as nat)
                    }
                } else {
                    Some(depth + 1)
                }
            },
        }
    }
}

/// Segments resolve exactly when a walk along them never leaves the
/// directory, and to as many segments as the walk ends below it.
pub proof fn lemma_resolve_follows_walk(segments: Seq<Seq<char>>)
    ensures
        resolve(segments) is Some <==> depth_after(segments) is Some,
        resolve(segments) matches Some(kept) ==> depth_after(segments) == Some(kept.len()),
    decreases segments.len(),
{
    if segments.len() > 0 {
        lemma_resolve_follows_walk(segments.drop_last());
    }
}

/// Once a `..` has nothing to take back, no later segment mends it.
pub proof fn lemma_resolve_fails_on(segments: Seq<Seq<char>>, upto: int)
    requires
        0 <= upto <= segments.len(),
        resolve(segments.take(upto)) is None,
    ensures
        resolve(segments) is None,
    decreases segments.len() - upto,
{
    if upto < segments.len() {
        assert(segments.take(upto + 1).drop_last() == segments.take(upto));
        lemma_resolve_fails_on(segments, upto + 1);
    } else {
        assert(segments.take(upto) == segments);
    }
}

/// No piece of a split holds a stop, and each character of a piece is one of
/// the string.
pub proof fn lemma_split_pieces(s: Seq<char>, stops: Set<char>)
    ensures
        forall|i: int, k: int|
            0 <= i < split(s, stops).len() && 0 <= k < split(s, stops)[i].len()
                ==> !stops.contains(#[trigger] split(s, stops)[i][k]) && s.contains(
                split(s, stops)[i][k],
            ),
    decreases s.len(),
{
    lemma_first_of(s, stops);
    let f = first_of(s, stops);
    if 0 <= f < s.len() {
        let rest = s.subrange(f + 1, s.len() as int);
        lemma_split_pieces(rest, stops);
        assert forall|i: int, k: int|
            0 <= i < split(s, stops).len() && 0 <= k < split(s, stops)[i].len()
                implies !stops.contains(#[trigger] split(s, stops)[i][k]) && s.contains(
            split(s, stops)[i][k],
        ) by {
            if i == 0 {
                assert(split(s, stops)[0][k] == s[k]);
            } else {
                assert(split(s, stops)[i] == split(rest, stops)[i - 1]);
                let c = split(rest, stops)[i - 1][k];
                assert(rest.contains(c));
                let j = choose|j: int| 0 <= j < rest.len() && rest[j] == c;
                assert(s[f + 1 + j] == c);
            }
        }
    } else {
        assert forall|i: int, k: int|
            0 <= i < split(s, stops).len() && 0 <= k < split(s, stops)[i].len()
                implies !stops.contains(#[trigger] split(s, stops)[i][k]) && s.contains(
            split(s, stops)[i][k],
        ) by {
            assert(split(s, stops)[0][k] == s[k]);
        }
    }
}

/// What `resolve` keeps, it took from the segments, and it keeps neither an
/// empty segment nor `.` nor `..`.
pub proof fn lemma_resolve_keeps(segments: Seq<Seq<char>>)
    ensures
        resolve(segments) matches Some(kept) ==> forall|i: int|
            0 <= i < kept.len() ==> segments.contains(#[trigger] kept[i]) && kept[i].len() > 0
                && kept[i] != "."@ && kept[i] != ".."@,
    decreases segments.len(),
{
    if segments.len() > 0 {
        let before = segments.drop_last();
        lemma_resolve_keeps(before);
        if let Some(kept) = resolve(segments) {
            let earlier = resolve(before)->0;
            assert forall|i: int| 0 <= i < kept.len() implies segments.contains(#[trigger] kept[i])
                && kept[i].len() > 0 && kept[i] != "."@ && kept[i] != ".."@ by {
                if i < earlier.len() && kept[i] == earlier[i] {
                    assert(before.contains(earlier[i]));
                    let j = choose|j: int| 0 <= j < before.len() && before[j] == earlier[i];
                    assert(segments[j] == kept[i]);
                } else {
                    assert(kept[i] == segments.last());
                    assert(segments[segments.len() - 1] == kept[i]);
                }
            }
        }
    }
}

/// Every segment of a destination names one file or directory, so the
/// destination lies below the directory that it is joined to.
pub proof fn lemma_destination_confined(name: Seq<char>)
    ensures
        destination(name) matches Some(segments) ==> forall|i: int|
            0 <= i < segments.len() ==> is_plain_segment(#[trigger] segments[i]),
{
    if let Some(segments) = destination(name) {
        let pieces = split(name, separators());
        lemma_resolve_keeps(pieces);
        lemma_split_pieces(name, separators());
        assert forall|i: int| 0 <= i < segments.len() implies is_plain_segment(
            #[trigger] segments[i],
        ) by {
            let segment = segments[i];
            assert(pieces.contains(segment));
            let j = choose|j: int| 0 <= j < pieces.len() && pieces[j] == segment;
            assert forall|k: int| 0 <= k < segment.len() implies !separators().contains(
                #[trigger] segment[k],
            ) && !forbidden().contains(segment[k]) by {
                assert(!separators().contains(pieces[j][k]) && name.contains(pieces[j][k]));
                let at = choose|at: int| 0 <= at < name.len() && name[at] == pieces[j][k];
                assert(!forbidden().contains(name[at]));
            }
        }
    }
}

/// Whether a text holds a forbidden character.
pub fn holds_forbidden(text: &str) -> (found: bool)
    ensures
        found == has_forbidden(text@),
{
    let chars = chars_of(text);
    let mut i: usize = 0;
    while i < chars.len()
        invariant
            i <= chars.len(),
            chars@ == text@,
            forall|k: int| 0 <= k < i ==> !forbidden().contains(#[trigger] text@[k]),
        decreases chars.len() - i,
    {
        if chars[i] == '\0' || chars[i] == ':' {
            assert(forbidden().contains(text@[i as int]));
            return true;
        }
        i = i + 1;
    }
    false
}

/// Whether an entry is a directory: its stored path ends in a separator.
pub fn is_directory(name: &str) -> (dir: bool)
    ensures
        dir == is_directory_entry(name@),
{
    let n = name.unicode_len();
    if n == 0 {
        return false;
    }
    let last = name.get_char(n - 1);
    last == '/' || last == '\\'
}

/// Whether a name is the name of one file or directory on every system.
pub fn is_plain(name: &str) -> (plain: bool)
    ensures
        plain == is_plain_segment(name@),
{
    let chars = chars_of(name);
    if chars.len() == 0 || same_text(name, ".") || same_text(name, "..") {
        return false;
    }
    let mut i: usize = 0;
    while i < chars.len()
        invariant
            i <= chars.len(),
            chars@ == name@,
            forall|k: int|
                0 <= k < i ==> !separators().contains(#[trigger] name@[k])
                    && !forbidden().contains(name@[k]),
        decreases chars.len() - i,
    {
        if chars[i] == '/' || chars[i] == '\\' || chars[i] == '\0' || chars[i] == ':' {
            assert(separators().contains(name@[i as int]) || forbidden().contains(
                name@[i as int],
            ));
            return false;
        }
        i = i + 1;
    }
    true
}

/// The destination of an entry, as segments below the addon directory; `None`
/// where the stored path holds a forbidden character, is absolute, or leaves
/// the directory.
pub fn entry_destination(name: &str) -> (path: Option<Vec<String>>)
    ensures
        path.deep_view() == destination(name@),
        path matches Some(p) ==> forall|i: int|
            0 <= i < p.len() ==> is_plain_segment(#[trigger] p.deep_view()[i]),
{
    if holds_forbidden(name) {
        return None;
    }
    if name.unicode_len() > 0 {
        let first = name.get_char(0);
        if first == '/' || first == '\\' {
            return None;
        }
    }
    let segments = split_on_either(name, '/', '\\');
    let mut kept: Vec<String> = Vec::new();
    let mut i: usize = 0;
    proof {
        assert(set!['/', '\\'] =~= separators());
        assert(segments.deep_view().take(0) == Seq::<Seq<char>>::empty());
        assert(kept.deep_view() == Seq::<Seq<char>>::empty());
    }
    while i < segments.len()
        invariant
            i <= segments.len(),
            destination(name@) == resolve(segments.deep_view()),
            resolve(segments.deep_view().take(i as int)) == Some(kept.deep_view()),
        decreases segments.len() - i,
    {
        let segment = &segments[i];
        let ghost before = kept.deep_view();
        proof {
            let seen = segments.deep_view().take(i + 1);
            assert(seen.drop_last() == segments.deep_view().take(i as int));
            assert(seen.last() == segment@);
        }
        if segment.as_str().unicode_len() == 0 || same_text(segment.as_str(), ".") {
        } else if same_text(segment.as_str(), "..") {
            if kept.len() == 0 {
                proof {
                    lemma_resolve_fails_on(segments.deep_view(), i + 1);
                }
                return None;
            }
            kept.pop();
            assert(kept.deep_view() == before.drop_last());
        } else {
            kept.push(segment.clone());
            assert(kept.deep_view() == before.push(segment@));
        }
        i = i + 1;
    }
    proof {
        assert(segments.deep_view().take(segments.len() as int) == segments.deep_view());
        lemma_destination_confined(name@);
        let segments = destination(name@)->0;
        assert(segments == kept.deep_view());
        assert forall|i: int| 0 <= i < kept.len() implies is_plain_segment(
            #[trigger] kept.deep_view()[i],
        ) by {
            assert(is_plain_segment(segments[i]));
        }
    }
    Some(kept)
}

/// The outermost directory of a stored path: the first segment of its
/// destination, however deep the path goes.
pub fn get_root_dir(path: &str) -> (root: Option<String>)
    ensures
        root.deep_view() == top_level(path@),
{
    match entry_destination(path) {
        Some(segments) => {
            if segments.len() > 0 {
                assert(segments.deep_view()[0] == segments[0]@);
                Some(segments[0].clone())
            } else {
                None
            }
        },
        None => None,
    }
}

/// What is done for one entry of an archive: a directory is created, or a
/// file is written, at `path` below the addon directory.
#[derive(Debug, PartialEq, Eq)]
pub struct ExtractStep {
    pub path: Vec<String>,
    pub is_dir: bool,
}

/// An `ExtractStep` with its strings as character sequences.
pub struct ExtractStepView {
    pub path: Seq<Seq<char>>,
    pub is_dir: bool,
}

impl View for ExtractStep {
    type V = ExtractStepView;

    open spec fn view(&self) -> ExtractStepView {
        ExtractStepView { path: self.path.deep_view(), is_dir: self.is_dir }
    }
}

impl DeepView for ExtractStep {
    type V = ExtractStepView;

    open spec fn deep_view(&self) -> ExtractStepView {
        self@
    }
}

/// How an archive is unpacked: one step for each entry, in the order of the
/// entries, and the directory below the addon directory that then holds the
/// addon.
#[derive(Debug, PartialEq, Eq)]
pub struct ExtractionPlan {
    pub steps: Vec<ExtractStep>,
    pub installed: String,
}

/// An `ExtractionPlan` with its strings as character sequences.
pub struct ExtractionPlanView {
    pub steps: Seq<ExtractStepView>,
    pub installed: Seq<char>,
}

impl View for ExtractionPlan {
    type V = ExtractionPlanView;

    open spec fn view(&self) -> ExtractionPlanView {
        ExtractionPlanView { steps: self.steps.deep_view(), installed: self.installed@ }
    }
}

/// Why an entry cannot be unpacked.
pub enum EntryFault {
    /// Its destination is not below the addon directory.
    Escapes,
    /// It is a file whose destination is the addon directory itself.
    NamesNoFile,
}

/// The step for one entry, or why there is none.
pub open spec fn entry_step(name: Seq<char>) -> Result<ExtractStepView, EntryFault> {
    match destination(name) {
        None => Err(EntryFault::Escapes),
        Some(path) => if path.len() == 0 && !is_directory_entry(name) {
            Err(EntryFault::NamesNoFile)
        } else {
            Ok(ExtractStepView { path: path, is_dir: is_directory_entry(name) })
        },
    }
}

/// The error for an entry that cannot be unpacked, from the archive behind
/// `url`.
pub open spec fn entry_error(url: Seq<char>, name: Seq<char>, fault: EntryFault) -> ErrorView {
    match fault {
        EntryFault::Escapes => ErrorView::PathTraversalRejected(url, name),
        EntryFault::NamesNoFile => ErrorView::CannotExtractAddon(
            url,
            "archive entry names no file"@,
        ),
    }
}

/// The steps for the entries of an archive, or the error for the first entry
/// that cannot be unpacked.
pub open spec fn planned_steps(url: Seq<char>, names: Seq<Seq<char>>) -> Result<
    Seq<ExtractStepView>,
    ErrorView,
>
    decreases names.len(),
{
    if names.len() == 0 {
        Ok(Seq::empty())
    } else {
        match planned_steps(url, names.drop_last()) {
            Err(error) => Err(error),
            Ok(steps) => match entry_step(names.last()) {
                Ok(step) => Ok(steps.push(step)),
                Err(fault) => Err(entry_error(url, names.last(), fault)),
            },
        }
    }
}

/// The plan for an archive: the steps for its entries and the outermost
/// directory of the first; an error where an entry cannot be unpacked, the
/// archive is empty, or its first entry is the addon directory itself.
pub open spec fn planned(url: Seq<char>, names: Seq<Seq<char>>) -> Result<
    ExtractionPlanView,
    ErrorView,
> {
    match planned_steps(url, names) {
        Err(error) => Err(error),
        Ok(steps) => if steps.len() == 0 {
            Err(ErrorView::CannotExtractAddon(url, "archive is empty"@))
        } else if steps[0].path.len() == 0 {
            Err(ErrorView::CannotExtractAddon(url, "archive has no top-level directory"@))
        } else {
            Ok(ExtractionPlanView { steps: steps, installed: steps[0].path[0] })
        },
    }
}

/// An error for a prefix of the entries is the error for all of them.
pub proof fn lemma_planned_steps_fail_on(url: Seq<char>, names: Seq<Seq<char>>, upto: int)
    requires
        0 <= upto <= names.len(),
        planned_steps(url, names.take(upto)) is Err,
    ensures
        planned_steps(url, names) == planned_steps(url, names.take(upto)),
    decreases names.len() - upto,
{
    if upto < names.len() {
        assert(names.take(upto + 1).drop_last() == names.take(upto));
        lemma_planned_steps_fail_on(url, names, upto + 1);
    } else {
        assert(names.take(upto) == names);
    }
}

/// The steps of a plan are those of the entries, one for one.
pub proof fn lemma_planned_steps_each(url: Seq<char>, names: Seq<Seq<char>>)
    ensures
        planned_steps(url, names) matches Ok(steps) ==> steps.len() == names.len() && forall|
            i: int,
        |
            0 <= i < names.len() ==> entry_step(names[i]) == Ok::<ExtractStepView, EntryFault>(
                #[trigger] steps[i],
            ),
    decreases names.len(),
{
    if names.len() > 0 {
        lemma_planned_steps_each(url, names.drop_last());
    }
}

/// A plan has one step for each entry, every step stays below the addon
/// directory, and the installed directory is directly below it.
pub proof fn lemma_plan_is_confined(url: Seq<char>, names: Seq<Seq<char>>)
    ensures
        planned(url, names) matches Ok(plan) ==> plan.steps.len() == names.len(),
        planned(url, names) matches Ok(plan) ==> is_plain_segment(plan.installed),
        planned(url, names) matches Ok(plan) ==> top_level(names[0]) == Some(plan.installed),
        planned(url, names) matches Ok(plan) ==> forall|i: int, k: int|
            0 <= i < plan.steps.len() && 0 <= k < plan.steps[i].path.len() ==> is_plain_segment(
                #[trigger] plan.steps[i].path[k],
            ),
{
    if let Ok(plan) = planned(url, names) {
        lemma_planned_steps_each(url, names);
        assert forall|i: int, k: int|
            0 <= i < plan.steps.len() && 0 <= k < plan.steps[i].path.len()
                implies is_plain_segment(#[trigger] plan.steps[i].path[k]) by {
            assert(entry_step(names[i]) == Ok::<ExtractStepView, EntryFault>(plan.steps[i]));
            lemma_destination_confined(names[i]);
        }
        assert(entry_step(names[0]) == Ok::<ExtractStepView, EntryFault>(plan.steps[0]));
        assert(is_plain_segment(plan.steps[0].path[0]));
    }
}

/// An archive with one entry that cannot be unpacked is refused whole; the
/// error is that of the first such entry.
pub proof fn lemma_plan_refuses(url: Seq<char>, names: Seq<Seq<char>>, i: int)
    requires
        0 <= i < names.len(),
        entry_step(names[i]) is Err,
        forall|k: int| 0 <= k < i ==> entry_step(#[trigger] names[k]) is Ok,
    ensures
        planned(url, names) == Err::<ExtractionPlanView, ErrorView>(
            entry_error(url, names[i], entry_step(names[i])->Err_0),
        ),
{
    lemma_planned_steps_ok(url, names.take(i));
    assert(names.take(i + 1).drop_last() == names.take(i));
    assert(names.take(i + 1).last() == names[i]);
    lemma_planned_steps_fail_on(url, names, i + 1);
}

/// Entries that can each be unpacked have their steps.
pub proof fn lemma_planned_steps_ok(url: Seq<char>, names: Seq<Seq<char>>)
    requires
        forall|k: int| 0 <= k < names.len() ==> entry_step(#[trigger] names[k]) is Ok,
    ensures
        planned_steps(url, names) is Ok,
    decreases names.len(),
{
    if names.len() > 0 {
        let earlier = names.drop_last();
        assert forall|k: int| 0 <= k < earlier.len() implies entry_step(#[trigger] earlier[k])
            is Ok by {
            assert(earlier[k] == names[k]);
        }
        lemma_planned_steps_ok(url, earlier);
        assert(entry_step(names[names.len() - 1]) is Ok);
    }
}

/// An archive with an entry whose destination is not below the addon
/// directory has no plan, wherever the entry stands.
pub proof fn lemma_plan_refuses_escape(url: Seq<char>, names: Seq<Seq<char>>, i: int)
    requires
        0 <= i < names.len(),
        destination(names[i]) is None,
    ensures
        planned(url, names) is Err,
{
    lemma_planned_steps_each(url, names);
    if let Ok(steps) = planned_steps(url, names) {
        assert(entry_step(names[i]) == Ok::<ExtractStepView, EntryFault>(steps[i]));
    }
}

/// A stored path that holds a forbidden character has no destination, wherever
/// the character stands: no segment that could name a drive or a stream is
/// ever joined to the addon directory.
pub proof fn lemma_forbidden_has_no_destination(name: Seq<char>, k: int)
    requires
        0 <= k < name.len(),
        name[k] == ':' || name[k] == '\0',
    ensures
        destination(name) is None,
        !is_plain_segment(name),
{
    assert(forbidden().contains(name[k]));
}

/// A stored path that begins by going up has no destination.
pub proof fn lemma_leading_parent_escapes(name: Seq<char>)
    requires
        is_prefix("../"@, name),
    ensures
        destination(name) is None,
{
    reveal_strlit("../");
    reveal_strlit("..");
    reveal_strlit(".");
    let up = "../"@;
    assert(name[0] == up[0] && name[1] == up[1] && name[2] == up[2]) by {
        let head = name.subrange(0, 3);
        assert(head[0] == name[0] && head[1] == name[1] && head[2] == name[2]);
    }
    if !has_forbidden(name) {
        lemma_first_of_is(name, separators(), 2);
        let pieces = split(name, separators());
        assert(pieces[0] == name.subrange(0, 2));
        assert(name.subrange(0, 2) =~= ".."@);
        let first = pieces.take(1);
        assert(first.drop_last() =~= Seq::<Seq<char>>::empty());
        assert(first.last() == ".."@);
        assert(resolve(first.drop_last()) == Some(Seq::<Seq<char>>::empty()));
        assert(resolve(first) is None);
        lemma_resolve_fails_on(pieces, 1);
    }
}

/// Where every entry has the outermost directory of the first, every step of
/// the plan lies in the installed directory.
pub proof fn lemma_steps_are_below_installed(url: Seq<char>, names: Seq<Seq<char>>)
    requires
        planned(url, names) is Ok,
        forall|i: int| 0 <= i < names.len() ==> top_level(#[trigger] names[i]) == top_level(names[0]),
    ensures
        forall|i: int|
            0 <= i < names.len() ==> (#[trigger] planned(url, names)->Ok_0.steps[i]).path.len() > 0
                && planned(url, names)->Ok_0.steps[i].path[0] == planned(url, names)->Ok_0.installed,
{
    let plan = planned(url, names)->Ok_0;
    lemma_planned_steps_each(url, names);
    assert forall|i: int| 0 <= i < names.len() implies (#[trigger] plan.steps[i]).path.len() > 0
        && plan.steps[i].path[0] == plan.installed by {
        assert(entry_step(names[i]) == Ok::<ExtractStepView, EntryFault>(plan.steps[i]));
        assert(entry_step(names[0]) == Ok::<ExtractStepView, EntryFault>(plan.steps[0]));
        assert(top_level(names[i]) == top_level(names[0]));
    }
}

/// The plan for unpacking the archive behind `url`, given the stored paths of
/// its entries in order. Nothing is unpacked unless every entry can be.
pub fn plan_extraction(url: &str, names: &Vec<String>) -> (plan: Result<ExtractionPlan, Error>)
    ensures
        match plan {
            Ok(p) => planned(url@, names.deep_view()) == Ok::<ExtractionPlanView, ErrorView>(p@),
            Err(e) => planned(url@, names.deep_view()) == Err::<ExtractionPlanView, ErrorView>(e@),
        },
{
    let mut steps: Vec<ExtractStep> = Vec::new();
    let mut i: usize = 0;
    proof {
        assert(names.deep_view().take(0) == Seq::<Seq<char>>::empty());
        assert(steps.deep_view() == Seq::<ExtractStepView>::empty());
    }
    while i < names.len()
        invariant
            i <= names.len(),
            planned_steps(url@, names.deep_view().take(i as int)) == Ok::<
                Seq<ExtractStepView>,
                ErrorView,
            >(steps.deep_view()),
        decreases names.len() - i,
    {
        let name = &names[i];
        let ghost before = steps.deep_view();
        proof {
            let seen = names.deep_view().take(i + 1);
            assert(seen.drop_last() == names.deep_view().take(i as int));
            assert(seen.last() == name@);
        }
        let is_dir = is_directory(name.as_str());
        match entry_destination(name.as_str()) {
            None => {
                proof {
                    lemma_planned_steps_fail_on(url@, names.deep_view(), i + 1);
                }
                return Err(Error::PathTraversalRejected(url.to_owned(), name.clone()));
            },
            Some(path) => {
                if path.len() == 0 && !is_dir {
                    proof {
                        lemma_planned_steps_fail_on(url@, names.deep_view(), i + 1);
                    }
                    return Err(
                        Error::CannotExtractAddon(
                            url.to_owned(),
                            String::from_str("archive entry names no file"),
                        ),
                    );
                }
                let step = ExtractStep { path: path, is_dir: is_dir };
                steps.push(step);
                assert(steps.deep_view() == before.push(step@));
            },
        }
        i = i + 1;
    }
    assert(names.deep_view().take(names.len() as int) == names.deep_view());
    if steps.len() == 0 {
        return Err(
            Error::CannotExtractAddon(url.to_owned(), String::from_str("archive is empty")),
        );
    }
    assert(steps.deep_view()[0] == steps[0]@);
    if steps[0].path.len() == 0 {
        return Err(
            Error::CannotExtractAddon(
                url.to_owned(),
                String::from_str("archive has no top-level directory"),
            ),
        );
    }
    assert(steps[0]@.path[0] == steps[0].path[0]@);
    let installed = steps[0].path[0].clone();
    Ok(ExtractionPlan { steps: steps, installed: installed })
}

} // verus!
