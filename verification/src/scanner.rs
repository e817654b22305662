//! Which directories are addons.
//!
//! A directory `D` is an addon exactly when it holds, directly inside it, a
//! file named `D.txt` or the same name in lower case. The first is preferred
//! where both are there. Addons may lie inside one another: each directory
//! is judged on its own.

use vstd::prelude::*;
use vstd::string::*;

use crate::text::contains_name;

verus! {

/// What `str::to_lowercase` of the standard library returns for a string: the
/// string in lower case, as Unicode defines it.
pub uninterp spec fn lowercase(s: Seq<char>) -> Seq<char>;

/// The metadata file of the directory `dir_name` among the names `files` of the
/// files directly inside it, where `lowered` is `dir_name` in lower case:
/// `dir_name` followed by `.txt` where there is such a file, else `lowered`
/// followed by `.txt` where there is such a file.
pub open spec fn chosen_metadata_file(
    dir_name: Seq<char>,
    lowered: Seq<char>,
    files: Seq<Seq<char>>,
) -> Option<Seq<char>> {
    if files.contains(dir_name + ".txt"@) {
        Some(dir_name + ".txt"@)
    } else if files.contains(lowered + ".txt"@) {
        Some(lowered + ".txt"@)
    } else {
        None
    }
}

/// Calls `str::to_lowercase`; the result is named, not described.
#[verifier::external_body]
fn to_lowercase(s: &str) -> (out: String)
    ensures
        out@ == lowercase(s@),
{
    s.to_lowercase()
}

/// The metadata file of a directory, given its name in lower case too.
pub fn choose_metadata_file(dir_name: &str, lowered: &str, files: &Vec<String>) -> (file: Option<
    String,
>)
    ensures
        file.deep_view() == chosen_metadata_file(dir_name@, lowered@, files.deep_view()),
{
    let exact = String::from_str(dir_name).concat(".txt");
    if contains_name(files, exact.as_str()) {
        return Some(exact);
    }
    let folded = String::from_str(lowered).concat(".txt");
    if contains_name(files, folded.as_str()) {
        return Some(folded);
    }
    None
}

/// The metadata file of the directory `dir_name`, if the names `files` of the
/// files directly inside it hold one. A directory is an addon exactly when
/// this is `Some`.
pub fn find_metadata_file(dir_name: &str, files: &Vec<String>) -> (file: Option<String>)
    ensures
        file.deep_view() == chosen_metadata_file(
            dir_name@,
            lowercase(dir_name@),
            files.deep_view(),
        ),
{
    let lowered = to_lowercase(dir_name);
    choose_metadata_file(dir_name, lowered.as_str(), files)
}

/// A directory that holds a file of its own name followed by `.txt` is an
/// addon, and that file is its metadata file, whatever else it holds.
pub proof fn lemma_exact_metadata_file_is_preferred(
    dir_name: Seq<char>,
    lowered: Seq<char>,
    files: Seq<Seq<char>>,
)
    requires
        files.contains(dir_name + ".txt"@),
    ensures
        chosen_metadata_file(dir_name, lowered, files) == Some(dir_name + ".txt"@),
{
}

/// A directory is an addon exactly when it holds one of the two files.
pub proof fn lemma_addon_directories(dir_name: Seq<char>, lowered: Seq<char>, files: Seq<Seq<char>>)
    ensures
        chosen_metadata_file(dir_name, lowered, files) is Some <==> files.contains(
            dir_name + ".txt"@,
        ) || files.contains(lowered + ".txt"@),
{
}

/// One directory below the addon directory, as a walk finds it: its name and
/// the names of the files directly inside it.
#[derive(Debug, PartialEq, Eq)]
pub struct Directory {
    pub name: String,
    pub files: Vec<String>,
}

/// A `Directory` with its strings as character sequences.
pub struct DirectoryView {
    pub name: Seq<char>,
    pub files: Seq<Seq<char>>,
}

impl View for Directory {
    type V = DirectoryView;

    open spec fn view(&self) -> DirectoryView {
        DirectoryView { name: self.name@, files: self.files.deep_view() }
    }
}

impl DeepView for Directory {
    type V = DirectoryView;

    open spec fn deep_view(&self) -> DirectoryView {
        self@
    }
}

/// The metadata file of an addon directory: which of the walked directories
/// it is in, and the name of the file.
#[derive(Debug, PartialEq, Eq)]
pub struct MetadataFile {
    pub directory: usize,
    pub file: String,
}

/// A `MetadataFile` with its strings as character sequences.
pub struct MetadataFileView {
    pub directory: int,
    pub file: Seq<char>,
}

impl View for MetadataFile {
    type V = MetadataFileView;

    open spec fn view(&self) -> MetadataFileView {
        MetadataFileView { directory: self.directory as int, file: self.file@ }
    }
}

impl DeepView for MetadataFile {
    type V = MetadataFileView;

    open spec fn deep_view(&self) -> MetadataFileView {
        self@
    }
}

/// The name in lower case of the directory at `i`, where `lowered` holds the
/// names in lower case of the directories, one for one. A directory that
/// `lowered` has no name for is judged by its own name alone.
pub open spec fn lowered_name(
    directories: Seq<DirectoryView>,
    lowered: Seq<Seq<char>>,
    i: int,
) -> Seq<char> {
    if 0 <= i < lowered.len() {
        lowered[i]
    } else {
        directories[i].name
    }
}

/// The metadata file of the directory at `i`, if it is an addon.
pub open spec fn metadata_file_at(
    directories: Seq<DirectoryView>,
    lowered: Seq<Seq<char>>,
    i: int,
) -> Option<Seq<char>> {
    chosen_metadata_file(
        directories[i].name,
        lowered_name(directories, lowered, i),
        directories[i].files,
    )
}

/// The metadata files of the addons among the walked directories, in the
/// order of the walk, where `lowered` holds the names in lower case of the
/// directories. A directory is an addon wherever it stands: inside another
/// addon too.
pub open spec fn metadata_files_given(
    directories: Seq<DirectoryView>,
    lowered: Seq<Seq<char>>,
) -> Seq<MetadataFileView>
    decreases directories.len(),
{
    if directories.len() == 0 {
        Seq::empty()
    } else {
        let last = directories.len() - 1;
        let earlier = metadata_files_given(directories.drop_last(), lowered);
        match metadata_file_at(directories, lowered, last) {
            Some(file) => earlier.push((MetadataFileView { directory: last, file: file })),
            None => earlier,
        }
    }
}

/// The names in lower case of the directories, one for one.
pub open spec fn lowered_names(directories: Seq<DirectoryView>) -> Seq<Seq<char>> {
    Seq::new(directories.len(), |i: int| lowercase(directories[i].name))
}

/// The metadata files of the addons among the walked directories, in the
/// order of the walk.
pub open spec fn metadata_files(directories: Seq<DirectoryView>) -> Seq<MetadataFileView> {
    metadata_files_given(directories, lowered_names(directories))
}

/// Whether `found` is the metadata file of one of the directories.
pub open spec fn is_metadata_file_among(
    directories: Seq<DirectoryView>,
    lowered: Seq<Seq<char>>,
    found: MetadataFileView,
) -> bool {
    0 <= found.directory < directories.len() && metadata_file_at(
        directories,
        lowered,
        found.directory,
    ) == Some(found.file)
}

/// Every addon among the walked directories is found, and nothing else is.
pub proof fn lemma_metadata_files(directories: Seq<DirectoryView>, lowered: Seq<Seq<char>>)
    ensures
        forall|k: int|
            0 <= k < metadata_files_given(directories, lowered).len() ==> is_metadata_file_among(
                directories,
                lowered,
                #[trigger] metadata_files_given(directories, lowered)[k],
            ),
        forall|i: int|
            0 <= i < directories.len() && (#[trigger] metadata_file_at(directories, lowered, i))
                is Some ==> metadata_files_given(directories, lowered).contains(
                (MetadataFileView {
                    directory: i,
                    file: metadata_file_at(directories, lowered, i)->0,
                }),
            ),
    decreases directories.len(),
{
    if directories.len() > 0 {
        let earlier = directories.drop_last();
        lemma_metadata_files(earlier, lowered);
        let all = metadata_files_given(directories, lowered);
        let before = metadata_files_given(earlier, lowered);
        let last = directories.len() - 1;
        assert forall|i: int| 0 <= i < last implies metadata_file_at(earlier, lowered, i)
            == metadata_file_at(directories, lowered, i) by {
            assert(earlier[i] == directories[i]);
        }
        assert forall|k: int| 0 <= k < all.len() implies is_metadata_file_among(
            directories,
            lowered,
            #[trigger] all[k],
        ) by {
            if k < before.len() {
                assert(all[k] == before[k]);
                assert(is_metadata_file_among(earlier, lowered, before[k]));
            }
        }
        assert forall|i: int|
            0 <= i < directories.len() && (#[trigger] metadata_file_at(directories, lowered, i))
                is Some implies all.contains(
            (MetadataFileView { directory: i, file: metadata_file_at(directories, lowered, i)->0 }),
        ) by {
            let wanted = MetadataFileView {
                directory: i,
                file: metadata_file_at(directories, lowered, i)->0,
            };
            if i < last {
                assert(metadata_file_at(earlier, lowered, i) is Some);
                assert(before.contains(wanted));
                let k = choose|k: int| 0 <= k < before.len() && before[k] == wanted;
                assert(all[k] == wanted);
            } else {
                assert(all[all.len() - 1] == wanted);
            }
        }
    }
}

/// A directory that holds only the file of its name in lower case is an
/// addon like one that holds the file of its own name.
pub proof fn lemma_lower_case_file_makes_an_addon(
    directories: Seq<DirectoryView>,
    lowered: Seq<Seq<char>>,
    i: int,
)
    requires
        0 <= i < directories.len(),
        i < lowered.len(),
        directories[i].files.contains(lowered[i] + ".txt"@),
        !directories[i].files.contains(directories[i].name + ".txt"@),
    ensures
        metadata_files_given(directories, lowered).contains(
            (MetadataFileView { directory: i, file: lowered[i] + ".txt"@ }),
        ),
{
    lemma_metadata_files(directories, lowered);
    assert(metadata_file_at(directories, lowered, i) == Some(lowered[i] + ".txt"@));
}

/// The metadata files of the addons among the walked directories, in the
/// order of the walk, given the names in lower case of the directories, one
/// for one.
pub fn find_addons_given(directories: &Vec<Directory>, lowered: &Vec<String>) -> (found: Vec<
    MetadataFile,
>)
    ensures
        found.deep_view() == metadata_files_given(directories.deep_view(), lowered.deep_view()),
{
    let mut found: Vec<MetadataFile> = Vec::new();
    let mut i: usize = 0;
    proof {
        assert(directories.deep_view().take(0) == Seq::<DirectoryView>::empty());
        assert(found.deep_view() == Seq::<MetadataFileView>::empty());
    }
    while i < directories.len()
        invariant
            i <= directories.len(),
            found.deep_view() == metadata_files_given(
                directories.deep_view().take(i as int),
                lowered.deep_view(),
            ),
        decreases directories.len() - i,
    {
        let directory = &directories[i];
        let ghost before = found.deep_view();
        proof {
            let seen = directories.deep_view().take(i + 1);
            assert(seen.drop_last() == directories.deep_view().take(i as int));
            assert(seen[i as int] == directory@);
            if i < lowered.len() {
                assert(lowered.deep_view()[i as int] == lowered[i as int]@);
            }
        }
        let name = directory.name.as_str();
        let file = if i < lowered.len() {
            choose_metadata_file(name, lowered[i].as_str(), &directory.files)
        } else {
            choose_metadata_file(name, name, &directory.files)
        };
        match file {
            Some(file) => {
                let entry = MetadataFile { directory: i, file: file };
                found.push(entry);
                assert(found.deep_view() == before.push(entry@));
            },
            None => {},
        }
        i = i + 1;
    }
    assert(directories.deep_view().take(directories.len() as int) == directories.deep_view());
    found
}

/// The names in lower case of the directories, one for one.
fn lower_names(directories: &Vec<Directory>) -> (lowered: Vec<String>)
    ensures
        lowered.deep_view() == lowered_names(directories.deep_view()),
{
    let mut lowered: Vec<String> = Vec::new();
    let mut i: usize = 0;
    while i < directories.len()
        invariant
            i <= directories.len(),
            lowered.len() == i,
            forall|k: int|
                0 <= k < i ==> #[trigger] lowered.deep_view()[k] == lowercase(
                    directories.deep_view()[k].name,
                ),
        decreases directories.len() - i,
    {
        let name = to_lowercase(directories[i].name.as_str());
        let ghost before = lowered.deep_view();
        lowered.push(name);
        proof {
            assert(lowered.deep_view() == before.push(name@));
            assert(directories.deep_view()[i as int].name == directories[i as int].name@);
        }
        i = i + 1;
    }
    assert(lowered.deep_view() =~= lowered_names(directories.deep_view()));
    lowered
}

/// The metadata files of the addons among the walked directories, in the
/// order of the walk.
pub fn find_addons(directories: &Vec<Directory>) -> (found: Vec<MetadataFile>)
    ensures
        found.deep_view() == metadata_files(directories.deep_view()),
{
    let lowered = lower_names(directories);
    find_addons_given(directories, &lowered)
}

} // verus!
