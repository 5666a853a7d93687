//! Root discovery and the search for hoisted executables.
//!
//! Both searches decide over what the caller observed on disk: the caller
//! probes the file system and hands the observations over as plain values,
//! in the order in which they were asked for.

use crate::config::{HoistDeclaration, HoistView};
use crate::sequence::{
    first_index, is_first, lemma_first_index, lemma_first_index_is, lemma_first_index_none,
    none_holds,
};
use crate::text::{text_eq, texts};
use vstd::prelude::*;

verus! {

// ----------------------------------------------------------------------
// File names
// ----------------------------------------------------------------------
/// The position of the last `.` of `name`.
pub open spec fn last_dot(name: Seq<char>) -> Option<int>
    decreases name.len(),
{
    if name.len() == 0 {
        None
    } else if name.last() == '.' {
        Some(name.len() - 1)
    } else {
        last_dot(name.drop_last())
    }
}

/// The position of the `.` that parts stem and extension: the last `.` of
/// the name, unless it is the name's first character.
pub open spec fn split_point(name: Seq<char>) -> Option<int> {
    match last_dot(name) {
        Some(i) => if i > 0 {
            Some(i)
        } else {
            None
        },
        None => None,
    }
}

/// A file name without its extension: the whole name where it holds no `.`
/// or only a leading one, else what stands before its last `.`.
pub open spec fn file_stem(name: Seq<char>) -> Seq<char> {
    match split_point(name) {
        Some(i) => name.take(i),
        None => name,
    }
}

/// The extension of a file name: what stands after its last `.`, where
/// that `.` is not the name's first character.
pub open spec fn file_extension(name: Seq<char>) -> Option<Seq<char>> {
    match split_point(name) {
        Some(i) => Some(name.skip(i + 1)),
        None => None,
    }
}

/// `last_dot` where no `.` stands at or after position `from`.
proof fn lemma_last_dot_skips(name: Seq<char>, from: int)
    requires
        0 <= from <= name.len(),
        forall|j: int| from <= j < name.len() ==> name[j] != '.',
    ensures
        last_dot(name) == last_dot(name.take(from)),
    decreases name.len() - from,
{
    if from == name.len() {
        assert(name.take(from) =~= name);
    } else {
        assert(name.drop_last().take(from) =~= name.take(from));
        lemma_last_dot_skips(name.drop_last(), from);
    }
}

/// The position at which `name` parts into stem and extension.
pub fn split_position(name: &str) -> (point: Option<usize>)
    ensures
        match point {
            Some(i) => split_point(name@) == Some(i as int) && 0 < i < name@.len(),
            None => split_point(name@) is None,
        },
{
    let n: usize = name.unicode_len();
    let mut i: usize = n;
    while i > 0
        invariant
            i <= n,
            n == name@.len(),
            forall|j: int| i <= j < n ==> name@[j] != '.',
        decreases i,
    {
        if name.get_char(i - 1) == '.' {
            proof {
                lemma_last_dot_skips(name@, i as int);
                assert(name@.take(i as int).last() == '.');
            }
            if i - 1 > 0 {
                return Some(i - 1);
            } else {
                return None;
            }
        }
        i -= 1;
    }
    proof {
        lemma_last_dot_skips(name@, 0);
    }
    None
}

/// Whether `name` without its extension reads `wanted`.
pub fn stem_is(name: &str, wanted: &str) -> (same: bool)
    ensures
        same == (file_stem(name@) == wanted@),
{
    match split_position(name) {
        Some(i) => {
            let stem = name.substring_char(0, i);
            text_eq(stem, wanted)
        },
        None => text_eq(name, wanted),
    }
}

// ----------------------------------------------------------------------
// Root discovery
// ----------------------------------------------------------------------
/// The recognised configuration file names, in the order of their
/// priority.
pub open spec fn config_file_names() -> Seq<Seq<char>> {
    seq!["x-root.kdl"@, "x-root.yml"@]
}

/// The recognised configuration file names, in the order of their
/// priority.
pub fn config_filenames() -> (names: Vec<String>)
    ensures
        texts(names@) == config_file_names(),
{
    let mut names: Vec<String> = Vec::new();
    names.push("x-root.kdl".to_owned());
    names.push("x-root.yml".to_owned());
    assert(texts(names@) =~= config_file_names());
    names
}

/// What was observed in one directory: for each recognised configuration
/// file name, by its position in the list of names, whether a file of that
/// name stands in the directory.
#[derive(Clone, Debug, PartialEq, Eq)]
pub struct AncestorProbe {
    pub directory: String,
    pub present: Vec<bool>,
}

/// The project root: the position of its directory among the probes, the
/// position of the configuration file's name among the recognised names,
/// and both as text.
#[derive(Clone, Debug, PartialEq, Eq)]
pub struct RootLocation {
    pub ancestor: usize,
    pub priority: usize,
    pub directory: String,
    pub file_name: String,
}

/// Why no project root was found.
#[derive(Clone, Copy, Debug, PartialEq, Eq, Structural)]
pub enum FindError {
    /// No probed directory holds a recognised configuration file.
    RootNotFound,
}

/// The observation `true`.
pub open spec fn seen() -> spec_fn(bool) -> bool {
    |present: bool| present
}

/// The observations of a probe that belong to a recognised name.
pub open spec fn observations(probe: AncestorProbe) -> Seq<bool> {
    if probe.present@.len() <= config_file_names().len() {
        probe.present@
    } else {
        probe.present@.take(config_file_names().len() as int)
    }
}

/// The position, among the recognised names, of the configuration file
/// that a directory holds: the first name of which a file was seen.
pub open spec fn config_of(probe: AncestorProbe) -> Option<int> {
    first_index(observations(probe), seen())
}

/// The probes of directories that hold a configuration file.
pub open spec fn holds_config() -> spec_fn(AncestorProbe) -> bool {
    |probe: AncestorProbe| config_of(probe) is Some
}

/// The project root among the probed directories: the first directory
/// that holds a recognised configuration file, with the position of the
/// file's name.
pub open spec fn root_of(probes: Seq<AncestorProbe>) -> Option<(int, int)> {
    match first_index(probes, holds_config()) {
        Some(i) => Some((i, config_of(probes[i])->Some_0)),
        None => None,
    }
}

/// The configuration file that one probed directory holds, by the position
/// of its name.
fn probe_config(probe: &AncestorProbe, names: usize) -> (found: Option<usize>)
    requires
        names == config_file_names().len(),
    ensures
        match found {
            Some(j) => config_of(*probe) == Some(j as int) && j < names,
            None => config_of(*probe) is None,
        },
{
    let ghost obs = observations(*probe);
    let mut j: usize = 0;
    while j < probe.present.len() && j < names
        invariant
            j <= probe.present.len(),
            j <= names,
            names == config_file_names().len(),
            obs == observations(*probe),
            forall|k: int| 0 <= k < j ==> !probe.present@[k],
        decreases probe.present.len() - j,
    {
        if probe.present[j] {
            proof {
                assert(is_first(obs, seen(), j as int));
                lemma_first_index_is(obs, seen(), j as int);
            }
            return Some(j);
        }
        j += 1;
    }
    proof {
        assert(none_holds(obs, seen()));
        lemma_first_index_none(obs, seen());
    }
    None
}

/// Finds the project root among the probed directories, which are given
/// nearest first: the first directory that holds a recognised
/// configuration file wins, and within it the name of highest priority.
pub fn find_root(probes: &Vec<AncestorProbe>) -> (found: Result<RootLocation, FindError>)
    ensures
        match found {
            Ok(root) => {
                &&& root_of(probes@) == Some((root.ancestor as int, root.priority as int))
                &&& root.ancestor < probes.len()
                &&& root.priority < config_file_names().len()
                &&& root.directory@ == probes@[root.ancestor as int].directory@
                &&& root.file_name@ == config_file_names()[root.priority as int]
            },
            Err(e) => root_of(probes@) is None && e == FindError::RootNotFound,
        },
{
    let names = config_filenames();
    assert(names@.len() == texts(names@).len());
    let mut i: usize = 0;
    while i < probes.len()
        invariant
            i <= probes.len(),
            names@.len() == config_file_names().len(),
            texts(names@) == config_file_names(),
            forall|k: int| 0 <= k < i ==> config_of(#[trigger] probes@[k]) is None,
        decreases probes.len() - i,
    {
        match probe_config(&probes[i], names.len()) {
            Some(j) => {
                proof {
                    assert(is_first(probes@, holds_config(), i as int));
                    lemma_first_index_is(probes@, holds_config(), i as int);
                    assert(texts(names@)[j as int] == names@[j as int]@);
                }
                return Ok(
                    RootLocation {
                        ancestor: i,
                        priority: j,
                        directory: probes[i].directory.clone(),
                        file_name: names[j].clone(),
                    },
                );
            },
            None => {},
        }
        i += 1;
    }
    proof {
        assert(none_holds(probes@, holds_config()));
        lemma_first_index_none(probes@, holds_config());
    }
    Err(FindError::RootNotFound)
}

// ----------------------------------------------------------------------
// Hoisted executables
// ----------------------------------------------------------------------
/// The directories that the hoist declarations name, in declared order.
pub open spec fn hoist_paths(hoist: Seq<HoistView>) -> Seq<Seq<char>> {
    hoist.map_values(|h: HoistView| h->directory)
}

/// The directories to search for hoisted executables, in declared order.
pub fn hoist_directories(hoist: &Vec<HoistDeclaration>) -> (directories: Vec<String>)
    ensures
        texts(directories@) == hoist_paths(hoist.deep_view()),
{
    let mut directories: Vec<String> = Vec::new();
    let mut i: usize = 0;
    while i < hoist.len()
        invariant
            i <= hoist.len(),
            directories.len() == i,
            forall|k: int| 0 <= k < i ==> directories@[k]@ == (#[trigger] hoist@[k])@->directory,
        decreases hoist.len() - i,
    {
        match &hoist[i] {
            HoistDeclaration::Directory { directory } => {
                directories.push(directory.clone());
            },
        }
        i += 1;
    }
    assert(texts(directories@) =~= hoist_paths(hoist.deep_view()));
    directories
}

/// What was observed of one directory entry. `file_name` is absent where
/// the entry's name is not valid Unicode.
#[derive(Clone, Debug, PartialEq, Eq)]
pub struct DirEntryInfo {
    pub path: String,
    pub file_name: Option<String>,
    pub is_file: bool,
    pub is_executable: bool,
}

/// One directory entry as the caller met it while listing a directory.
#[derive(Clone, Debug, PartialEq, Eq)]
pub enum EntryProbe {
    /// Reading the entry, or its file type, failed.
    Unreadable,
    /// The entry is a symbolic link.
    SymbolicLink,
    Entry(DirEntryInfo),
}

/// The direct entries of one hoist directory, in the order in which the
/// file system gave them.
#[derive(Clone, Debug, PartialEq, Eq)]
pub enum DirectoryListing {
    /// The directory could not be listed.
    Unreadable,
    Entries(Vec<EntryProbe>),
}

/// A hoisted executable: where it was found, and its path.
#[derive(Clone, Debug, PartialEq, Eq)]
pub struct HoistedBinary {
    pub directory: usize,
    pub entry: usize,
    pub path: String,
}

/// The file-system failure that ended a search, by its place.
#[derive(Clone, Copy, Debug, PartialEq, Eq, Structural)]
pub enum ScanError {
    /// The directory at this position could not be listed.
    Directory { directory: usize },
    /// The entry at this position of this directory could not be read.
    Entry { directory: usize, entry: usize },
    /// The entry at this position of this directory is a symbolic link.
    SymbolicLink { directory: usize, entry: usize },
}

/// An entry is the wanted executable where it is a regular file, is
/// executable, and its name without the extension reads `name`.
pub open spec fn is_match(info: DirEntryInfo, name: Seq<char>) -> bool {
    &&& info.is_file
    &&& info.is_executable
    &&& info.file_name matches Some(file_name)
    &&& file_stem(file_name@) == name
}

/// The entries at which the search ends: the wanted executable, an entry
/// that could not be read, or a symbolic link.
pub open spec fn ends_scan(name: Seq<char>) -> spec_fn(EntryProbe) -> bool {
    |probe: EntryProbe|
        match probe {
            EntryProbe::Unreadable => true,
            EntryProbe::SymbolicLink => true,
            EntryProbe::Entry(info) => is_match(info, name),
        }
}

/// The listings in which the search ends.
pub open spec fn stops_scan(name: Seq<char>) -> spec_fn(DirectoryListing) -> bool {
    |listing: DirectoryListing|
        match listing {
            DirectoryListing::Unreadable => true,
            DirectoryListing::Entries(entries) => first_index(entries@, ends_scan(name)) is Some,
        }
}

/// Where the search for `name` ends: the first listing, in declared order,
/// that is unreadable or holds an entry that ends the search, and in it the
/// first such entry (none for an unreadable listing). Nothing where the
/// search runs through every listing.
pub open spec fn scan_stop(listings: Seq<DirectoryListing>, name: Seq<char>) -> Option<
    (int, Option<int>),
> {
    match first_index(listings, stops_scan(name)) {
        Some(d) => match listings[d] {
            DirectoryListing::Unreadable => Some((d, None)),
            DirectoryListing::Entries(entries) => Some(
                (d, first_index(entries@, ends_scan(name))),
            ),
        },
        None => None,
    }
}

/// Whether `info` is the executable named `name`.
fn entry_matches(info: &DirEntryInfo, name: &str) -> (matches: bool)
    ensures
        matches == is_match(*info, name@),
{
    if !info.is_file || !info.is_executable {
        return false;
    }
    match &info.file_name {
        Some(file_name) => stem_is(file_name.as_str(), name),
        None => false,
    }
}

/// The first entry of one listing at which the search for `name` ends.
fn scan_entries(entries: &Vec<EntryProbe>, name: &str) -> (stop: Option<usize>)
    ensures
        match stop {
            Some(e) => first_index(entries@, ends_scan(name@)) == Some(e as int) && e
                < entries.len(),
            None => first_index(entries@, ends_scan(name@)) is None,
        },
{
    let mut e: usize = 0;
    while e < entries.len()
        invariant
            e <= entries.len(),
            forall|k: int| 0 <= k < e ==> !ends_scan(name@)(#[trigger] entries@[k]),
        decreases entries.len() - e,
    {
        let ends = match &entries[e] {
            EntryProbe::Unreadable => true,
            EntryProbe::SymbolicLink => true,
            EntryProbe::Entry(info) => entry_matches(info, name),
        };
        if ends {
            proof {
                assert(is_first(entries@, ends_scan(name@), e as int));
                lemma_first_index_is(entries@, ends_scan(name@), e as int);
            }
            return Some(e);
        }
        e += 1;
    }
    proof {
        assert(none_holds(entries@, ends_scan(name@)));
        lemma_first_index_none(entries@, ends_scan(name@));
    }
    None
}

/// `found` is what the search for `name` through `listings` gives: the
/// place at which the search ends decides between the executable found
/// there and the failure met there, and a search that runs through every
/// listing finds nothing.
pub open spec fn finds(
    listings: Seq<DirectoryListing>,
    name: Seq<char>,
    found: Result<Option<HoistedBinary>, ScanError>,
) -> bool {
    match found {
        Ok(None) => scan_stop(listings, name) is None,
        Ok(Some(hit)) => {
            &&& scan_stop(listings, name) == Some((hit.directory as int, Some(hit.entry as int)))
            &&& hit.directory < listings.len()
            &&& listings[hit.directory as int] matches DirectoryListing::Entries(entries)
            &&& hit.entry < entries.len()
            &&& entries@[hit.entry as int] matches EntryProbe::Entry(info)
            &&& is_match(info, name)
            &&& hit.path@ == info.path@
        },
        Err(ScanError::Directory { directory }) => {
            &&& scan_stop(listings, name) == Some((directory as int, None::<int>))
            &&& directory < listings.len()
            &&& listings[directory as int] is Unreadable
        },
        Err(ScanError::Entry { directory, entry }) => {
            &&& scan_stop(listings, name) == Some((directory as int, Some(entry as int)))
            &&& directory < listings.len()
            &&& listings[directory as int] matches DirectoryListing::Entries(entries)
            &&& entry < entries.len()
            &&& entries@[entry as int] is Unreadable
        },
        Err(ScanError::SymbolicLink { directory, entry }) => {
            &&& scan_stop(listings, name) == Some((directory as int, Some(entry as int)))
            &&& directory < listings.len()
            &&& listings[directory as int] matches DirectoryListing::Entries(entries)
            &&& entry < entries.len()
            &&& entries@[entry as int] is SymbolicLink
        },
    }
}

/// Searches the listings of the hoist directories, in declared order, for
/// the executable named `binary_name`: a regular, executable file whose
/// name without its extension reads `binary_name`. The first match wins.
/// A directory or an entry that could not be read, and a symbolic link,
/// ends the search with an error, unless a match was met before it.
pub fn find_binary(listings: &Vec<DirectoryListing>, binary_name: &str) -> (found: Result<
    Option<HoistedBinary>,
    ScanError,
>)
    ensures
        finds(listings@, binary_name@, found),
{
    let mut d: usize = 0;
    while d < listings.len()
        invariant
            d <= listings.len(),
            forall|k: int| 0 <= k < d ==> !stops_scan(binary_name@)(#[trigger] listings@[k]),
        decreases listings.len() - d,
    {
        match &listings[d] {
            DirectoryListing::Unreadable => {
                proof {
                    assert(is_first(listings@, stops_scan(binary_name@), d as int));
                    lemma_first_index_is(listings@, stops_scan(binary_name@), d as int);
                }
                return Err(ScanError::Directory { directory: d });
            },
            DirectoryListing::Entries(entries) => {
                match scan_entries(entries, binary_name) {
                    Some(e) => {
                        proof {
                            assert(is_first(listings@, stops_scan(binary_name@), d as int));
                            lemma_first_index_is(listings@, stops_scan(binary_name@), d as int);
                            lemma_first_index(entries@, ends_scan(binary_name@));
                        }
                        match &entries[e] {
                            EntryProbe::Unreadable => {
                                return Err(ScanError::Entry { directory: d, entry: e });
                            },
                            EntryProbe::SymbolicLink => {
                                return Err(ScanError::SymbolicLink { directory: d, entry: e });
                            },
                            EntryProbe::Entry(info) => {
                                return Ok(
                                    Some(
                                        HoistedBinary {
                                            directory: d,
                                            entry: e,
                                            path: info.path.clone(),
                                        },
                                    ),
                                );
                            },
                        }
                    },
                    None => {},
                }
            },
        }
        d += 1;
    }
    proof {
        assert(none_holds(listings@, stops_scan(binary_name@)));
        lemma_first_index_none(listings@, stops_scan(binary_name@));
    }
    Ok(None)
}

} // verus!
