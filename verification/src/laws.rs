//! What holds of the searches, of the declared scripts and of the planning
//! of arguments, for every input.

use crate::config::{ProcessArgumentView, ScriptCmdView};
use crate::engine::{argument_plan, declared_kind, indices, planned, planning, PlannedView};
use crate::find::{
    config_of, ends_scan, finds, holds_config, is_match, root_of, stops_scan, AncestorProbe,
    DirectoryListing, EntryProbe, HoistedBinary, ScanError,
};
use crate::model::{declare_all, NamedScript};
use crate::sequence::{
    first_index, lemma_first_index, lemma_first_index_is, lemma_first_index_none,
    lemma_try_map_agrees, lemma_try_map_ok,
};
use crate::text::{
    ascending, lemma_ascending_pairs, lemma_text_lt_irreflexive, lemma_text_lt_transitive, text_lt,
};
use vstd::prelude::*;

verus! {

// ----------------------------------------------------------------------
// Root discovery
// ----------------------------------------------------------------------
/// The nearest configuration wins. The probes stand nearest first. Where
/// the directory at `far` holds a configuration file, a root is found; it
/// is that directory or a nearer one, it holds the file that is named, and
/// no directory nearer than the root holds a configuration file.
pub proof fn law_nearest_root_wins(probes: Seq<AncestorProbe>, far: int)
    requires
        0 <= far < probes.len(),
        config_of(probes[far]) is Some,
    ensures
        root_of(probes) matches Some((near, priority)) && 0 <= near <= far && config_of(
            probes[near],
        ) == Some(priority) && forall|k: int|
            0 <= k < near ==> config_of(#[trigger] probes[k]) is None,
{
    lemma_first_index(probes, holds_config());
    match first_index(probes, holds_config()) {
        Some(near) => {
            if far < near {
                assert(!holds_config()(probes[far]));
            }
            assert forall|k: int| 0 <= k < near implies config_of(#[trigger] probes[k]) is None by {
                assert(!holds_config()(probes[k]));
            }
        },
        None => {
            assert(!holds_config()(probes[far]));
        },
    }
}

/// Without a configuration file in any probed directory there is no root.
pub proof fn law_no_configuration_no_root(probes: Seq<AncestorProbe>)
    requires
        forall|k: int| 0 <= k < probes.len() ==> config_of(#[trigger] probes[k]) is None,
    ensures
        root_of(probes) is None,
{
    lemma_first_index_none(probes, holds_config());
}

// ----------------------------------------------------------------------
// Hoisted executables
// ----------------------------------------------------------------------
/// The listing was read entry by entry, and none of its entries is the
/// executable named `name`.
pub open spec fn searched_in_vain(listing: DirectoryListing, name: Seq<char>) -> bool {
    listing matches DirectoryListing::Entries(entries) && forall|j: int|
        0 <= j < entries@.len() ==> (#[trigger] entries@[j] matches EntryProbe::Entry(info)
            && !is_match(info, name))
}

/// The listing holds the executable named `name` at `entry`, and every
/// entry before it could be read.
pub open spec fn holds_match(listing: DirectoryListing, name: Seq<char>, entry: int) -> bool {
    &&& listing matches DirectoryListing::Entries(entries)
    &&& 0 <= entry < entries@.len()
    &&& entries@[entry] matches EntryProbe::Entry(info)
    &&& is_match(info, name)
    &&& forall|j: int| 0 <= j < entry ==> #[trigger] entries@[j] is Entry
}

/// The listing holds the executable named `name` at `entry`, and every
/// entry before it could be read and is not that executable.
pub open spec fn first_match(listing: DirectoryListing, name: Seq<char>, entry: int) -> bool {
    &&& listing matches DirectoryListing::Entries(entries)
    &&& 0 <= entry < entries@.len()
    &&& entries@[entry] matches EntryProbe::Entry(info)
    &&& is_match(info, name)
    &&& forall|j: int|
        0 <= j < entry ==> (#[trigger] entries@[j] matches EntryProbe::Entry(earlier) && !is_match(
            earlier,
            name,
        ))
}

/// The search order is the declared order. Where the directories before
/// `directory` were searched in vain and that directory holds the wanted
/// executable, the search finds an executable in that directory: its first
/// entry that matches.
pub proof fn law_search_order(
    listings: Seq<DirectoryListing>,
    name: Seq<char>,
    directory: int,
    entry: int,
    found: Result<Option<HoistedBinary>, ScanError>,
)
    requires
        0 <= directory < listings.len(),
        forall|k: int| 0 <= k < directory ==> searched_in_vain(#[trigger] listings[k], name),
        holds_match(listings[directory], name, entry),
        finds(listings, name, found),
    ensures
        match found {
            Ok(Some(hit)) => {
                &&& hit.directory == directory
                &&& hit.entry <= entry
                &&& first_match(listings[directory], name, hit.entry as int)
                &&& hit.path@ == listings[directory]->Entries_0@[hit.entry as int]->Entry_0.path@
            },
            _ => false,
        },
{
    let stops = stops_scan(name);
    let ends = ends_scan(name);
    assert forall|k: int| 0 <= k < directory implies !stops(#[trigger] listings[k]) by {
        let entries = listings[k]->Entries_0;
        assert(searched_in_vain(listings[k], name));
        assert forall|j: int| 0 <= j < entries@.len() implies !ends(#[trigger] entries@[j]) by {}
        lemma_first_index_none(entries@, ends);
    }
    let entries = listings[directory]->Entries_0;
    lemma_first_index(entries@, ends);
    match first_index(entries@, ends) {
        Some(first) => {
            if entry < first {
                assert(!ends(entries@[entry]));
            }
            assert(entries@[first] is Entry);
            assert forall|j: int| 0 <= j < first implies (#[trigger] entries@[j] matches EntryProbe::Entry(
                earlier,
            ) && !is_match(earlier, name)) by {
                assert(!ends(entries@[j]));
            }
        },
        None => {
            assert(!ends(entries@[entry]));
        },
    }
    lemma_first_index_is(listings, stops, directory);
}

/// The entry at `entry` ends the search with a failure: it could not be
/// read or is a symbolic link, and every entry before it could be read
/// and is not the executable named `name`.
pub open spec fn first_failure(listing: DirectoryListing, name: Seq<char>, entry: int) -> bool {
    &&& listing matches DirectoryListing::Entries(entries)
    &&& 0 <= entry < entries@.len()
    &&& !(entries@[entry] is Entry)
    &&& forall|j: int|
        0 <= j < entry ==> (#[trigger] entries@[j] matches EntryProbe::Entry(earlier) && !is_match(
            earlier,
            name,
        ))
}

/// The search fails fast. Where the directories before `directory` were
/// searched in vain and that directory cannot be listed, or holds an
/// entry that cannot be read or a symbolic link before any match, the
/// search ends with the failure met there, whatever stands behind it.
pub proof fn law_search_fails_fast(
    listings: Seq<DirectoryListing>,
    name: Seq<char>,
    directory: int,
    entry: int,
    found: Result<Option<HoistedBinary>, ScanError>,
)
    requires
        0 <= directory < listings.len(),
        forall|k: int| 0 <= k < directory ==> searched_in_vain(#[trigger] listings[k], name),
        listings[directory] is Unreadable || first_failure(listings[directory], name, entry),
        finds(listings, name, found),
    ensures
        match found {
            Err(ScanError::Directory { directory: d }) => d == directory
                && listings[directory] is Unreadable,
            Err(ScanError::Entry { directory: d, entry: e }) => d == directory && e == entry
                && listings[directory]->Entries_0@[entry] is Unreadable,
            Err(ScanError::SymbolicLink { directory: d, entry: e }) => d == directory && e
                == entry && listings[directory]->Entries_0@[entry] is SymbolicLink,
            Ok(_) => false,
        },
{
    let stops = stops_scan(name);
    let ends = ends_scan(name);
    assert forall|k: int| 0 <= k < directory implies !stops(#[trigger] listings[k]) by {
        let entries = listings[k]->Entries_0;
        assert(searched_in_vain(listings[k], name));
        assert forall|j: int| 0 <= j < entries@.len() implies !ends(#[trigger] entries@[j]) by {}
        lemma_first_index_none(entries@, ends);
    }
    if listings[directory] is Entries {
        let entries = listings[directory]->Entries_0;
        assert(ends(entries@[entry]));
        assert forall|j: int| 0 <= j < entry implies !ends(#[trigger] entries@[j]) by {}
        lemma_first_index_is(entries@, ends, entry);
    }
    lemma_first_index_is(listings, stops, directory);
}

/// Two outcomes are the same: the same executable at the same place, the
/// same failure, or nothing both times.
pub open spec fn same_outcome(
    one: Result<Option<HoistedBinary>, ScanError>,
    other: Result<Option<HoistedBinary>, ScanError>,
) -> bool {
    match (one, other) {
        (Ok(None), Ok(None)) => true,
        (Ok(Some(a)), Ok(Some(b))) => a.directory == b.directory && a.entry == b.entry && a.path@
            == b.path@,
        (Err(a), Err(b)) => a == b,
        _ => false,
    }
}

/// The search is determined by the listings and the name: whatever it
/// gives for them, it gives every time.
pub proof fn law_search_is_determined(
    listings: Seq<DirectoryListing>,
    name: Seq<char>,
    one: Result<Option<HoistedBinary>, ScanError>,
    other: Result<Option<HoistedBinary>, ScanError>,
)
    requires
        finds(listings, name, one),
        finds(listings, name, other),
    ensures
        same_outcome(one, other),
{
}

// ----------------------------------------------------------------------
// Scripts
// ----------------------------------------------------------------------
/// No two declarations carry the same name.
pub open spec fn distinct_declarations(declared: Seq<NamedScript>) -> bool {
    forall|i: int, j: int|
        0 <= i < j < declared.len() ==> (#[trigger] declared[i]).0 != (#[trigger] declared[j]).0
}

/// The list holds the declaration.
pub open spec fn declares(declared: Seq<NamedScript>, script: NamedScript) -> bool {
    exists|i: int| 0 <= i < declared.len() && #[trigger] declared[i] == script
}

/// The names of the declared scripts are the names of the declarations.
proof fn lemma_declared_names(declared: Seq<NamedScript>, name: Seq<char>)
    ensures
        declare_all(Map::empty(), declared).contains_key(name) <==> exists|i: int|
            0 <= i < declared.len() && (#[trigger] declared[i]).0 == name,
    decreases declared.len(),
{
    if declared.len() > 0 {
        let earlier = declared.drop_last();
        lemma_declared_names(earlier, name);
        if declare_all(Map::empty(), declared).contains_key(name) {
            if declared.last().0 == name {
                assert(declared[declared.len() - 1].0 == name);
            } else {
                let i = choose|i: int| 0 <= i < earlier.len() && (#[trigger] earlier[i]).0 == name;
                assert(declared[i].0 == name);
            }
        }
        if exists|i: int| 0 <= i < declared.len() && (#[trigger] declared[i]).0 == name {
            let i = choose|i: int| 0 <= i < declared.len() && (#[trigger] declared[i]).0 == name;
            if i < declared.len() - 1 {
                assert(earlier[i].0 == name);
            }
        }
    }
}

/// The last declaration of a name decides the script under that name.
proof fn lemma_declared_last(declared: Seq<NamedScript>, i: int)
    requires
        0 <= i < declared.len(),
        forall|j: int| i < j < declared.len() ==> declared[j].0 != declared[i].0,
    ensures
        declare_all(Map::empty(), declared).contains_key(declared[i].0),
        declare_all(Map::empty(), declared)[declared[i].0] == declared[i].1,
    decreases declared.len(),
{
    if i < declared.len() - 1 {
        lemma_declared_last(declared.drop_last(), i);
    }
}

/// The order of declaration plays no part where no name is declared
/// twice: two lists of the same declarations, in whatever order, declare
/// the same scripts.
pub proof fn law_declaration_order(one: Seq<NamedScript>, other: Seq<NamedScript>)
    requires
        distinct_declarations(one),
        distinct_declarations(other),
        forall|script: NamedScript| declares(one, script) <==> declares(other, script),
    ensures
        declare_all(Map::empty(), one) == declare_all(Map::empty(), other),
{
    let first = declare_all(Map::empty(), one);
    let second = declare_all(Map::empty(), other);
    assert forall|name: Seq<char>| #[trigger] first.contains_key(name) implies second.contains_key(
        name,
    ) && second[name] == first[name] by {
        lemma_declared_names(one, name);
        let i = choose|i: int| 0 <= i < one.len() && (#[trigger] one[i]).0 == name;
        lemma_declared_last(one, i);
        assert(declares(one, one[i]));
        let j = choose|j: int| 0 <= j < other.len() && other[j] == one[i];
        lemma_declared_last(other, j);
    }
    assert forall|name: Seq<char>| #[trigger] second.contains_key(name) implies first.contains_key(
        name,
    ) by {
        lemma_declared_names(other, name);
        let j = choose|j: int| 0 <= j < other.len() && (#[trigger] other[j]).0 == name;
        assert(declares(other, other[j]));
        let i = choose|i: int| 0 <= i < one.len() && one[i] == other[j];
        lemma_declared_last(one, i);
    }
    assert forall|name: Seq<char>| first.dom().contains(name) == second.dom().contains(name) by {
        assert(first.contains_key(name) == second.contains_key(name));
    }
    assert(first.dom() =~= second.dom());
    assert(first =~= second);
}

/// The list holds the text.
pub open spec fn lists(s: Seq<Seq<char>>, text: Seq<char>) -> bool {
    exists|i: int| 0 <= i < s.len() && #[trigger] s[i] == text
}

/// Two ascending lists that hold the same texts begin with the same text.
proof fn lemma_same_head(one: Seq<Seq<char>>, other: Seq<Seq<char>>)
    requires
        ascending(one),
        ascending(other),
        one.len() > 0,
        forall|text: Seq<char>| lists(one, text) <==> lists(other, text),
    ensures
        other.len() > 0,
        one[0] == other[0],
{
    assert(lists(one, one[0]));
    assert(lists(other, one[0]));
    let j = choose|j: int| 0 <= j < other.len() && other[j] == one[0];
    assert(lists(other, other[0]));
    let i = choose|i: int| 0 <= i < one.len() && one[i] == other[0];
    lemma_text_lt_irreflexive(one[0]);
    if i > 0 {
        lemma_ascending_pairs(one, 0, i);
        if j > 0 {
            lemma_ascending_pairs(other, 0, j);
            lemma_text_lt_transitive(one[0], other[0], one[0]);
        }
    }
}

/// What an ascending list holds behind its first text is what it holds
/// but for that text.
proof fn lemma_tail_lists(s: Seq<Seq<char>>, text: Seq<char>)
    requires
        ascending(s),
        s.len() > 0,
    ensures
        lists(s.skip(1), text) <==> lists(s, text) && text != s[0],
        ascending(s.skip(1)),
{
    let rest = s.skip(1);
    lemma_text_lt_irreflexive(s[0]);
    if lists(rest, text) {
        let k = choose|k: int| 0 <= k < rest.len() && rest[k] == text;
        lemma_ascending_pairs(s, 0, k + 1);
        assert(s[k + 1] == text);
    }
    if lists(s, text) && text != s[0] {
        let m = choose|m: int| 0 <= m < s.len() && s[m] == text;
        assert(rest[m - 1] == text);
    }
    assert forall|k: int| 0 <= k < rest.len() - 1 implies text_lt(
        #[trigger] rest[k],
        rest[k + 1],
    ) by {
        assert(text_lt(s[k + 1], s[k + 1 + 1]));
    }
}

/// The listing of names is determined by the names. Two ascending lists
/// that hold the same texts are the same list: the scripts of equal
/// configurations are listed alike, whatever the order in which they were
/// declared.
pub proof fn law_listing_is_determined(one: Seq<Seq<char>>, other: Seq<Seq<char>>)
    requires
        ascending(one),
        ascending(other),
        forall|text: Seq<char>| lists(one, text) <==> lists(other, text),
    ensures
        one == other,
    decreases one.len(),
{
    if one.len() == 0 {
        if other.len() > 0 {
            assert(lists(other, other[0]));
        }
        assert(one =~= other);
    } else {
        lemma_same_head(one, other);
        let rest = one.skip(1);
        let others = other.skip(1);
        assert forall|text: Seq<char>| lists(rest, text) <==> lists(others, text) by {
            lemma_tail_lists(one, text);
            lemma_tail_lists(other, text);
        }
        lemma_tail_lists(one, one[0]);
        lemma_tail_lists(other, one[0]);
        law_listing_is_determined(rest, others);
        assert(one =~= seq![one[0]] + rest);
        assert(other =~= seq![other[0]] + others);
    }
}

// ----------------------------------------------------------------------
// Transforms
// ----------------------------------------------------------------------
/// The step with one more transform declared, for the argument at
/// `position`.
pub open spec fn with_transform(
    step: ScriptCmdView,
    position: u16,
    declared: ProcessArgumentView,
) -> ScriptCmdView {
    ScriptCmdView {
        cmd: step.cmd,
        cwd: step.cwd,
        process_args: step.process_args.insert(position, declared),
    }
}

/// The step without the transform for the argument at `position`.
pub open spec fn without_transform(step: ScriptCmdView, position: u16) -> ScriptCmdView {
    ScriptCmdView {
        cmd: step.cmd,
        cwd: step.cwd,
        process_args: step.process_args.remove(position),
    }
}

/// A transform for a position at which no argument stands changes
/// nothing: with fewer arguments than `position`, the plan is the same
/// with the transform declared, of whatever kind, and without it.
pub proof fn law_transform_beyond_arguments(
    step: ScriptCmdView,
    arguments: Seq<Seq<char>>,
    position: u16,
    declared: ProcessArgumentView,
)
    requires
        arguments.len() < position,
    ensures
        argument_plan(with_transform(step, position, declared), arguments) == argument_plan(
            step,
            arguments,
        ),
        argument_plan(without_transform(step, position), arguments) == argument_plan(
            step,
            arguments,
        ),
{
    let places = indices(arguments.len());
    let with = with_transform(step, position, declared);
    let without = without_transform(step, position);
    assert forall|j: int| 0 <= j < places.len() implies planning(with, arguments)(
        #[trigger] places[j],
    ) == planning(step, arguments)(places[j]) by {
        assert(declared_kind(with, j) == declared_kind(step, j));
    }
    assert forall|j: int| 0 <= j < places.len() implies planning(without, arguments)(
        #[trigger] places[j],
    ) == planning(step, arguments)(places[j]) by {
        assert(declared_kind(without, j) == declared_kind(step, j));
    }
    lemma_try_map_agrees(places, planning(with, arguments), places, planning(step, arguments));
    lemma_try_map_agrees(places, planning(without, arguments), places, planning(step, arguments));
}

/// Every argument passes unchanged where the step declares no transform
/// for the position of any argument that is there.
pub proof fn law_untouched_arguments(step: ScriptCmdView, arguments: Seq<Seq<char>>)
    requires
        forall|i: int| 0 <= i < arguments.len() ==> declared_kind(step, i) is None,
    ensures
        argument_plan(step, arguments) == Ok::<Seq<PlannedView>, (int, Seq<char>)>(
            arguments.map_values(|argument: Seq<char>| PlannedView::Verbatim(argument)),
        ),
{
    let places = indices(arguments.len());
    let out = arguments.map_values(|argument: Seq<char>| PlannedView::Verbatim(argument));
    assert forall|j: int| 0 <= j < places.len() implies planning(step, arguments)(
        #[trigger] places[j],
    ) == Ok::<PlannedView, (int, Seq<char>)>(out[j]) by {
        assert(declared_kind(step, j) is None);
        assert(planned(step, arguments, j) == Ok::<PlannedView, (int, Seq<char>)>(out[j]));
    }
    lemma_try_map_ok(places, planning(step, arguments), out);
}

} // verus!
