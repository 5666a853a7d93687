//! How the parts that a configuration text declares make up the
//! configuration model. Both front-ends build the model through these.

use crate::config::{
    HoistDeclaration, ProcessArgument, ProcessArgumentView, ScriptCmd, ScriptCmdView, ScriptEntry,
    ScriptTable,
};
use std::collections::BTreeMap;
use vstd::prelude::*;

verus! {

/// A named script as a text declares it.
pub type NamedScript = (Seq<char>, Seq<ScriptCmdView>);

/// A transform as a text declares it, with the position of its argument.
pub type IndexedTransform = (u16, ProcessArgumentView);

/// The transforms of a step by the position of their argument. Where a
/// position is declared more than once, its last declaration counts.
pub open spec fn index_map(declared: Seq<IndexedTransform>) -> Map<u16, ProcessArgumentView>
    decreases declared.len(),
{
    if declared.len() == 0 {
        Map::empty()
    } else {
        index_map(declared.drop_last()).insert(declared.last().0, declared.last().1)
    }
}

/// The script table after the scripts `declared` were declared in order
/// on top of `table`. A later declaration of a name replaces an earlier one.
pub open spec fn declare_all(
    table: Map<Seq<char>, Seq<ScriptCmdView>>,
    declared: Seq<NamedScript>,
) -> Map<Seq<char>, Seq<ScriptCmdView>>
    decreases declared.len(),
{
    if declared.len() == 0 {
        table
    } else {
        declare_all(table, declared.drop_last()).insert(declared.last().0, declared.last().1)
    }
}

/// What a script entry declares.
pub open spec fn named(entry: ScriptEntry) -> NamedScript {
    (entry.name@, entry.script@)
}

/// What a list of script entries declares, in order.
pub open spec fn named_all(entries: Seq<ScriptEntry>) -> Seq<NamedScript> {
    entries.map_values(|e: ScriptEntry| named(e))
}

/// One more declaration is one more insertion.
pub proof fn lemma_declare_next(
    table: Map<Seq<char>, Seq<ScriptCmdView>>,
    declared: Seq<NamedScript>,
    next: int,
)
    requires
        0 <= next < declared.len(),
    ensures
        declare_all(table, declared.take(next + 1)) == declare_all(
            table,
            declared.take(next),
        ).insert(declared[next].0, declared[next].1),
{
    assert(declared.take(next + 1).drop_last() =~= declared.take(next));
}

/// One more declared transform is one more insertion.
pub proof fn lemma_index_next(declared: Seq<IndexedTransform>, next: IndexedTransform)
    ensures
        index_map(declared.push(next)) == index_map(declared).insert(next.0, next.1),
{
    assert(declared.push(next).drop_last() =~= declared);
}

/// Declares the scripts `entries` in order on top of `table`.
pub fn declare_scripts(table: &mut ScriptTable, entries: Vec<ScriptEntry>)
    requires
        old(table).wf(),
        forall|i: int| 0 <= i < entries@.len() ==> (#[trigger] entries@[i]).script.wf(),
    ensures
        final(table)@ == declare_all(old(table)@, named_all(entries@)),
        final(table).wf(),
{
    let ghost base = table@;
    let ghost declared = named_all(entries@);
    let ghost wanted = entries@;
    let mut entries = entries;
    let mut moved: Vec<ScriptEntry> = Vec::new();
    // Entries are taken from the back, so bring them into reverse order
    // first: the last one popped is then the first one declared.
    while entries.len() > 0
        invariant
            entries@.len() + moved@.len() == wanted.len(),
            forall|i: int| 0 <= i < entries@.len() ==> entries@[i] == wanted[i],
            forall|i: int|
                0 <= i < moved@.len() ==> moved@[i] == wanted[wanted.len() - 1 - i],
        decreases entries.len(),
    {
        let entry = entries.pop().unwrap();
        moved.push(entry);
    }
    let ghost total = wanted.len();
    while moved.len() > 0
        invariant
            moved@.len() <= total,
            total == wanted.len(),
            declared == named_all(wanted),
            forall|i: int| 0 <= i < moved@.len() ==> moved@[i] == wanted[total - 1 - i],
            forall|i: int| 0 <= i < wanted.len() ==> (#[trigger] wanted[i]).script.wf(),
            table.wf(),
            table@ == declare_all(base, declared.take(total - moved@.len())),
        decreases moved.len(),
    {
        let ghost next = total - moved@.len();
        let entry = moved.pop().unwrap();
        proof {
            assert(entry == wanted[next]);
            lemma_declare_next(base, declared, next);
        }
        table.insert(entry.name, entry.script);
    }
    proof {
        assert(declared.take(total as int) =~= declared);
    }
}

/// Appends `more` to `hoist`.
pub fn append_hoist(hoist: &mut Vec<HoistDeclaration>, more: Vec<HoistDeclaration>)
    ensures
        final(hoist).deep_view() == old(hoist).deep_view() + more.deep_view(),
{
    let ghost before = hoist.deep_view();
    let ghost added = more.deep_view();
    let mut more = more;
    hoist.append(&mut more);
    assert(hoist.deep_view() =~= before + added);
}

/// What a list of declared transforms stands for.
pub open spec fn transform_views(declared: Seq<(u16, ProcessArgument)>) -> Seq<IndexedTransform> {
    declared.map_values(|d: (u16, ProcessArgument)| (d.0, d.1@))
}

/// The step with the command line `cmd`, the working directory `cwd` and
/// the transforms `declared`, of which a later one replaces an earlier one
/// for the same position.
pub fn script_step(cmd: String, cwd: Option<String>, declared: &Vec<(u16, ProcessArgument)>) -> (step:
    ScriptCmd)
    ensures
        step@ == (ScriptCmdView {
            cmd: cmd@,
            cwd: cwd.deep_view(),
            process_args: index_map(transform_views(declared@)),
        }),
{
    let ghost views = transform_views(declared@);
    let mut process_args: BTreeMap<u16, ProcessArgument> = BTreeMap::new();
    let mut i: usize = 0;
    while i < declared.len()
        invariant
            i <= declared.len(),
            views == transform_views(declared@),
            forall|k: u16|
                process_args@.contains_key(k) <==> #[trigger] index_map(
                    views.take(i as int),
                ).contains_key(k),
            forall|k: u16|
                process_args@.contains_key(k) ==> process_args@[k]@ == #[trigger] index_map(
                    views.take(i as int),
                )[k],
        decreases declared.len() - i,
    {
        let ghost before = index_map(views.take(i as int));
        match &declared[i].1 {
            ProcessArgument::Transform { transform } => {
                let copy = ProcessArgument::Transform { transform: transform.clone() };
                proof {
                    assert(views.take(i + 1) =~= views.take(i as int).push(views[i as int]));
                    lemma_index_next(views.take(i as int), views[i as int]);
                    assert(views[i as int] == (declared@[i as int].0, copy@));
                }
                process_args.insert(declared[i].0, copy);
            },
        }
        assert(index_map(views.take(i + 1)) == before.insert(
            views[i as int].0,
            views[i as int].1,
        ));
        i += 1;
    }
    proof {
        assert(views.take(i as int) =~= views);
    }
    let step = ScriptCmd { cmd, cwd, process_args };
    assert(step@.process_args =~= index_map(views));
    step
}

} // verus!
