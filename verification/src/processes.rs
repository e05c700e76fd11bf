//! The table of running processes and the walk up the ancestry of the
//! focused process.
//!
//! The walk starts at the first process of the table whose folded name
//! contains the folded name of the focused process. It follows the parent
//! links and puts each ancestor to the parent rules: the nearest ancestor
//! that a rule matches decides, with the lowest layer among the rules that
//! match it. The walk ends without a layer where a process has no parent,
//! where the parent is not in the table, and where a process identifier
//! comes up a second time.

use vstd::prelude::*;
use vstd::set_lib::{lemma_int_range, lemma_len_subset, set_int_range};
use crate::matcher::{has_group, lemma_lowest_hit_has_group, lowest_hit, lowest_match, Query,
    QueryView};
use crate::structs::{layers_view, Layer, LayerView};
use crate::text::{contains, contains_chars, fold, lowercase};

verus! {

/// One running process: its identifier, the name of its executable, and the
/// identifier of the process that started it, where that is known.
#[derive(Debug, Clone)]
pub struct ProcessInfo {
    pub pid: u32,
    pub name: String,
    pub parent: Option<u32>,
}

/// What a [`ProcessInfo`] holds, its name as a sequence of characters.
pub struct ProcessInfoView {
    pub pid: u32,
    pub name: Seq<char>,
    pub parent: Option<u32>,
}

impl View for ProcessInfo {
    type V = ProcessInfoView;

    open spec fn view(&self) -> ProcessInfoView {
        ProcessInfoView { pid: self.pid, name: self.name@, parent: self.parent }
    }
}

/// The views of a table of processes.
pub open spec fn table_view(table: Seq<ProcessInfo>) -> Seq<ProcessInfoView> {
    table.map_values(|p: ProcessInfo| p@)
}

/// The number of values that a process identifier can take.
pub open spec fn pid_space() -> int {
    0x1_0000_0000
}

/// The position of the first process at or after `from` whose folded name
/// contains the folded name `focused`.
pub open spec fn locate_from(table: Seq<ProcessInfoView>, focused: Seq<char>, from: int) -> Option<
    int,
>
    decreases table.len() - from,
{
    if from < 0 || from >= table.len() {
        None
    } else if contains(lowercase(table[from].name), focused) {
        Some(from)
    } else {
        locate_from(table, focused, from + 1)
    }
}

/// The position of the first process whose folded name contains the
/// folded name `focused`.
pub open spec fn locate(table: Seq<ProcessInfoView>, focused: Seq<char>) -> Option<int> {
    locate_from(table, focused, 0)
}

/// The position of the first process at or after `from` with the
/// identifier `pid`.
pub open spec fn position_of_from(table: Seq<ProcessInfoView>, pid: u32, from: int) -> Option<int>
    decreases table.len() - from,
{
    if from < 0 || from >= table.len() {
        None
    } else if table[from].pid == pid {
        Some(from)
    } else {
        position_of_from(table, pid, from + 1)
    }
}

/// The position of the first process with the identifier `pid`.
pub open spec fn position_of(table: Seq<ProcessInfoView>, pid: u32) -> Option<int> {
    position_of_from(table, pid, 0)
}

/// The identifiers in `seen` are a finite set of process identifiers.
pub open spec fn seen_ok(seen: Set<int>) -> bool {
    seen.finite() && seen.subset_of(set_int_range(0, pid_space()))
}

/// The layer that the ancestors of the process at position `current` give.
///
/// `seen` holds the identifiers of the processes that the walk has passed,
/// the one it started from included. `focused` is the folded name of the
/// focused process.
pub open spec fn climb(
    groups: Seq<LayerView>,
    table: Seq<ProcessInfoView>,
    focused: Seq<char>,
    current: int,
    seen: Set<int>,
) -> Option<u8>
    decreases pid_space() - seen.len(),
    when seen_ok(seen)
{
    if current < 0 || current >= table.len() {
        None
    } else {
        match table[current].parent {
            None => None,
            Some(pid) => {
                if seen.contains(pid as int) {
                    None
                } else {
                    match position_of(table, pid) {
                        None => None,
                        Some(next) => {
                            let query = QueryView::Ancestor {
                                name: lowercase(table[next].name),
                                focused,
                            };
                            match lowest_hit(groups, query) {
                                Some(layer) => Some(layer),
                                None => {
                                    proof {
                                        lemma_seen_grows(seen, pid);
                                    }
                                    climb(groups, table, focused, next, seen.insert(pid as int))
                                },
                            }
                        },
                    }
                }
            },
        }
    }
}

/// A set of seen identifiers that takes in one more stays a finite set of
/// process identifiers, and cannot outgrow their number.
pub proof fn lemma_seen_grows(seen: Set<int>, pid: u32)
    requires
        seen_ok(seen),
        !seen.contains(pid as int),
    ensures
        seen_ok(seen.insert(pid as int)),
        seen.insert(pid as int).len() == seen.len() + 1,
        seen.len() + 1 <= pid_space(),
{
    lemma_int_range(0, pid_space());
    lemma_len_subset(seen.insert(pid as int), set_int_range(0, pid_space()));
}

/// The layer that the parent rules give for a process with the folded name
/// `focused`, where nothing leaves that process out: the walk from the
/// first process of the table that carries the name.
pub open spec fn layer_of_ancestors(
    groups: Seq<LayerView>,
    table: Seq<ProcessInfoView>,
    focused: Seq<char>,
) -> Option<u8> {
    match locate(table, focused) {
        None => None,
        Some(start) => climb(groups, table, focused, start, set![table[start].pid as int]),
    }
}

/// A layer that the walk gives is the layer of one of the groups.
pub proof fn lemma_climb_has_group(
    groups: Seq<LayerView>,
    table: Seq<ProcessInfoView>,
    focused: Seq<char>,
    current: int,
    seen: Set<int>,
)
    requires
        seen_ok(seen),
    ensures
        climb(groups, table, focused, current, seen) matches Some(layer) ==> has_group(
            groups,
            layer,
        ),
    decreases pid_space() - seen.len(),
{
    if 0 <= current < table.len() {
        if let Some(pid) = table[current].parent {
            if !seen.contains(pid as int) {
                if let Some(next) = position_of(table, pid) {
                    let query = QueryView::Ancestor { name: lowercase(table[next].name), focused };
                    lemma_lowest_hit_has_group(groups, query);
                    if lowest_hit(groups, query) is None {
                        lemma_seen_grows(seen, pid);
                        lemma_climb_has_group(groups, table, focused, next, seen.insert(pid as int));
                    }
                }
            }
        }
    }
}

/// A layer that the parent rules give is the layer of one of the groups.
pub proof fn lemma_ancestors_have_group(
    groups: Seq<LayerView>,
    table: Seq<ProcessInfoView>,
    focused: Seq<char>,
)
    ensures
        layer_of_ancestors(groups, table, focused) matches Some(layer) ==> has_group(groups, layer),
{
    if let Some(start) = locate(table, focused) {
        lemma_seen_grows(Set::empty(), table[start].pid);
        lemma_climb_has_group(groups, table, focused, start, set![table[start].pid as int]);
    }
}

/// A search that starts at `from`, where no process in `from..at` carries
/// the name, gives what the search from `at` gives.
pub proof fn lemma_locate_skips(
    table: Seq<ProcessInfoView>,
    focused: Seq<char>,
    from: int,
    at: int,
)
    requires
        0 <= from <= at <= table.len(),
        forall|k: int| from <= k < at ==> !contains(lowercase(#[trigger] table[k].name), focused),
    ensures
        locate_from(table, focused, from) == locate_from(table, focused, at),
    decreases at - from,
{
    if from < at {
        lemma_locate_skips(table, focused, from + 1, at);
    }
}

/// A search that starts at `from`, where no process in `from..at` has the
/// identifier, gives what the search from `at` gives.
pub proof fn lemma_position_skips(table: Seq<ProcessInfoView>, pid: u32, from: int, at: int)
    requires
        0 <= from <= at <= table.len(),
        forall|k: int| from <= k < at ==> (#[trigger] table[k]).pid != pid,
    ensures
        position_of_from(table, pid, from) == position_of_from(table, pid, at),
    decreases at - from,
{
    if from < at {
        lemma_position_skips(table, pid, from + 1, at);
    }
}

/// Reads the table of running processes from the operating system with
/// `sysinfo`: `System::refresh_processes` fills the table and
/// `System::processes` hands it out; each process gives its `pid`, `name`
/// and `parent`.
///
/// The table depends on the machine at the moment of the call, and its
/// order on how `sysinfo` walks its map. Nothing is claimed of it.
#[verifier::external_body]
pub(crate) fn running_processes() -> (table: Vec<ProcessInfo>) {
    let mut system = sysinfo::System::new();
    system.refresh_processes();
    system.processes().values().map(
        |p| ProcessInfo {
            pid: p.pid().as_u32(),
            name: p.name().to_string(),
            parent: p.parent().map(|pid| pid.as_u32()),
        },
    ).collect()
}

/// The position of the first process whose folded name contains the folded
/// name `focused`.
pub fn find_by_name(table: &Vec<ProcessInfo>, focused: &Vec<char>) -> (found: Option<usize>)
    ensures
        match found {
            Some(at) => locate(table_view(table@), focused@) == Some(at as int) && at < table@.len(),
            None => locate(table_view(table@), focused@) is None,
        },
{
    let mut i: usize = 0;
    while i < table.len()
        invariant
            i <= table@.len(),
            forall|k: int|
                0 <= k < i ==> !contains(
                    lowercase(#[trigger] table_view(table@)[k].name),
                    focused@,
                ),
        decreases table@.len() - i,
    {
        let name = fold(table[i].name.as_str());
        if contains_chars(&name, focused) {
            proof {
                lemma_locate_skips(table_view(table@), focused@, 0, i as int);
            }
            return Some(i);
        }
        i += 1;
    }
    proof {
        lemma_locate_skips(table_view(table@), focused@, 0, table@.len() as int);
    }
    None
}

/// The position of the first process with the identifier `pid`.
pub fn find_by_pid(table: &Vec<ProcessInfo>, pid: u32) -> (found: Option<usize>)
    ensures
        match found {
            Some(at) => position_of(table_view(table@), pid) == Some(at as int) && at < table@.len(),
            None => position_of(table_view(table@), pid) is None,
        },
{
    let mut i: usize = 0;
    while i < table.len()
        invariant
            i <= table@.len(),
            forall|k: int| 0 <= k < i ==> (#[trigger] table_view(table@)[k]).pid != pid,
        decreases table@.len() - i,
    {
        if table[i].pid == pid {
            proof {
                lemma_position_skips(table_view(table@), pid, 0, i as int);
            }
            return Some(i);
        }
        i += 1;
    }
    proof {
        lemma_position_skips(table_view(table@), pid, 0, table@.len() as int);
    }
    None
}

/// Tests whether `pid` is among `seen`.
pub fn has_seen(seen: &Vec<u32>, pid: u32) -> (found: bool)
    ensures
        found == seen@.contains(pid),
{
    let mut i: usize = 0;
    while i < seen.len()
        invariant
            i <= seen@.len(),
            forall|k: int| 0 <= k < i ==> seen@[k] != pid,
        decreases seen@.len() - i,
    {
        if seen[i] == pid {
            return true;
        }
        i += 1;
    }
    false
}

/// Walks up the ancestry of the process at position `start` and gives the
/// lowest layer among the parent rules that match the nearest ancestor
/// that any of them matches.
pub fn walk_ancestors(
    groups: &Vec<Layer>,
    table: &Vec<ProcessInfo>,
    focused: &Vec<char>,
    start: usize,
) -> (layer: Option<u8>)
    requires
        start < table@.len(),
    ensures
        layer == climb(
            layers_view(groups@),
            table_view(table@),
            focused@,
            start as int,
            set![table@[start as int].pid as int],
        ),
{
    let ghost rules = layers_view(groups@);
    let ghost entries = table_view(table@);
    let ghost goal = climb(rules, entries, focused@, start as int, set![table@[start as int].pid as int]);
    let mut current: usize = start;
    let mut seen: Vec<u32> = Vec::new();
    seen.push(table[start].pid);
    let ghost mut seen_set: Set<int> = set![table@[start as int].pid as int];
    proof {
        lemma_seen_grows(Set::empty(), table@[start as int].pid);
        assert(seen@[0] == table@[start as int].pid);
    }
    loop
        invariant
            rules == layers_view(groups@),
            entries == table_view(table@),
            start < table@.len(),
            goal == climb(rules, entries, focused@, start as int, set![table@[start as int].pid as int]),
            current < table@.len(),
            seen_ok(seen_set),
            forall|p: u32| seen@.contains(p) <==> seen_set.contains(p as int),
            goal == climb(rules, entries, focused@, current as int, seen_set),
        decreases pid_space() - seen_set.len(),
    {
        let pid: u32 = match table[current].parent {
            None => {
                return None;
            },
            Some(pid) => pid,
        };
        if has_seen(&seen, pid) {
            return None;
        }
        let next: usize = match find_by_pid(table, pid) {
            None => {
                return None;
            },
            Some(next) => next,
        };
        let name = fold(table[next].name.as_str());
        let subject = focused.clone();
        let query = Query::Ancestor { name, focused: subject };
        let hit = lowest_match(groups, &query);
        if hit.is_some() {
            return hit;
        }
        proof {
            lemma_seen_grows(seen_set, pid);
            seen_set = seen_set.insert(pid as int);
        }
        let ghost before = seen@;
        seen.push(pid);
        proof {
            assert forall|p: u32| seen@.contains(p) <==> seen_set.contains(p as int) by {
                if seen@.contains(p) {
                    let k = choose|k: int| 0 <= k < seen@.len() && seen@[k] == p;
                    if k < before.len() {
                        assert(before.contains(before[k]));
                    }
                }
                if before.contains(p) {
                    let k = choose|k: int| 0 <= k < before.len() && before[k] == p;
                    assert(seen@[k] == p);
                }
                if p == pid {
                    assert(seen@[before.len() as int] == p);
                }
            }
        }
        current = next;
    }
}

} // verus!
