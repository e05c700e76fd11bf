//! Matching of rules against what is known of the focused application.
//!
//! A [`Query`] holds one question that can be put to a rule. The texts of a
//! query are folded already; the texts of the rules are folded when they
//! are compared. Among the groups with an enabled rule that answers a
//! query, the group of the lowest layer decides: layers are taken in
//! ascending order of their numbers, in whatever order their groups are
//! stored.
//!
//! The directions of the partial matches are these. A window rule matches
//! a title that contains the rule's text. A process rule matches a name
//! that equals the rule's text. A parent rule matches an ancestor whose
//! name is contained in the rule's text, and an exclusion covers a process
//! whose name is contained in the exclusion's text.

use vstd::prelude::*;
use crate::structs::{layers_view, App, AppView, Exclude, ExcludeView, Layer, LayerView, Mode,
    ModeView, Parent, ParentView};
use crate::text::{contains, contains_chars, fold, lowercase, same_chars};

verus! {

/// A question put to the rules. All texts are folded.
#[derive(Debug, Clone)]
pub enum Query {
    /// Does a window rule match this title?
    Window(Vec<char>),
    /// Does a process rule match this executable name?
    Process(Vec<char>),
    /// Does a parent rule match the ancestor `name` without leaving the
    /// process `focused` out?
    Ancestor { name: Vec<char>, focused: Vec<char> },
    /// Does a parent rule leave this process out?
    Excluding(Vec<char>),
    /// Is this a parent rule?
    AnyParent,
}

/// What a [`Query`] holds, its texts as sequences of characters.
pub enum QueryView {
    Window(Seq<char>),
    Process(Seq<char>),
    Ancestor { name: Seq<char>, focused: Seq<char> },
    Excluding(Seq<char>),
    AnyParent,
}

impl View for Query {
    type V = QueryView;

    open spec fn view(&self) -> QueryView {
        match self {
            Query::Window(title) => QueryView::Window(title@),
            Query::Process(exe) => QueryView::Process(exe@),
            Query::Ancestor { name, focused } => QueryView::Ancestor {
                name: name@,
                focused: focused@,
            },
            Query::Excluding(focused) => QueryView::Excluding(focused@),
            Query::AnyParent => QueryView::AnyParent,
        }
    }
}

/// An enabled exclusion covers the folded process name `focused` when its
/// own folded text contains that name.
pub open spec fn exclude_covers(entry: ExcludeView, focused: Seq<char>) -> bool {
    entry.is_enabled && contains(lowercase(entry.name), focused)
}

/// A parent rule leaves the folded process name `focused` out when one of
/// its exclusions covers it.
pub open spec fn parent_excludes(rule: ParentView, focused: Seq<char>) -> bool {
    exists|i: int| 0 <= i < rule.excludes.len() && exclude_covers(#[trigger] rule.excludes[i], focused)
}

/// The answer of one rule, whatever its switch, to a query.
pub open spec fn mode_hits(mode: ModeView, query: QueryView) -> bool {
    match (mode, query) {
        (ModeView::Window(pattern), QueryView::Window(title)) => contains(
            title,
            lowercase(pattern),
        ),
        (ModeView::Process(pattern), QueryView::Process(exe)) => lowercase(pattern) == exe,
        (ModeView::Parent(rule), QueryView::Ancestor { name, focused }) => contains(
            lowercase(rule.name),
            name,
        ) && !parent_excludes(rule, focused),
        (ModeView::Parent(rule), QueryView::Excluding(focused)) => parent_excludes(rule, focused),
        (ModeView::Parent(_), QueryView::AnyParent) => true,
        _ => false,
    }
}

/// The answer of a rule with its switch: a disabled rule answers no query.
pub open spec fn app_hits(app: AppView, query: QueryView) -> bool {
    app.is_enabled && mode_hits(app.mode, query)
}

/// A group answers a query when one of its rules does.
pub open spec fn layer_hits(group: LayerView, query: QueryView) -> bool {
    exists|j: int| 0 <= j < group.apps.len() && app_hits(#[trigger] group.apps[j], query)
}

/// Some group answers the query.
pub open spec fn any_hit(groups: Seq<LayerView>, query: QueryView) -> bool {
    exists|i: int| 0 <= i < groups.len() && layer_hits(#[trigger] groups[i], query)
}

/// Some group of `layer` answers the query.
pub open spec fn layer_answers(groups: Seq<LayerView>, query: QueryView, layer: u8) -> bool {
    exists|i: int|
        0 <= i < groups.len() && (#[trigger] groups[i]).layer == layer && layer_hits(
            groups[i],
            query,
        )
}

/// `layer` is the lowest layer that answers the query: a group of that
/// layer answers it, and every group that answers it is the group of that
/// layer or of a higher one.
pub open spec fn is_lowest_hit(groups: Seq<LayerView>, query: QueryView, layer: u8) -> bool {
    &&& layer_answers(groups, query, layer)
    &&& forall|i: int|
        0 <= i < groups.len() && layer_hits(#[trigger] groups[i], query) ==> layer
            <= groups[i].layer
}

/// The first layer, counting up from `from`, that answers the query.
pub open spec fn lowest_hit_from(groups: Seq<LayerView>, query: QueryView, from: int) -> Option<u8>
    decreases 256 - from,
{
    if from < 0 || from > 255 {
        None
    } else if layer_answers(groups, query, from as u8) {
        Some(from as u8)
    } else {
        lowest_hit_from(groups, query, from + 1)
    }
}

/// The lowest layer that answers the query: the layers are gone through in
/// ascending order of their numbers, wherever their groups are stored.
pub open spec fn lowest_hit(groups: Seq<LayerView>, query: QueryView) -> Option<u8> {
    lowest_hit_from(groups, query, 0)
}

/// Some group of `groups` is that of `layer`.
pub open spec fn has_group(groups: Seq<LayerView>, layer: u8) -> bool {
    exists|i: int| 0 <= i < groups.len() && (#[trigger] groups[i]).layer == layer
}

/// Counting up from `from`, below which no layer answers the query, the
/// search gives the lowest layer that answers it, and nothing where no
/// group answers it.
proof fn lemma_lowest_hit_scan(groups: Seq<LayerView>, query: QueryView, from: int)
    requires
        0 <= from <= 256,
        forall|layer: u8| layer < from ==> !layer_answers(groups, query, layer),
    ensures
        match lowest_hit_from(groups, query, from) {
            Some(layer) => is_lowest_hit(groups, query, layer),
            None => !any_hit(groups, query),
        },
    decreases 256 - from,
{
    assert forall|i: int| 0 <= i < groups.len() && layer_hits(#[trigger] groups[i], query) implies from
        <= groups[i].layer by {
        assert(layer_answers(groups, query, groups[i].layer));
    }
    if from <= 255 && !layer_answers(groups, query, from as u8) {
        lemma_lowest_hit_scan(groups, query, from + 1);
    }
}

/// The search gives the lowest layer that answers the query, and nothing
/// exactly when no group answers it. No other layer is the lowest.
pub proof fn lemma_lowest_hit_is_lowest(groups: Seq<LayerView>, query: QueryView)
    ensures
        lowest_hit(groups, query) is None <==> !any_hit(groups, query),
        forall|layer: u8| #[trigger]
            is_lowest_hit(groups, query, layer) <==> lowest_hit(groups, query) == Some(layer),
{
    lemma_lowest_hit_scan(groups, query, 0);
    assert forall|layer: u8| #[trigger]
        is_lowest_hit(groups, query, layer) implies lowest_hit(groups, query) == Some(layer) by {
        let i = choose|i: int|
            0 <= i < groups.len() && (#[trigger] groups[i]).layer == layer && layer_hits(
                groups[i],
                query,
            );
        assert(any_hit(groups, query));
        let found = lowest_hit(groups, query)->0;
        assert(is_lowest_hit(groups, query, found));
        let j = choose|j: int|
            0 <= j < groups.len() && (#[trigger] groups[j]).layer == found && layer_hits(
                groups[j],
                query,
            );
        assert(found <= groups[i].layer);
        assert(layer <= groups[j].layer);
    }
}

/// A layer that the search gives is the layer of one of the groups.
pub proof fn lemma_lowest_hit_has_group(groups: Seq<LayerView>, query: QueryView)
    ensures
        lowest_hit(groups, query) matches Some(layer) ==> has_group(groups, layer),
{
    lemma_lowest_hit_is_lowest(groups, query);
    if let Some(layer) = lowest_hit(groups, query) {
        assert(is_lowest_hit(groups, query, layer));
    }
}

impl Query {
    /// The question whether a window rule matches `title`.
    pub fn window(title: &str) -> (query: Self)
        ensures
            query@ == QueryView::Window(lowercase(title@)),
    {
        Query::Window(fold(title))
    }

    /// The question whether a process rule matches the name `exe`.
    pub fn process(exe: &str) -> (query: Self)
        ensures
            query@ == QueryView::Process(lowercase(exe@)),
    {
        Query::Process(fold(exe))
    }

    /// The question whether a parent rule matches the ancestor `name`
    /// without leaving the process `focused` out.
    pub fn ancestor(name: &str, focused: &str) -> (query: Self)
        ensures
            query@ == (QueryView::Ancestor { name: lowercase(name@), focused: lowercase(focused@) }),
    {
        Query::Ancestor { name: fold(name), focused: fold(focused) }
    }

    /// The question whether a parent rule leaves the process `focused` out.
    pub fn excluding(focused: &str) -> (query: Self)
        ensures
            query@ == QueryView::Excluding(lowercase(focused@)),
    {
        Query::Excluding(fold(focused))
    }
}

impl Exclude {
    /// Tests whether this exclusion covers the folded process name.
    pub fn covers(&self, focused: &Vec<char>) -> (covered: bool)
        ensures
            covered == exclude_covers(self@, focused@),
    {
        if !self.is_enabled {
            return false;
        }
        let text = fold(self.name.as_str());
        contains_chars(&text, focused)
    }
}

impl Parent {
    /// Tests whether this rule leaves the folded process name out.
    pub fn excludes_process(&self, focused: &Vec<char>) -> (excluded: bool)
        ensures
            excluded == parent_excludes(self@, focused@),
    {
        let mut i: usize = 0;
        while i < self.excludes.len()
            invariant
                i <= self.excludes@.len(),
                forall|k: int| 0 <= k < i ==> !exclude_covers(#[trigger] self@.excludes[k], focused@),
            decreases self.excludes@.len() - i,
        {
            if self.excludes[i].covers(focused) {
                assert(exclude_covers(self@.excludes[i as int], focused@));
                return true;
            }
            i += 1;
        }
        false
    }
}

impl Mode {
    /// The answer of this rule to a query.
    pub fn hits(&self, query: &Query) -> (hit: bool)
        ensures
            hit == mode_hits(self@, query@),
    {
        match self {
            Mode::Window(rule) => match query {
                Query::Window(title) => {
                    let pattern = fold(rule.name.as_str());
                    contains_chars(title, &pattern)
                },
                _ => false,
            },
            Mode::Process(rule) => match query {
                Query::Process(exe) => {
                    let pattern = fold(rule.name.as_str());
                    same_chars(&pattern, exe)
                },
                _ => false,
            },
            Mode::Parent(rule) => match query {
                Query::Ancestor { name, focused } => {
                    let pattern = fold(rule.name.as_str());
                    contains_chars(&pattern, name) && !rule.excludes_process(focused)
                },
                Query::Excluding(focused) => rule.excludes_process(focused),
                Query::AnyParent => true,
                _ => false,
            },
        }
    }
}

impl App {
    /// The answer of this rule, with its switch, to a query.
    pub fn hits(&self, query: &Query) -> (hit: bool)
        ensures
            hit == app_hits(self@, query@),
    {
        self.is_enabled && self.mode.hits(query)
    }
}

impl Layer {
    /// Tests whether one of the rules of this group answers the query.
    pub fn hits(&self, query: &Query) -> (hit: bool)
        ensures
            hit == layer_hits(self@, query@),
    {
        let mut j: usize = 0;
        while j < self.apps.len()
            invariant
                j <= self.apps@.len(),
                forall|k: int| 0 <= k < j ==> !app_hits(#[trigger] self@.apps[k], query@),
            decreases self.apps@.len() - j,
        {
            if self.apps[j].hits(query) {
                assert(app_hits(self@.apps[j as int], query@));
                return true;
            }
            j += 1;
        }
        false
    }
}

/// The lowest layer with a group that answers the query, if any does,
/// wherever that group is stored.
pub fn lowest_match(groups: &Vec<Layer>, query: &Query) -> (layer: Option<u8>)
    ensures
        layer == lowest_hit(layers_view(groups@), query@),
        match layer {
            Some(found) => is_lowest_hit(layers_view(groups@), query@, found),
            None => !any_hit(layers_view(groups@), query@),
        },
{
    let ghost rules = layers_view(groups@);
    let mut best: Option<u8> = None;
    let mut i: usize = 0;
    while i < groups.len()
        invariant
            i <= groups@.len(),
            rules == layers_view(groups@),
            match best {
                Some(found) => {
                    &&& exists|k: int|
                        0 <= k < i && (#[trigger] rules[k]).layer == found && layer_hits(
                            rules[k],
                            query@,
                        )
                    &&& forall|k: int|
                        0 <= k < i && layer_hits(#[trigger] rules[k], query@) ==> found
                            <= rules[k].layer
                },
                None => forall|k: int| 0 <= k < i ==> !layer_hits(#[trigger] rules[k], query@),
            },
        decreases groups@.len() - i,
    {
        let layer: u8 = groups[i].layer;
        let lower = match best {
            Some(found) => layer < found,
            None => true,
        };
        assert(rules[i as int] == groups@[i as int]@);
        if lower && groups[i].hits(query) {
            best = Some(layer);
        }
        i += 1;
    }
    proof {
        lemma_lowest_hit_is_lowest(rules, query@);
        if let Some(found) = best {
            let k = choose|k: int|
                0 <= k < rules.len() && (#[trigger] rules[k]).layer == found && layer_hits(
                    rules[k],
                    query@,
                );
            assert(is_lowest_hit(rules, query@, found));
        }
    }
    best
}

/// Tests whether some group answers the query.
pub fn any_match(groups: &Vec<Layer>, query: &Query) -> (hit: bool)
    ensures
        hit == any_hit(layers_view(groups@), query@),
{
    lowest_match(groups, query).is_some()
}

} // verus!
