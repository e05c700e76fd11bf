//! The mapping from what has the focus to a layer, and its resolution.
//!
//! A [`Config`] holds the groups of rules; the methods that edit it keep
//! them in ascending order of their layers. Resolution asks three
//! questions in a fixed order and takes the first answer: the window
//! rules, then the process rules, then, where the mapping has an enabled
//! parent rule at all, the parent rules along the ancestry of the focused
//! process. Without an answer the base layer stands. Where several layers
//! answer a question, the lowest decides, in whatever order the groups are
//! stored.

use vstd::prelude::*;
use crate::matcher::{any_hit, any_match, app_hits, is_lowest_hit, layer_answers, layer_hits,
    lemma_lowest_hit_has_group, lemma_lowest_hit_is_lowest, lowest_hit, lowest_match, Query,
    QueryView};
use crate::processes::{find_by_name, layer_of_ancestors, lemma_ancestors_have_group,
    running_processes, table_view, walk_ancestors, ProcessInfo, ProcessInfoView};
use crate::structs::{layers_view, App, AppDetails, AppDetailsView, AppView, Layer, LayerView,
    ModeView, MAX_LAYERS};
use crate::text::{contains_folded, equal_folded, fold, lowercase};

verus! {

/// The mapping: the serial port of the keyboard, the layer that stands
/// where no rule matches, and the groups of rules.
#[derive(Debug, Clone)]
pub struct Config {
    pub comm_port: String,
    pub base_layer: u8,
    pub mappings: Vec<Layer>,
}

/// What a [`Config`] holds, its texts as sequences of characters.
pub struct ConfigView {
    pub comm_port: Seq<char>,
    pub base_layer: u8,
    pub mappings: Seq<LayerView>,
}

impl View for Config {
    type V = ConfigView;

    open spec fn view(&self) -> ConfigView {
        ConfigView {
            comm_port: self.comm_port@,
            base_layer: self.base_layer,
            mappings: layers_view(self.mappings@),
        }
    }
}

/// A layer number that a keyboard has.
pub open spec fn valid_layer(layer: u8) -> bool {
    1 <= layer <= MAX_LAYERS
}

/// The groups stand in strictly ascending order of their layers, so no
/// layer has two groups.
pub open spec fn ascending(groups: Seq<LayerView>) -> bool {
    forall|i: int, j: int| 0 <= i < j < groups.len() ==> groups[i].layer < groups[j].layer
}

/// Every group is that of a layer that a keyboard has.
pub open spec fn layers_valid(groups: Seq<LayerView>) -> bool {
    forall|i: int| 0 <= i < groups.len() ==> valid_layer(#[trigger] groups[i].layer)
}

/// The base layer and the layer of every group are layers that a keyboard
/// has: what a mapping must meet before its layer is sent to a keyboard.
pub open spec fn layers_in_range(config: ConfigView) -> bool {
    &&& valid_layer(config.base_layer)
    &&& layers_valid(config.mappings)
}

/// What the methods that edit a mapping keep: its layers are layers of a
/// keyboard, and its groups stand in ascending order, one for a layer.
pub open spec fn well_formed(config: ConfigView) -> bool {
    &&& layers_in_range(config)
    &&& ascending(config.mappings)
}

/// The layer that the window rules give.
pub open spec fn window_layer(config: ConfigView, focused: AppDetailsView) -> Option<u8> {
    match focused.window {
        None => None,
        Some(title) => lowest_hit(config.mappings, QueryView::Window(lowercase(title))),
    }
}

/// The layer that the process rules give.
pub open spec fn process_layer(config: ConfigView, focused: AppDetailsView) -> Option<u8> {
    match focused.process {
        None => None,
        Some(exe) => lowest_hit(config.mappings, QueryView::Process(lowercase(exe))),
    }
}

/// An enabled parent rule leaves the focused process out.
pub open spec fn is_excluded(config: ConfigView, focused: AppDetailsView) -> bool {
    match focused.process {
        None => false,
        Some(exe) => any_hit(config.mappings, QueryView::Excluding(lowercase(exe))),
    }
}

/// The layer that the parent rules give on a table of processes: none
/// where the process is unknown or left out by any enabled parent rule.
pub open spec fn parent_layer(
    config: ConfigView,
    focused: AppDetailsView,
    table: Seq<ProcessInfoView>,
) -> Option<u8> {
    match focused.process {
        None => None,
        Some(exe) => if is_excluded(config, focused) {
            None
        } else {
            layer_of_ancestors(config.mappings, table, lowercase(exe))
        },
    }
}

/// The mapping holds an enabled parent rule.
pub open spec fn has_parent_rule(config: ConfigView) -> bool {
    any_hit(config.mappings, QueryView::AnyParent)
}

/// The parent rules are asked: neither a window rule nor a process rule
/// matched, and the mapping holds an enabled parent rule.
pub open spec fn asks_parents(config: ConfigView, focused: AppDetailsView) -> bool {
    &&& window_layer(config, focused) is None
    &&& process_layer(config, focused) is None
    &&& has_parent_rule(config)
}

/// The layer that should be active while `focused` has the focus.
pub open spec fn resolved_layer(
    config: ConfigView,
    focused: AppDetailsView,
    table: Seq<ProcessInfoView>,
) -> u8 {
    match window_layer(config, focused) {
        Some(layer) => layer,
        None => match process_layer(config, focused) {
            Some(layer) => layer,
            None => if has_parent_rule(config) {
                match parent_layer(config, focused, table) {
                    Some(layer) => layer,
                    None => config.base_layer,
                }
            } else {
                config.base_layer
            },
        },
    }
}

impl Config {
    /// The lowest layer with an enabled window rule that matches the title
    /// of the focused window.
    pub fn check_window(&self, app_details: &AppDetails) -> (layer: Option<u8>)
        ensures
            layer == window_layer(self@, app_details@),
    {
        match &app_details.window {
            None => None,
            Some(title) => {
                let query = Query::window(title.as_str());
                lowest_match(&self.mappings, &query)
            },
        }
    }

    /// The lowest layer with an enabled process rule that matches the name
    /// of the focused process.
    pub fn check_process(&self, app_details: &AppDetails) -> (layer: Option<u8>)
        ensures
            layer == process_layer(self@, app_details@),
    {
        match &app_details.process {
            None => None,
            Some(exe) => {
                let query = Query::process(exe.as_str());
                lowest_match(&self.mappings, &query)
            },
        }
    }

    /// Tests whether an enabled parent rule leaves the process with the
    /// name `process` out.
    pub fn is_process_excluded(&self, process: &str) -> (excluded: bool)
        ensures
            excluded == any_hit(self@.mappings, QueryView::Excluding(lowercase(process@))),
    {
        let query = Query::excluding(process);
        any_match(&self.mappings, &query)
    }

    /// The layer that the parent rules give on the table `processes`.
    pub fn check_parent_in(&self, app_details: &AppDetails, processes: &Vec<ProcessInfo>) -> (layer:
        Option<u8>)
        ensures
            layer == parent_layer(self@, app_details@, table_view(processes@)),
    {
        match &app_details.process {
            None => None,
            Some(exe) => {
                if self.is_process_excluded(exe.as_str()) {
                    return None;
                }
                let focused = fold(exe.as_str());
                match find_by_name(processes, &focused) {
                    None => None,
                    Some(start) => {
                        walk_ancestors(&self.mappings, processes, &focused, start)
                    },
                }
            },
        }
    }

    /// The layer that the parent rules give on the processes that run now.
    ///
    /// The table is read only where the process is known and not left out.
    /// The result is what the rules give on some table: the one that the
    /// operating system reported.
    pub fn check_parent(&self, app_details: &AppDetails) -> (layer: Option<u8>)
        ensures
            exists|table: Seq<ProcessInfoView>| layer == parent_layer(self@, app_details@, table),
    {
        let excluded = match &app_details.process {
            None => true,
            Some(exe) => self.is_process_excluded(exe.as_str()),
        };
        if excluded {
            assert(parent_layer(self@, app_details@, Seq::empty()) is None);
            return None;
        }
        let processes = running_processes();
        self.check_parent_in(app_details, &processes)
    }

    /// Tests whether the mapping holds an enabled parent rule.
    pub fn has_parent_rule(&self) -> (found: bool)
        ensures
            found == has_parent_rule(self@),
    {
        any_match(&self.mappings, &Query::AnyParent)
    }

    /// The layer that window and process rules give, if one of them
    /// matches: the window rules come first.
    pub fn check_attributes(&self, app_details: &AppDetails) -> (layer: Option<u8>)
        ensures
            layer == match window_layer(self@, app_details@) {
                Some(l) => Some(l),
                None => process_layer(self@, app_details@),
            },
    {
        match self.check_window(app_details) {
            Some(layer) => Some(layer),
            None => self.check_process(app_details),
        }
    }

    /// The layer that should be active while `app_details` has the focus,
    /// with the parent rules put to the table `processes`.
    pub fn resolve_in(&self, app_details: &AppDetails, processes: &Vec<ProcessInfo>) -> (layer: u8)
        ensures
            layer == resolved_layer(self@, app_details@, table_view(processes@)),
            layers_in_range(self@) ==> valid_layer(layer),
    {
        proof {
            if layers_in_range(self@) {
                lemma_resolved_layer_valid(self@, app_details@, table_view(processes@));
            }
        }
        if let Some(layer) = self.check_attributes(app_details) {
            return layer;
        }
        if !self.has_parent_rule() {
            return self.base_layer;
        }
        match self.check_parent_in(app_details, processes) {
            Some(layer) => layer,
            None => self.base_layer,
        }
    }

    /// The layer that should be active while `app_details` has the focus,
    /// with the parent rules put to the processes that run now.
    ///
    /// The table is read only where the parent rules are asked. The result
    /// is what resolution gives on some table: the one that the operating
    /// system reported.
    pub fn resolve(&self, app_details: &AppDetails) -> (layer: u8)
        ensures
            exists|table: Seq<ProcessInfoView>| layer == resolved_layer(self@, app_details@, table),
            !asks_parents(self@, app_details@) ==> forall|table: Seq<ProcessInfoView>|
                layer == #[trigger] resolved_layer(self@, app_details@, table),
            layers_in_range(self@) ==> valid_layer(layer),
    {
        proof {
            if layers_in_range(self@) {
                assert forall|table: Seq<ProcessInfoView>|
                    valid_layer(#[trigger] resolved_layer(self@, app_details@, table)) by {
                    lemma_resolved_layer_valid(self@, app_details@, table);
                }
            }
        }
        if let Some(layer) = self.check_attributes(app_details) {
            assert(layer == resolved_layer(self@, app_details@, Seq::empty()));
            return layer;
        }
        if !self.has_parent_rule() {
            assert(self.base_layer == resolved_layer(self@, app_details@, Seq::empty()));
            return self.base_layer;
        }
        let found = self.check_parent(app_details);
        let ghost table = choose|table: Seq<ProcessInfoView>|
            found == parent_layer(self@, app_details@, table);
        let layer = match found {
            Some(layer) => layer,
            None => self.base_layer,
        };
        assert(layer == resolved_layer(self@, app_details@, table));
        layer
    }
}

/// The layer of the group that [`Config::add`] appends: 1 for the first
/// group, else the layer after that of the last group, where a keyboard
/// has one.
pub open spec fn next_layer(groups: Seq<LayerView>) -> Option<u8> {
    if groups.len() == 0 {
        Some(1u8)
    } else if groups.last().layer < MAX_LAYERS {
        Some((groups.last().layer + 1) as u8)
    } else {
        None
    }
}

/// The number of groups at the front of `groups`, counted from `from`,
/// whose layers lie below `layer`.
pub open spec fn rank_from(groups: Seq<LayerView>, layer: u8, from: int) -> int
    decreases groups.len() - from,
{
    if from < 0 || from >= groups.len() || groups[from].layer >= layer {
        from
    } else {
        rank_from(groups, layer, from + 1)
    }
}

/// The position at which the group of `layer` stands, or would stand.
pub open spec fn rank(groups: Seq<LayerView>, layer: u8) -> int {
    rank_from(groups, layer, 0)
}

/// The groups after `app` has joined the group of `layer`: at the end of
/// that group where there is one, else as the only rule of a new group
/// that stands at its place in the order.
pub open spec fn with_rule(groups: Seq<LayerView>, layer: u8, app: AppView) -> Seq<LayerView> {
    let at = rank(groups, layer);
    if 0 <= at < groups.len() && groups[at].layer == layer {
        groups.update(at, LayerView { layer, apps: groups[at].apps.push(app) })
    } else {
        groups.insert(at, LayerView { layer, apps: seq![app] })
    }
}

/// A count that starts at `from`, where the layers of the groups in
/// `from..at` lie below `layer`, gives what the count from `at` gives.
pub proof fn lemma_rank_skips(groups: Seq<LayerView>, layer: u8, from: int, at: int)
    requires
        0 <= from <= at <= groups.len(),
        forall|k: int| from <= k < at ==> (#[trigger] groups[k]).layer < layer,
    ensures
        rank_from(groups, layer, from) == rank_from(groups, layer, at),
    decreases at - from,
{
    if from < at {
        lemma_rank_skips(groups, layer, from + 1, at);
    }
}

impl Config {
    /// A mapping without rules for the keyboard at `comm_port`, with the
    /// first layer as its base.
    pub fn new(comm_port: &str) -> (config: Self)
        ensures
            config@ == (ConfigView { comm_port: comm_port@, base_layer: 1, mappings: Seq::empty() }),
            well_formed(config@),
    {
        let config = Config { comm_port: comm_port.to_owned(), base_layer: 1, mappings: Vec::new() };
        assert(config@.mappings =~= Seq::empty());
        config
    }

    /// Tests whether the base layer and the layer of every group are layers
    /// that a keyboard has.
    pub fn layers_in_range(&self) -> (valid: bool)
        ensures
            valid == layers_in_range(self@),
    {
        if self.base_layer < 1 || self.base_layer > MAX_LAYERS {
            return false;
        }
        let ghost groups = self@.mappings;
        let mut i: usize = 0;
        while i < self.mappings.len()
            invariant
                groups == layers_view(self.mappings@),
                i <= self.mappings@.len(),
                forall|k: int| 0 <= k < i ==> valid_layer(#[trigger] groups[k].layer),
            decreases self.mappings@.len() - i,
        {
            let layer: u8 = self.mappings[i].layer;
            assert(groups[i as int].layer == layer);
            if layer < 1 || layer > MAX_LAYERS {
                return false;
            }
            i += 1;
        }
        true
    }

    /// Tests whether the layers of the mapping are layers of a keyboard and
    /// its groups stand in ascending order.
    pub fn is_valid(&self) -> (valid: bool)
        ensures
            valid == well_formed(self@),
    {
        if self.base_layer < 1 || self.base_layer > MAX_LAYERS {
            return false;
        }
        let ghost groups = self@.mappings;
        let mut i: usize = 0;
        while i < self.mappings.len()
            invariant
                groups == layers_view(self.mappings@),
                i <= self.mappings@.len(),
                forall|k: int| 0 <= k < i ==> valid_layer(#[trigger] groups[k].layer),
                forall|a: int, b: int| 0 <= a < b < i ==> groups[a].layer < groups[b].layer,
            decreases self.mappings@.len() - i,
        {
            let layer: u8 = self.mappings[i].layer;
            assert(groups[i as int].layer == layer);
            if layer < 1 || layer > MAX_LAYERS {
                return false;
            }
            if i > 0 && self.mappings[i - 1].layer >= layer {
                assert(groups[i - 1].layer >= groups[i as int].layer);
                return false;
            }
            proof {
                assert forall|a: int, b: int| 0 <= a < b < i + 1 implies groups[a].layer
                    < groups[b].layer by {
                    if b == i && a < i - 1 {
                        assert(groups[a].layer < groups[i - 1].layer);
                    }
                }
            }
            i += 1;
        }
        true
    }

    /// Appends an empty group for the layer after the last one, and tells
    /// whether it did: where the last group is that of the highest layer,
    /// nothing changes.
    pub fn add(&mut self) -> (added: bool)
        ensures
            added == next_layer(old(self)@.mappings) is Some,
            final(self)@.comm_port == old(self)@.comm_port,
            final(self)@.base_layer == old(self)@.base_layer,
            final(self)@.mappings == match next_layer(old(self)@.mappings) {
                Some(layer) => old(self)@.mappings.push(LayerView { layer, apps: Seq::empty() }),
                None => old(self)@.mappings,
            },
            well_formed(old(self)@) ==> well_formed(final(self)@),
    {
        let ghost before = self@.mappings;
        let count: usize = self.mappings.len();
        let layer: u8 = if count == 0 {
            1
        } else {
            let last: u8 = self.mappings[count - 1].layer;
            assert(before.last().layer == last);
            if last >= MAX_LAYERS {
                return false;
            }
            last + 1
        };
        self.mappings.push(Layer::new(layer));
        proof {
            let after = self@.mappings;
            assert(after =~= before.push(LayerView { layer, apps: Seq::empty() }));
            if well_formed(old(self)@) {
                assert forall|a: int, b: int| 0 <= a < b < after.len() implies after[a].layer
                    < after[b].layer by {
                    if b == count {
                        assert(before[a].layer <= before.last().layer);
                    } else {
                        assert(before[a].layer < before[b].layer);
                    }
                }
                assert forall|k: int| 0 <= k < after.len() implies valid_layer(
                    #[trigger] after[k].layer,
                ) by {
                    if k < count {
                        assert(valid_layer(before[k].layer));
                    }
                }
            }
        }
        true
    }

    /// Removes the group at position `index`, and tells whether it did:
    /// where there is none, nothing changes.
    pub fn remove(&mut self, index: usize) -> (removed: bool)
        ensures
            removed == (index < old(self)@.mappings.len()),
            final(self)@.comm_port == old(self)@.comm_port,
            final(self)@.base_layer == old(self)@.base_layer,
            final(self)@.mappings == if index < old(self)@.mappings.len() {
                old(self)@.mappings.remove(index as int)
            } else {
                old(self)@.mappings
            },
            well_formed(old(self)@) ==> well_formed(final(self)@),
    {
        if index < self.mappings.len() {
            self.mappings.remove(index);
            true
        } else {
            false
        }
    }

    /// Puts `app` under `layer`, and tells whether it did: a layer that a
    /// keyboard does not have takes no rule.
    pub fn add_app(&mut self, layer: u8, app: App) -> (added: bool)
        ensures
            added == valid_layer(layer),
            final(self)@.comm_port == old(self)@.comm_port,
            final(self)@.base_layer == old(self)@.base_layer,
            final(self)@.mappings == if added {
                with_rule(old(self)@.mappings, layer, app@)
            } else {
                old(self)@.mappings
            },
            well_formed(old(self)@) ==> well_formed(final(self)@),
    {
        if layer < 1 || layer > MAX_LAYERS {
            return false;
        }
        let ghost before = self@.mappings;
        let count: usize = self.mappings.len();
        let mut at: usize = 0;
        while at < count && self.mappings[at].layer < layer
            invariant
                before == layers_view(self.mappings@),
                count == self.mappings@.len(),
                at <= count,
                forall|k: int| 0 <= k < at ==> (#[trigger] before[k]).layer < layer,
            decreases count - at,
        {
            at += 1;
        }
        proof {
            lemma_rank_skips(before, layer, 0, at as int);
        }
        if at < count && self.mappings[at].layer == layer {
            let mut group = self.mappings.remove(at);
            let ghost rules = group@.apps;
            group.apps.push(app);
            assert(group@.apps =~= rules.push(app@));
            self.mappings.insert(at, group);
            assert(self@.mappings =~= before.update(
                at as int,
                LayerView { layer, apps: before[at as int].apps.push(app@) },
            ));
        } else {
            let mut group = Layer::new(layer);
            group.apps.push(app);
            assert(group@.apps =~= seq![app@]);
            self.mappings.insert(at, group);
            assert(self@.mappings =~= before.insert(
                at as int,
                LayerView { layer, apps: seq![app@] },
            ));
        }
        true
    }
}

/// The resolved layer of a mapping whose layers are layers of a keyboard
/// is a layer of a keyboard.
pub proof fn lemma_resolved_layer_valid(
    config: ConfigView,
    focused: AppDetailsView,
    table: Seq<ProcessInfoView>,
)
    requires
        layers_in_range(config),
    ensures
        valid_layer(resolved_layer(config, focused, table)),
{
    let groups = config.mappings;
    if let Some(title) = focused.window {
        lemma_lowest_hit_has_group(groups, QueryView::Window(lowercase(title)));
    }
    if let Some(exe) = focused.process {
        lemma_lowest_hit_has_group(groups, QueryView::Process(lowercase(exe)));
        lemma_ancestors_have_group(groups, table, lowercase(exe));
    }
}

/// A matching window rule decides. Where the title of the focused window
/// contains, case aside, the text of an enabled window rule of the group
/// at position `at`, and every group with such a rule is the group of the
/// same layer or of a higher one, resolution gives the layer of that
/// group, wherever the groups are stored, whatever the process and parent
/// rules are and whatever processes run.
pub proof fn lemma_window_rule_decides(
    config: ConfigView,
    focused: AppDetailsView,
    table: Seq<ProcessInfoView>,
    at: int,
    rule: int,
)
    requires
        focused.window is Some,
        0 <= at < config.mappings.len(),
        0 <= rule < config.mappings[at].apps.len(),
        config.mappings[at].apps[rule].is_enabled,
        config.mappings[at].apps[rule].mode matches ModeView::Window(pattern) && contains_folded(
            focused.window->0,
            pattern,
        ),
        forall|k: int|
            0 <= k < config.mappings.len() && layer_hits(
                #[trigger] config.mappings[k],
                QueryView::Window(lowercase(focused.window->0)),
            ) ==> config.mappings[at].layer <= config.mappings[k].layer,
    ensures
        resolved_layer(config, focused, table) == config.mappings[at].layer,
{
    let query = QueryView::Window(lowercase(focused.window->0));
    assert(app_hits(config.mappings[at].apps[rule], query));
    assert(is_lowest_hit(config.mappings, query, config.mappings[at].layer));
    lemma_lowest_hit_is_lowest(config.mappings, query);
}

/// A matching process rule decides where no window rule matches. Where no
/// enabled window rule matches the title, the name of the focused process
/// equals, case aside, the text of an enabled process rule of the group at
/// position `at`, and every group with such a rule is the group of the
/// same layer or of a higher one, resolution gives the layer of that
/// group.
pub proof fn lemma_process_rule_decides(
    config: ConfigView,
    focused: AppDetailsView,
    table: Seq<ProcessInfoView>,
    at: int,
    rule: int,
)
    requires
        window_layer(config, focused) is None,
        focused.process is Some,
        0 <= at < config.mappings.len(),
        0 <= rule < config.mappings[at].apps.len(),
        config.mappings[at].apps[rule].is_enabled,
        config.mappings[at].apps[rule].mode matches ModeView::Process(pattern) && equal_folded(
            pattern,
            focused.process->0,
        ),
        forall|k: int|
            0 <= k < config.mappings.len() && layer_hits(
                #[trigger] config.mappings[k],
                QueryView::Process(lowercase(focused.process->0)),
            ) ==> config.mappings[at].layer <= config.mappings[k].layer,
    ensures
        resolved_layer(config, focused, table) == config.mappings[at].layer,
{
    let query = QueryView::Process(lowercase(focused.process->0));
    assert(app_hits(config.mappings[at].apps[rule], query));
    assert(is_lowest_hit(config.mappings, query, config.mappings[at].layer));
    lemma_lowest_hit_is_lowest(config.mappings, query);
}

/// Among matching window rules the lowest layer wins. Where the group at
/// position `at` has an enabled window rule that matches the title of the
/// focused window, resolution gives a layer that has a group with such a
/// rule, and none above the layer of that group, in whatever order the
/// groups are stored.
pub proof fn lemma_lowest_window_layer_wins(
    config: ConfigView,
    focused: AppDetailsView,
    table: Seq<ProcessInfoView>,
    at: int,
)
    requires
        focused.window is Some,
        0 <= at < config.mappings.len(),
        layer_hits(config.mappings[at], QueryView::Window(lowercase(focused.window->0))),
    ensures
        resolved_layer(config, focused, table) <= config.mappings[at].layer,
        layer_answers(
            config.mappings,
            QueryView::Window(lowercase(focused.window->0)),
            resolved_layer(config, focused, table),
        ),
{
    let query = QueryView::Window(lowercase(focused.window->0));
    lemma_lowest_hit_is_lowest(config.mappings, query);
    assert(any_hit(config.mappings, query));
    assert(is_lowest_hit(config.mappings, query, lowest_hit(config.mappings, query)->0));
}

/// Without a match the base layer stands. Where no enabled window rule
/// matches the title, no enabled process rule matches the name, and the
/// parent rules give nothing on the table, resolution gives the base
/// layer.
pub proof fn lemma_no_match_gives_base(
    config: ConfigView,
    focused: AppDetailsView,
    table: Seq<ProcessInfoView>,
)
    requires
        focused.window matches Some(title) ==> !any_hit(
            config.mappings,
            QueryView::Window(lowercase(title)),
        ),
        focused.process matches Some(exe) ==> !any_hit(
            config.mappings,
            QueryView::Process(lowercase(exe)),
        ),
        parent_layer(config, focused, table) is None,
    ensures
        resolved_layer(config, focused, table) == config.base_layer,
{
    if let Some(title) = focused.window {
        lemma_lowest_hit_is_lowest(config.mappings, QueryView::Window(lowercase(title)));
    }
    if let Some(exe) = focused.process {
        lemma_lowest_hit_is_lowest(config.mappings, QueryView::Process(lowercase(exe)));
    }
}

/// A process that is left out gets nothing from its ancestors. Where an
/// enabled exclusion of an enabled parent rule covers the name of the
/// focused process, the parent rules give nothing, whatever processes run;
/// and where neither a window rule nor a process rule matches, resolution
/// gives the base layer.
pub proof fn lemma_excluded_process_falls_through(
    config: ConfigView,
    focused: AppDetailsView,
    table: Seq<ProcessInfoView>,
    at: int,
    rule: int,
    entry: int,
)
    requires
        focused.process is Some,
        0 <= at < config.mappings.len(),
        0 <= rule < config.mappings[at].apps.len(),
        config.mappings[at].apps[rule].is_enabled,
        config.mappings[at].apps[rule].mode matches ModeView::Parent(parent) && 0 <= entry
            < parent.excludes.len() && parent.excludes[entry].is_enabled && contains_folded(
            parent.excludes[entry].name,
            focused.process->0,
        ),
    ensures
        is_excluded(config, focused),
        parent_layer(config, focused, table) is None,
        window_layer(config, focused) is None && process_layer(config, focused) is None
            ==> resolved_layer(config, focused, table) == config.base_layer,
{
}

} // verus!
