//! The data model: rules, the layers they are grouped under, and the
//! snapshot of the focused application that they are tested against.
//!
//! Each type has a view that holds its texts as sequences of characters.
//! The matching rules of this crate are stated over those views.

use vstd::prelude::*;

verus! {

/// The text that a freshly made rule carries until the user edits it.
pub const EDIT_TEXT: &'static str = "Click to edit";

/// The number of layers that a keyboard offers. Layer numbers run from 1 to
/// this value.
pub const MAX_LAYERS: u8 = 10;

/// A rule on the title of the focused window.
#[derive(Debug, Clone)]
pub struct Window {
    pub name: String,
}

/// A rule on the executable name of the focused process.
#[derive(Debug, Clone)]
pub struct Process {
    pub name: String,
}

/// A process that a parent rule leaves out.
#[derive(Debug, Clone)]
pub struct Exclude {
    pub name: String,
    pub is_enabled: bool,
}

/// A rule on the executable names of the ancestors of the focused process.
#[derive(Debug, Clone)]
pub struct Parent {
    pub name: String,
    pub excludes: Vec<Exclude>,
}

/// The three kinds of rule.
#[derive(Debug, Clone)]
pub enum Mode {
    Window(Window),
    Process(Process),
    Parent(Parent),
}

/// A rule together with its switch: a disabled rule never matches.
#[derive(Debug, Clone)]
pub struct App {
    pub mode: Mode,
    pub is_enabled: bool,
}

/// The rules that activate one layer.
#[derive(Debug, Clone)]
pub struct Layer {
    pub layer: u8,
    pub apps: Vec<App>,
}

/// What has the focus at one instant. Either attribute may be unknown.
#[derive(Debug, Clone)]
pub struct AppDetails {
    pub window: Option<String>,
    pub process: Option<String>,
}

/// What an [`Exclude`] holds, its text as a sequence of characters.
pub struct ExcludeView {
    pub name: Seq<char>,
    pub is_enabled: bool,
}

/// What a [`Parent`] holds, its texts as sequences of characters.
pub struct ParentView {
    pub name: Seq<char>,
    pub excludes: Seq<ExcludeView>,
}

/// What a [`Mode`] holds: the text of a window or process rule, or a
/// parent rule.
pub enum ModeView {
    Window(Seq<char>),
    Process(Seq<char>),
    Parent(ParentView),
}

/// What an [`App`] holds.
pub struct AppView {
    pub mode: ModeView,
    pub is_enabled: bool,
}

/// What a [`Layer`] holds.
pub struct LayerView {
    pub layer: u8,
    pub apps: Seq<AppView>,
}

/// What an [`AppDetails`] holds, its texts as sequences of characters.
pub struct AppDetailsView {
    pub window: Option<Seq<char>>,
    pub process: Option<Seq<char>>,
}

/// The views of a list of exclusions.
pub open spec fn excludes_view(excludes: Seq<Exclude>) -> Seq<ExcludeView> {
    excludes.map_values(|e: Exclude| e@)
}

/// The views of a list of rules.
pub open spec fn apps_view(apps: Seq<App>) -> Seq<AppView> {
    apps.map_values(|a: App| a@)
}

/// The views of a list of groups.
pub open spec fn layers_view(layers: Seq<Layer>) -> Seq<LayerView> {
    layers.map_values(|l: Layer| l@)
}

impl View for Window {
    type V = Seq<char>;

    open spec fn view(&self) -> Seq<char> {
        self.name@
    }
}

impl View for Process {
    type V = Seq<char>;

    open spec fn view(&self) -> Seq<char> {
        self.name@
    }
}

impl View for Exclude {
    type V = ExcludeView;

    open spec fn view(&self) -> ExcludeView {
        ExcludeView { name: self.name@, is_enabled: self.is_enabled }
    }
}

impl View for Parent {
    type V = ParentView;

    open spec fn view(&self) -> ParentView {
        ParentView {
            name: self.name@,
            excludes: excludes_view(self.excludes@),
        }
    }
}

impl View for Mode {
    type V = ModeView;

    open spec fn view(&self) -> ModeView {
        match self {
            Mode::Window(w) => ModeView::Window(w@),
            Mode::Process(p) => ModeView::Process(p@),
            Mode::Parent(p) => ModeView::Parent(p@),
        }
    }
}

impl View for App {
    type V = AppView;

    open spec fn view(&self) -> AppView {
        AppView { mode: self.mode@, is_enabled: self.is_enabled }
    }
}

impl View for Layer {
    type V = LayerView;

    open spec fn view(&self) -> LayerView {
        LayerView { layer: self.layer, apps: apps_view(self.apps@) }
    }
}

impl View for AppDetails {
    type V = AppDetailsView;

    open spec fn view(&self) -> AppDetailsView {
        AppDetailsView { window: text_view(self.window), process: text_view(self.process) }
    }
}

impl Window {
    /// A window rule with the placeholder text.
    pub fn new() -> (rule: Self)
        ensures
            rule@ == EDIT_TEXT@,
    {
        Window { name: EDIT_TEXT.to_owned() }
    }
}

impl Process {
    /// A process rule with the placeholder text.
    pub fn new() -> (rule: Self)
        ensures
            rule@ == EDIT_TEXT@,
    {
        Process { name: EDIT_TEXT.to_owned() }
    }
}

impl Exclude {
    /// An enabled exclusion with the placeholder text.
    pub fn new() -> (entry: Self)
        ensures
            entry@ == (ExcludeView { name: EDIT_TEXT@, is_enabled: true }),
    {
        Exclude { name: EDIT_TEXT.to_owned(), is_enabled: true }
    }
}

impl Parent {
    /// A parent rule with the placeholder text that leaves no process out.
    pub fn new() -> (rule: Self)
        ensures
            rule@ == (ParentView { name: EDIT_TEXT@, excludes: Seq::empty() }),
    {
        let rule = Parent { name: EDIT_TEXT.to_owned(), excludes: Vec::new() };
        assert(rule@.excludes =~= Seq::empty());
        rule
    }
}

impl App {
    /// An enabled window rule with the placeholder text.
    pub fn new_window() -> (app: Self)
        ensures
            app@ == (AppView { mode: ModeView::Window(EDIT_TEXT@), is_enabled: true }),
    {
        App { mode: Mode::Window(Window::new()), is_enabled: true }
    }

    /// An enabled process rule with the placeholder text.
    pub fn new_process() -> (app: Self)
        ensures
            app@ == (AppView { mode: ModeView::Process(EDIT_TEXT@), is_enabled: true }),
    {
        App { mode: Mode::Process(Process::new()), is_enabled: true }
    }

    /// An enabled parent rule with the placeholder text and no exclusions.
    pub fn new_parent() -> (app: Self)
        ensures
            app@ == (AppView {
                mode: ModeView::Parent(ParentView { name: EDIT_TEXT@, excludes: Seq::empty() }),
                is_enabled: true,
            }),
    {
        App { mode: Mode::Parent(Parent::new()), is_enabled: true }
    }
}

impl Layer {
    /// The group of layer `layer`, without rules.
    pub fn new(layer: u8) -> (group: Self)
        ensures
            group@ == (LayerView { layer, apps: Seq::empty() }),
    {
        let group = Layer { layer, apps: Vec::new() };
        assert(group@.apps =~= Seq::empty());
        group
    }
}

/// The final component of a path, as `Path::file_name` of the standard
/// library gives it: none where the path has no such component.
///
/// The parting of a path into its components is not written out here. It
/// goes by the text of the path alone, with the separators of the platform
/// that the program is built for.
pub uninterp spec fn file_name(path: Seq<char>) -> Option<Seq<char>>;

/// A text that may be missing: an empty text counts as missing.
pub open spec fn known(text: Seq<char>) -> Option<Seq<char>> {
    if text.len() == 0 {
        None
    } else {
        Some(text)
    }
}

/// The name of a process, from the final component of the path of its
/// executable: missing where the path has no final component or an empty
/// one.
pub open spec fn name_of(component: Option<Seq<char>>) -> Option<Seq<char>> {
    match component {
        Some(name) => known(name),
        None => None,
    }
}

/// The characters of a text that may be missing.
pub open spec fn text_view(text: Option<String>) -> Option<Seq<char>> {
    match text {
        Some(t) => Some(t@),
        None => None,
    }
}

/// Calls `Path::file_name` of the standard library on `path` and hands the
/// component back as a string. The contract says that the result is the
/// named final component of the path; this is believed, not proved.
#[verifier::external_body]
fn path_file_name(path: &str) -> (component: Option<String>)
    ensures
        text_view(component) == file_name(path@),
{
    std::path::Path::new(path).file_name().and_then(|name| name.to_str()).map(|name| name.to_owned())
}

/// The text, unless it is empty.
pub fn known_text(text: String) -> (kept: Option<String>)
    ensures
        text_view(kept) == known(text@),
{
    if text.as_str().is_empty() {
        None
    } else {
        Some(text)
    }
}

/// The name of a process, from the final component of the path of its
/// executable.
pub fn process_name(component: Option<String>) -> (name: Option<String>)
    ensures
        text_view(name) == name_of(text_view(component)),
{
    match component {
        Some(text) => known_text(text),
        None => None,
    }
}

/// The name of the process whose executable lies at `exe_path`.
pub fn executable_name(exe_path: &str) -> (name: Option<String>)
    ensures
        text_view(name) == name_of(file_name(exe_path@)),
{
    process_name(path_file_name(exe_path))
}

impl AppDetails {
    /// What has the focus, from the title of the window and the path of
    /// the executable as the operating system reports them: an empty title
    /// and a path without a file name are unknown.
    pub fn from_raw(window_title: String, exe_path: &str) -> (details: Self)
        ensures
            details@ == (AppDetailsView {
                window: known(window_title@),
                process: name_of(file_name(exe_path@)),
            }),
    {
        AppDetails { window: known_text(window_title), process: executable_name(exe_path) }
    }
}

} // verus!
