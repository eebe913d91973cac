//! The terminal front-end's state machine: navigation, selection, search and
//! the modal commands (add/edit/delete/rename/open). It owns an in-memory
//! [`Registry`] snapshot and turns key and mouse events into state changes.
//! What it cannot do itself it asks the event loop for: side effects the user
//! asked for come out as an [`Action`] (spawning an editor, running a
//! specialist), and persistence comes out as an [`Effect`] (save the registry,
//! reload it, remove a tool's script), whose outcome the loop hands back.

use vstd::prelude::*;

use crate::ai::{Api, Reasoning};
use crate::commands::{is_valid_tool_name, valid_tool_name};
use crate::domain::{model_ids_under, same_specialist, ModelDef, ProviderDef, Registry, Specialist};
use crate::names::{inserted_in, law_insert_lookup, law_remove_lookup, lookup_in, removed_in, NameMap};
use crate::sort::{lemma_sorted_of, sort_strings, sorted_of};
use crate::text::{
    chars_of, contains_chars, has_substring, lowercase, owned, push_char, push_str,
    string_of_range, str_eq, to_lowercase, trim, trim_seq, views,
};

verus! {

broadcast use vstd::seq_lib::group_to_multiset_ensures;

// ---------------------------------------------------------------------------
// Tabs, levels, modes, actions
// ---------------------------------------------------------------------------

/// The three top-level tabs, in display (and cycle) order.
#[derive(Clone, Copy, PartialEq, Eq, Debug, Structural)]
pub enum Tab {
    Providers,
    Specialists,
    Tools,
}

/// The tab at display position `i` (0, 1 or 2).
pub open spec fn tab_index(i: int) -> Option<Tab> {
    if i == 0 {
        Some(Tab::Providers)
    } else if i == 1 {
        Some(Tab::Specialists)
    } else if i == 2 {
        Some(Tab::Tools)
    } else {
        None
    }
}

impl Tab {
    pub open spec fn spec_title(self) -> Seq<char> {
        match self {
            Tab::Providers => "Providers"@,
            Tab::Specialists => "Specialists"@,
            Tab::Tools => "Tools"@,
        }
    }

    /// The tab's title.
    pub fn title(self) -> (r: &'static str)
        ensures
            r@ == self.spec_title(),
    {
        match self {
            Tab::Providers => "Providers",
            Tab::Specialists => "Specialists",
            Tab::Tools => "Tools",
        }
    }

    /// The tab at display position `i`, if there is one.
    pub fn at(i: usize) -> (r: Option<Tab>)
        ensures
            r == tab_index(i as int),
    {
        if i == 0 {
            Some(Tab::Providers)
        } else if i == 1 {
            Some(Tab::Specialists)
        } else if i == 2 {
            Some(Tab::Tools)
        } else {
            None
        }
    }
}

/// Which list the cursor is in. Only providers nest (into their models);
/// specialists and tools are flat.
#[derive(Clone, PartialEq, Eq, Debug)]
pub enum Level {
    Providers,
    /// Inside the named provider, listing its models.
    Models(String),
    Specialists,
    Tools,
}

pub enum LevelView {
    Providers,
    Models(Seq<char>),
    Specialists,
    Tools,
}

impl View for Level {
    type V = LevelView;

    open spec fn view(&self) -> LevelView {
        match self {
            Level::Providers => LevelView::Providers,
            Level::Models(p) => LevelView::Models(p@),
            Level::Specialists => LevelView::Specialists,
            Level::Tools => LevelView::Tools,
        }
    }
}

/// The modal state over the list. `Normal` is plain navigation; the others
/// capture text (search, rename, add), a yes/no (delete) or show help.
#[derive(Clone, PartialEq, Eq, Debug)]
pub enum Mode {
    Normal,
    /// Typing a live filter; the text lives in [`App::filter`].
    Search,
    /// Confirming deletion of the current selection.
    ConfirmDelete,
    /// Typing the new name for the current selection; holds the buffer.
    Rename(String),
    /// Typing the name of a new entity; holds the buffer.
    Add(String),
    Help,
}

pub enum ModeView {
    Normal,
    Search,
    ConfirmDelete,
    Rename(Seq<char>),
    Add(Seq<char>),
    Help,
}

impl View for Mode {
    type V = ModeView;

    open spec fn view(&self) -> ModeView {
        match self {
            Mode::Normal => ModeView::Normal,
            Mode::Search => ModeView::Search,
            Mode::ConfirmDelete => ModeView::ConfirmDelete,
            Mode::Rename(b) => ModeView::Rename(b@),
            Mode::Add(b) => ModeView::Add(b@),
            Mode::Help => ModeView::Help,
        }
    }
}

/// What an [`Action::Edit`] targets. Registry entities are edited as JSON;
/// tools are scripts edited in place.
#[derive(Clone, PartialEq, Eq, Debug)]
pub enum EditTarget {
    Provider(String),
    Model(String),
    Specialist(String),
    Tool(String),
}

pub enum EditView {
    Provider(Seq<char>),
    Model(Seq<char>),
    Specialist(Seq<char>),
    Tool(Seq<char>),
}

impl View for EditTarget {
    type V = EditView;

    open spec fn view(&self) -> EditView {
        match self {
            EditTarget::Provider(n) => EditView::Provider(n@),
            EditTarget::Model(n) => EditView::Model(n@),
            EditTarget::Specialist(n) => EditView::Specialist(n@),
            EditTarget::Tool(n) => EditView::Tool(n@),
        }
    }
}

/// A side effect the event loop performs for the app because it shells out
/// or blocks. After running one the loop reloads the app so the change shows.
#[derive(Clone, PartialEq, Eq, Debug)]
pub enum Action {
    /// Run a specialist against a prompt the loop asks for.
    OpenSpecialist(String),
    /// Run a tool's script directly.
    RunTool(String),
    /// Edit an entity in `$EDITOR`.
    Edit(EditTarget),
    /// Create a new tool: scaffold an executable script, then edit it.
    AddTool(String),
}

pub enum ActionView {
    OpenSpecialist(Seq<char>),
    RunTool(Seq<char>),
    Edit(EditView),
    AddTool(Seq<char>),
}

impl View for Action {
    type V = ActionView;

    open spec fn view(&self) -> ActionView {
        match self {
            Action::OpenSpecialist(n) => ActionView::OpenSpecialist(n@),
            Action::RunTool(n) => ActionView::RunTool(n@),
            Action::Edit(t) => ActionView::Edit(t@),
            Action::AddTool(n) => ActionView::AddTool(n@),
        }
    }
}

pub open spec fn opt_action_view(a: Option<Action>) -> Option<ActionView> {
    match a {
        Some(x) => Some(x@),
        None => None,
    }
}

/// A key press: which key, and whether Control was held.
#[derive(Clone, Copy, PartialEq, Eq, Debug, Structural)]
pub struct Key {
    pub code: KeyCode,
    pub ctrl: bool,
}

/// The keys the app reacts to; any other key is `Other`.
#[derive(Clone, Copy, PartialEq, Eq, Debug, Structural)]
pub enum KeyCode {
    Char(char),
    Enter,
    Esc,
    Backspace,
    Up,
    Down,
    Left,
    Right,
    Other,
}

/// What the event loop must do for the app before the next event.
#[derive(Clone, PartialEq, Eq, Debug)]
pub enum Effect {
    /// Nothing.
    Nothing,
    /// Save [`App::registry`] to the registry file and report the outcome to
    /// [`App::saved`].
    Save,
    /// Re-read the registry and the tool names and hand them to
    /// [`App::refresh`].
    Reload,
    /// Remove the named tool's script and report the outcome to
    /// [`App::tool_removed`].
    RemoveTool(String),
}

/// What a requested save is followed by.
#[derive(Clone, PartialEq, Eq, Debug)]
pub enum AfterSave {
    /// A new entity was stubbed: select it and queue its edit.
    Added(String, EditTarget),
    /// An entity was renamed from the first name to the second: select it,
    /// or reload from disk when the save failed.
    Renamed(String, String),
    /// An entity was deleted: clamp the cursor.
    Deleted,
}

impl AfterSave {
    fn clone_plan(&self) -> (r: AfterSave)
        ensures
            r == *self,
    {
        match self {
            AfterSave::Added(n, t) => AfterSave::Added(n.clone(), t.clone_target()),
            AfterSave::Renamed(a, b) => AfterSave::Renamed(a.clone(), b.clone()),
            AfterSave::Deleted => AfterSave::Deleted,
        }
    }
}

impl EditTarget {
    fn clone_target(&self) -> (r: EditTarget)
        ensures
            r == *self,
    {
        match self {
            EditTarget::Provider(n) => EditTarget::Provider(n.clone()),
            EditTarget::Model(n) => EditTarget::Model(n.clone()),
            EditTarget::Specialist(n) => EditTarget::Specialist(n.clone()),
            EditTarget::Tool(n) => EditTarget::Tool(n.clone()),
        }
    }
}

/// What the app is waiting on from the loop.
#[derive(Clone, PartialEq, Eq, Debug)]
pub enum Awaiting {
    Nothing,
    Save(AfterSave),
    /// A reload; `true` when the user asked for it (the status says so).
    Reload(bool),
    ToolRemoval(String),
}

// ---------------------------------------------------------------------------
// The app
// ---------------------------------------------------------------------------

/// The whole front-end state: an in-memory registry, the tool names, and where
/// the cursor is.
pub struct App {
    pub registry: Registry,
    pub tools: Vec<String>,
    pub tab: Tab,
    /// The provider drilled into, when listing its models.
    pub drill: Option<String>,
    pub selected: usize,
    /// Provider-list cursor, parked while drilled into its models.
    pub parked_selected: usize,
    pub filter: String,
    pub mode: Mode,
    pub status: Option<String>,
    pub pending: Option<Action>,
    pub quit: bool,
    pub awaiting: Awaiting,
}

/// The level of a tab, drilled into a provider or not.
pub open spec fn level_at(tab: Tab, drill: Option<String>) -> LevelView {
    match tab {
        Tab::Providers => match drill {
            Some(p) => LevelView::Models(p@),
            None => LevelView::Providers,
        },
        Tab::Specialists => LevelView::Specialists,
        Tab::Tools => LevelView::Tools,
    }
}

/// The level an app state is at.
pub open spec fn level_of(app: App) -> LevelView {
    level_at(app.tab, app.drill)
}

/// Every item at level `lv`, unfiltered and sorted: registry names, a
/// provider's model ids, or the tool names.
pub open spec fn items_at(reg: Registry, tools: Seq<String>, lv: LevelView) -> Seq<Seq<char>> {
    match lv {
        LevelView::Providers => sorted_of(reg.providers.names()),
        LevelView::Models(p) => sorted_of(model_ids_under(reg.models.values(), p)),
        LevelView::Specialists => sorted_of(reg.specialists.names()),
        LevelView::Tools => sorted_of(views(tools)),
    }
}

pub open spec fn all_items(app: App) -> Seq<Seq<char>> {
    items_at(app.registry, app.tools@, level_of(app))
}

/// A name passes a search filter when its lowercase form contains the
/// filter's lowercase form.
pub open spec fn matches_filter(name: Seq<char>, filter: Seq<char>) -> bool {
    has_substring(lowercase(name), lowercase(filter))
}

/// The items passing `filter`, in order.
pub open spec fn filtered(items: Seq<Seq<char>>, filter: Seq<char>) -> Seq<Seq<char>>
    decreases items.len(),
{
    if items.len() == 0 {
        Seq::empty()
    } else {
        let r = filtered(items.drop_last(), filter);
        if matches_filter(items.last(), filter) {
            r.push(items.last())
        } else {
            r
        }
    }
}

/// The items a list shows: all of them, or those passing a non-empty filter.
pub open spec fn shown(all: Seq<Seq<char>>, filter: Seq<char>) -> Seq<Seq<char>> {
    if filter.len() == 0 {
        all
    } else {
        filtered(all, filter)
    }
}

/// The items the app's list shows.
pub open spec fn visible(app: App) -> Seq<Seq<char>> {
    shown(all_items(app), app.filter@)
}

/// The highlighted item, if the cursor is on one.
pub open spec fn current_of(app: App) -> Option<Seq<char>> {
    if app.selected < visible(app).len() {
        Some(visible(app)[app.selected as int])
    } else {
        None
    }
}

/// `i` is the first position of `name` in `s`.
pub open spec fn first_pos(s: Seq<Seq<char>>, name: Seq<char>, i: int) -> bool {
    &&& 0 <= i < s.len()
    &&& s[i] == name
    &&& forall|j: int| 0 <= j < i ==> s[j] != name
}

/// `sel` is the cursor after moving onto `name` in `list`: its first position
/// there, or the cursor `prev` unchanged when it is absent.
pub open spec fn select_in(list: Seq<Seq<char>>, name: Seq<char>, prev: int, sel: int) -> bool {
    if list.contains(name) {
        first_pos(list, name, sel)
    } else {
        sel == prev
    }
}

pub open spec fn selected_by_name(app: App, name: Seq<char>, sel: int) -> bool {
    select_in(visible(app), name, app.selected as int, sel)
}

/// The cursor kept on the list: the last row when it ran past the end, row 0
/// when the list is empty.
pub open spec fn clamped(sel: int, len: int) -> int {
    if len == 0 {
        0
    } else if sel >= len {
        len - 1
    } else {
        sel
    }
}

/// `new` differs from `old` only in the navigation fields: tab, drill,
/// cursor and filter.
pub open spec fn same_data(old: App, new: App) -> bool {
    &&& new.registry == old.registry
    &&& new.tools == old.tools
    &&& new.mode == old.mode
    &&& new.status == old.status
    &&& new.pending == old.pending
    &&& new.quit == old.quit
    &&& new.awaiting == old.awaiting
}

/// `new` is `old` with only the cursor possibly moved.
pub open spec fn only_cursor(old: App, new: App) -> bool {
    &&& same_data(old, new)
    &&& new.tab == old.tab
    &&& new.drill == old.drill
    &&& new.parked_selected == old.parked_selected
    &&& new.filter == old.filter
}

/// `new` is `old` switched to `tab`: not drilled, unfiltered, cursor at the top.
pub open spec fn switched(old: App, new: App, tab: Tab) -> bool {
    &&& same_data(old, new)
    &&& new.tab == tab
    &&& new.drill is None
    &&& new.filter@.len() == 0
    &&& new.selected == 0
    &&& new.parked_selected == 0
}

/// `new` is `old` with its tab, drill, cursor and filter untouched.
pub open spec fn same_nav(old: App, new: App) -> bool {
    &&& new.tab == old.tab
    &&& new.drill == old.drill
    &&& new.selected == old.selected
    &&& new.parked_selected == old.parked_selected
    &&& new.filter == old.filter
}

/// `new` is `old` with `a` queued as the pending action.
pub open spec fn queued(old: App, new: App, a: ActionView) -> bool {
    &&& same_nav(old, new)
    &&& new.registry == old.registry
    &&& new.tools == old.tools
    &&& new.mode == old.mode
    &&& new.status == old.status
    &&& new.quit == old.quit
    &&& new.awaiting == old.awaiting
    &&& opt_action_view(new.pending) == Some(a)
}

/// `new` is `old` in mode `m`, nothing else changed.
pub open spec fn moded(old: App, new: App, m: ModeView) -> bool {
    &&& same_nav(old, new)
    &&& new.registry == old.registry
    &&& new.tools == old.tools
    &&& new.status == old.status
    &&& new.pending == old.pending
    &&& new.quit == old.quit
    &&& new.awaiting == old.awaiting
    &&& new.mode@ == m
}

/// `new` is `old` drilled into provider `name`'s models.
pub open spec fn drilled(old: App, new: App, name: Seq<char>) -> bool {
    &&& same_data(old, new)
    &&& new.tab == old.tab
    &&& new.parked_selected == old.selected
    &&& new.drill matches Some(d) && d@ == name
    &&& new.selected == 0
    &&& new.filter@.len() == 0
}

/// What `o` (or right, or Enter) does: a provider drills into its models; a
/// model is edited; a specialist runs; a tool runs. With no item under the
/// cursor nothing happens.
pub open spec fn opened(old: App, new: App) -> bool {
    match current_of(old) {
        None => new == old,
        Some(name) => match level_of(old) {
            LevelView::Providers => drilled(old, new, name),
            LevelView::Models(_) => queued(old, new, ActionView::Edit(EditView::Model(name))),
            LevelView::Specialists => queued(old, new, ActionView::OpenSpecialist(name)),
            LevelView::Tools => queued(old, new, ActionView::RunTool(name)),
        },
    }
}

/// What `e` does: queue an edit of the item under the cursor, per its kind.
pub open spec fn edit_queued(old: App, new: App) -> bool {
    match current_of(old) {
        None => new == old,
        Some(name) => queued(
            old,
            new,
            ActionView::Edit(
                match level_of(old) {
                    LevelView::Providers => EditView::Provider(name),
                    LevelView::Models(_) => EditView::Model(name),
                    LevelView::Specialists => EditView::Specialist(name),
                    LevelView::Tools => EditView::Tool(name),
                },
            ),
        ),
    }
}

/// A fresh provider named `name`: Anthropic's protocol, no endpoint or key
/// variable yet.
pub open spec fn provider_stub(d: ProviderDef, name: Seq<char>) -> bool {
    &&& d.name@ == name
    &&& d.api == Api::AnthropicMessages
    &&& d.base_url@.len() == 0
    &&& d.api_key_env is None
    &&& !d.constrained_decoding
}

/// A fresh model `id` under `provider`, with default limits.
pub open spec fn model_stub(d: ModelDef, id: Seq<char>, provider: Seq<char>) -> bool {
    &&& d.id@ == id
    &&& d.name@ == id
    &&& d.provider@ == provider
    &&& d.max_tokens == 4096
    &&& d.context_window == 200_000
}

/// A fresh specialist `name`, pointing nowhere yet.
pub open spec fn specialist_stub(d: Specialist, name: Seq<char>) -> bool {
    &&& d.name@ == name
    &&& d.provider@.len() == 0
    &&& d.model@.len() == 0
    &&& d.system_prompt@.len() == 0
    &&& d.tools@.len() == 0
    &&& d.constraint is None
    &&& d.reasoning == Reasoning::Off
    &&& !d.stream
}

pub open spec fn invalid_tool_status(name: Seq<char>) -> Seq<char> {
    "'"@ + name + "' isn't a valid tool name (letters, digits, '_' or '-')."@
}

/// The app waits on a save after adding `name`, to then edit `target`.
pub open spec fn awaits_added(a: Awaiting, name: Seq<char>, target: EditView) -> bool {
    a matches Awaiting::Save(AfterSave::Added(n, t)) && n@ == name && t@ == target
}

/// What confirming an add of `name` does. An empty (trimmed) name only leaves
/// the prompt. Otherwise the search is cleared and, for registry entities, a
/// stub is stored under the name and a save requested, to be followed by
/// selecting it and editing it; for tools a valid name queues the scaffold
/// and an invalid one is refused in the status line.
pub open spec fn added(old: App, new: App, name: Seq<char>, e: Effect) -> bool {
    let t = trim_seq(name);
    if t.len() == 0 {
        moded(old, new, ModeView::Normal) && e == Effect::Nothing
    } else {
        &&& new.tab == old.tab
        &&& new.drill == old.drill
        &&& new.selected == old.selected
        &&& new.parked_selected == old.parked_selected
        &&& new.filter@.len() == 0
        &&& new.mode@ == ModeView::Normal
        &&& new.quit == old.quit
        &&& new.tools == old.tools
        &&& match level_of(old) {
            LevelView::Providers => {
                &&& new.status == old.status
                &&& new.pending == old.pending
                &&& e == Effect::Save
                &&& exists|d: ProviderDef|
                    provider_stub(d, t) && new.registry.providers@ == #[trigger] old.registry.providers.inserted(t, d)
                &&& new.registry.models == old.registry.models
                &&& new.registry.specialists == old.registry.specialists
                &&& awaits_added(new.awaiting, t, EditView::Provider(t))
            },
            LevelView::Models(p) => {
                &&& new.status == old.status
                &&& new.pending == old.pending
                &&& e == Effect::Save
                &&& exists|d: ModelDef|
                    model_stub(d, t, p) && new.registry.models@ == #[trigger] old.registry.models.inserted(t, d)
                &&& new.registry.providers == old.registry.providers
                &&& new.registry.specialists == old.registry.specialists
                &&& awaits_added(new.awaiting, t, EditView::Model(t))
            },
            LevelView::Specialists => {
                &&& new.status == old.status
                &&& new.pending == old.pending
                &&& e == Effect::Save
                &&& exists|d: Specialist|
                    specialist_stub(d, t) && new.registry.specialists@ == #[trigger] old.registry.specialists.inserted(t, d)
                &&& new.registry.providers == old.registry.providers
                &&& new.registry.models == old.registry.models
                &&& awaits_added(new.awaiting, t, EditView::Specialist(t))
            },
            LevelView::Tools => {
                &&& new.registry == old.registry
                &&& new.awaiting == old.awaiting
                &&& e == Effect::Nothing
                &&& if valid_tool_name(t) {
                    new.status == old.status && opt_action_view(new.pending) == Some(ActionView::AddTool(t))
                } else {
                    new.pending == old.pending && (new.status matches Some(m) && m@ == invalid_tool_status(t))
                }
            },
        }
    }
}

/// What confirming a delete does: the item under the cursor is removed —
/// a registry entity from the registry, with a save requested (then the
/// cursor is clamped); a tool by asking the loop to remove its script.
pub open spec fn deleted(old: App, new: App, e: Effect) -> bool {
    match current_of(old) {
        None => moded(old, new, ModeView::Normal) && e == Effect::Nothing,
        Some(name) => {
            &&& same_nav(old, new)
            &&& new.mode@ == ModeView::Normal
            &&& new.status == old.status
            &&& new.pending == old.pending
            &&& new.quit == old.quit
            &&& new.tools == old.tools
            &&& match level_of(old) {
                LevelView::Providers => {
                    &&& new.registry.providers@ == old.registry.providers.removed(name)
                    &&& new.registry.models == old.registry.models
                    &&& new.registry.specialists == old.registry.specialists
                    &&& new.awaiting == Awaiting::Save(AfterSave::Deleted)
                    &&& e == Effect::Save
                },
                LevelView::Models(_) => {
                    &&& new.registry.models@ == old.registry.models.removed(name)
                    &&& new.registry.providers == old.registry.providers
                    &&& new.registry.specialists == old.registry.specialists
                    &&& new.awaiting == Awaiting::Save(AfterSave::Deleted)
                    &&& e == Effect::Save
                },
                LevelView::Specialists => {
                    &&& new.registry.specialists@ == old.registry.specialists.removed(name)
                    &&& new.registry.providers == old.registry.providers
                    &&& new.registry.models == old.registry.models
                    &&& new.awaiting == Awaiting::Save(AfterSave::Deleted)
                    &&& e == Effect::Save
                },
                LevelView::Tools => {
                    &&& new.registry == old.registry
                    &&& (new.awaiting matches Awaiting::ToolRemoval(n) && n@ == name)
                    &&& (e matches Effect::RemoveTool(n) && n@ == name)
                },
            }
        },
    }
}

/// `new` is `old` with every model under provider `from` moved to provider
/// `to`, nothing else changed.
pub open spec fn models_repointed(old: Seq<(Seq<char>, ModelDef)>, new: Seq<(Seq<char>, ModelDef)>, from: Seq<char>, to: Seq<char>) -> bool {
    &&& new.len() == old.len()
    &&& forall|i: int|
        0 <= i < old.len() ==> {
            let (o, n) = (#[trigger] old[i], new[i]);
            &&& n.0 == o.0
            &&& if o.1.provider@ == from {
                &&& n.1.provider@ == to
                &&& n.1.id == o.1.id
                &&& n.1.name == o.1.name
                &&& n.1.max_tokens == o.1.max_tokens
                &&& n.1.context_window == o.1.context_window
            } else {
                n.1 == o.1
            }
        }
}

/// `n` is `o` with its provider (when `provider`) or its model (otherwise)
/// set to `to`.
pub open spec fn specialist_repointed(o: Specialist, n: Specialist, provider: bool, to: Seq<char>) -> bool {
    &&& n.name == o.name
    &&& if provider {
        n.provider@ == to && n.model == o.model
    } else {
        n.model@ == to && n.provider == o.provider
    }
    &&& n.system_prompt == o.system_prompt
    &&& n.tools@ == o.tools@
    &&& n.constraint == o.constraint
    &&& n.reasoning == o.reasoning
    &&& n.stream == o.stream
}

/// `new` is `old` with every specialist on provider (or model) `from` moved to
/// `to`, nothing else changed.
pub open spec fn specialists_repointed(old: Seq<(Seq<char>, Specialist)>, new: Seq<(Seq<char>, Specialist)>, provider: bool, from: Seq<char>, to: Seq<char>) -> bool {
    &&& new.len() == old.len()
    &&& forall|i: int|
        0 <= i < old.len() ==> {
            let (o, n) = (#[trigger] old[i], new[i]);
            &&& n.0 == o.0
            &&& if (if provider { o.1.provider@ } else { o.1.model@ }) == from {
                specialist_repointed(o.1, n.1, provider, to)
            } else {
                same_specialist(n.1, o.1)
            }
        }
}

pub open spec fn awaits_renamed(a: Awaiting, from: Seq<char>, to: Seq<char>) -> bool {
    a matches Awaiting::Save(AfterSave::Renamed(f, t)) && f@ == from && t@ == to
}

pub open spec fn tool_rename_status() -> Seq<char> {
    "renaming a tool: rename its script file in the tools folder."@
}

/// What confirming a rename of the item under the cursor to `to` does. An
/// empty or unchanged (trimmed) name only leaves the prompt. A registry
/// entity is re-keyed under the new name, everything that referenced the old
/// name is repointed (a provider's models and specialists, a model's
/// specialists), and a save is requested; tools are renamed on disk, which
/// the status line explains.
pub open spec fn renamed(old: App, new: App, to: Seq<char>, e: Effect) -> bool {
    let t = trim_seq(to);
    match current_of(old) {
        None => moded(old, new, ModeView::Normal) && e == Effect::Nothing,
        Some(from) => if t.len() == 0 || t == from {
            moded(old, new, ModeView::Normal) && e == Effect::Nothing
        } else {
            &&& same_nav(old, new)
            &&& new.mode@ == ModeView::Normal
            &&& new.pending == old.pending
            &&& new.quit == old.quit
            &&& new.tools == old.tools
            &&& match level_of(old) {
                LevelView::Providers => if old.registry.providers.has(from) {
                    let o = old.registry.providers.lookup(from).unwrap();
                    &&& new.status == old.status
                    &&& e == Effect::Save
                    &&& awaits_renamed(new.awaiting, from, t)
                    &&& exists|d: ProviderDef|
                        d.name@ == t && d.api == o.api && d.base_url == o.base_url && d.api_key_env
                            == o.api_key_env && d.constrained_decoding == o.constrained_decoding
                            && new.registry.providers@ == #[trigger] inserted_in(
                            old.registry.providers.removed(from),
                            t,
                            d,
                        )
                    &&& models_repointed(old.registry.models@, new.registry.models@, from, t)
                    &&& specialists_repointed(old.registry.specialists@, new.registry.specialists@, true, from, t)
                } else {
                    new.registry == old.registry && new.status == old.status && new.awaiting == old.awaiting
                        && e == Effect::Nothing
                },
                LevelView::Models(_) => if old.registry.models.has(from) {
                    let o = old.registry.models.lookup(from).unwrap();
                    &&& new.status == old.status
                    &&& e == Effect::Save
                    &&& awaits_renamed(new.awaiting, from, t)
                    &&& exists|d: ModelDef|
                        d.id@ == t && d.name@ == t && d.provider == o.provider && d.max_tokens
                            == o.max_tokens && d.context_window == o.context_window
                            && new.registry.models@ == #[trigger] inserted_in(
                            old.registry.models.removed(from),
                            t,
                            d,
                        )
                    &&& new.registry.providers == old.registry.providers
                    &&& specialists_repointed(old.registry.specialists@, new.registry.specialists@, false, from, t)
                } else {
                    new.registry == old.registry && new.status == old.status && new.awaiting == old.awaiting
                        && e == Effect::Nothing
                },
                LevelView::Specialists => if old.registry.specialists.has(from) {
                    let o = old.registry.specialists.lookup(from).unwrap();
                    &&& new.status == old.status
                    &&& e == Effect::Save
                    &&& awaits_renamed(new.awaiting, from, t)
                    &&& exists|d: Specialist|
                        d.name@ == t && d.provider == o.provider && d.model == o.model && d.system_prompt
                            == o.system_prompt && d.tools@ == o.tools@ && d.constraint == o.constraint
                            && d.reasoning == o.reasoning && d.stream == o.stream
                            && new.registry.specialists@ == #[trigger] inserted_in(
                            old.registry.specialists.removed(from),
                            t,
                            d,
                        )
                    &&& new.registry.providers == old.registry.providers
                    &&& new.registry.models == old.registry.models
                } else {
                    new.registry == old.registry && new.status == old.status && new.awaiting == old.awaiting
                        && e == Effect::Nothing
                },
                LevelView::Tools => {
                    &&& new.registry == old.registry
                    &&& new.awaiting == old.awaiting
                    &&& e == Effect::Nothing
                    &&& (new.status matches Some(m) && m@ == tool_rename_status())
                },
            }
        },
    }
}

pub open spec fn new_entries_witness<V>(a: Seq<(Seq<char>, V)>, b: Seq<(Seq<char>, V)>) -> bool {
    a == b
}

/// Moves every model under provider `from` to provider `to`.
fn repoint_models(models: &mut NameMap<ModelDef>, from: &str, to: &String)
    ensures
        models_repointed(old(models)@, final(models)@, from@, to@),
{
    let n = models.len();
    let mut i: usize = 0;
    while i < n
        invariant
            i <= n,
            n == old(models)@.len(),
            models@.len() == n,
            forall|j: int| #![trigger old(models)@[j]]
                0 <= j < i ==> {
                    let (o, m) = (old(models)@[j], models@[j]);
                    &&& m.0 == o.0
                    &&& if o.1.provider@ == from@ {
                        &&& m.1.provider@ == to@
                        &&& m.1.id == o.1.id
                        &&& m.1.name == o.1.name
                        &&& m.1.max_tokens == o.1.max_tokens
                        &&& m.1.context_window == o.1.context_window
                    } else {
                        m.1 == o.1
                    }
                },
            forall|j: int| i <= j < n ==> models@[j] == old(models)@[j],
        decreases n - i,
    {
        if str_eq(models.value_at(i).provider.as_str(), from) {
            let mut m = models.value_at(i).clone();
            m.provider = to.clone();
            models.set_value(i, m);
        }
        i += 1;
    }
}

/// Moves every specialist on provider (or model) `from` to `to`.
fn repoint_specialists(specs: &mut NameMap<Specialist>, provider: bool, from: &str, to: &String)
    ensures
        specialists_repointed(old(specs)@, final(specs)@, provider, from@, to@),
{
    let n = specs.len();
    let mut i: usize = 0;
    while i < n
        invariant
            i <= n,
            n == old(specs)@.len(),
            specs@.len() == n,
            forall|j: int| #![trigger old(specs)@[j]]
                0 <= j < i ==> {
                    let (o, m) = (old(specs)@[j], specs@[j]);
                    &&& m.0 == o.0
                    &&& if (if provider { o.1.provider@ } else { o.1.model@ }) == from@ {
                        specialist_repointed(o.1, m.1, provider, to@)
                    } else {
                        same_specialist(m.1, o.1)
                    }
                },
            forall|j: int| i <= j < n ==> specs@[j] == old(specs)@[j],
        decreases n - i,
    {
        let field = if provider {
            specs.value_at(i).provider.as_str()
        } else {
            specs.value_at(i).model.as_str()
        };
        if str_eq(field, from) {
            let mut m = specs.value_at(i).clone();
            if provider {
                m.provider = to.clone();
            } else {
                m.model = to.clone();
            }
            specs.set_value(i, m);
        } else {
            assert(same_specialist(specs@[i as int].1, old(specs)@[i as int].1));
        }
        i += 1;
    }
}

/// The app after a requested save finished with `result`. After an add, a
/// successful save selects the new entity and queues its edit; after a
/// rename it selects the new name, and a failed one asks for a reload so
/// memory never diverges from the file; after a delete the cursor is clamped.
/// A failed save shows its error in the status line.
pub open spec fn after_save(old: App, new: App, result: Result<(), String>, e: Effect) -> bool {
    match old.awaiting {
        Awaiting::Save(plan) => {
            &&& new.registry == old.registry
            &&& new.tools == old.tools
            &&& new.tab == old.tab
            &&& new.drill == old.drill
            &&& new.parked_selected == old.parked_selected
            &&& new.filter == old.filter
            &&& new.mode == old.mode
            &&& new.quit == old.quit
            &&& match result {
                Ok(_) => new.status == old.status,
                Err(m) => new.status == Some(m),
            }
            &&& match plan {
                AfterSave::Added(name, target) => {
                    &&& new.awaiting == Awaiting::Nothing
                    &&& e == Effect::Nothing
                    &&& if result is Ok {
                        select_in(visible(old), name@, old.selected as int, new.selected as int)
                            && opt_action_view(new.pending) == Some(ActionView::Edit(target@))
                    } else {
                        new.selected == old.selected && new.pending == old.pending
                    }
                },
                AfterSave::Renamed(_, to) => {
                    &&& new.pending == old.pending
                    &&& if result is Ok {
                        &&& select_in(visible(old), to@, old.selected as int, new.selected as int)
                        &&& new.awaiting == Awaiting::Nothing
                        &&& e == Effect::Nothing
                    } else {
                        &&& new.selected == old.selected
                        &&& new.awaiting == Awaiting::Reload(false)
                        &&& e == Effect::Reload
                    }
                },
                AfterSave::Deleted => {
                    &&& new.pending == old.pending
                    &&& new.awaiting == Awaiting::Nothing
                    &&& e == Effect::Nothing
                    &&& new.selected as int == clamped(old.selected as int, visible(old).len() as int)
                },
            }
        },
        _ => new == old && e == Effect::Nothing,
    }
}

/// The app after the loop re-read the registry and the tool names: what was
/// read replaces what was held (a read that failed keeps the old value and
/// shows its error); a drilled-into provider that vanished pops back to the
/// provider list; the cursor is clamped; a reload the user asked for says so.
pub open spec fn refreshed(old: App, new: App, reg: Result<Registry, String>, tools: Result<Vec<String>, String>) -> bool {
    let r1 = match reg {
        Ok(r) => r,
        Err(_) => old.registry,
    };
    let t1 = match tools {
        Ok(t) => t,
        Err(_) => old.tools,
    };
    let gone = old.drill matches Some(d) && !r1.providers.has(d@);
    let drill1 = if gone { None } else { old.drill };
    let sel1 = if gone { old.parked_selected } else { old.selected };
    &&& new.registry == r1
    &&& new.tools == t1
    &&& new.tab == old.tab
    &&& new.drill == drill1
    &&& new.parked_selected == old.parked_selected
    &&& new.filter == old.filter
    &&& new.mode == old.mode
    &&& new.pending == old.pending
    &&& new.quit == old.quit
    &&& new.awaiting == Awaiting::Nothing
    &&& new.selected as int == clamped(
        sel1 as int,
        shown(items_at(r1, t1@, level_at(old.tab, drill1)), old.filter@).len() as int,
    )
    &&& if old.awaiting == Awaiting::Reload(true) {
        new.status matches Some(m) && m@ == "refreshed"@
    } else if tools is Err {
        new.status == Some(tools->Err_0)
    } else if reg is Err {
        new.status == Some(reg->Err_0)
    } else {
        new.status == old.status
    }
}

/// `tools` without the entries named `name`, in order.
pub open spec fn without(tools: Seq<String>, name: Seq<char>) -> Seq<String>
    decreases tools.len(),
{
    if tools.len() == 0 {
        Seq::empty()
    } else {
        let r = without(tools.drop_last(), name);
        if tools.last()@ == name {
            r
        } else {
            r.push(tools.last())
        }
    }
}

/// The app after the loop tried to remove a tool's script: on success the
/// tool leaves the list, on failure the status says why; either way the
/// cursor is clamped.
pub open spec fn after_tool_removal(old: App, new: App, result: Result<(), String>) -> bool {
    match old.awaiting {
        Awaiting::ToolRemoval(name) => {
            let t1 = if result is Ok { without(old.tools@, name@) } else { old.tools@ };
            &&& new.registry == old.registry
            &&& new.tools@ == t1
            &&& new.tab == old.tab
            &&& new.drill == old.drill
            &&& new.parked_selected == old.parked_selected
            &&& new.filter == old.filter
            &&& new.mode == old.mode
            &&& new.pending == old.pending
            &&& new.quit == old.quit
            &&& new.awaiting == Awaiting::Nothing
            &&& match result {
                Ok(_) => new.status == old.status,
                Err(m) => new.status == Some(m),
            }
            &&& new.selected as int == clamped(
                old.selected as int,
                shown(items_at(old.registry, t1, level_of(old)), old.filter@).len() as int,
            )
        },
        _ => new == old,
    }
}

/// The cursor one row down, unless it is on the last row.
pub open spec fn moved_down(old: App, new: App) -> bool {
    &&& only_cursor(old, new)
    &&& new.selected == if old.selected + 1 < visible(old).len() {
        old.selected + 1
    } else {
        old.selected as int
    }
}

/// The cursor one row up, unless it is on the first row.
pub open spec fn moved_up(old: App, new: App) -> bool {
    &&& only_cursor(old, new)
    &&& new.selected == if old.selected > 0 {
        old.selected - 1
    } else {
        0
    }
}

/// Left: out of a provider's models back to the provider list, unfiltered,
/// with the cursor on that provider; at a root nothing happens.
pub open spec fn moved_left(old: App, new: App) -> bool {
    match level_of(old) {
        LevelView::Models(p) => {
            &&& same_data(old, new)
            &&& new.tab == old.tab
            &&& new.drill is None
            &&& new.filter@.len() == 0
            &&& new.parked_selected == old.parked_selected
            &&& select_in(
                items_at(old.registry, old.tools@, LevelView::Providers),
                p,
                old.selected as int,
                new.selected as int,
            )
        },
        _ => new == old,
    }
}

/// `r`: prompt for a new name, starting from the current one.
pub open spec fn rename_started(old: App, new: App) -> bool {
    match current_of(old) {
        Some(name) => moded(old, new, ModeView::Rename(name)),
        None => new == old,
    }
}

/// `d`: ask to confirm deleting the current item.
pub open spec fn delete_started(old: App, new: App) -> bool {
    match current_of(old) {
        Some(_) => moded(old, new, ModeView::ConfirmDelete),
        None => new == old,
    }
}

/// `new` is `old` with the filter set to `f`, the mode to `m`, and the
/// cursor clamped to the list `f` leaves.
pub open spec fn filter_set(old: App, new: App, f: Seq<char>, m: ModeView) -> bool {
    &&& new.registry == old.registry
    &&& new.tools == old.tools
    &&& new.status == old.status
    &&& new.pending == old.pending
    &&& new.quit == old.quit
    &&& new.awaiting == old.awaiting
    &&& new.tab == old.tab
    &&& new.drill == old.drill
    &&& new.parked_selected == old.parked_selected
    &&& new.filter@ == f
    &&& new.mode@ == m
    &&& new.selected as int == clamped(old.selected as int, shown(all_items(old), f).len() as int)
}

/// A text buffer after Backspace: its last character removed, if any.
pub open spec fn backspaced(s: Seq<char>) -> Seq<char> {
    if s.len() > 0 {
        s.drop_last()
    } else {
        s
    }
}

/// A key in normal (navigation) mode.
pub open spec fn normal_step(old: App, new: App, key: Key, e: Effect) -> bool {
    match key.code {
        KeyCode::Char(c) => if c == 'q' || (key.ctrl && (c == 'c' || c == 'd')) {
            new == App { quit: true, ..old } && e == Effect::Nothing
        } else if key.ctrl && c == 'r' {
            new == App { awaiting: Awaiting::Reload(true), ..old } && e == Effect::Reload
        } else {
            &&& e == Effect::Nothing
            &&& if c == 'p' {
                switched(old, new, Tab::Providers)
            } else if c == 's' {
                switched(old, new, Tab::Specialists)
            } else if c == 't' {
                switched(old, new, Tab::Tools)
            } else if c == '?' {
                moded(old, new, ModeView::Help)
            } else if c == '/' {
                moded(old, new, ModeView::Search)
            } else if c == 'j' {
                moved_down(old, new)
            } else if c == 'k' {
                moved_up(old, new)
            } else if c == 'h' {
                moved_left(old, new)
            } else if c == 'l' || c == 'o' {
                opened(old, new)
            } else if c == 'a' {
                moded(old, new, ModeView::Add(Seq::empty()))
            } else if c == 'e' {
                edit_queued(old, new)
            } else if c == 'r' {
                rename_started(old, new)
            } else if c == 'd' {
                delete_started(old, new)
            } else {
                new == old
            }
        },
        KeyCode::Down => moved_down(old, new) && e == Effect::Nothing,
        KeyCode::Up => moved_up(old, new) && e == Effect::Nothing,
        KeyCode::Left => moved_left(old, new) && e == Effect::Nothing,
        KeyCode::Right | KeyCode::Enter => opened(old, new) && e == Effect::Nothing,
        KeyCode::Esc => e == Effect::Nothing && if old.filter@.len() > 0 {
            filter_set(old, new, Seq::empty(), ModeView::Normal)
        } else {
            new == old
        },
        _ => new == old && e == Effect::Nothing,
    }
}

/// A key while typing a search: Enter keeps the filter, Esc abandons it,
/// other keys edit it; the cursor stays on the list.
pub open spec fn search_step(old: App, new: App, key: Key) -> bool {
    match key.code {
        KeyCode::Enter => moded(old, new, ModeView::Normal),
        KeyCode::Esc => filter_set(old, new, Seq::empty(), ModeView::Normal),
        KeyCode::Backspace => filter_set(old, new, backspaced(old.filter@), ModeView::Search),
        KeyCode::Char(c) => filter_set(old, new, old.filter@.push(c), ModeView::Search),
        _ => new == old,
    }
}

/// A key while typing a name (`rename` tells which prompt): Enter commits,
/// Esc cancels, other keys edit the buffer.
pub open spec fn text_step(old: App, new: App, key: Key, e: Effect, rename: bool, buf: Seq<char>) -> bool {
    match key.code {
        KeyCode::Enter => if rename {
            renamed(old, new, buf, e)
        } else {
            added(old, new, buf, e)
        },
        KeyCode::Esc => moded(old, new, ModeView::Normal) && e == Effect::Nothing,
        KeyCode::Backspace => e == Effect::Nothing && moded(
            old,
            new,
            if rename {
                ModeView::Rename(backspaced(buf))
            } else {
                ModeView::Add(backspaced(buf))
            },
        ),
        KeyCode::Char(c) => e == Effect::Nothing && moded(
            old,
            new,
            if rename {
                ModeView::Rename(buf.push(c))
            } else {
                ModeView::Add(buf.push(c))
            },
        ),
        _ => new == old && e == Effect::Nothing,
    }
}

/// What a key press does: the status line is cleared, then the key is routed
/// by the mode.
pub open spec fn stepped(old: App, new: App, key: Key, e: Effect) -> bool {
    let cleared = App { status: None, ..old };
    match old.mode@ {
        ModeView::Normal => normal_step(cleared, new, key, e),
        ModeView::Search => search_step(cleared, new, key) && e == Effect::Nothing,
        ModeView::ConfirmDelete => match key.code {
            KeyCode::Char(c) if c == 'y' || c == 'Y' => deleted(cleared, new, e),
            _ => moded(cleared, new, ModeView::Normal) && e == Effect::Nothing,
        },
        ModeView::Rename(buf) => text_step(cleared, new, key, e, true, buf),
        ModeView::Add(buf) => text_step(cleared, new, key, e, false, buf),
        ModeView::Help => moded(cleared, new, ModeView::Normal) && e == Effect::Nothing,
    }
}

/// `s` without its last character, if it has one.
fn pop_char(s: &String) -> (r: String)
    ensures
        r@ == backspaced(s@),
{
    let v = chars_of(s.as_str());
    if v.len() == 0 {
        return String::new();
    }
    string_of_range(&v, 0, v.len() - 1)
}

impl App {
    /// An app over `registry` and the tool names `tools`, on the Specialists
    /// tab with the first item focused.
    pub fn new(registry: Registry, tools: Vec<String>) -> (r: App)
        ensures
            r.registry == registry,
            r.tools == tools,
            r.tab == Tab::Specialists,
            r.drill is None,
            r.selected == 0,
            r.parked_selected == 0,
            r.filter@.len() == 0,
            r.mode@ == ModeView::Normal,
            r.status is None,
            r.pending is None,
            !r.quit,
            r.awaiting == Awaiting::Nothing,
    {
        App {
            registry,
            tools,
            tab: Tab::Specialists,
            drill: None,
            selected: 0,
            parked_selected: 0,
            filter: String::new(),
            mode: Mode::Normal,
            status: None,
            pending: None,
            quit: false,
            awaiting: Awaiting::Nothing,
        }
    }

    // ---- what the renderer reads --------------------------------------

    pub fn tab(&self) -> (r: Tab)
        ensures
            r == self.tab,
    {
        self.tab
    }

    pub fn mode(&self) -> (r: &Mode)
        ensures
            *r == self.mode,
    {
        &self.mode
    }

    pub fn filter(&self) -> (r: &str)
        ensures
            r@ == self.filter@,
    {
        self.filter.as_str()
    }

    pub fn selected(&self) -> (r: usize)
        ensures
            r == self.selected,
    {
        self.selected
    }

    pub fn status(&self) -> (r: Option<&str>)
        ensures
            r is None <==> self.status is None,
            r matches Some(s) ==> s@ == self.status.unwrap()@,
    {
        match &self.status {
            Some(s) => Some(s.as_str()),
            None => None,
        }
    }

    /// Sets the transient status line (the loop reports action errors here).
    pub fn set_status(&mut self, message: String)
        ensures
            final(self).status == Some(message),
            final(self).registry == old(self).registry,
            final(self).tools == old(self).tools,
            final(self).tab == old(self).tab,
            final(self).drill == old(self).drill,
            final(self).selected == old(self).selected,
            final(self).parked_selected == old(self).parked_selected,
            final(self).filter == old(self).filter,
            final(self).mode == old(self).mode,
            final(self).pending == old(self).pending,
            final(self).quit == old(self).quit,
            final(self).awaiting == old(self).awaiting,
    {
        self.status = Some(message);
    }

    pub fn should_quit(&self) -> (r: bool)
        ensures
            r == self.quit,
    {
        self.quit
    }

    /// The level the cursor is in, from the tab and the drill state.
    pub fn level(&self) -> (r: Level)
        ensures
            r@ == level_of(*self),
    {
        match self.tab {
            Tab::Providers => match &self.drill {
                Some(name) => Level::Models(name.clone()),
                None => Level::Providers,
            },
            Tab::Specialists => Level::Specialists,
            Tab::Tools => Level::Tools,
        }
    }

    fn all(&self) -> (r: Vec<String>)
        ensures
            views(r@) == all_items(*self),
    {
        match &self.drill {
            Some(p) if self.tab == Tab::Providers => {
                let ids = self.registry.models_under(p.as_str());
                let r = sort_strings(ids);
                proof {
                    crate::names::lemma_views_multiset(r@, ids@);
                    lemma_sorted_of(model_ids_under(self.registry.models.values(), p@), views(r@));
                }
                r
            },
            _ => match self.tab {
                Tab::Providers => {
                    let r = self.registry.providers.sorted_keys();
                    proof {
                        lemma_sorted_of(self.registry.providers.names(), views(r@));
                    }
                    r
                },
                Tab::Specialists => {
                    let r = self.registry.specialists.sorted_keys();
                    proof {
                        lemma_sorted_of(self.registry.specialists.names(), views(r@));
                    }
                    r
                },
                Tab::Tools => {
                    let names = crate::domain::clone_strings(&self.tools);
                    let r = sort_strings(names);
                    proof {
                        crate::names::lemma_views_multiset(r@, self.tools@);
                        lemma_sorted_of(views(self.tools@), views(r@));
                    }
                    r
                },
            },
        }
    }

    /// The visible, filter-applied items at the current level, in order.
    pub fn items(&self) -> (r: Vec<String>)
        ensures
            views(r@) == visible(*self),
    {
        let all = self.all();
        if self.filter.as_str().unicode_len() == 0 {
            return all;
        }
        let needle = chars_of(to_lowercase(self.filter.as_str()).as_str());
        let mut out: Vec<String> = Vec::new();
        let mut i: usize = 0;
        while i < all.len()
            invariant
                i <= all@.len(),
                needle@ == lowercase(self.filter@),
                views(out@) == filtered(views(all@).subrange(0, i as int), self.filter@),
            decreases all.len() - i,
        {
            let lower = chars_of(to_lowercase(all[i].as_str()).as_str());
            let ghost prefix = views(all@).subrange(0, i + 1);
            assert(prefix.drop_last() =~= views(all@).subrange(0, i as int));
            assert(prefix.last() == all@[i as int]@);
            if contains_chars(&lower, &needle) {
                let ghost before = out@;
                out.push(all[i].clone());
                assert(views(out@) =~= views(before).push(all@[i as int]@));
            }
            i += 1;
        }
        assert(views(all@).subrange(0, all@.len() as int) =~= views(all@));
        out
    }

    /// The highlighted item's name, if the list has one under the cursor.
    pub fn current(&self) -> (r: Option<String>)
        ensures
            r is None <==> current_of(*self) is None,
            r matches Some(s) ==> current_of(*self) == Some(s@),
    {
        let items = self.items();
        if self.selected < items.len() {
            assert(views(items@)[self.selected as int] == items@[self.selected as int]@);
            Some(items[self.selected].clone())
        } else {
            None
        }
    }

    /// The breadcrumb for the header, e.g. `Providers › anthropic`.
    pub fn breadcrumb(&self) -> (r: String)
        ensures
            r@ == match level_of(*self) {
                LevelView::Models(p) => "Providers \u{203a} "@ + p,
                LevelView::Providers => "Providers"@,
                LevelView::Specialists => "Specialists"@,
                LevelView::Tools => "Tools"@,
            },
    {
        match self.level() {
            Level::Models(provider) => {
                let mut s = owned("Providers \u{203a} ");
                push_str(&mut s, provider.as_str());
                s
            },
            Level::Providers => owned("Providers"),
            Level::Specialists => owned("Specialists"),
            Level::Tools => owned("Tools"),
        }
    }

    /// The hint shown when the current list is empty.
    pub fn empty_hint(&self) -> (r: String)
        ensures
            r@ == match level_of(*self) {
                LevelView::Providers => "No providers yet. Press 'a' to add one \u{2014} the API your specialists talk to."@,
                LevelView::Models(p) => "No models under '"@ + p + "' yet. Press 'a' to add one."@,
                LevelView::Specialists => "No specialists yet. Press 'a' to add a hyper-specific agent."@,
                LevelView::Tools => "No tools yet. Press 'a' to scaffold an executable tool script."@,
            },
    {
        match self.level() {
            Level::Providers => owned(
                "No providers yet. Press 'a' to add one \u{2014} the API your specialists talk to.",
            ),
            Level::Models(provider) => {
                let mut s = owned("No models under '");
                push_str(&mut s, provider.as_str());
                push_str(&mut s, "' yet. Press 'a' to add one.");
                s
            },
            Level::Specialists => owned("No specialists yet. Press 'a' to add a hyper-specific agent."),
            Level::Tools => owned("No tools yet. Press 'a' to scaffold an executable tool script."),
        }
    }

    /// The list's title, e.g. ` models · anthropic `.
    pub fn list_title(&self) -> (r: String)
        ensures
            r@ == match level_of(*self) {
                LevelView::Providers => " providers "@,
                LevelView::Models(p) => " models \u{b7} "@ + p + " "@,
                LevelView::Specialists => " specialists "@,
                LevelView::Tools => " tools "@,
            },
    {
        match self.level() {
            Level::Providers => owned(" providers "),
            Level::Models(provider) => {
                let mut s = owned(" models \u{b7} ");
                push_str(&mut s, provider.as_str());
                push_str(&mut s, " ");
                s
            },
            Level::Specialists => owned(" specialists "),
            Level::Tools => owned(" tools "),
        }
    }

    /// Takes the queued side effect, if any, for the loop to perform.
    pub fn take_action(&mut self) -> (r: Option<Action>)
        ensures
            r == old(self).pending,
            final(self).pending is None,
            final(self).registry == old(self).registry,
            final(self).tools == old(self).tools,
            final(self).tab == old(self).tab,
            final(self).drill == old(self).drill,
            final(self).selected == old(self).selected,
            final(self).parked_selected == old(self).parked_selected,
            final(self).filter == old(self).filter,
            final(self).mode == old(self).mode,
            final(self).status == old(self).status,
            final(self).quit == old(self).quit,
            final(self).awaiting == old(self).awaiting,
    {
        self.pending.take()
    }

    // ---- navigation -----------------------------------------------------

    /// Moves the cursor onto `name` if it is in the visible list.
    fn select_by_name(&mut self, name: &str)
        ensures
            only_cursor(*old(self), *final(self)),
            selected_by_name(*old(self), name@, final(self).selected as int),
    {
        let items = self.items();
        let mut i: usize = 0;
        while i < items.len()
            invariant
                i <= items@.len(),
                *self == *old(self),
                views(items@) == visible(*self),
                forall|j: int| 0 <= j < i ==> visible(*self)[j] != name@,
            decreases items.len() - i,
        {
            if str_eq(items[i].as_str(), name) {
                assert(visible(*self)[i as int] == name@);
                assert(visible(*self).contains(name@));
                self.selected = i;
                return;
            }
            i += 1;
        }
        assert(!visible(*self).contains(name@)) by {
            if visible(*self).contains(name@) {
                let k = choose|k: int| 0 <= k < visible(*self).len() && visible(*self)[k] == name@;
                assert(visible(*self)[k] != name@);
            }
        }
    }

    /// Keeps the cursor on the list after it shrank.
    fn clamp_selection(&mut self)
        ensures
            only_cursor(*old(self), *final(self)),
            final(self).selected as int == clamped(old(self).selected as int, visible(*old(self)).len() as int),
    {
        let len = self.items().len();
        if len == 0 {
            self.selected = 0;
        } else if self.selected >= len {
            self.selected = len - 1;
        }
    }

    fn switch_tab(&mut self, tab: Tab)
        ensures
            switched(*old(self), *final(self), tab),
    {
        self.tab = tab;
        self.drill = None;
        self.filter = String::new();
        self.selected = 0;
        self.parked_selected = 0;
    }

    fn move_down(&mut self)
        ensures
            moved_down(*old(self), *final(self)),
    {
        let len = self.items().len();
        if len > 0 && self.selected < len - 1 {
            self.selected = self.selected + 1;
        }
    }

    fn move_up(&mut self)
        ensures
            moved_up(*old(self), *final(self)),
    {
        if self.selected > 0 {
            self.selected = self.selected - 1;
        }
    }

    /// Left pops out of a provider's models back to the provider list, onto
    /// that provider; at a root it does nothing.
    fn move_left(&mut self)
        ensures
            moved_left(*old(self), *final(self)),
    {
        if self.tab == Tab::Providers {
            match &self.drill {
                Some(p) => {
                    let provider = p.clone();
                    self.drill = None;
                    self.filter = String::new();
                    self.select_by_name(provider.as_str());
                },
                None => {},
            }
        }
    }

    /// Drills the provider list into `name`'s models, parking the provider
    /// cursor.
    fn drill_into(&mut self, name: String)
        ensures
            same_data(*old(self), *final(self)),
            final(self).tab == old(self).tab,
            final(self).parked_selected == old(self).selected,
            final(self).drill == Some(name),
            final(self).selected == 0,
            final(self).filter@.len() == 0,
    {
        self.parked_selected = self.selected;
        self.drill = Some(name);
        self.selected = 0;
        self.filter = String::new();
    }

    // ---- commands -------------------------------------------------------

    /// `o` / right: opens the item under the cursor per its kind.
    fn open_current(&mut self)
        ensures
            opened(*old(self), *final(self)),
    {
        let name = match self.current() {
            Some(n) => n,
            None => {
                return;
            },
        };
        match self.level() {
            Level::Providers => self.drill_into(name),
            Level::Models(_) => {
                self.pending = Some(Action::Edit(EditTarget::Model(name)));
            },
            Level::Specialists => {
                self.pending = Some(Action::OpenSpecialist(name));
            },
            Level::Tools => {
                self.pending = Some(Action::RunTool(name));
            },
        }
    }

    /// `e`: queues an edit of the item under the cursor.
    fn edit_current(&mut self)
        ensures
            edit_queued(*old(self), *final(self)),
    {
        let name = match self.current() {
            Some(n) => n,
            None => {
                return;
            },
        };
        let target = match self.level() {
            Level::Providers => EditTarget::Provider(name),
            Level::Models(_) => EditTarget::Model(name),
            Level::Specialists => EditTarget::Specialist(name),
            Level::Tools => EditTarget::Tool(name),
        };
        self.pending = Some(Action::Edit(target));
    }

    fn start_add(&mut self)
        ensures
            moded(*old(self), *final(self), ModeView::Add(Seq::empty())),
    {
        self.mode = Mode::Add(String::new());
    }

    fn start_rename(&mut self)
        ensures
            rename_started(*old(self), *final(self)),
    {
        if let Some(name) = self.current() {
            self.mode = Mode::Rename(name);
        }
    }

    fn start_delete(&mut self)
        ensures
            delete_started(*old(self), *final(self)),
    {
        if self.current().is_some() {
            self.mode = Mode::ConfirmDelete;
        }
    }

    /// Confirms adding `name` (see [`added`]).
    fn commit_add(&mut self, name: String) -> (e: Effect)
        ensures
            added(*old(self), *final(self), name@, e),
    {
        self.mode = Mode::Normal;
        let name = trim(name.as_str());
        if name.as_str().unicode_len() == 0 {
            return Effect::Nothing;
        }
        self.filter = String::new();
        match self.level() {
            Level::Providers => {
                let def = ProviderDef {
                    name: name.clone(),
                    api: Api::AnthropicMessages,
                    base_url: String::new(),
                    api_key_env: None,
                    constrained_decoding: false,
                };
                let ghost d = def;
                self.registry.providers.insert(name.clone(), def);
                assert(provider_stub(d, name@));
                self.awaiting = Awaiting::Save(AfterSave::Added(name.clone(), EditTarget::Provider(name)));
                Effect::Save
            },
            Level::Models(provider) => {
                let def = ModelDef {
                    id: name.clone(),
                    name: name.clone(),
                    provider,
                    max_tokens: 4096,
                    context_window: 200_000,
                };
                let ghost d = def;
                self.registry.models.insert(name.clone(), def);
                assert(model_stub(d, name@, self.drill.unwrap()@));
                self.awaiting = Awaiting::Save(AfterSave::Added(name.clone(), EditTarget::Model(name)));
                Effect::Save
            },
            Level::Specialists => {
                let def = Specialist {
                    name: name.clone(),
                    provider: String::new(),
                    model: String::new(),
                    system_prompt: String::new(),
                    tools: Vec::new(),
                    constraint: None,
                    reasoning: Reasoning::Off,
                    stream: false,
                };
                let ghost d = def;
                self.registry.specialists.insert(name.clone(), def);
                assert(specialist_stub(d, name@));
                self.awaiting = Awaiting::Save(
                    AfterSave::Added(name.clone(), EditTarget::Specialist(name)),
                );
                Effect::Save
            },
            Level::Tools => {
                if !is_valid_tool_name(name.as_str()) {
                    let mut m = owned("'");
                    push_str(&mut m, name.as_str());
                    push_str(&mut m, "' isn't a valid tool name (letters, digits, '_' or '-').");
                    self.status = Some(m);
                    return Effect::Nothing;
                }
                self.pending = Some(Action::AddTool(name));
                Effect::Nothing
            },
        }
    }

    /// Confirms deleting the item under the cursor (see [`deleted`]).
    fn delete_current(&mut self) -> (e: Effect)
        ensures
            deleted(*old(self), *final(self), e),
    {
        self.mode = Mode::Normal;
        let name = match self.current() {
            Some(n) => n,
            None => {
                return Effect::Nothing;
            },
        };
        match self.level() {
            Level::Providers => {
                self.registry.providers.remove(name.as_str());
                self.awaiting = Awaiting::Save(AfterSave::Deleted);
                Effect::Save
            },
            Level::Models(_) => {
                self.registry.models.remove(name.as_str());
                self.awaiting = Awaiting::Save(AfterSave::Deleted);
                Effect::Save
            },
            Level::Specialists => {
                self.registry.specialists.remove(name.as_str());
                self.awaiting = Awaiting::Save(AfterSave::Deleted);
                Effect::Save
            },
            Level::Tools => {
                self.awaiting = Awaiting::ToolRemoval(name.clone());
                Effect::RemoveTool(name)
            },
        }
    }

    /// Confirms renaming the item under the cursor to `to` (see [`renamed`]).
    fn commit_rename(&mut self, to: String) -> (e: Effect)
        ensures
            renamed(*old(self), *final(self), to@, e),
    {
        self.mode = Mode::Normal;
        let to = trim(to.as_str());
        let from = match self.current() {
            Some(n) => n,
            None => {
                return Effect::Nothing;
            },
        };
        if to.as_str().unicode_len() == 0 || str_eq(to.as_str(), from.as_str()) {
            return Effect::Nothing;
        }
        match self.level() {
            Level::Providers => {
                if !self.registry.providers.contains_key(from.as_str()) {
                    return Effect::Nothing;
                }
                let ghost before = self.registry.providers;
                match self.registry.providers.remove(from.as_str()) {
                    Some(mut def) => {
                        def.name = to.clone();
                        repoint_models(&mut self.registry.models, from.as_str(), &to);
                        repoint_specialists(&mut self.registry.specialists, true, from.as_str(), &to);
                        let ghost d = def;
                        self.registry.providers.insert(to.clone(), def);
                        assert(new_entries_witness(self.registry.providers@, inserted_in(before.removed(from@), to@, d)));
                        self.awaiting = Awaiting::Save(AfterSave::Renamed(from, to));
                        Effect::Save
                    },
                    None => {
                        assert(false);
                        Effect::Nothing
                    },
                }
            },
            Level::Models(_) => {
                if !self.registry.models.contains_key(from.as_str()) {
                    return Effect::Nothing;
                }
                let ghost before = self.registry.models;
                match self.registry.models.remove(from.as_str()) {
                    Some(mut def) => {
                        def.id = to.clone();
                        def.name = to.clone();
                        repoint_specialists(&mut self.registry.specialists, false, from.as_str(), &to);
                        let ghost d = def;
                        self.registry.models.insert(to.clone(), def);
                        assert(new_entries_witness(self.registry.models@, inserted_in(before.removed(from@), to@, d)));
                        self.awaiting = Awaiting::Save(AfterSave::Renamed(from, to));
                        Effect::Save
                    },
                    None => {
                        assert(false);
                        Effect::Nothing
                    },
                }
            },
            Level::Specialists => {
                if !self.registry.specialists.contains_key(from.as_str()) {
                    return Effect::Nothing;
                }
                let ghost before = self.registry.specialists;
                match self.registry.specialists.remove(from.as_str()) {
                    Some(mut def) => {
                        def.name = to.clone();
                        let ghost d = def;
                        self.registry.specialists.insert(to.clone(), def);
                        assert(new_entries_witness(self.registry.specialists@, inserted_in(before.removed(from@), to@, d)));
                        self.awaiting = Awaiting::Save(AfterSave::Renamed(from, to));
                        Effect::Save
                    },
                    None => {
                        assert(false);
                        Effect::Nothing
                    },
                }
            },
            Level::Tools => {
                self.status = Some(owned("renaming a tool: rename its script file in the tools folder."));
                Effect::Nothing
            },
        }
    }

    // ---- input ----------------------------------------------------------

    fn set_filter(&mut self, f: String, m: Mode)
        ensures
            filter_set(*old(self), *final(self), f@, m@),
    {
        self.filter = f;
        self.mode = m;
        self.clamp_selection();
    }

    /// Routes a key press by the current mode (see [`stepped`]); a key first
    /// clears the status line. What comes back is what the loop must do next.
    pub fn on_key(&mut self, key: Key) -> (e: Effect)
        ensures
            stepped(*old(self), *final(self), key, e),
    {
        self.status = None;
        match &self.mode {
            Mode::Normal => self.on_key_normal(key),
            Mode::Search => {
                self.on_key_search(key);
                Effect::Nothing
            },
            Mode::ConfirmDelete => {
                if key.code == KeyCode::Char('y') || key.code == KeyCode::Char('Y') {
                    self.delete_current()
                } else {
                    self.mode = Mode::Normal;
                    Effect::Nothing
                }
            },
            Mode::Rename(buf) => {
                let b = buf.clone();
                self.on_key_text(key, b, true)
            },
            Mode::Add(buf) => {
                let b = buf.clone();
                self.on_key_text(key, b, false)
            },
            Mode::Help => {
                self.mode = Mode::Normal;
                Effect::Nothing
            },
        }
    }

    fn on_key_normal(&mut self, key: Key) -> (e: Effect)
        ensures
            normal_step(*old(self), *final(self), key, e),
    {
        match key.code {
            KeyCode::Char(c) => {
                if c == 'q' || (key.ctrl && (c == 'c' || c == 'd')) {
                    self.quit = true;
                    return Effect::Nothing;
                }
                if key.ctrl && c == 'r' {
                    self.awaiting = Awaiting::Reload(true);
                    return Effect::Reload;
                }
                if c == 'p' {
                    self.switch_tab(Tab::Providers);
                } else if c == 's' {
                    self.switch_tab(Tab::Specialists);
                } else if c == 't' {
                    self.switch_tab(Tab::Tools);
                } else if c == '?' {
                    self.mode = Mode::Help;
                } else if c == '/' {
                    self.mode = Mode::Search;
                } else if c == 'j' {
                    self.move_down();
                } else if c == 'k' {
                    self.move_up();
                } else if c == 'h' {
                    self.move_left();
                } else if c == 'l' || c == 'o' {
                    self.open_current();
                } else if c == 'a' {
                    self.start_add();
                } else if c == 'e' {
                    self.edit_current();
                } else if c == 'r' {
                    self.start_rename();
                } else if c == 'd' {
                    self.start_delete();
                }
                Effect::Nothing
            },
            KeyCode::Down => {
                self.move_down();
                Effect::Nothing
            },
            KeyCode::Up => {
                self.move_up();
                Effect::Nothing
            },
            KeyCode::Left => {
                self.move_left();
                Effect::Nothing
            },
            KeyCode::Right | KeyCode::Enter => {
                self.open_current();
                Effect::Nothing
            },
            KeyCode::Esc => {
                if self.filter.as_str().unicode_len() > 0 {
                    self.set_filter(String::new(), Mode::Normal);
                }
                Effect::Nothing
            },
            _ => Effect::Nothing,
        }
    }

    fn on_key_search(&mut self, key: Key)
        ensures
            search_step(*old(self), *final(self), key),
    {
        match key.code {
            KeyCode::Enter => {
                self.mode = Mode::Normal;
            },
            KeyCode::Esc => {
                self.set_filter(String::new(), Mode::Normal);
            },
            KeyCode::Backspace => {
                let f = pop_char(&self.filter);
                self.set_filter(f, Mode::Search);
            },
            KeyCode::Char(c) => {
                let mut f = self.filter.clone();
                push_char(&mut f, c);
                self.set_filter(f, Mode::Search);
            },
            _ => {},
        }
    }

    fn on_key_text(&mut self, key: Key, buf: String, rename: bool) -> (e: Effect)
        ensures
            text_step(*old(self), *final(self), key, e, rename, buf@),
    {
        match key.code {
            KeyCode::Enter => if rename {
                self.commit_rename(buf)
            } else {
                self.commit_add(buf)
            },
            KeyCode::Esc => {
                self.mode = Mode::Normal;
                Effect::Nothing
            },
            KeyCode::Backspace => {
                let b = pop_char(&buf);
                self.mode = if rename {
                    Mode::Rename(b)
                } else {
                    Mode::Add(b)
                };
                Effect::Nothing
            },
            KeyCode::Char(c) => {
                let mut b = buf;
                push_char(&mut b, c);
                self.mode = if rename {
                    Mode::Rename(b)
                } else {
                    Mode::Add(b)
                };
                Effect::Nothing
            },
            _ => Effect::Nothing,
        }
    }

    // ---- what the loop hands back ---------------------------------------

    /// Reports how a requested save went (see [`after_save`]).
    pub fn saved(&mut self, result: Result<(), String>) -> (e: Effect)
        ensures
            after_save(*old(self), *final(self), result, e),
    {
        let plan = match &self.awaiting {
            Awaiting::Save(plan) => plan.clone_plan(),
            _ => {
                return Effect::Nothing;
            },
        };
        self.awaiting = Awaiting::Nothing;
        let ok = match result {
            Ok(()) => true,
            Err(m) => {
                self.status = Some(m);
                false
            },
        };
        match plan {
            AfterSave::Added(name, target) => {
                if ok {
                    self.select_by_name(name.as_str());
                    self.pending = Some(Action::Edit(target));
                }
                Effect::Nothing
            },
            AfterSave::Renamed(_, to) => {
                if ok {
                    self.select_by_name(to.as_str());
                    Effect::Nothing
                } else {
                    self.awaiting = Awaiting::Reload(false);
                    Effect::Reload
                }
            },
            AfterSave::Deleted => {
                self.clamp_selection();
                Effect::Nothing
            },
        }
    }

    /// Takes what the loop re-read from disk (see [`refreshed`]).
    pub fn refresh(&mut self, registry: Result<Registry, String>, tools: Result<Vec<String>, String>)
        ensures
            refreshed(*old(self), *final(self), registry, tools),
    {
        let announce = match &self.awaiting {
            Awaiting::Reload(asked) => *asked,
            _ => false,
        };
        self.awaiting = Awaiting::Nothing;
        match registry {
            Ok(r) => {
                self.registry = r;
            },
            Err(e) => {
                self.status = Some(e);
            },
        }
        match tools {
            Ok(t) => {
                self.tools = t;
            },
            Err(e) => {
                self.status = Some(e);
            },
        }
        let gone = match &self.drill {
            Some(name) => !self.registry.providers.contains_key(name.as_str()),
            None => false,
        };
        if gone {
            self.drill = None;
            self.selected = self.parked_selected;
        }
        self.clamp_selection();
        if announce {
            self.status = Some(owned("refreshed"));
        }
    }

    /// Reports how removing a tool's script went (see [`after_tool_removal`]).
    pub fn tool_removed(&mut self, result: Result<(), String>)
        ensures
            after_tool_removal(*old(self), *final(self), result),
    {
        let name = match &self.awaiting {
            Awaiting::ToolRemoval(n) => n.clone(),
            _ => {
                return;
            },
        };
        self.awaiting = Awaiting::Nothing;
        match result {
            Ok(()) => {
                let mut kept: Vec<String> = Vec::new();
                let mut i: usize = 0;
                while i < self.tools.len()
                    invariant
                        i <= self.tools@.len(),
                        kept@ == without(self.tools@.subrange(0, i as int), name@),
                    decreases self.tools.len() - i,
                {
                    let ghost prefix = self.tools@.subrange(0, i + 1);
                    assert(prefix.drop_last() =~= self.tools@.subrange(0, i as int));
                    if !str_eq(self.tools[i].as_str(), name.as_str()) {
                        kept.push(self.tools[i].clone());
                    }
                    i += 1;
                }
                assert(self.tools@.subrange(0, self.tools@.len() as int) =~= self.tools@);
                self.tools = kept;
            },
            Err(m) => {
                self.status = Some(m);
            },
        }
        self.clamp_selection();
    }

    // ---- mouse ----------------------------------------------------------

    /// Selects the list row `row` (0-based within the list); a click past the
    /// last row is ignored.
    pub fn click_row(&mut self, row: usize)
        ensures
            only_cursor(*old(self), *final(self)),
            final(self).selected == if row < visible(*old(self)).len() {
                row
            } else {
                old(self).selected
            },
    {
        if row < self.items().len() {
            self.selected = row;
        }
    }

    /// Switches to the tab at display position `index` (a click on the tab
    /// bar); other positions are ignored.
    pub fn click_tab(&mut self, index: usize)
        ensures
            match tab_index(index as int) {
                Some(t) => switched(*old(self), *final(self), t),
                None => *final(self) == *old(self),
            },
    {
        if let Some(tab) = Tab::at(index) {
            self.switch_tab(tab);
        }
    }
}

// ---------------------------------------------------------------------------
// Laws
// ---------------------------------------------------------------------------

proof fn lemma_filtered_within(items: Seq<Seq<char>>, f: Seq<char>, x: Seq<char>)
    requires
        filtered(items, f).contains(x),
    ensures
        items.contains(x),
        matches_filter(x, f),
    decreases items.len(),
{
    let r = filtered(items.drop_last(), f);
    if matches_filter(items.last(), f) && x == items.last() {
        assert(items[items.len() - 1] == x);
    } else {
        if matches_filter(items.last(), f) {
            let k = choose|k: int| 0 <= k < filtered(items, f).len() && filtered(items, f)[k] == x;
            assert(k < r.len());
            assert(r[k] == x);
        }
        assert(r.contains(x));
        lemma_filtered_within(items.drop_last(), f, x);
        let j = choose|j: int| 0 <= j < items.drop_last().len() && items.drop_last()[j] == x;
        assert(items[j] == x);
    }
}

/// Every item a non-empty search leaves on the list matches it, ignoring
/// case.
pub proof fn law_filter_matches(app: App, i: int)
    requires
        app.filter@.len() > 0,
        0 <= i < visible(app).len(),
    ensures
        matches_filter(visible(app)[i], app.filter@),
        all_items(app).contains(visible(app)[i]),
{
    assert(filtered(all_items(app), app.filter@).contains(visible(app)[i]));
    lemma_filtered_within(all_items(app), app.filter@, visible(app)[i]);
}

/// Moving up or down keeps a cursor that is on the list on the list.
pub proof fn law_cursor_stays_on_list(old: App, new: App)
    requires
        moved_down(old, new) || moved_up(old, new),
        old.selected < visible(old).len(),
    ensures
        new.selected < visible(new).len(),
{
}

/// Renaming a provider leaves nothing pointing at the old name: the provider
/// is held under the new name only, and every model and specialist that was
/// on it is on the new name.
pub proof fn law_rename_repoints_referrers(old: App, new: App, to: Seq<char>, e: Effect, from: Seq<char>)
    requires
        renamed(old, new, to, e),
        old.registry.providers.names().no_duplicates(),
        level_of(old) == LevelView::Providers,
        current_of(old) == Some(from),
        old.registry.providers.has(from),
        trim_seq(to).len() > 0,
        trim_seq(to) != from,
    ensures
        !new.registry.providers.has(from),
        new.registry.providers.has(trim_seq(to)),
        forall|i: int| 0 <= i < new.registry.models@.len() ==> (#[trigger] new.registry.models@[i]).1.provider@ != from,
        forall|i: int| 0 <= i < new.registry.specialists@.len() ==> (#[trigger] new.registry.specialists@[i]).1.provider@ != from,
        forall|i: int| 0 <= i < old.registry.models@.len() && old.registry.models@[i].1.provider@ == from ==> (#[trigger] new.registry.models@[i]).1.provider@ == trim_seq(to),
{
    let t = trim_seq(to);
    let d = choose|d: ProviderDef|
        d.name@ == t && d.api == old.registry.providers.lookup(from).unwrap().api && d.base_url
            == old.registry.providers.lookup(from).unwrap().base_url && d.api_key_env
            == old.registry.providers.lookup(from).unwrap().api_key_env && d.constrained_decoding
            == old.registry.providers.lookup(from).unwrap().constrained_decoding
            && new.registry.providers@ == #[trigger] inserted_in(old.registry.providers.removed(from), t, d);
    let mid = old.registry.providers.removed(from);
    assert(t.len() > 0 && t != from);
    assert(e == Effect::Save);
    assert(new.registry.providers@ == inserted_in(mid, t, d));
    law_remove_lookup(old.registry.providers, mid, from, from);
    assert(lookup_in(mid, from) is None);
    assert(!crate::names::has_in(mid, from));
    assert forall|i: int| 0 <= i < new.registry.providers@.len() implies (#[trigger] new.registry.providers@[i]).0 != from by {
        if crate::names::has_in(mid, t) {
            crate::names::lemma_position_in(mid, t);
            let p = crate::names::position_in(mid, t);
            assert(new.registry.providers@ == mid.update(p, (t, d)));
            if i != p {
                assert(new.registry.providers@[i] == mid[i]);
                assert(mid[i].0 != from);
            }
        } else {
            assert(new.registry.providers@ == mid.push((t, d)));
            if i < mid.len() {
                assert(new.registry.providers@[i] == mid[i]);
                assert(mid[i].0 != from);
            }
        }
    }
    if crate::names::has_in(mid, t) {
        let i = choose|i: int| 0 <= i < mid.len() && #[trigger] mid[i].0 == t;
        crate::names::lemma_position_in(mid, t);
        let p = crate::names::position_in(mid, t);
        assert(new.registry.providers@[p].0 == t);
    } else {
        assert(new.registry.providers@[mid.len() as int].0 == t);
    }
    assert forall|i: int| 0 <= i < new.registry.models@.len() implies (#[trigger] new.registry.models@[i]).1.provider@ != from by {
        assert(old.registry.models@[i] == old.registry.models@[i]);
    }
    assert forall|i: int| 0 <= i < new.registry.specialists@.len() implies (#[trigger] new.registry.specialists@[i]).1.provider@ != from by {
        assert(old.registry.specialists@[i] == old.registry.specialists@[i]);
    }
}

/// Drilling into a provider and popping back out lands on that provider, with
/// or without a search active when drilling.
pub proof fn law_drill_then_left_returns(a: App, b: App, c: App, p: Seq<char>)
    requires
        level_of(a) == LevelView::Providers,
        current_of(a) == Some(p),
        opened(a, b),
        moved_left(b, c),
    ensures
        level_of(c) == LevelView::Providers,
        current_of(c) == Some(p),
{
    let all = items_at(a.registry, a.tools@, LevelView::Providers);
    assert(visible(a)[a.selected as int] == p);
    if a.filter@.len() > 0 {
        assert(visible(a).contains(p));
        lemma_filtered_within(all, a.filter@, p);
    } else {
        assert(all.contains(p));
    }
    assert(level_of(b) == LevelView::Models(p));
    assert(visible(c) == all);
}

/// Confirming a delete removes the item under the cursor: a registry entity
/// is no longer held, a tool's script removal is requested.
pub proof fn law_delete_removes(old: App, new: App, e: Effect, name: Seq<char>)
    requires
        deleted(old, new, e),
        current_of(old) == Some(name),
        old.registry.providers.names().no_duplicates(),
        old.registry.models.names().no_duplicates(),
        old.registry.specialists.names().no_duplicates(),
    ensures
        match level_of(old) {
            LevelView::Providers => !new.registry.providers.has(name),
            LevelView::Models(_) => !new.registry.models.has(name),
            LevelView::Specialists => !new.registry.specialists.has(name),
            LevelView::Tools => e matches Effect::RemoveTool(n) && n@ == name,
        },
{
    match level_of(old) {
        LevelView::Providers => {
            law_remove_lookup(old.registry.providers, new.registry.providers@, name, name);
        },
        LevelView::Models(_) => {
            law_remove_lookup(old.registry.models, new.registry.models@, name, name);
        },
        LevelView::Specialists => {
            law_remove_lookup(old.registry.specialists, new.registry.specialists@, name, name);
        },
        LevelView::Tools => {},
    }
}

/// Confirming an add of a registry entity stores a fresh stub under the
/// (trimmed) name.
pub proof fn law_add_stores_stub(old: App, new: App, name: Seq<char>, e: Effect)
    requires
        added(old, new, name, e),
        trim_seq(name).len() > 0,
    ensures
        match level_of(old) {
            LevelView::Providers => new.registry.providers.lookup(trim_seq(name)) matches Some(d)
                && provider_stub(d, trim_seq(name)),
            LevelView::Models(p) => new.registry.models.lookup(trim_seq(name)) matches Some(d)
                && model_stub(d, trim_seq(name), p),
            LevelView::Specialists => new.registry.specialists.lookup(trim_seq(name)) matches Some(d)
                && specialist_stub(d, trim_seq(name)),
            LevelView::Tools => new.registry == old.registry,
        },
{
    let t = trim_seq(name);
    match level_of(old) {
        LevelView::Providers => {
            let d = choose|d: ProviderDef|
                provider_stub(d, t) && new.registry.providers@ == #[trigger] old.registry.providers.inserted(t, d);
            law_insert_lookup(old.registry.providers, new.registry.providers@, t, d, t);
        },
        LevelView::Models(p) => {
            let d = choose|d: ModelDef|
                model_stub(d, t, p) && new.registry.models@ == #[trigger] old.registry.models.inserted(t, d);
            law_insert_lookup(old.registry.models, new.registry.models@, t, d, t);
        },
        LevelView::Specialists => {
            let d = choose|d: Specialist|
                specialist_stub(d, t) && new.registry.specialists@ == #[trigger] old.registry.specialists.inserted(t, d);
            law_insert_lookup(old.registry.specialists, new.registry.specialists@, t, d, t);
        },
        LevelView::Tools => {},
    }
}

// ---------------------------------------------------------------------------
// The tab bar
// ---------------------------------------------------------------------------

/// Where chip `i` of the tab bar starts: after a leading space, each tab's
/// chip is its title plus a space on each side, then a space.
pub open spec fn chip_start(i: nat) -> int
    decreases i,
{
    if i == 0 {
        1
    } else {
        chip_start((i - 1) as nat) + tab_index(i - 1).unwrap().spec_title().len() + 3
    }
}

/// Column `x` lies on chip `i`.
pub open spec fn on_chip(x: int, i: nat) -> bool {
    chip_start(i) <= x < chip_start(i) + tab_index(i as int).unwrap().spec_title().len() + 2
}

/// The tab whose chip is under column `x`, if any.
pub open spec fn tab_under(x: int) -> Option<nat> {
    if on_chip(x, 0) {
        Some(0)
    } else if on_chip(x, 1) {
        Some(1)
    } else if on_chip(x, 2) {
        Some(2)
    } else {
        None
    }
}

/// Which tab's chip, if any, sits under column `x` of the tab bar.
pub fn tab_at_x(x: u16) -> (r: Option<usize>)
    ensures
        match tab_under(x as int) {
            Some(i) => r == Some(i as usize),
            None => r is None,
        },
{
    proof {
        reveal_strlit("Providers");
        reveal_strlit("Specialists");
        reveal_strlit("Tools");
        reveal_with_fuel(chip_start, 3);
    }
    let mut start: u16 = 1;
    let mut i: usize = 0;
    while i < 3
        invariant
            i <= 3,
            start as int == chip_start(i as nat),
            forall|j: nat| j < i ==> !on_chip(x as int, j),
            "Providers"@.len() == 9,
            "Specialists"@.len() == 11,
            "Tools"@.len() == 5,
        decreases 3 - i,
    {
        proof {
            reveal_with_fuel(chip_start, 3);
        }
        let tab = match Tab::at(i) {
            Some(t) => t,
            None => {
                return None;
            },
        };
        let width = tab.title().unicode_len() as u16 + 2;
        if start <= x && x < start + width {
            return Some(i);
        }
        start = start + width + 1;
        i += 1;
    }
    None
}

} // verus!
