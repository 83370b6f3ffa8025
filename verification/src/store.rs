//! The persisted aggregate: what is kept for each desktop, and the
//! mathematical model that the contracts of the other modules speak of.
//!
//! Every record is keyed by the identifier of its space. The aggregate is
//! plain data: whoever owns it guards it and writes it out.

use std::collections::HashMap;
use vstd::prelude::*;

verus! {

/// The number of snapshots kept per desktop; the oldest go first.
pub const MAX_HISTORY_PER_DESKTOP: usize = 20;

/// One entry of a todo list.
#[derive(Debug, PartialEq, Eq)]
pub struct TodoItem {
    pub id: String,
    pub text: String,
    pub done: bool,
}

/// What a `TodoItem` stands for.
pub struct TodoModel {
    pub id: Seq<char>,
    pub text: Seq<char>,
    pub done: bool,
}

impl View for TodoItem {
    type V = TodoModel;

    open spec fn view(&self) -> TodoModel {
        TodoModel { id: self.id@, text: self.text@, done: self.done }
    }
}

impl Clone for TodoItem {
    fn clone(&self) -> (copy: Self)
        ensures
            copy == *self,
    {
        TodoItem { id: self.id.clone(), text: self.text.clone(), done: self.done }
    }
}

/// What a desktop held when a session ended.
#[derive(Debug, PartialEq, Eq)]
pub struct SavedContext {
    pub title: String,
    pub todos: Vec<TodoItem>,
    /// When the session ended, as an RFC 3339 timestamp.
    pub saved_at: String,
}

/// What a `SavedContext` stands for.
pub struct ContextModel {
    pub title: Seq<char>,
    pub todos: Seq<TodoModel>,
    pub saved_at: Seq<char>,
}

impl View for SavedContext {
    type V = ContextModel;

    open spec fn view(&self) -> ContextModel {
        ContextModel {
            title: self.title@,
            todos: todos_view(self.todos@),
            saved_at: self.saved_at@,
        }
    }
}

impl Clone for SavedContext {
    fn clone(&self) -> (copy: Self)
        ensures
            copy@ == self@,
    {
        SavedContext {
            title: self.title.clone(),
            todos: clone_todos(&self.todos),
            saved_at: self.saved_at.clone(),
        }
    }
}

/// A todo that was completed, kept for the record.
#[derive(Debug, PartialEq, Eq)]
pub struct CompletedItem {
    pub id: String,
    pub text: String,
    pub desktop_id: i64,
    /// When the todo was completed, as an RFC 3339 timestamp.
    pub completed_at: String,
}

/// What a `CompletedItem` stands for.
pub struct CompletedModel {
    pub id: Seq<char>,
    pub text: Seq<char>,
    pub desktop_id: i64,
    pub completed_at: Seq<char>,
}

impl View for CompletedItem {
    type V = CompletedModel;

    open spec fn view(&self) -> CompletedModel {
        CompletedModel {
            id: self.id@,
            text: self.text@,
            desktop_id: self.desktop_id,
            completed_at: self.completed_at@,
        }
    }
}

impl Clone for CompletedItem {
    fn clone(&self) -> (copy: Self)
        ensures
            copy == *self,
    {
        CompletedItem {
            id: self.id.clone(),
            text: self.text.clone(),
            desktop_id: self.desktop_id,
            completed_at: self.completed_at.clone(),
        }
    }
}

/// The preferences.
#[derive(Debug, PartialEq, Eq)]
pub struct Settings {
    /// The colors that were chosen for single desktops.
    pub custom_colors: HashMap<i64, String>,
    pub setup_complete: bool,
    pub desktop_count: u32,
    /// Timer lengths on offer, in seconds.
    pub timer_presets: Vec<u32>,
    pub notify_system: bool,
    pub notify_flash: bool,
    pub hidden_panels: Vec<String>,
}

/// What `Settings` stand for.
pub struct SettingsModel {
    pub custom_colors: Map<i64, Seq<char>>,
    pub setup_complete: bool,
    pub desktop_count: u32,
    pub timer_presets: Seq<u32>,
    pub notify_system: bool,
    pub notify_flash: bool,
    pub hidden_panels: Seq<Seq<char>>,
}

impl View for Settings {
    type V = SettingsModel;

    open spec fn view(&self) -> SettingsModel {
        SettingsModel {
            custom_colors: titles_view(self.custom_colors@),
            setup_complete: self.setup_complete,
            desktop_count: self.desktop_count,
            timer_presets: self.timer_presets@,
            notify_system: self.notify_system,
            notify_flash: self.notify_flash,
            hidden_panels: strings_view(self.hidden_panels@),
        }
    }
}

impl Clone for Settings {
    fn clone(&self) -> (copy: Self)
        ensures
            copy@ == self@,
    {
        let copy = Settings {
            custom_colors: self.custom_colors.clone(),
            setup_complete: self.setup_complete,
            desktop_count: self.desktop_count,
            timer_presets: self.timer_presets.clone(),
            notify_system: self.notify_system,
            notify_flash: self.notify_flash,
            hidden_panels: self.hidden_panels.clone(),
        };
        assert(copy.timer_presets@ =~= self.timer_presets@);
        assert(copy@.hidden_panels =~= self@.hidden_panels);
        copy
    }
}

/// The root aggregate.
#[derive(Debug, PartialEq, Eq)]
pub struct PersistData {
    /// The todo list of each desktop.
    pub notes: HashMap<i64, Vec<TodoItem>>,
    /// The title of each desktop. An empty title is not stored.
    pub titles: HashMap<i64, String>,
    pub settings: Settings,
    /// The layout version: 0 keys by position, 1 by space identifier.
    pub version: u32,
    /// The snapshots of each desktop, oldest first.
    pub context_history: HashMap<i64, Vec<SavedContext>>,
    pub completed: Vec<CompletedItem>,
}

impl Clone for PersistData {
    fn clone(&self) -> (copy: Self)
        ensures
            copy@ == self@,
    {
        let mut completed: Vec<CompletedItem> = Vec::new();
        let mut i: usize = 0;
        while i < self.completed.len()
            invariant
                i <= self.completed.len(),
                completed@ == self.completed@.take(i as int),
            decreases self.completed.len() - i,
        {
            completed.push(self.completed[i].clone());
            assert(completed@ =~= self.completed@.take(i + 1));
            i += 1;
        }
        assert(self.completed@.take(self.completed.len() as int) =~= self.completed@);
        PersistData {
            notes: self.notes.clone(),
            titles: self.titles.clone(),
            settings: self.settings.clone(),
            version: self.version,
            context_history: self.context_history.clone(),
            completed,
        }
    }
}

/// What the aggregate stands for.
pub struct PersistModel {
    pub notes: Map<i64, Seq<TodoModel>>,
    pub titles: Map<i64, Seq<char>>,
    pub settings: SettingsModel,
    pub version: u32,
    pub context_history: Map<i64, Seq<ContextModel>>,
    pub completed: Seq<CompletedModel>,
}

impl View for PersistData {
    type V = PersistModel;

    open spec fn view(&self) -> PersistModel {
        PersistModel {
            notes: notes_view(self.notes@),
            titles: titles_view(self.titles@),
            settings: self.settings@,
            version: self.version,
            context_history: history_view(self.context_history@),
            completed: completed_view(self.completed@),
        }
    }
}

/// The views of a list of strings.
pub open spec fn strings_view(strings: Seq<String>) -> Seq<Seq<char>> {
    strings.map_values(|s: String| s@)
}

/// The views of a todo list.
pub open spec fn todos_view(todos: Seq<TodoItem>) -> Seq<TodoModel> {
    todos.map_values(|t: TodoItem| t@)
}

/// The views of a list of snapshots.
pub open spec fn contexts_view(contexts: Seq<SavedContext>) -> Seq<ContextModel> {
    contexts.map_values(|c: SavedContext| c@)
}

/// The views of a list of completed todos.
pub open spec fn completed_view(items: Seq<CompletedItem>) -> Seq<CompletedModel> {
    items.map_values(|c: CompletedItem| c@)
}

/// The views of the todo lists of a map.
pub open spec fn notes_view(notes: Map<i64, Vec<TodoItem>>) -> Map<i64, Seq<TodoModel>> {
    notes.map_values(|todos: Vec<TodoItem>| todos_view(todos@))
}

/// The views of the strings of a map.
pub open spec fn titles_view(titles: Map<i64, String>) -> Map<i64, Seq<char>> {
    titles.map_values(|title: String| title@)
}

/// The views of the snapshot lists of a map.
pub open spec fn history_view(history: Map<i64, Vec<SavedContext>>) -> Map<
    i64,
    Seq<ContextModel>,
> {
    history.map_values(|contexts: Vec<SavedContext>| contexts_view(contexts@))
}

/// The timer lengths that a fresh installation offers.
pub open spec fn default_presets() -> Seq<u32> {
    seq![60u32, 300u32, 600u32]
}

/// The preferences of a fresh installation.
pub open spec fn default_settings() -> SettingsModel {
    SettingsModel {
        custom_colors: Map::empty(),
        setup_complete: false,
        desktop_count: 10,
        timer_presets: default_presets(),
        notify_system: true,
        notify_flash: true,
        hidden_panels: Seq::empty(),
    }
}

/// The aggregate of a fresh installation: nothing stored, layout version 0.
pub open spec fn fresh_store() -> PersistModel {
    PersistModel {
        notes: Map::empty(),
        titles: Map::empty(),
        settings: default_settings(),
        version: 0,
        context_history: Map::empty(),
        completed: Seq::empty(),
    }
}

/// The todo list of `desktop`, empty where none is stored.
pub open spec fn todos_of(store: PersistModel, desktop: i64) -> Seq<TodoModel> {
    if store.notes.contains_key(desktop) {
        store.notes[desktop]
    } else {
        Seq::empty()
    }
}

/// The title of `desktop`, empty where none is stored.
pub open spec fn title_of(store: PersistModel, desktop: i64) -> Seq<char> {
    if store.titles.contains_key(desktop) {
        store.titles[desktop]
    } else {
        Seq::empty()
    }
}

/// The snapshots of `desktop`, oldest first, none where none is stored.
pub open spec fn history_of(store: PersistModel, desktop: i64) -> Seq<ContextModel> {
    if store.context_history.contains_key(desktop) {
        store.context_history[desktop]
    } else {
        Seq::empty()
    }
}

/// The name of the file that holds the aggregate. Development builds keep
/// a file of their own, so that they do not clobber the real one.
pub fn data_file_name(development: bool) -> (name: &'static str)
    ensures
        name@ == if development {
            "notes-dev.json"@
        } else {
            "notes.json"@
        },
{
    if development {
        "notes-dev.json"
    } else {
        "notes.json"
    }
}

/// The aggregate to start from: what was read and parsed, and a fresh
/// aggregate where nothing could be read or what was read did not parse.
/// A first run and a corrupted file are told apart by nobody.
pub fn load_data(parsed: Option<PersistData>) -> (data: PersistData)
    ensures
        match parsed {
            Some(stored) => data == stored,
            None => data@ == fresh_store(),
        },
{
    match parsed {
        Some(stored) => stored,
        None => PersistData::default(),
    }
}

/// A copy of a todo list.
pub fn clone_todos(todos: &Vec<TodoItem>) -> (copy: Vec<TodoItem>)
    ensures
        copy@ == todos@,
{
    let mut copy: Vec<TodoItem> = Vec::new();
    let mut i: usize = 0;
    while i < todos.len()
        invariant
            i <= todos.len(),
            copy@ == todos@.take(i as int),
        decreases todos.len() - i,
    {
        copy.push(todos[i].clone());
        assert(copy@ =~= todos@.take(i + 1));
        i += 1;
    }
    assert(todos@.take(todos.len() as int) =~= todos@);
    copy
}

/// The desktop count that stands in where none is stored.
pub fn default_desktop_count() -> (count: u32)
    ensures
        count == default_settings().desktop_count,
{
    10
}

/// The timer lengths that stand in where none are stored.
pub fn default_timer_presets() -> (presets: Vec<u32>)
    ensures
        presets@ == default_settings().timer_presets,
{
    let mut presets: Vec<u32> = Vec::new();
    presets.push(60);
    presets.push(300);
    presets.push(600);
    assert(presets@ =~= default_presets());
    presets
}

/// Whether system notifications are on where nothing is stored.
pub fn default_notify_system() -> (on: bool)
    ensures
        on == default_settings().notify_system,
{
    true
}

/// Whether the flash notification is on where nothing is stored.
pub fn default_notify_flash() -> (on: bool)
    ensures
        on == default_settings().notify_flash,
{
    true
}

/// The layout version that stands in where none is stored: the oldest.
pub fn default_version() -> (version: u32)
    ensures
        version == fresh_store().version,
{
    0
}

impl Default for Settings {
    fn default() -> (settings: Self)
        ensures
            settings@ == default_settings(),
    {
        let settings = Settings {
            custom_colors: HashMap::new(),
            setup_complete: false,
            desktop_count: default_desktop_count(),
            timer_presets: default_timer_presets(),
            notify_system: default_notify_system(),
            notify_flash: default_notify_flash(),
            hidden_panels: Vec::new(),
        };
        assert(settings@.custom_colors =~= Map::empty());
        assert(settings@.hidden_panels =~= Seq::empty());
        settings
    }
}

impl Default for PersistData {
    fn default() -> (data: Self)
        ensures
            data@ == fresh_store(),
    {
        let data = PersistData {
            notes: HashMap::new(),
            titles: HashMap::new(),
            settings: Settings::default(),
            version: default_version(),
            context_history: HashMap::new(),
            completed: Vec::new(),
        };
        assert(data@.notes =~= Map::empty());
        assert(data@.titles =~= Map::empty());
        assert(data@.context_history =~= Map::empty());
        assert(data@.completed =~= Seq::empty());
        data
    }
}

} // verus!
