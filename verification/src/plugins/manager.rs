//! The registries of loaded extensions.
//!
//! Each registry is append-only: registration puts an entry behind all
//! earlier ones and nothing ever leaves. Lookups go by position, and where
//! several entries qualify the one registered first wins.

use std::sync::Arc;
use vstd::prelude::*;
use crate::text::{append, decimal, decimal_spec};
use crate::plugins::types::{
    CommandInfo,
    CommandRegistrar,
    CommandView,
    EventRegistrar,
    EventType,
    ManagerView,
    PluginInfo,
    PluginRegistrar,
    Registrar,
};

verus! {

/// The first position at or after `from` whose command answers to `token`.
pub open spec fn resolve_from(commands: Seq<CommandView>, token: Seq<char>, from: int) -> Option<
    int,
>
    decreases commands.len() - from,
{
    if from < 0 || from >= commands.len() {
        None
    } else if commands[from].answers_to(token) {
        Some(from)
    } else {
        resolve_from(commands, token, from + 1)
    }
}

/// The position of the command that a first token of `token` selects:
/// the first registered one that answers to it.
pub open spec fn resolve(commands: Seq<CommandView>, token: Seq<char>) -> Option<int> {
    resolve_from(commands, token, 0)
}

/// The first position at or after `from` that holds an event of type `ty`.
pub open spec fn next_event(events: Seq<EventType>, ty: EventType, from: int) -> Option<int>
    decreases events.len() - from,
{
    if from < 0 || from >= events.len() {
        None
    } else if events[from] == ty {
        Some(from)
    } else {
        next_event(events, ty, from + 1)
    }
}

/// `resolve_from` finds a position exactly when some command at or after
/// `from` answers to the token, and then it is the first such position.
pub proof fn lemma_resolve_from(commands: Seq<CommandView>, token: Seq<char>, from: int)
    requires
        0 <= from,
    ensures
        match resolve_from(commands, token, from) {
            Some(i) => from <= i < commands.len() && commands[i].answers_to(token) && forall|
                j: int,
            | from <= j < i ==> !(#[trigger] commands[j]).answers_to(token),
            None => forall|j: int|
                from <= j < commands.len() ==> !(#[trigger] commands[j]).answers_to(token),
        },
    decreases commands.len() - from,
{
    if from < commands.len() && !commands[from].answers_to(token) {
        lemma_resolve_from(commands, token, from + 1);
    }
}

/// What a first token resolves to never changes by later registrations:
/// the command that was registered first keeps the name, whatever is
/// registered behind it.
pub proof fn law_earlier_registration_wins(
    commands: Seq<CommandView>,
    later: Seq<CommandView>,
    token: Seq<char>,
)
    requires
        resolve(commands, token) is Some,
    ensures
        resolve(commands + later, token) == resolve(commands, token),
{
    lemma_resolve_from(commands, token, 0);
    lemma_resolve_from(commands + later, token, 0);
    let first = resolve(commands, token)->0;
    assert((commands + later)[first] == commands[first]);
    assert forall|j: int| 0 <= j < first implies (commands + later)[j] == commands[j] by {}
    match resolve(commands + later, token) {
        Some(found) => {
            if found < first {
                assert((commands + later)[found] == commands[found]);
            } else if found > first {
                assert((commands + later)[first].answers_to(token));
            }
        },
        None => {
            assert((commands + later)[first].answers_to(token));
        },
    }
}

/// `next_event` finds a position exactly when some event at or after
/// `from` has the type, and then it is the first such position.
pub proof fn lemma_next_event(events: Seq<EventType>, ty: EventType, from: int)
    requires
        0 <= from,
    ensures
        match next_event(events, ty, from) {
            Some(i) => from <= i < events.len() && events[i] == ty && forall|j: int|
                from <= j < i ==> #[trigger] events[j] != ty,
            None => forall|j: int| from <= j < events.len() ==> #[trigger] events[j] != ty,
        },
    decreases events.len() - from,
{
    if from < events.len() && events[from] != ty {
        lemma_next_event(events, ty, from + 1);
    }
}

/// The line that tells how much is registered.
pub open spec fn summary_spec(manager: ManagerView) -> Seq<char> {
    "PluginsManager { plugins: "@ + decimal_spec(manager.plugins.len()) + ", commands: "@
        + decimal_spec(manager.commands.len()) + ", events: "@ + decimal_spec(
        manager.events.len(),
    ) + " }"@
}

/// The registry of loaded plugins.
#[derive(Debug)]
pub struct PluginManager {
    plugins: Vec<PluginInfo>,
}

impl View for PluginManager {
    type V = Seq<Seq<char>>;

    closed spec fn view(&self) -> Seq<Seq<char>> {
        Seq::new(self.plugins@.len(), |i: int| self.plugins@[i]@)
    }
}

impl PluginManager {
    /// A registry that holds no plugin.
    pub fn new() -> (manager: PluginManager)
        ensures
            manager@ == Seq::<Seq<char>>::empty(),
    {
        PluginManager { plugins: Vec::new() }
    }

    /// How many plugins are registered.
    pub fn len(&self) -> (n: usize)
        ensures
            n == self@.len(),
    {
        self.plugins.len()
    }

    /// The plugin registered at `position`, if there is one.
    pub fn get(&self, position: usize) -> (plugin: Option<&PluginInfo>)
        ensures
            position < self@.len() ==> plugin is Some && plugin->0@ == self@[position as int],
            position >= self@.len() ==> plugin is None,
    {
        if position < self.plugins.len() {
            Some(&self.plugins[position])
        } else {
            None
        }
    }
}

impl PluginRegistrar for PluginManager {
    open spec fn plugin_names(&self) -> Seq<Seq<char>> {
        self@
    }

    fn register_plugin(&mut self, plugin: PluginInfo) {
        assert(Seq::new(self.plugins@.push(plugin).len(), |i: int| self.plugins@.push(plugin)[i]@)
            == Seq::new(self.plugins@.len(), |i: int| self.plugins@[i]@).push(plugin@));
        self.plugins.push(plugin);
    }
}

impl Default for PluginManager {
    fn default() -> (manager: PluginManager)
        ensures
            manager@ == Seq::<Seq<char>>::empty(),
    {
        PluginManager::new()
    }
}

/// The registry of commands, built-in and loaded alike.
#[derive(Debug)]
pub struct CommandManager {
    commands: Vec<CommandInfo>,
}

impl View for CommandManager {
    type V = Seq<CommandView>;

    closed spec fn view(&self) -> Seq<CommandView> {
        Seq::new(self.commands@.len(), |i: int| self.commands@[i]@)
    }
}

impl CommandManager {
    /// A registry that holds no command.
    pub fn new() -> (manager: CommandManager)
        ensures
            manager@ == Seq::<CommandView>::empty(),
    {
        CommandManager { commands: Vec::new() }
    }

    /// How many commands are registered.
    pub fn len(&self) -> (n: usize)
        ensures
            n == self@.len(),
    {
        self.commands.len()
    }

    /// The command registered at `position`, if there is one.
    pub fn get(&self, position: usize) -> (command: Option<&CommandInfo>)
        ensures
            position < self@.len() ==> command is Some && command->0@ == self@[position as int],
            position >= self@.len() ==> command is None,
    {
        if position < self.commands.len() {
            Some(&self.commands[position])
        } else {
            None
        }
    }

    /// The position of the command that a first token of `token` selects.
    /// Among several commands that answer to it, the one registered first
    /// is chosen.
    pub fn find(&self, token: &str) -> (position: Option<usize>)
        ensures
            match position {
                Some(i) => resolve(self@, token@) == Some(i as int),
                None => resolve(self@, token@) is None,
            },
    {
        let mut i: usize = 0;
        while i < self.commands.len()
            invariant
                i <= self.commands.len(),
                resolve(self@, token@) == resolve_from(self@, token@, i as int),
            decreases self.commands.len() - i,
        {
            if self.commands[i].answers_to(token) {
                return Some(i);
            }
            i += 1;
        }
        None
    }
}

impl CommandRegistrar for CommandManager {
    open spec fn command_views(&self) -> Seq<CommandView> {
        self@
    }

    fn register_command(&mut self, command: CommandInfo) {
        assert(Seq::new(
            self.commands@.push(command).len(),
            |i: int| self.commands@.push(command)[i]@,
        ) == Seq::new(self.commands@.len(), |i: int| self.commands@[i]@).push(command@));
        self.commands.push(command);
    }
}

impl Default for CommandManager {
    fn default() -> (manager: CommandManager)
        ensures
            manager@ == Seq::<CommandView>::empty(),
    {
        CommandManager::new()
    }
}

/// The registry of events: for each registered event, the point at which
/// it fires.
#[derive(Debug)]
pub struct EventManager {
    events: Vec<EventType>,
}

impl View for EventManager {
    type V = Seq<EventType>;

    closed spec fn view(&self) -> Seq<EventType> {
        self.events@
    }
}

impl EventManager {
    /// A registry that holds no event.
    pub fn new() -> (manager: EventManager)
        ensures
            manager@ == Seq::<EventType>::empty(),
    {
        EventManager { events: Vec::new() }
    }

    /// How many events are registered.
    pub fn len(&self) -> (n: usize)
        ensures
            n == self@.len(),
    {
        self.events.len()
    }

    /// The type of the event registered at `position`, if there is one.
    pub fn get(&self, position: usize) -> (event: Option<EventType>)
        ensures
            position < self@.len() ==> event == Some(self@[position as int]),
            position >= self@.len() ==> event is None,
    {
        if position < self.events.len() {
            Some(self.events[position])
        } else {
            None
        }
    }

    /// The first event of type `ty` registered at position `from` or
    /// later. Asking again from one past each answer walks all events of the
    /// type in registration order.
    pub fn check_event(&self, ty: EventType, from: usize) -> (position: Option<usize>)
        ensures
            match position {
                Some(i) => next_event(self@, ty, from as int) == Some(i as int),
                None => next_event(self@, ty, from as int) is None,
            },
    {
        let mut i: usize = from;
        while i < self.events.len()
            invariant
                from <= i,
                next_event(self@, ty, from as int) == next_event(self@, ty, i as int),
            decreases self.events.len() - i,
        {
            if self.events[i] == ty {
                return Some(i);
            }
            i += 1;
        }
        None
    }
}

impl EventRegistrar for EventManager {
    open spec fn event_types(&self) -> Seq<EventType> {
        self@
    }

    fn register_event(&mut self, event: EventType) {
        self.events.push(event);
    }
}

impl Default for EventManager {
    fn default() -> (manager: EventManager)
        ensures
            manager@ == Seq::<EventType>::empty(),
    {
        EventManager::new()
    }
}

/// Everything that was loaded: plugins, commands and events. It is filled
/// once, before the first connection is accepted, and only read afterwards.
#[derive(Debug)]
pub struct PluginsManager {
    /// All loaded plugins.
    pub plugins: PluginManager,
    /// All commands, the built-in ones first.
    pub commands: CommandManager,
    /// All loaded events.
    pub events: EventManager,
}

impl View for PluginsManager {
    type V = ManagerView;

    open spec fn view(&self) -> ManagerView {
        ManagerView { plugins: self.plugins@, commands: self.commands@, events: self.events@ }
    }
}

impl PluginsManager {
    /// A manager whose three registries are empty.
    pub fn new() -> (manager: PluginsManager)
        ensures
            manager@ == (ManagerView {
                plugins: Seq::empty(),
                commands: Seq::empty(),
                events: Seq::empty(),
            }),
    {
        PluginsManager {
            plugins: PluginManager::new(),
            commands: CommandManager::new(),
            events: EventManager::new(),
        }
    }

    /// One line that tells how much is registered, such as
    /// `PluginsManager { plugins: 1, commands: 5, events: 0 }`.
    pub fn summary(&self) -> (line: String)
        ensures
            line@ == summary_spec(self@),
    {
        let plugins = decimal(self.plugins.len());
        let commands = decimal(self.commands.len());
        let events = decimal(self.events.len());
        let line = append("PluginsManager { plugins: ", plugins.as_str());
        let line = append(line.as_str(), ", commands: ");
        let line = append(line.as_str(), commands.as_str());
        let line = append(line.as_str(), ", events: ");
        let line = append(line.as_str(), events.as_str());
        append(line.as_str(), " }")
    }

    /// The manager behind a shared handle, as connections hold it.
    pub fn into(self) -> (shared: Arc<PluginsManager>)
        ensures
            *shared == self,
    {
        Arc::new(self)
    }
}

impl Registrar for PluginsManager {
    open spec fn registered(&self) -> ManagerView {
        self@
    }

    fn register_plugins(&mut self, plugin: PluginInfo) {
        self.plugins.register_plugin(plugin);
    }

    fn register_commands(&mut self, command: CommandInfo) {
        self.commands.register_command(command);
    }

    fn register_events(&mut self, event: EventType) {
        self.events.register_event(event);
    }
}

impl Default for PluginsManager {
    fn default() -> (manager: PluginsManager)
        ensures
            manager@ == (ManagerView {
                plugins: Seq::empty(),
                commands: Seq::empty(),
                events: Seq::empty(),
            }),
    {
        PluginsManager::new()
    }
}

} // verus!
