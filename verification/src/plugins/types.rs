//! What an extension is to the server: the identity of a plugin, of a
//! command and of an event, and the interfaces through which a loaded
//! library registers them.

use vstd::prelude::*;
use crate::server::client::Client;
use crate::text::{same, slice_texts, texts};

verus! {

/// The points of a connection's life at which events fire.
#[derive(Debug, Clone, Copy, PartialEq, Eq, Structural)]
pub enum EventType {
    /// Once, when the client has connected.
    OnConnect,
    /// For every unit of input that the client sent.
    OnSend,
    /// Before a resolved command runs; a failure vetoes the command.
    OnCommand,
}

/// The identity of a loaded plugin.
#[derive(Debug, PartialEq, Eq)]
pub struct PluginInfo {
    /// Stable name of the plugin.
    pub name: String,
}

impl View for PluginInfo {
    type V = Seq<char>;

    open spec fn view(&self) -> Seq<char> {
        self.name@
    }
}

impl PluginInfo {
    /// The identity of the plugin called `name`.
    pub fn new(name: &str) -> (info: PluginInfo)
        ensures
            info@ == name@,
    {
        PluginInfo { name: name.to_owned() }
    }
}

/// What a command descriptor holds, as plain text.
pub struct CommandView {
    pub name: Seq<char>,
    pub aliases: Seq<Seq<char>>,
    pub help: Seq<char>,
    pub usage: Seq<char>,
}

impl CommandView {
    /// Whether a first token of `token` selects this command: it equals
    /// the name or one of the aliases.
    pub open spec fn answers_to(self, token: Seq<char>) -> bool {
        self.name == token || self.aliases.contains(token)
    }
}

/// The identity of a registered command: the text by which input selects
/// it and the text that describes it.
#[derive(Debug, PartialEq, Eq)]
pub struct CommandInfo {
    /// Name of the command, matched against the first token of a unit.
    pub name: String,
    /// Alternate names.
    pub aliases: Vec<String>,
    /// One-line description.
    pub help: String,
    /// How to call it.
    pub usage: String,
}

impl View for CommandInfo {
    type V = CommandView;

    open spec fn view(&self) -> CommandView {
        CommandView {
            name: self.name@,
            aliases: texts(self.aliases@),
            help: self.help@,
            usage: self.usage@,
        }
    }
}

impl CommandInfo {
    /// The descriptor made of the given texts.
    pub fn new(name: &str, aliases: Vec<&'static str>, help: &str, usage: &str) -> (info:
        CommandInfo)
        ensures
            info@ == (CommandView {
                name: name@,
                aliases: slice_texts(aliases@),
                help: help@,
                usage: usage@,
            }),
    {
        let mut owned: Vec<String> = Vec::new();
        let mut i: usize = 0;
        while i < aliases.len()
            invariant
                i <= aliases.len(),
                texts(owned@) == slice_texts(aliases@).take(i as int),
            decreases aliases.len() - i,
        {
            let alias: &str = aliases[i];
            let copy = alias.to_owned();
            assert(texts(owned@.push(copy)) == texts(owned@).push(copy@));
            assert(slice_texts(aliases@).take(i + 1) == slice_texts(aliases@).take(i as int).push(
                aliases@[i as int]@,
            ));
            owned.push(copy);
            i += 1;
        }
        assert(slice_texts(aliases@).take(aliases.len() as int) == slice_texts(aliases@));
        CommandInfo {
            name: name.to_owned(),
            aliases: owned,
            help: help.to_owned(),
            usage: usage.to_owned(),
        }
    }

    /// Whether a first token of `token` selects this command.
    pub fn answers_to(&self, token: &str) -> (hit: bool)
        ensures
            hit == self@.answers_to(token@),
    {
        if same(self.name.as_str(), token) {
            return true;
        }
        let mut i: usize = 0;
        while i < self.aliases.len()
            invariant
                i <= self.aliases.len(),
                forall|k: int| 0 <= k < i ==> texts(self.aliases@)[k] != token@,
            decreases self.aliases.len() - i,
        {
            if same(self.aliases[i].as_str(), token) {
                assert(texts(self.aliases@)[i as int] == token@);
                return true;
            }
            i += 1;
        }
        false
    }
}

/// The interface through which a loaded library registers plugins.
pub trait PluginRegistrar {
    /// The names of the plugins registered so far, oldest first.
    spec fn plugin_names(&self) -> Seq<Seq<char>>;

    /// Registers `plugin` behind everything registered before.
    fn register_plugin(&mut self, plugin: PluginInfo)
        ensures
            final(self).plugin_names() == old(self).plugin_names().push(plugin@),
    ;
}

/// The interface through which a loaded library registers commands.
pub trait CommandRegistrar {
    /// The commands registered so far, oldest first.
    spec fn command_views(&self) -> Seq<CommandView>;

    /// Registers `command` behind everything registered before.
    fn register_command(&mut self, command: CommandInfo)
        ensures
            final(self).command_views() == old(self).command_views().push(command@),
    ;
}

/// The interface through which a loaded library registers events.
pub trait EventRegistrar {
    /// The types of the events registered so far, oldest first.
    spec fn event_types(&self) -> Seq<EventType>;

    /// Registers an event of type `event` behind everything registered
    /// before.
    fn register_event(&mut self, event: EventType)
        ensures
            final(self).event_types() == old(self).event_types().push(event),
    ;
}

/// What the three registries hold together.
pub struct ManagerView {
    pub plugins: Seq<Seq<char>>,
    pub commands: Seq<CommandView>,
    pub events: Seq<EventType>,
}

/// The one interface that a plugin's entry point is handed: it registers
/// plugins, commands and events, each behind what its registry held before
/// and without touching the other two registries.
pub trait Registrar {
    /// Everything registered so far.
    spec fn registered(&self) -> ManagerView;

    /// Registers a plugin.
    fn register_plugins(&mut self, plugin: PluginInfo)
        ensures
            final(self).registered() == (ManagerView {
                plugins: old(self).registered().plugins.push(plugin@),
                ..old(self).registered()
            }),
    ;

    /// Registers a command.
    fn register_commands(&mut self, command: CommandInfo)
        ensures
            final(self).registered() == (ManagerView {
                commands: old(self).registered().commands.push(command@),
                ..old(self).registered()
            }),
    ;

    /// Registers an event.
    fn register_events(&mut self, event: EventType)
        ensures
            final(self).registered() == (ManagerView {
                events: old(self).registered().events.push(event),
                ..old(self).registered()
            }),
    ;
}

/// What a command or an event asks the server to do for it. The
/// extension decides; the server acts.
#[derive(Debug, PartialEq, Eq)]
pub enum Effect {
    /// Send the text to the client that the extension ran for.
    Send(String),
    /// Send the text to the client with the given id.
    SendTo(usize, String),
    /// Close the connection of the client that the extension ran for.
    Close,
}

/// An effect, as plain text.
pub enum EffectView {
    Send(Seq<char>),
    SendTo(usize, Seq<char>),
    Close,
}

impl View for Effect {
    type V = EffectView;

    open spec fn view(&self) -> EffectView {
        match self {
            Effect::Send(text) => EffectView::Send(text@),
            Effect::SendTo(id, text) => EffectView::SendTo(*id, text@),
            Effect::Close => EffectView::Close,
        }
    }
}

/// The effects in a sequence, as plain text.
pub open spec fn effect_views(effects: Seq<Effect>) -> Seq<EffectView> {
    Seq::new(effects.len(), |i: int| effects[i]@)
}

/// A loadable extension, known by its name.
pub trait Plugin: Send + Sync {
    /// Name of the plugin.
    fn name(&self) -> &'static str;

    /// Runs once after all libraries are loaded, before the first
    /// connection is accepted.
    fn on_load(&self);
}

/// A named action that the first token of a unit of input selects.
pub trait Command: Send + Sync {
    /// Name of the command.
    fn name(&self) -> &'static str;

    /// Alternate names of the command.
    fn aliases(&self) -> Vec<&'static str>;

    /// One-line description of the command.
    fn help(&self) -> &'static str;

    /// How to call the command.
    fn usage(&self) -> &'static str;

    /// Runs the command for `client` with the arguments `args`, the tokens
    /// behind the command's name. `clients` holds the ids of all clients
    /// connected at this moment. The outcome is what the server is to do,
    /// in order, or the message of a failure.
    fn execute(&self, client: &mut Client, clients: &Vec<usize>, args: &Vec<String>) -> Result<
        Vec<Effect>,
        String,
    >;
}

/// A hook that runs at one point of every connection's life.
pub trait Event: Send + Sync {
    /// The point at which the event fires.
    fn event(&self) -> EventType;

    /// Runs the event for `client`. The outcome is what the server is to
    /// do, in order, or the message of a failure.
    fn execute(&self, client: &mut Client) -> Result<Vec<Effect>, String>;
}

} // verus!
