//! The commands that every server has, whatever else is loaded.

pub mod broadcast;
pub mod disconnect;
pub mod help;
pub mod id;

pub use broadcast::Broadcast;
pub use disconnect::Disconnect;
pub use help::Help;
pub use id::Id;

use vstd::prelude::*;
use crate::plugins::manager::PluginsManager;
use crate::plugins::types::{Command, CommandInfo, CommandView, ManagerView, Registrar};

verus! {

/// The built-in commands, in the order in which they are registered.
pub open spec fn builtin_commands() -> Seq<CommandView> {
    seq![
        CommandView {
            name: "/broadcast"@,
            aliases: Seq::empty(),
            help: "Send message to all connected clients"@,
            usage: "/broadcast <message>"@,
        },
        CommandView {
            name: "/disconnect"@,
            aliases: seq!["/close"@, "/exit"@],
            help: "Close the connection"@,
            usage: "/disconnect"@,
        },
        CommandView {
            name: "/help"@,
            aliases: seq!["/h"@, "/?"@, "?"@],
            help: "Show commands help menu"@,
            usage: "/help"@,
        },
        CommandView {
            name: "/id"@,
            aliases: Seq::empty(),
            help: "Get id of the client"@,
            usage: "/id"@,
        },
    ]
}

/// The descriptors of the built-in commands: `/broadcast`, `/disconnect`,
/// `/help` and `/id`, in this order.
pub fn register_commands() -> (commands: Vec<CommandInfo>)
    ensures
        Seq::new(commands@.len(), |i: int| commands@[i]@) == builtin_commands(),
{
    let broadcast = CommandInfo::new(
        Broadcast.name(),
        Broadcast.aliases(),
        Broadcast.help(),
        Broadcast.usage(),
    );
    let disconnect = CommandInfo::new(
        Disconnect.name(),
        Disconnect.aliases(),
        Disconnect.help(),
        Disconnect.usage(),
    );
    let help = CommandInfo::new(Help.name(), Help.aliases(), Help.help(), Help.usage());
    let id = CommandInfo::new(Id.name(), Id.aliases(), Id.help(), Id.usage());
    let commands: Vec<CommandInfo> = vec![broadcast, disconnect, help, id];
    assert(Seq::new(commands@.len(), |i: int| commands@[i]@) =~= builtin_commands());
    commands
}

/// The manager as it is before the first library is loaded: it holds the
/// built-in commands and nothing else. Whatever a plugin registers comes
/// behind them, so that a built-in command wins over a plugin's command of
/// the same name.
pub fn builtin_manager() -> (manager: PluginsManager)
    ensures
        manager@ == (ManagerView {
            plugins: Seq::empty(),
            commands: builtin_commands(),
            events: Seq::empty(),
        }),
{
    let mut manager = PluginsManager::new();
    manager.register_commands(
        CommandInfo::new(Broadcast.name(), Broadcast.aliases(), Broadcast.help(), Broadcast.usage()),
    );
    manager.register_commands(
        CommandInfo::new(
            Disconnect.name(),
            Disconnect.aliases(),
            Disconnect.help(),
            Disconnect.usage(),
        ),
    );
    manager.register_commands(
        CommandInfo::new(Help.name(), Help.aliases(), Help.help(), Help.usage()),
    );
    manager.register_commands(CommandInfo::new(Id.name(), Id.aliases(), Id.help(), Id.usage()));
    assert(manager@.commands =~= builtin_commands());
    manager
}

} // verus!
