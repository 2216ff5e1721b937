//! `/help`: the list of all commands.

use vstd::prelude::*;
use crate::plugins::manager::CommandManager;
use crate::plugins::types::{Command, CommandView, Effect, EffectView, effect_views};
use crate::server::client::Client;
use crate::text::{append, join, join_spec, slice_texts, texts};

verus! {

/// The line that describes one command: its name, `" - "` and its help
/// text.
pub open spec fn help_line(command: CommandView) -> Seq<char> {
    command.name + " - "@ + command.help
}

/// The lines that describe `commands`, in registration order.
pub open spec fn help_lines(commands: Seq<CommandView>) -> Seq<Seq<char>> {
    Seq::new(commands.len(), |i: int| help_line(commands[i]))
}

/// The help menu for `commands`: one line for each, separated by line
/// feeds.
pub open spec fn help_menu(commands: Seq<CommandView>) -> Seq<char> {
    join_spec(help_lines(commands), "\n"@)
}

/// The help menu for the registered commands.
pub fn menu(commands: &CommandManager) -> (text: String)
    ensures
        text@ == help_menu(commands@),
{
    let mut lines: Vec<String> = Vec::new();
    let mut i: usize = 0;
    while i < commands.len()
        invariant
            i <= commands@.len(),
            texts(lines@) == help_lines(commands@).take(i as int),
        decreases commands@.len() - i,
    {
        match commands.get(i) {
            Some(command) => {
                let head = append(command.name.as_str(), " - ");
                let line = append(head.as_str(), command.help.as_str());
                assert(line@ == help_line(commands@[i as int]));
                assert(texts(lines@.push(line)) == texts(lines@).push(line@));
                assert(help_lines(commands@).take(i + 1) == help_lines(commands@).take(
                    i as int,
                ).push(help_line(commands@[i as int])));
                lines.push(line);
            },
            None => {
                assert(false);
            },
        }
        i += 1;
    }
    assert(help_lines(commands@).take(commands@.len() as int) == help_lines(commands@));
    join(&lines, "\n")
}

/// The command that lists all commands.
pub struct Help;

impl Command for Help {
    fn name(&self) -> (name: &'static str)
        ensures
            name@ == "/help"@,
    {
        "/help"
    }

    fn aliases(&self) -> (aliases: Vec<&'static str>)
        ensures
            slice_texts(aliases@) == seq!["/h"@, "/?"@, "?"@],
    {
        let aliases: Vec<&'static str> = vec!["/h", "/?", "?"];
        assert(slice_texts(aliases@) =~= seq!["/h"@, "/?"@, "?"@]);
        aliases
    }

    fn help(&self) -> (help: &'static str)
        ensures
            help@ == "Show commands help menu"@,
    {
        "Show commands help menu"
    }

    fn usage(&self) -> (usage: &'static str)
        ensures
            usage@ == "/help"@,
    {
        "/help"
    }

    /// Sends the client the help menu of all registered commands. The
    /// arguments are ignored.
    fn execute(&self, client: &mut Client, clients: &Vec<usize>, args: &Vec<String>) -> (outcome:
        Result<Vec<Effect>, String>)
        ensures
            *final(client) == *old(client),
            outcome is Ok,
            effect_views(outcome->Ok_0@) == seq![
                EffectView::Send(help_menu(old(client).plugins_manager@.commands)),
            ],
    {
        let text = menu(&client.plugins_manager.commands);
        let effects: Vec<Effect> = vec![Effect::Send(text)];
        assert(effect_views(effects@) =~= seq![EffectView::Send(text@)]);
        Ok(effects)
    }
}

} // verus!
