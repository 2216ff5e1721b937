//! `/disconnect`: the end of a connection at the client's wish.

use vstd::prelude::*;
use crate::plugins::types::{Command, Effect, EffectView, effect_views};
use crate::server::client::Client;
use crate::text::slice_texts;

verus! {

/// The command that closes the connection of the client that asks.
pub struct Disconnect;

impl Command for Disconnect {
    fn name(&self) -> (name: &'static str)
        ensures
            name@ == "/disconnect"@,
    {
        "/disconnect"
    }

    fn aliases(&self) -> (aliases: Vec<&'static str>)
        ensures
            slice_texts(aliases@) == seq!["/close"@, "/exit"@],
    {
        let aliases: Vec<&'static str> = vec!["/close", "/exit"];
        assert(slice_texts(aliases@) =~= seq!["/close"@, "/exit"@]);
        aliases
    }

    fn help(&self) -> (help: &'static str)
        ensures
            help@ == "Close the connection"@,
    {
        "Close the connection"
    }

    fn usage(&self) -> (usage: &'static str)
        ensures
            usage@ == "/disconnect"@,
    {
        "/disconnect"
    }

    /// Closes the connection of the client. The arguments are ignored.
    fn execute(&self, client: &mut Client, clients: &Vec<usize>, args: &Vec<String>) -> (outcome:
        Result<Vec<Effect>, String>)
        ensures
            *final(client) == *old(client),
            outcome is Ok,
            effect_views(outcome->Ok_0@) == seq![EffectView::Close],
    {
        let effects: Vec<Effect> = vec![Effect::Close];
        assert(effect_views(effects@) =~= seq![EffectView::Close]);
        Ok(effects)
    }
}

} // verus!
