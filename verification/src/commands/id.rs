//! `/id`: the id of the client that asks.

use vstd::prelude::*;
use crate::plugins::types::{Command, Effect, EffectView, effect_views};
use crate::server::client::Client;
use crate::text::{decimal, decimal_spec, slice_texts};

verus! {

/// The command that tells a client its id.
pub struct Id;

impl Command for Id {
    fn name(&self) -> (name: &'static str)
        ensures
            name@ == "/id"@,
    {
        "/id"
    }

    fn aliases(&self) -> (aliases: Vec<&'static str>)
        ensures
            slice_texts(aliases@) == Seq::<Seq<char>>::empty(),
    {
        let aliases: Vec<&'static str> = Vec::new();
        assert(slice_texts(aliases@) =~= Seq::<Seq<char>>::empty());
        aliases
    }

    fn help(&self) -> (help: &'static str)
        ensures
            help@ == "Get id of the client"@,
    {
        "Get id of the client"
    }

    fn usage(&self) -> (usage: &'static str)
        ensures
            usage@ == "/id"@,
    {
        "/id"
    }

    /// Sends the client its id in decimal notation. The arguments are
    /// ignored.
    fn execute(&self, client: &mut Client, clients: &Vec<usize>, args: &Vec<String>) -> (outcome:
        Result<Vec<Effect>, String>)
        ensures
            *final(client) == *old(client),
            outcome is Ok,
            effect_views(outcome->Ok_0@) == seq![
                EffectView::Send(decimal_spec(old(client).id as nat)),
            ],
    {
        let text = decimal(client.id);
        let effects: Vec<Effect> = vec![Effect::Send(text)];
        assert(effect_views(effects@) =~= seq![EffectView::Send(text@)]);
        Ok(effects)
    }
}

} // verus!
