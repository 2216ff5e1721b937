//! `/broadcast`: one message to every connected client.

use vstd::prelude::*;
use crate::plugins::types::{Command, Effect, EffectView, effect_views};
use crate::server::client::Client;
use crate::server::registry::{issued, lemma_run, ClientRegistry, RegistryOp, RegistryView};
use crate::text::{join, join_spec, slice_texts, texts};

verus! {

/// The message that a broadcast with arguments `args` carries: the
/// arguments with one space between each two.
pub open spec fn broadcast_message(args: Seq<Seq<char>>) -> Seq<char> {
    join_spec(args, " "@)
}

/// One delivery of `message` to each of `recipients`, in their order.
pub open spec fn deliveries(recipients: Seq<usize>, message: Seq<char>) -> Seq<EffectView> {
    Seq::new(recipients.len(), |i: int| EffectView::SendTo(recipients[i], message))
}

/// What a broadcast asks for: a hint to the sender when the message is
/// empty, and else one delivery to each of `recipients`.
pub open spec fn broadcast_effects(recipients: Seq<usize>, args: Seq<Seq<char>>) -> Seq<
    EffectView,
> {
    if broadcast_message(args).len() == 0 {
        seq![EffectView::Send("Missing message"@)]
    } else {
        deliveries(recipients, broadcast_message(args))
    }
}

/// The command that sends a message to all connected clients.
pub struct Broadcast;

impl Broadcast {
    /// The deliveries of `message` to the clients that are in `registry`
    /// at this moment: one to each of them and none to anyone else. The
    /// set of recipients is fixed here; a client that connects later is not
    /// among them.
    pub fn fan_out<T>(registry: &ClientRegistry<T>, message: &str) -> (effects: Vec<Effect>)
        ensures
            effects@.len() == registry@.clients.len(),
            forall|i: int|
                0 <= i < effects@.len() ==> (#[trigger] effects@[i]@ matches EffectView::SendTo(
                    id,
                    text,
                ) && text == message@ && registry@.clients.contains_key(id)),
            forall|id: usize|
                registry@.clients.contains_key(id) ==> effect_views(effects@).contains(
                    EffectView::SendTo(id, message@),
                ),
            forall|i: int, j: int|
                0 <= i < j < effects@.len() ==> effects@[i]@ != effects@[j]@,
            registry@.wf(),
    {
        let recipients = registry.ids();
        let effects = deliver(&recipients, message);
        proof {
            recipients@.unique_seq_to_set();
            assert(effect_views(effects@).len() == recipients@.len());
            assert(registry@.clients.len() == registry@.clients.dom().len());
            assert forall|id: usize| registry@.clients.contains_key(id) implies effect_views(
                effects@,
            ).contains(EffectView::SendTo(id, message@)) by {
                assert(recipients@.to_set().contains(id));
                let k = choose|k: int| 0 <= k < recipients@.len() && recipients@[k] == id;
                assert(effect_views(effects@)[k] == EffectView::SendTo(id, message@));
            }
            assert forall|i: int| 0 <= i < effects@.len() implies (
            #[trigger] effects@[i]@ matches EffectView::SendTo(id, text) && text == message@
                && registry@.clients.contains_key(id)) by {
                assert(effect_views(effects@)[i] == EffectView::SendTo(recipients@[i], message@));
                assert(recipients@.contains(recipients@[i]));
                assert(recipients@.to_set().contains(recipients@[i]));
            }
            assert forall|i: int, j: int| 0 <= i < j < effects@.len() implies effects@[i]@
                != effects@[j]@ by {
                assert(effect_views(effects@)[i] == EffectView::SendTo(recipients@[i], message@));
                assert(effect_views(effects@)[j] == EffectView::SendTo(recipients@[j], message@));
            }
        }
        effects
    }
}

/// One delivery of `message` to each of `recipients`.
fn deliver(recipients: &Vec<usize>, message: &str) -> (effects: Vec<Effect>)
    ensures
        effect_views(effects@) == deliveries(recipients@, message@),
{
    let mut effects: Vec<Effect> = Vec::new();
    let mut i: usize = 0;
    while i < recipients.len()
        invariant
            i <= recipients.len(),
            effect_views(effects@) == deliveries(recipients@, message@).take(i as int),
        decreases recipients.len() - i,
    {
        let effect = Effect::SendTo(recipients[i], message.to_owned());
        assert(effect_views(effects@.push(effect)) == effect_views(effects@).push(effect@));
        assert(deliveries(recipients@, message@).take(i + 1) == deliveries(
            recipients@,
            message@,
        ).take(i as int).push(EffectView::SendTo(recipients@[i as int], message@)));
        effects.push(effect);
        i += 1;
    }
    assert(deliveries(recipients@, message@).take(recipients.len() as int) == deliveries(
        recipients@,
        message@,
    ));
    effects
}

impl Command for Broadcast {
    fn name(&self) -> (name: &'static str)
        ensures
            name@ == "/broadcast"@,
    {
        "/broadcast"
    }

    fn aliases(&self) -> (aliases: Vec<&'static str>)
        ensures
            slice_texts(aliases@) == Seq::<Seq<char>>::empty(),
    {
        let aliases: Vec<&'static str> = Vec::new();
        assert(slice_texts(aliases@) =~= Seq::<Seq<char>>::empty());
        aliases
    }

    fn help(&self) -> (help: &'static str)
        ensures
            help@ == "Send message to all connected clients"@,
    {
        "Send message to all connected clients"
    }

    fn usage(&self) -> (usage: &'static str)
        ensures
            usage@ == "/broadcast <message>"@,
    {
        "/broadcast <message>"
    }

    /// Delivers the arguments, joined by single spaces, to every client
    /// in `clients`, the sender included if it is among them. Without a
    /// message the sender is sent `"Missing message"` and nobody else
    /// anything.
    fn execute(&self, client: &mut Client, clients: &Vec<usize>, args: &Vec<String>) -> (outcome:
        Result<Vec<Effect>, String>)
        ensures
            *final(client) == *old(client),
            outcome is Ok,
            effect_views(outcome->Ok_0@) == broadcast_effects(clients@, texts(args@)),
    {
        let message = join(args, " ");
        if message.as_str().is_empty() {
            let effects: Vec<Effect> = vec![Effect::Send("Missing message".to_string())];
            assert(effect_views(effects@) =~= seq![EffectView::Send("Missing message"@)]);
            return Ok(effects);
        }
        Ok(deliver(clients, message.as_str()))
    }
}

/// A broadcast reaches every client that is connected when it is made and
/// none that connects afterwards: whatever happens to the registry later,
/// no id that it then hands out is among the recipients.
pub proof fn law_broadcast_reaches_the_present<T>(
    registry: RegistryView<T>,
    recipients: Seq<usize>,
    message: Seq<char>,
    later: Seq<RegistryOp<T>>,
)
    requires
        registry.wf(),
        recipients.to_set() == registry.clients.dom(),
    ensures
        forall|id: usize|
            registry.clients.contains_key(id) ==> deliveries(recipients, message).contains(
                EffectView::SendTo(id, message),
            ),
        forall|k: int|
            0 <= k < issued(registry, later).len() ==> !deliveries(recipients, message).contains(
                EffectView::SendTo(#[trigger] issued(registry, later)[k], message),
            ),
{
    lemma_run(registry, later);
    assert forall|id: usize| registry.clients.contains_key(id) implies deliveries(
        recipients,
        message,
    ).contains(EffectView::SendTo(id, message)) by {
        assert(recipients.to_set().contains(id));
        let k = choose|k: int| 0 <= k < recipients.len() && recipients[k] == id;
        assert(deliveries(recipients, message)[k] == EffectView::SendTo(id, message));
    }
    assert forall|k: int| 0 <= k < issued(registry, later).len() implies !deliveries(
        recipients,
        message,
    ).contains(EffectView::SendTo(#[trigger] issued(registry, later)[k], message)) by {
        let id = issued(registry, later)[k];
        if deliveries(recipients, message).contains(EffectView::SendTo(id, message)) {
            let j = choose|j: int|
                0 <= j < deliveries(recipients, message).len() && deliveries(
                    recipients,
                    message,
                )[j] == EffectView::SendTo(id, message);
            assert(recipients[j] == id);
            assert(recipients.to_set().contains(id));
        }
    }
}

} // verus!
