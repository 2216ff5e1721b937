//! The directory of live clients.
//!
//! Every accepted connection is entered under an id of its own. Ids are
//! handed out in increasing order and never a second time, so an id that
//! has left the directory stays absent for good.

use std::collections::HashMap;
use vstd::prelude::*;
use vstd::std_specs::iter::IteratorSpec;

verus! {

/// What a registry holds: the clients by id, and the id that the next
/// client will get.
pub struct RegistryView<T> {
    pub clients: Map<usize, T>,
    pub next: usize,
}

impl<T> RegistryView<T> {
    /// Every id in use was handed out before: it lies below `next`.
    pub open spec fn wf(self) -> bool {
        forall|id: usize| self.clients.contains_key(id) ==> id < self.next
    }

    /// Whether an id is left to hand out.
    pub open spec fn has_room(self) -> bool {
        self.next < usize::MAX
    }

    /// The registry after `client` was entered under the next id. A
    /// registry without room stays as it is.
    pub open spec fn register(self, client: T) -> RegistryView<T> {
        if self.has_room() {
            RegistryView {
                clients: self.clients.insert(self.next, client),
                next: (self.next + 1) as usize,
            }
        } else {
            self
        }
    }

    /// The registry after the client under `id` has left.
    pub open spec fn remove(self, id: usize) -> RegistryView<T> {
        RegistryView { clients: self.clients.remove(id), next: self.next }
    }
}

/// One change to a registry.
pub enum RegistryOp<T> {
    /// A client connects.
    Register(T),
    /// The client under the given id disconnects.
    Remove(usize),
}

/// The registry after `ops` were applied to `start`, first to last.
pub open spec fn run<T>(start: RegistryView<T>, ops: Seq<RegistryOp<T>>) -> RegistryView<T>
    decreases ops.len(),
{
    if ops.len() == 0 {
        start
    } else {
        let before = run(start, ops.drop_last());
        match ops.last() {
            RegistryOp::Register(client) => before.register(client),
            RegistryOp::Remove(id) => before.remove(id),
        }
    }
}

/// The ids that the `Register` steps of `ops` hand out, in order. A step
/// that finds no room hands out none.
pub open spec fn issued<T>(start: RegistryView<T>, ops: Seq<RegistryOp<T>>) -> Seq<usize>
    decreases ops.len(),
{
    if ops.len() == 0 {
        Seq::empty()
    } else {
        let before = run(start, ops.drop_last());
        let earlier = issued(start, ops.drop_last());
        match ops.last() {
            RegistryOp::Register(_) => if before.has_room() {
                earlier.push(before.next)
            } else {
                earlier
            },
            RegistryOp::Remove(_) => earlier,
        }
    }
}

/// Whatever happens to a registry, it stays well formed, its next id never
/// goes down, and every id it hands out lies between the next id it
/// started with and the next id it ends with.
pub proof fn lemma_run<T>(start: RegistryView<T>, ops: Seq<RegistryOp<T>>)
    requires
        start.wf(),
    ensures
        run(start, ops).wf(),
        start.next <= run(start, ops).next,
        forall|k: int|
            0 <= k < issued(start, ops).len() ==> start.next <= #[trigger] issued(start, ops)[k]
                < run(start, ops).next,
        forall|j: int, k: int|
            0 <= j < k < issued(start, ops).len() ==> issued(start, ops)[j] < issued(
                start,
                ops,
            )[k],
    decreases ops.len(),
{
    if ops.len() > 0 {
        let before = run(start, ops.drop_last());
        let earlier = issued(start, ops.drop_last());
        lemma_run(start, ops.drop_last());
        match ops.last() {
            RegistryOp::Register(client) => {
                if before.has_room() {
                    assert(issued(start, ops) == earlier.push(before.next));
                    assert(run(start, ops).next == before.next + 1);
                } else {
                    assert(issued(start, ops) == earlier);
                }
            },
            RegistryOp::Remove(id) => {
                assert(issued(start, ops) == earlier);
            },
        }
    }
}

/// Ids are handed out in strictly increasing order for as long as the
/// registry lives, so no id is ever handed out twice.
pub proof fn law_ids_strictly_increase<T>(start: RegistryView<T>, ops: Seq<RegistryOp<T>>)
    requires
        start.wf(),
    ensures
        forall|j: int, k: int|
            0 <= j < k < issued(start, ops).len() ==> issued(start, ops)[j] < issued(
                start,
                ops,
            )[k],
        issued(start, ops).no_duplicates(),
{
    lemma_run(start, ops);
}

/// An id that is handed out is held by no open connection at that moment:
/// a new client never takes the place of a live one.
pub proof fn law_new_id_is_free<T>(start: RegistryView<T>, ops: Seq<RegistryOp<T>>)
    requires
        start.wf(),
    ensures
        !run(start, ops).clients.contains_key(run(start, ops).next),
{
    lemma_run(start, ops);
}

/// Once a connected client has left, its id stays absent whatever happens
/// to the registry afterwards: the id is never given to another client.
pub proof fn law_removed_id_stays_absent<T>(
    start: RegistryView<T>,
    id: usize,
    ops: Seq<RegistryOp<T>>,
)
    requires
        start.wf(),
        start.clients.contains_key(id),
    ensures
        !run(start.remove(id), ops).clients.contains_key(id),
    decreases ops.len(),
{
    if ops.len() > 0 {
        law_removed_id_stays_absent(start, id, ops.drop_last());
        lemma_run(start.remove(id), ops.drop_last());
    }
}

/// A snapshot of the ids in a registry leaves out every client that
/// connects later.
pub proof fn law_snapshot_excludes_later<T>(start: RegistryView<T>, ops: Seq<RegistryOp<T>>)
    requires
        start.wf(),
    ensures
        forall|k: int|
            0 <= k < issued(start, ops).len() ==> !start.clients.contains_key(
                #[trigger] issued(start, ops)[k],
            ),
{
    lemma_run(start, ops);
}

/// The directory of live clients, with the counter that hands out ids.
/// `T` is whatever the server keeps per connection to reach a client.
pub struct ClientRegistry<T> {
    clients: HashMap<usize, T>,
    next: usize,
}

impl<T> View for ClientRegistry<T> {
    type V = RegistryView<T>;

    closed spec fn view(&self) -> RegistryView<T> {
        RegistryView { clients: self.clients@, next: self.next }
    }
}

impl<T> ClientRegistry<T> {
    #[verifier::type_invariant]
    spec fn inv(self) -> bool {
        self@.wf()
    }

    /// An empty registry whose first id is 0.
    pub fn new() -> (registry: ClientRegistry<T>)
        ensures
            registry@ == (RegistryView::<T> { clients: Map::empty(), next: 0 }),
            registry@.wf(),
    {
        ClientRegistry { clients: HashMap::new(), next: 0 }
    }

    /// Enters `client` under a fresh id and returns the id. Each id is one
    /// more than the one handed out before. When the ids are used up the
    /// client comes back and nothing changes.
    pub fn register(&mut self, client: T) -> (outcome: Result<usize, T>)
        ensures
            final(self)@ == old(self)@.register(client),
            final(self)@.wf(),
            match outcome {
                Ok(id) => old(self)@.has_room() && id == old(self)@.next
                    && !old(self)@.clients.contains_key(id),
                Err(back) => !old(self)@.has_room() && back == client,
            },
    {
        proof {
            use_type_invariant(&*self);
        }
        if self.next == usize::MAX {
            return Err(client);
        }
        let id: usize = self.next;
        // The map is taken out while it changes and put back when it is
        // done, so that the registry is well formed whenever it can be seen.
        let mut clients: HashMap<usize, T> = HashMap::new();
        assert(self@.wf() && self@.clients == self.clients@);
        self.next = id + 1;
        core::mem::swap(&mut self.clients, &mut clients);
        clients.insert(id, client);
        core::mem::swap(&mut self.clients, &mut clients);
        Ok(id)
    }

    /// Takes the client under `id` out of the registry and returns it.
    /// The ids of all other clients, and the next id, stay as they are.
    pub fn remove(&mut self, id: usize) -> (client: Option<T>)
        ensures
            final(self)@ == old(self)@.remove(id),
            final(self)@.wf(),
            !final(self)@.clients.contains_key(id),
            client == if old(self)@.clients.contains_key(id) {
                Some(old(self)@.clients[id])
            } else {
                None
            },
    {
        proof {
            use_type_invariant(&*self);
        }
        let mut clients: HashMap<usize, T> = HashMap::new();
        assert(self@.wf() && self@.clients == self.clients@);
        core::mem::swap(&mut self.clients, &mut clients);
        let client = clients.remove(&id);
        core::mem::swap(&mut self.clients, &mut clients);
        client
    }

    /// The client under `id`, if one is connected.
    pub fn get(&self, id: usize) -> (client: Option<&T>)
        ensures
            client == if self@.clients.contains_key(id) {
                Some(&self@.clients[id])
            } else {
                None
            },
    {
        self.clients.get(&id)
    }

    /// Whether a client is connected under `id`.
    pub fn contains(&self, id: usize) -> (present: bool)
        ensures
            present == self@.clients.contains_key(id),
    {
        self.clients.contains_key(&id)
    }

    /// How many clients are connected.
    pub fn len(&self) -> (n: usize)
        ensures
            n == self@.clients.len(),
    {
        self.clients.len()
    }

    /// The id that the next client will get.
    pub fn next_id(&self) -> (id: usize)
        ensures
            id == self@.next,
            self@.wf(),
    {
        proof {
            use_type_invariant(self);
        }
        self.next
    }

    /// The ids of all clients connected at this moment, each once, in no
    /// particular order.
    pub fn ids(&self) -> (snapshot: Vec<usize>)
        ensures
            snapshot@.to_set() == self@.clients.dom(),
            snapshot@.no_duplicates(),
            self@.wf(),
    {
        proof {
            use_type_invariant(self);
        }
        let mut snapshot: Vec<usize> = Vec::new();
        for id in it: self.clients.keys()
            invariant
                it.seq().unref().to_set() == self.clients@.dom(),
                it.seq().no_duplicates(),
                snapshot@ == it.seq().unref().take(it.index() as int),
        {
            snapshot.push(*id);
        }
        assert(snapshot@ == self.clients.keys().remaining().unref());
        snapshot
    }
}

} // verus!
