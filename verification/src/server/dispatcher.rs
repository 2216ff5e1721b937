//! The machine that drives one connection.
//!
//! A connection is `Connected` while its connect events run, `Processing`
//! while it reads units of input and reacts to them, and `Disconnected`
//! once it has left the registry. The machine never touches a socket: each
//! step takes what the last action brought back and names the one action
//! to perform next. The program around it performs that action and comes
//! back with the outcome.

use vstd::prelude::*;
use crate::error::{report, report_spec};
use crate::plugins::manager::{
    lemma_next_event,
    lemma_resolve_from,
    next_event,
    resolve,
    PluginsManager,
};
use crate::plugins::types::{EventType, ManagerView};
use crate::server::registry::ClientRegistry;
use crate::text::texts;
use crate::tokenizer::{
    is_space,
    lemma_no_tokens_iff_blank,
    lemma_tokens_are_words,
    tokenize,
    tokens,
};

verus! {

/// Where a connection stands.
#[derive(Debug, Clone, Copy, PartialEq, Eq, Structural)]
pub enum State {
    /// Entered in the registry; connect events are running.
    Connected,
    /// Reading units of input and reacting to them.
    Processing,
    /// Out of the registry; nothing happens any more.
    Disconnected,
}

/// What the last action brought back.
#[derive(Debug, PartialEq, Eq)]
pub enum Input {
    /// The connection was accepted; nothing was asked for yet.
    Opened,
    /// A read delivered this unit of input.
    Unit(String),
    /// The event that was run has finished, with an error message if it
    /// failed.
    EventDone(Result<(), String>),
    /// The command that was executed has finished, with an error message
    /// if it failed.
    CommandDone(Result<(), String>),
    /// The text was sent.
    Sent,
    /// The transport was flushed.
    Flushed,
    /// The transport failed or the peer is gone.
    Failed,
}

/// An input, as plain text. A finished event or command carries the error
/// message if it failed and nothing if it succeeded.
pub enum InputView {
    Opened,
    Unit(Seq<char>),
    EventDone(Option<Seq<char>>),
    CommandDone(Option<Seq<char>>),
    Sent,
    Flushed,
    Failed,
}

impl View for Input {
    type V = InputView;

    open spec fn view(&self) -> InputView {
        match self {
            Input::Opened => InputView::Opened,
            Input::Unit(unit) => InputView::Unit(unit@),
            Input::EventDone(Ok(_)) => InputView::EventDone(None),
            Input::EventDone(Err(message)) => InputView::EventDone(Some(message@)),
            Input::CommandDone(Ok(_)) => InputView::CommandDone(None),
            Input::CommandDone(Err(message)) => InputView::CommandDone(Some(message@)),
            Input::Sent => InputView::Sent,
            Input::Flushed => InputView::Flushed,
            Input::Failed => InputView::Failed,
        }
    }
}

/// The one thing to do next.
#[derive(Debug, PartialEq, Eq)]
pub enum Action {
    /// Run the event registered at `index` against this client, then come
    /// back with `Input::EventDone`.
    RunEvent { index: usize },
    /// Execute the command registered at `command` with `args`, then come
    /// back with `Input::CommandDone`.
    Execute { command: usize, args: Vec<String> },
    /// Send `text` to this client, then come back with `Input::Sent`.
    Send { text: String },
    /// Read one unit of input, then come back with `Input::Unit`.
    Read,
    /// Flush the transport, then come back with `Input::Flushed`.
    Flush,
    /// Leave the loop and take the client out of the registry.
    Disconnect,
    /// Nothing: the connection is over.
    Halt,
}

/// An action, as plain text.
pub enum ActionView {
    RunEvent { index: int },
    Execute { command: int, args: Seq<Seq<char>> },
    Send { text: Seq<char> },
    Read,
    Flush,
    Disconnect,
    Halt,
}

impl View for Action {
    type V = ActionView;

    open spec fn view(&self) -> ActionView {
        match self {
            Action::RunEvent { index } => ActionView::RunEvent { index: *index as int },
            Action::Execute { command, args } => ActionView::Execute {
                command: *command as int,
                args: texts(args@),
            },
            Action::Send { text } => ActionView::Send { text: text@ },
            Action::Read => ActionView::Read,
            Action::Flush => ActionView::Flush,
            Action::Disconnect => ActionView::Disconnect,
            Action::Halt => ActionView::Halt,
        }
    }
}

impl ActionView {
    /// Whether the action runs extension code: an event or a command.
    pub open spec fn runs_extension(self) -> bool {
        self is RunEvent || self is Execute
    }
}

/// What a connection is waiting for.
#[derive(Debug)]
enum Stage {
    Start,
    ConnectEvent { index: usize },
    ConnectReport { after: usize },
    Unit,
    SendEvent { index: usize, unit: String },
    SendReport { after: usize, unit: String },
    Reply { flush: bool },
    CommandEvent { index: usize, command: usize, args: Vec<String> },
    Command,
    Flush,
    Exit,
    Closed,
}

/// What a connection is waiting for, as plain text.
pub enum StageView {
    /// Accepted; nothing was asked for yet.
    Start,
    /// The connect event at `index` is running.
    ConnectEvent { index: int },
    /// The failure of a connect event is being reported; the events from
    /// `next` on are still to run.
    ConnectReport { next: int },
    /// A read is under way.
    Unit,
    /// The send event at `index` is running for `unit`.
    SendEvent { index: int, unit: Seq<char> },
    /// The failure of a send event is being reported; the events from
    /// `next` on are still to run for `unit`.
    SendReport { next: int, unit: Seq<char> },
    /// A reply is being sent; after it comes a flush, or at once the next
    /// read.
    Reply { flush: bool },
    /// The command event at `index` is running before `command`.
    CommandEvent { index: int, command: int, args: Seq<Seq<char>> },
    /// A command is running.
    Command,
    /// A flush is under way.
    Flush,
    /// The loop has ended; the client is still to leave the registry.
    Exit,
    /// The client has left the registry.
    Closed,
}

impl View for Stage {
    type V = StageView;

    closed spec fn view(&self) -> StageView {
        match self {
            Stage::Start => StageView::Start,
            Stage::ConnectEvent { index } => StageView::ConnectEvent { index: *index as int },
            Stage::ConnectReport { after } => StageView::ConnectReport { next: *after + 1 },
            Stage::Unit => StageView::Unit,
            Stage::SendEvent { index, unit } => StageView::SendEvent {
                index: *index as int,
                unit: unit@,
            },
            Stage::SendReport { after, unit } => StageView::SendReport {
                next: *after + 1,
                unit: unit@,
            },
            Stage::Reply { flush } => StageView::Reply { flush: *flush },
            Stage::CommandEvent { index, command, args } => StageView::CommandEvent {
                index: *index as int,
                command: *command as int,
                args: texts(args@),
            },
            Stage::Command => StageView::Command,
            Stage::Flush => StageView::Flush,
            Stage::Exit => StageView::Exit,
            Stage::Closed => StageView::Closed,
        }
    }
}

impl StageView {
    /// Where a connection that waits for this stands.
    pub open spec fn state(self) -> State {
        match self {
            StageView::Start => State::Connected,
            StageView::ConnectEvent { .. } => State::Connected,
            StageView::ConnectReport { .. } => State::Connected,
            StageView::Closed => State::Disconnected,
            _ => State::Processing,
        }
    }
}

/// A stage together with the action that leads into it.
pub struct Step {
    pub stage: StageView,
    pub action: ActionView,
}

/// The reply to a unit that holds no token.
pub open spec fn empty_buffer() -> Seq<char> {
    "empty buffer"@
}

/// The reply to a unit whose first token selects no command.
pub open spec fn unknown_command() -> Seq<char> {
    "unknown command"@
}

/// Goes on with the connect events from position `from`: the next one
/// runs, and after the last one the first read begins.
pub open spec fn advance_connect(manager: ManagerView, from: int) -> Step {
    match next_event(manager.events, EventType::OnConnect, from) {
        Some(index) => Step {
            stage: StageView::ConnectEvent { index },
            action: ActionView::RunEvent { index },
        },
        None => Step { stage: StageView::Unit, action: ActionView::Read },
    }
}

/// Goes on with the command events from position `from`: the next one
/// runs, and after the last one the command itself.
pub open spec fn advance_command(
    manager: ManagerView,
    from: int,
    command: int,
    args: Seq<Seq<char>>,
) -> Step {
    match next_event(manager.events, EventType::OnCommand, from) {
        Some(index) => Step {
            stage: StageView::CommandEvent { index, command, args },
            action: ActionView::RunEvent { index },
        },
        None => Step { stage: StageView::Command, action: ActionView::Execute { command, args } },
    }
}

/// Reacts to a unit once its send events are through. A unit without a
/// token is answered with `"empty buffer"` and the next read follows at
/// once. Otherwise the first token names the command and the rest are its
/// arguments: when no registered command answers to the name the reply is
/// `"unknown command"`; else the command that was registered first is
/// chosen, and its command events begin.
pub open spec fn dispatch_spec(manager: ManagerView, unit: Seq<char>) -> Step {
    let words = tokens(unit);
    if words.len() == 0 {
        Step {
            stage: StageView::Reply { flush: false },
            action: ActionView::Send { text: empty_buffer() },
        }
    } else {
        match resolve(manager.commands, words[0]) {
            None => Step {
                stage: StageView::Reply { flush: true },
                action: ActionView::Send { text: unknown_command() },
            },
            Some(command) => advance_command(manager, 0, command, words.skip(1)),
        }
    }
}

/// Goes on with the send events for `unit` from position `from`: the next
/// one runs, and after the last one the unit is dispatched.
pub open spec fn advance_send(manager: ManagerView, from: int, unit: Seq<char>) -> Step {
    match next_event(manager.events, EventType::OnSend, from) {
        Some(index) => Step {
            stage: StageView::SendEvent { index, unit },
            action: ActionView::RunEvent { index },
        },
        None => dispatch_spec(manager, unit),
    }
}

/// The end of the loop.
pub open spec fn leave() -> Step {
    Step { stage: StageView::Exit, action: ActionView::Disconnect }
}

/// A reply that tells the client of the failure `message`; `stage` is
/// what the connection waits for while it is sent.
pub open spec fn tell(message: Seq<char>, stage: StageView) -> Step {
    Step { stage, action: ActionView::Send { text: report_spec(message) } }
}

/// The transition of the machine: from what the connection waits for and
/// what came in, to what it waits for next and the action that leads
/// there.
///
/// A failed connect or send event is reported and the remaining events
/// still run. A failed command event is reported and vetoes the command. A
/// failed command is reported. After the reaction to a unit the transport
/// is flushed and the next read begins. A failure of the transport, and an
/// input that does not answer the last action, end the loop. After the end
/// of the loop nothing but `Disconnect` is asked for, and after the client
/// has left the registry nothing at all.
pub open spec fn step_spec(stage: StageView, manager: ManagerView, input: InputView) -> Step {
    match (stage, input) {
        (StageView::Closed, _) => Step { stage: StageView::Closed, action: ActionView::Halt },
        (StageView::Start, InputView::Opened) => advance_connect(manager, 0),
        (StageView::ConnectEvent { index }, InputView::EventDone(None)) => advance_connect(
            manager,
            index + 1,
        ),
        (StageView::ConnectEvent { index }, InputView::EventDone(Some(message))) => tell(
            message,
            StageView::ConnectReport { next: index + 1 },
        ),
        (StageView::ConnectReport { next }, InputView::Sent) => advance_connect(manager, next),
        (StageView::Unit, InputView::Unit(unit)) => advance_send(manager, 0, unit),
        (StageView::SendEvent { index, unit }, InputView::EventDone(None)) => advance_send(
            manager,
            index + 1,
            unit,
        ),
        (StageView::SendEvent { index, unit }, InputView::EventDone(Some(message))) => tell(
            message,
            StageView::SendReport { next: index + 1, unit },
        ),
        (StageView::SendReport { next, unit }, InputView::Sent) => advance_send(
            manager,
            next,
            unit,
        ),
        (StageView::Reply { flush }, InputView::Sent) => if flush {
            Step { stage: StageView::Flush, action: ActionView::Flush }
        } else {
            Step { stage: StageView::Unit, action: ActionView::Read }
        },
        (
            StageView::CommandEvent { index, command, args },
            InputView::EventDone(None),
        ) => advance_command(manager, index + 1, command, args),
        (StageView::CommandEvent { .. }, InputView::EventDone(Some(message))) => tell(
            message,
            StageView::Reply { flush: true },
        ),
        (StageView::Command, InputView::CommandDone(None)) => Step {
            stage: StageView::Flush,
            action: ActionView::Flush,
        },
        (StageView::Command, InputView::CommandDone(Some(message))) => tell(
            message,
            StageView::Reply { flush: true },
        ),
        (StageView::Flush, InputView::Flushed) => Step {
            stage: StageView::Unit,
            action: ActionView::Read,
        },
        _ => leave(),
    }
}

/// The first event of type `ty` registered behind position `index`.
fn next_after(manager: &PluginsManager, ty: EventType, index: usize) -> (position: Option<usize>)
    ensures
        match position {
            Some(i) => next_event(manager@.events, ty, index + 1) == Some(i as int),
            None => next_event(manager@.events, ty, index + 1) is None,
        },
{
    let registered: usize = manager.events.len();
    if index < registered {
        manager.events.check_event(ty, index + 1)
    } else {
        None
    }
}

/// The stage and the action for the connect event at `position`, or for
/// the first read when no connect event is left.
fn go_connect(position: Option<usize>) -> (next: (Stage, Action))
    ensures
        match position {
            Some(i) => next.0@ == (StageView::ConnectEvent { index: i as int }) && next.1@ == (
            ActionView::RunEvent { index: i as int }),
            None => next.0@ == StageView::Unit && next.1@ == ActionView::Read,
        },
{
    match position {
        Some(index) => (Stage::ConnectEvent { index }, Action::RunEvent { index }),
        None => (Stage::Unit, Action::Read),
    }
}

/// The stage and the action for the command event at `position`, or for
/// the command itself when no command event is left.
fn go_command(position: Option<usize>, command: usize, args: Vec<String>) -> (next: (
    Stage,
    Action,
))
    ensures
        match position {
            Some(i) => next.0@ == (StageView::CommandEvent {
                index: i as int,
                command: command as int,
                args: texts(args@),
            }) && next.1@ == (ActionView::RunEvent { index: i as int }),
            None => next.0@ == StageView::Command && next.1@ == (ActionView::Execute {
                command: command as int,
                args: texts(args@),
            }),
        },
{
    match position {
        Some(index) => (Stage::CommandEvent { index, command, args }, Action::RunEvent { index }),
        None => (Stage::Command, Action::Execute { command, args }),
    }
}

/// The stage and the action that react to `unit`.
fn react(manager: &PluginsManager, unit: &str) -> (next: (Stage, Action))
    ensures
        (Step { stage: next.0@, action: next.1@ }) == dispatch_spec(manager@, unit@),
{
    let mut words = tokenize(unit);
    if words.len() == 0 {
        return (Stage::Reply { flush: false }, Action::Send { text: "empty buffer".to_string() });
    }
    let ghost all = texts(words@);
    let name = words.remove(0);
    assert(texts(words@) == all.skip(1));
    assert(name@ == all[0]);
    match manager.commands.find(name.as_str()) {
        None => (
            Stage::Reply { flush: true },
            Action::Send { text: "unknown command".to_string() },
        ),
        Some(command) => {
            let first = manager.events.check_event(EventType::OnCommand, 0);
            go_command(first, command, words)
        },
    }
}

/// The stage and the action for the send event at `position`, or the
/// reaction to `unit` when no send event is left.
fn go_send(manager: &PluginsManager, position: Option<usize>, unit: String) -> (next: (
    Stage,
    Action,
))
    ensures
        match position {
            Some(i) => next.0@ == (StageView::SendEvent { index: i as int, unit: unit@ })
                && next.1@ == (ActionView::RunEvent { index: i as int }),
            None => (Step { stage: next.0@, action: next.1@ }) == dispatch_spec(manager@, unit@),
        },
{
    match position {
        Some(index) => (Stage::SendEvent { index, unit }, Action::RunEvent { index }),
        None => react(manager, unit.as_str()),
    }
}

/// The first action in reaction to `unit`, once its send events are
/// through: `Send` with `"empty buffer"` for a unit without a token, `Send`
/// with `"unknown command"` when no registered command answers to the
/// first token, and else the first command event or, where none is
/// registered, the execution of the command that was registered first among
/// those that answer to the first token, with the remaining tokens as its
/// arguments.
pub fn dispatch(manager: &PluginsManager, unit: &str) -> (action: Action)
    ensures
        action@ == dispatch_spec(manager@, unit@).action,
{
    react(manager, unit).1
}

/// What a dispatcher holds: the id of its client and what it waits for.
pub struct DispatcherView {
    pub id: usize,
    pub stage: StageView,
}

/// The machine of one connection.
#[derive(Debug)]
pub struct Dispatcher {
    id: usize,
    stage: Stage,
}

impl View for Dispatcher {
    type V = DispatcherView;

    closed spec fn view(&self) -> DispatcherView {
        DispatcherView { id: self.id, stage: self.stage@ }
    }
}

impl Dispatcher {
    /// Enters `client` in the registry under a fresh id and returns the
    /// machine of the new connection, which is `Connected` and waits for
    /// `Input::Opened`. When the ids are used up the client comes back and
    /// the registry stays as it is.
    pub fn connect<T>(registry: &mut ClientRegistry<T>, client: T) -> (outcome: Result<
        Dispatcher,
        T,
    >)
        ensures
            final(registry)@ == old(registry)@.register(client),
            match outcome {
                Ok(dispatcher) => old(registry)@.has_room() && dispatcher@ == (DispatcherView {
                    id: old(registry)@.next,
                    stage: StageView::Start,
                }) && !old(registry)@.clients.contains_key(dispatcher@.id)
                    && final(registry)@.clients.contains_key(dispatcher@.id),
                Err(back) => !old(registry)@.has_room() && back == client,
            },
    {
        match registry.register(client) {
            Ok(id) => Ok(Dispatcher { id, stage: Stage::Start }),
            Err(back) => Err(back),
        }
    }

    /// The id of the client.
    pub fn id(&self) -> (id: usize)
        ensures
            id == self@.id,
    {
        self.id
    }

    /// Where the connection stands.
    pub fn state(&self) -> (state: State)
        ensures
            state == self@.stage.state(),
    {
        match &self.stage {
            Stage::Start => State::Connected,
            Stage::ConnectEvent { .. } => State::Connected,
            Stage::ConnectReport { .. } => State::Connected,
            Stage::Closed => State::Disconnected,
            _ => State::Processing,
        }
    }

    /// Takes what the last action brought back and names the next action.
    pub fn step(&mut self, manager: &PluginsManager, input: Input) -> (action: Action)
        ensures
            final(self)@.id == old(self)@.id,
            (Step { stage: final(self)@.stage, action: action@ }) == step_spec(
                old(self)@.stage,
                manager@,
                input@,
            ),
    {
        let mut stage = Stage::Exit;
        core::mem::swap(&mut self.stage, &mut stage);
        let next: (Stage, Action) = match (stage, input) {
            (Stage::Closed, _) => (Stage::Closed, Action::Halt),
            (Stage::Start, Input::Opened) => go_connect(
                manager.events.check_event(EventType::OnConnect, 0),
            ),
            (Stage::ConnectEvent { index }, Input::EventDone(Ok(_))) => go_connect(
                next_after(manager, EventType::OnConnect, index),
            ),
            (Stage::ConnectEvent { index }, Input::EventDone(Err(message))) => (
                Stage::ConnectReport { after: index },
                Action::Send { text: report(message.as_str()) },
            ),
            (Stage::ConnectReport { after }, Input::Sent) => go_connect(
                next_after(manager, EventType::OnConnect, after),
            ),
            (Stage::Unit, Input::Unit(unit)) => {
                let first = manager.events.check_event(EventType::OnSend, 0);
                go_send(manager, first, unit)
            },
            (Stage::SendEvent { index, unit }, Input::EventDone(Ok(_))) => {
                let following = next_after(manager, EventType::OnSend, index);
                go_send(manager, following, unit)
            },
            (Stage::SendEvent { index, unit }, Input::EventDone(Err(message))) => (
                Stage::SendReport { after: index, unit },
                Action::Send { text: report(message.as_str()) },
            ),
            (Stage::SendReport { after, unit }, Input::Sent) => {
                let following = next_after(manager, EventType::OnSend, after);
                go_send(manager, following, unit)
            },
            (Stage::Reply { flush }, Input::Sent) => if flush {
                (Stage::Flush, Action::Flush)
            } else {
                (Stage::Unit, Action::Read)
            },
            (Stage::CommandEvent { index, command, args }, Input::EventDone(Ok(_))) => {
                let following = next_after(manager, EventType::OnCommand, index);
                go_command(following, command, args)
            },
            (Stage::CommandEvent { .. }, Input::EventDone(Err(message))) => (
                Stage::Reply { flush: true },
                Action::Send { text: report(message.as_str()) },
            ),
            (Stage::Command, Input::CommandDone(Ok(_))) => (Stage::Flush, Action::Flush),
            (Stage::Command, Input::CommandDone(Err(message))) => (
                Stage::Reply { flush: true },
                Action::Send { text: report(message.as_str()) },
            ),
            (Stage::Flush, Input::Flushed) => (Stage::Unit, Action::Read),
            _ => (Stage::Exit, Action::Disconnect),
        };
        self.stage = next.0;
        next.1
    }

    /// Takes the client out of the registry; from then on the connection
    /// is `Disconnected`. The client that the registry held under the id
    /// comes back, if it was still there.
    pub fn disconnect<T>(&mut self, registry: &mut ClientRegistry<T>) -> (client: Option<T>)
        ensures
            final(self)@ == (DispatcherView { id: old(self)@.id, stage: StageView::Closed }),
            final(self)@.stage.state() == State::Disconnected,
            final(registry)@ == old(registry)@.remove(old(self)@.id),
            !final(registry)@.clients.contains_key(old(self)@.id),
            client == if old(registry)@.clients.contains_key(old(self)@.id) {
                Some(old(registry)@.clients[old(self)@.id])
            } else {
                None
            },
    {
        self.stage = Stage::Closed;
        registry.remove(self.id)
    }
}

/// The steps that a connection takes from `stage` when `inputs` come in
/// one after the other.
pub open spec fn trace(stage: StageView, manager: ManagerView, inputs: Seq<InputView>) -> Seq<
    Step,
>
    decreases inputs.len(),
{
    if inputs.len() == 0 {
        Seq::empty()
    } else {
        let first = step_spec(stage, manager, inputs[0]);
        seq![first] + trace(first.stage, manager, inputs.drop_first())
    }
}

/// The order of the three states.
pub open spec fn rank(state: State) -> int {
    match state {
        State::Connected => 0,
        State::Processing => 1,
        State::Disconnected => 2,
    }
}

/// A unit whose first token answers to no registered name or alias is
/// replied to with exactly `"unknown command"`, and nothing is executed
/// for it.
pub proof fn law_unknown_command(manager: ManagerView, unit: Seq<char>)
    requires
        tokens(unit).len() > 0,
        forall|i: int|
            0 <= i < manager.commands.len() ==> !(#[trigger] manager.commands[i]).answers_to(
                tokens(unit)[0],
            ),
    ensures
        dispatch_spec(manager, unit) == (Step {
            stage: StageView::Reply { flush: true },
            action: ActionView::Send { text: unknown_command() },
        }),
        step_spec(StageView::Reply { flush: true }, manager, InputView::Sent) == (Step {
            stage: StageView::Flush,
            action: ActionView::Flush,
        }),
{
    lemma_resolve_from(manager.commands, tokens(unit)[0], 0);
}

/// A unit without a token, which is a unit of whitespace alone, is replied
/// to with exactly `"empty buffer"`; then the next read begins, and neither
/// a command nor a command event runs for the unit.
pub proof fn law_empty_unit(manager: ManagerView, unit: Seq<char>)
    requires
        tokens(unit).len() == 0,
    ensures
        forall|k: int| 0 <= k < unit.len() ==> is_space(#[trigger] unit[k]),
        dispatch_spec(manager, unit) == (Step {
            stage: StageView::Reply { flush: false },
            action: ActionView::Send { text: empty_buffer() },
        }),
        step_spec(StageView::Reply { flush: false }, manager, InputView::Sent) == (Step {
            stage: StageView::Unit,
            action: ActionView::Read,
        }),
{
    lemma_no_tokens_iff_blank(unit);
}

/// A unit that holds anything but whitespace is never replied to with
/// `"empty buffer"`: either a command is chosen for it or the reply is
/// `"unknown command"`.
pub proof fn law_filled_unit(manager: ManagerView, unit: Seq<char>, at: int)
    requires
        0 <= at < unit.len(),
        !is_space(unit[at]),
    ensures
        tokens(unit).len() > 0,
        dispatch_spec(manager, unit).stage != (StageView::Reply { flush: false }),
{
    lemma_no_tokens_iff_blank(unit);
}

/// The name and the arguments that a unit is split into hold no whitespace
/// and are never empty.
pub proof fn law_arguments_are_words(manager: ManagerView, unit: Seq<char>)
    ensures
        match dispatch_spec(manager, unit).action {
            ActionView::Execute { args, .. } => forall|i: int|
                0 <= i < args.len() ==> (#[trigger] args[i]).len() > 0 && forall|k: int|
                    0 <= k < args[i].len() ==> !is_space(#[trigger] args[i][k]),
            _ => true,
        },
{
    lemma_tokens_are_words(unit);
    let words = tokens(unit);
    if words.len() > 0 {
        let args = words.skip(1);
        assert forall|i: int| 0 <= i < args.len() implies (#[trigger] args[i]).len() > 0
            && forall|k: int| 0 <= k < args[i].len() ==> !is_space(#[trigger] args[i][k]) by {
            assert(args[i] == words[i + 1]);
            assert forall|k: int| 0 <= k < args[i].len() implies !is_space(
                #[trigger] args[i][k],
            ) by {
                assert(args[i][k] == words[i + 1][k]);
            }
        }
    }
}

/// Where no send event is registered, a unit without a token runs no
/// extension code at all: the read is answered with `"empty buffer"` and
/// followed by the next read.
pub proof fn law_empty_unit_runs_nothing(manager: ManagerView, unit: Seq<char>)
    requires
        tokens(unit).len() == 0,
        forall|i: int|
            0 <= i < manager.events.len() ==> #[trigger] manager.events[i] != EventType::OnSend,
    ensures
        trace(StageView::Unit, manager, seq![InputView::Unit(unit), InputView::Sent]) == seq![
            Step {
                stage: StageView::Reply { flush: false },
                action: ActionView::Send { text: empty_buffer() },
            },
            Step { stage: StageView::Unit, action: ActionView::Read },
        ],
{
    lemma_next_event(manager.events, EventType::OnSend, 0);
    let inputs = seq![InputView::Unit(unit), InputView::Sent];
    let first = step_spec(StageView::Unit, manager, inputs[0]);
    assert(first == dispatch_spec(manager, unit));
    let rest = inputs.drop_first();
    assert(rest[0] == InputView::Sent);
    let second = step_spec(first.stage, manager, rest[0]);
    assert(rest.drop_first().len() == 0);
    assert(trace(second.stage, manager, rest.drop_first()) == Seq::<Step>::empty());
    assert(trace(first.stage, manager, rest) == seq![second] + Seq::<Step>::empty());
    assert(trace(StageView::Unit, manager, inputs) == seq![first] + (seq![second]
        + Seq::<Step>::empty()));
}

/// Among several commands that answer to the first token of a unit, the
/// one that was registered first is chosen, and it gets the remaining
/// tokens as its arguments.
pub proof fn law_first_match_wins(manager: ManagerView, unit: Seq<char>, command: int)
    requires
        tokens(unit).len() > 0,
        0 <= command < manager.commands.len(),
        manager.commands[command].answers_to(tokens(unit)[0]),
        forall|i: int|
            0 <= i < command ==> !(#[trigger] manager.commands[i]).answers_to(tokens(unit)[0]),
    ensures
        dispatch_spec(manager, unit) == advance_command(manager, 0, command, tokens(unit).skip(1)),
        match dispatch_spec(manager, unit).stage {
            StageView::CommandEvent { command: chosen, args, .. } => chosen == command && args
                == tokens(unit).skip(1),
            StageView::Command => dispatch_spec(manager, unit).action == (ActionView::Execute {
                command,
                args: tokens(unit).skip(1),
            }),
            _ => false,
        },
{
    lemma_resolve_from(manager.commands, tokens(unit)[0], 0);
}

/// Once the loop of a connection has ended, no event and no command runs
/// for it any more, whatever comes in: until the client has left the
/// registry the only action is `Disconnect`, and afterwards there is none.
pub proof fn law_nothing_runs_after_exit(
    stage: StageView,
    manager: ManagerView,
    inputs: Seq<InputView>,
)
    requires
        stage is Exit || stage is Closed,
    ensures
        trace(stage, manager, inputs).len() == inputs.len(),
        forall|k: int|
            0 <= k < inputs.len() ==> {
                let step = #[trigger] trace(stage, manager, inputs)[k];
                &&& step.stage == stage
                &&& !step.action.runs_extension()
                &&& step.action == if stage is Closed {
                    ActionView::Halt
                } else {
                    ActionView::Disconnect
                }
            },
    decreases inputs.len(),
{
    if inputs.len() > 0 {
        let first = step_spec(stage, manager, inputs[0]);
        assert(first.stage == stage);
        law_nothing_runs_after_exit(stage, manager, inputs.drop_first());
        let rest = trace(stage, manager, inputs.drop_first());
        assert(trace(stage, manager, inputs) == seq![first] + rest);
        assert forall|k: int| 0 <= k < inputs.len() implies {
            let step = #[trigger] trace(stage, manager, inputs)[k];
            &&& step.stage == stage
            &&& !step.action.runs_extension()
            &&& step.action == if stage is Closed {
                ActionView::Halt
            } else {
                ActionView::Disconnect
            }
        } by {
            if k > 0 {
                assert(trace(stage, manager, inputs)[k] == rest[k - 1]);
            }
        }
    }
}

/// A connection never goes back: from `Connected` it moves on to
/// `Processing`, and no step leads to `Disconnected` or out of it. Only
/// `Dispatcher::disconnect`, which takes the client out of the registry,
/// makes a connection `Disconnected`.
pub proof fn law_states_advance(stage: StageView, manager: ManagerView, input: InputView)
    ensures
        rank(stage.state()) <= rank(step_spec(stage, manager, input).stage.state()),
        step_spec(stage, manager, input).stage is Closed <==> stage is Closed,
{
}

} // verus!
