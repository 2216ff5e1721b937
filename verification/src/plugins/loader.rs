//! The order of work at startup.
//!
//! Loading touches the file system and runs foreign code, which this
//! library does not do. What it does is to hold the manager that is being
//! filled, with the built-in commands in it from the beginning, and to say
//! what comes next: make the directory if it is missing, list it, load
//! each entry once and in the order of the listing, then run the load hook
//! of every plugin in registration order. The first failure ends the
//! start.

use vstd::prelude::*;
use crate::commands::{builtin_commands, builtin_manager};
use crate::error::ServerError;
use crate::plugins::manager::PluginsManager;
use crate::plugins::types::{CommandInfo, EventType, ManagerView, PluginInfo, Registrar};
use crate::text::texts;

verus! {

/// What the last action brought back.
#[derive(Debug, PartialEq, Eq)]
pub enum LoadInput {
    /// Nothing was asked for yet; `exists` tells whether the plugins
    /// directory is there.
    Begin { exists: bool },
    /// The directory was made, or making it failed with the message.
    Created(Result<(), String>),
    /// The directory was listed and these are the paths of its entries, or
    /// listing it failed with the message.
    Listed(Result<Vec<String>, String>),
    /// The library was opened and its entry point has run, or one of the
    /// two failed with the message.
    Loaded(Result<(), String>),
    /// The load hook has run.
    Hooked,
}

/// An input, as plain text. Where an action can fail, the failure is the
/// message and success is what the action brought, if anything.
pub enum LoadInputView {
    Begin { exists: bool },
    Created(Option<Seq<char>>),
    Listed(Result<Seq<Seq<char>>, Seq<char>>),
    Loaded(Option<Seq<char>>),
    Hooked,
}

impl View for LoadInput {
    type V = LoadInputView;

    open spec fn view(&self) -> LoadInputView {
        match self {
            LoadInput::Begin { exists } => LoadInputView::Begin { exists: *exists },
            LoadInput::Created(Ok(_)) => LoadInputView::Created(None),
            LoadInput::Created(Err(message)) => LoadInputView::Created(Some(message@)),
            LoadInput::Listed(Ok(paths)) => LoadInputView::Listed(Ok(texts(paths@))),
            LoadInput::Listed(Err(message)) => LoadInputView::Listed(Err(message@)),
            LoadInput::Loaded(Ok(_)) => LoadInputView::Loaded(None),
            LoadInput::Loaded(Err(message)) => LoadInputView::Loaded(Some(message@)),
            LoadInput::Hooked => LoadInputView::Hooked,
        }
    }
}

/// The one thing to do next.
#[derive(Debug, PartialEq, Eq)]
pub enum LoadAction {
    /// Make the plugins directory, then come back with
    /// `LoadInput::Created`.
    CreateDir,
    /// List the plugins directory, then come back with
    /// `LoadInput::Listed`.
    ReadDir,
    /// Open the library at `path` and run its entry point once, then come
    /// back with `LoadInput::Loaded`.
    Load { path: String },
    /// Run the load hook of the plugin registered at `plugin`, then come
    /// back with `LoadInput::Hooked`.
    OnLoad { plugin: usize },
    /// Everything is loaded; connections can be accepted.
    Done,
    /// The start has failed; `message` is that of the load failure.
    Abort { message: String },
}

/// An action, as plain text.
pub enum LoadActionView {
    CreateDir,
    ReadDir,
    Load { path: Seq<char> },
    OnLoad { plugin: int },
    Done,
    Abort { message: Seq<char> },
}

impl View for LoadAction {
    type V = LoadActionView;

    open spec fn view(&self) -> LoadActionView {
        match self {
            LoadAction::CreateDir => LoadActionView::CreateDir,
            LoadAction::ReadDir => LoadActionView::ReadDir,
            LoadAction::Load { path } => LoadActionView::Load { path: path@ },
            LoadAction::OnLoad { plugin } => LoadActionView::OnLoad { plugin: *plugin as int },
            LoadAction::Done => LoadActionView::Done,
            LoadAction::Abort { message } => LoadActionView::Abort { message: message@ },
        }
    }
}

impl LoadAction {
    /// The failure that an abort stands for: a load failure with the
    /// message of the abort. Every other action stands for none.
    pub fn error(&self) -> (error: Option<ServerError>)
        ensures
            match self {
                LoadAction::Abort { message } => error matches Some(ServerError::Load(text))
                    && text@ == message@,
                _ => error is None,
            },
    {
        match self {
            LoadAction::Abort { message } => Some(ServerError::Load(message.clone())),
            _ => None,
        }
    }
}

/// What the start is waiting for.
#[derive(Debug)]
enum LoadStage {
    Start,
    Creating,
    Listing,
    Loading { paths: Vec<String>, at: usize },
    Hooks { at: usize },
    Finished,
    Failed { message: String },
}

/// What the start is waiting for, as plain text.
pub enum LoadStageView {
    /// Nothing was asked for yet.
    Start,
    /// The directory is being made.
    Creating,
    /// The directory is being listed.
    Listing,
    /// The entry at position `at` of `paths` is being loaded.
    Loading { paths: Seq<Seq<char>>, at: int },
    /// The load hook of the plugin at position `at` is running.
    Hooks { at: int },
    /// Everything is loaded.
    Finished,
    /// The start has failed.
    Failed { message: Seq<char> },
}

impl View for LoadStage {
    type V = LoadStageView;

    closed spec fn view(&self) -> LoadStageView {
        match self {
            LoadStage::Start => LoadStageView::Start,
            LoadStage::Creating => LoadStageView::Creating,
            LoadStage::Listing => LoadStageView::Listing,
            LoadStage::Loading { paths, at } => LoadStageView::Loading {
                paths: texts(paths@),
                at: *at as int,
            },
            LoadStage::Hooks { at } => LoadStageView::Hooks { at: *at as int },
            LoadStage::Finished => LoadStageView::Finished,
            LoadStage::Failed { message } => LoadStageView::Failed { message: message@ },
        }
    }
}

/// A stage together with the action that leads into it.
pub struct LoadStep {
    pub stage: LoadStageView,
    pub action: LoadActionView,
}

/// The end of a start that has failed with `message`.
pub open spec fn abort(message: Seq<char>) -> LoadStep {
    LoadStep {
        stage: LoadStageView::Failed { message },
        action: LoadActionView::Abort { message },
    }
}

/// What is said of an input that does not answer the last action.
pub open spec fn out_of_turn() -> Seq<char> {
    "unexpected step while loading plugins"@
}

/// Goes on with the load hooks from position `at`, where `plugins` plugins
/// are registered: the next hook runs, and after the last one the start is
/// done.
pub open spec fn hooks_from(at: int, plugins: int) -> LoadStep {
    if at < plugins {
        LoadStep { stage: LoadStageView::Hooks { at }, action: LoadActionView::OnLoad { plugin: at } }
    } else {
        LoadStep { stage: LoadStageView::Finished, action: LoadActionView::Done }
    }
}

/// Goes on with the entries of the directory from position `at`: the next
/// one is loaded, and after the last one the load hooks begin.
pub open spec fn load_from(paths: Seq<Seq<char>>, at: int, plugins: int) -> LoadStep {
    if at < paths.len() {
        LoadStep {
            stage: LoadStageView::Loading { paths, at },
            action: LoadActionView::Load { path: paths[at] },
        }
    } else {
        hooks_from(0, plugins)
    }
}

/// The transition of the start: from what it waits for and what came in,
/// to what it waits for next and the action that leads there. `plugins` is
/// the number of plugins registered at the time of the step.
///
/// A missing directory is made, which is no failure. Then the directory is
/// listed and each entry is loaded once, in the order of the listing.
/// After the last entry the load hook of every registered plugin runs, in
/// registration order. The first failure of any action aborts the start
/// with the message of that failure, and so does an input that does not
/// answer the last action. Once the start is done or has failed, every
/// further step says so again and nothing more is loaded.
pub open spec fn load_step_spec(stage: LoadStageView, plugins: int, input: LoadInputView) -> LoadStep {
    match (stage, input) {
        (LoadStageView::Finished, _) => LoadStep {
            stage: LoadStageView::Finished,
            action: LoadActionView::Done,
        },
        (LoadStageView::Failed { message }, _) => abort(message),
        (LoadStageView::Start, LoadInputView::Begin { exists }) => if exists {
            LoadStep { stage: LoadStageView::Listing, action: LoadActionView::ReadDir }
        } else {
            LoadStep { stage: LoadStageView::Creating, action: LoadActionView::CreateDir }
        },
        (LoadStageView::Creating, LoadInputView::Created(None)) => LoadStep {
            stage: LoadStageView::Listing,
            action: LoadActionView::ReadDir,
        },
        (LoadStageView::Creating, LoadInputView::Created(Some(message))) => abort(message),
        (LoadStageView::Listing, LoadInputView::Listed(Ok(paths))) => load_from(paths, 0, plugins),
        (LoadStageView::Listing, LoadInputView::Listed(Err(message))) => abort(message),
        (LoadStageView::Loading { paths, at }, LoadInputView::Loaded(None)) => load_from(
            paths,
            at + 1,
            plugins,
        ),
        (LoadStageView::Loading { .. }, LoadInputView::Loaded(Some(message))) => abort(message),
        (LoadStageView::Hooks { at }, LoadInputView::Hooked) => hooks_from(at + 1, plugins),
        _ => abort(out_of_turn()),
    }
}

/// The steps that a start takes from `stage` when `inputs` come in one
/// after the other while `plugins` plugins are registered.
pub open spec fn load_trace(stage: LoadStageView, plugins: int, inputs: Seq<LoadInputView>) -> Seq<
    LoadStep,
>
    decreases inputs.len(),
{
    if inputs.len() == 0 {
        Seq::empty()
    } else {
        let first = load_step_spec(stage, plugins, inputs[0]);
        seq![first] + load_trace(first.stage, plugins, inputs.drop_first())
    }
}

/// What a loader holds: everything registered so far, and what the start
/// is waiting for.
pub struct LoaderView {
    pub manager: ManagerView,
    pub stage: LoadStageView,
}

/// The machine that orders the work at startup, with the manager that the
/// libraries register into.
#[derive(Debug)]
pub struct Loader {
    manager: PluginsManager,
    stage: LoadStage,
}

impl View for Loader {
    type V = LoaderView;

    closed spec fn view(&self) -> LoaderView {
        LoaderView { manager: self.manager@, stage: self.stage@ }
    }
}

/// The stage and the action of a start that has failed with `message`.
fn fail(message: String) -> (next: (LoadStage, LoadAction))
    ensures
        (LoadStep { stage: next.0@, action: next.1@ }) == abort(message@),
{
    let again = message.clone();
    (LoadStage::Failed { message }, LoadAction::Abort { message: again })
}

/// The stage and the action for the load hook at position `at`.
fn go_hooks(at: usize, plugins: usize) -> (next: (LoadStage, LoadAction))
    ensures
        (LoadStep { stage: next.0@, action: next.1@ }) == hooks_from(at as int, plugins as int),
{
    if at < plugins {
        (LoadStage::Hooks { at }, LoadAction::OnLoad { plugin: at })
    } else {
        (LoadStage::Finished, LoadAction::Done)
    }
}

/// The stage and the action for the entry at position `at`.
fn go_load(paths: Vec<String>, at: usize, plugins: usize) -> (next: (LoadStage, LoadAction))
    ensures
        (LoadStep { stage: next.0@, action: next.1@ }) == load_from(
            texts(paths@),
            at as int,
            plugins as int,
        ),
{
    if at < paths.len() {
        let path = paths[at].clone();
        (LoadStage::Loading { paths, at }, LoadAction::Load { path })
    } else {
        go_hooks(0, plugins)
    }
}

impl Loader {
    /// A start at which nothing was asked for yet. The manager holds the
    /// built-in commands and nothing else, so that whatever a library
    /// registers comes behind them.
    pub fn new() -> (loader: Loader)
        ensures
            loader@ == (LoaderView {
                manager: ManagerView {
                    plugins: Seq::empty(),
                    commands: builtin_commands(),
                    events: Seq::empty(),
                },
                stage: LoadStageView::Start,
            }),
    {
        Loader { manager: builtin_manager(), stage: LoadStage::Start }
    }

    /// Everything registered so far.
    pub fn manager(&self) -> (manager: &PluginsManager)
        ensures
            manager@ == self@.manager,
    {
        &self.manager
    }

    /// Takes what the last action brought back and names the next action.
    /// What is registered stays as it is.
    pub fn step(&mut self, input: LoadInput) -> (action: LoadAction)
        ensures
            final(self)@.manager == old(self)@.manager,
            (LoadStep { stage: final(self)@.stage, action: action@ }) == load_step_spec(
                old(self)@.stage,
                old(self)@.manager.plugins.len() as int,
                input@,
            ),
    {
        let plugins: usize = self.manager.plugins.len();
        let mut stage = LoadStage::Start;
        core::mem::swap(&mut self.stage, &mut stage);
        let next: (LoadStage, LoadAction) = match (stage, input) {
            (LoadStage::Finished, _) => (LoadStage::Finished, LoadAction::Done),
            (LoadStage::Failed { message }, _) => fail(message),
            (LoadStage::Start, LoadInput::Begin { exists }) => if exists {
                (LoadStage::Listing, LoadAction::ReadDir)
            } else {
                (LoadStage::Creating, LoadAction::CreateDir)
            },
            (LoadStage::Creating, LoadInput::Created(Ok(_))) => (
                LoadStage::Listing,
                LoadAction::ReadDir,
            ),
            (LoadStage::Creating, LoadInput::Created(Err(message))) => fail(message),
            (LoadStage::Listing, LoadInput::Listed(Ok(paths))) => go_load(paths, 0, plugins),
            (LoadStage::Listing, LoadInput::Listed(Err(message))) => fail(message),
            (LoadStage::Loading { paths, at }, LoadInput::Loaded(Ok(_))) => {
                if at < paths.len() {
                    go_load(paths, at + 1, plugins)
                } else {
                    go_hooks(0, plugins)
                }
            },
            (LoadStage::Loading { .. }, LoadInput::Loaded(Err(message))) => fail(message),
            (LoadStage::Hooks { at }, LoadInput::Hooked) => {
                if at < plugins {
                    go_hooks(at + 1, plugins)
                } else {
                    (LoadStage::Finished, LoadAction::Done)
                }
            },
            _ => fail("unexpected step while loading plugins".to_string()),
        };
        self.stage = next.0;
        next.1
    }

    /// Whether everything is loaded.
    pub fn is_done(&self) -> (done: bool)
        ensures
            done == (self@.stage is Finished),
    {
        match &self.stage {
            LoadStage::Finished => true,
            _ => false,
        }
    }

    /// Hands out the manager once everything is loaded. Before that, and
    /// after a failure, the loader comes back as it is: there is no manager
    /// of a start that has not come to its end.
    pub fn finish(self) -> (outcome: Result<PluginsManager, Loader>)
        ensures
            match outcome {
                Ok(manager) => self@.stage is Finished && manager@ == self@.manager,
                Err(loader) => !(self@.stage is Finished) && loader@ == self@,
            },
    {
        match &self.stage {
            LoadStage::Finished => Ok(self.manager),
            _ => Err(self),
        }
    }
}

impl Registrar for Loader {
    open spec fn registered(&self) -> ManagerView {
        self@.manager
    }

    fn register_plugins(&mut self, plugin: PluginInfo)
        ensures
            final(self)@.stage == old(self)@.stage,
    {
        self.manager.register_plugins(plugin);
    }

    fn register_commands(&mut self, command: CommandInfo)
        ensures
            final(self)@.stage == old(self)@.stage,
    {
        self.manager.register_commands(command);
    }

    fn register_events(&mut self, event: EventType)
        ensures
            final(self)@.stage == old(self)@.stage,
    {
        self.manager.register_events(event);
    }
}

/// With an empty plugins directory the start is done right after the
/// listing: nothing is loaded and, as no plugin is registered, no hook
/// runs. A missing directory is made first, which is no failure.
pub proof fn law_empty_directory()
    ensures
        actions_of(
            load_trace(
                LoadStageView::Start,
                0,
                seq![LoadInputView::Begin { exists: true }, LoadInputView::Listed(Ok(Seq::empty()))],
            ),
        ) == seq![LoadActionView::ReadDir, LoadActionView::Done],
        actions_of(
            load_trace(
                LoadStageView::Start,
                0,
                seq![
                    LoadInputView::Begin { exists: false },
                    LoadInputView::Created(None),
                    LoadInputView::Listed(Ok(Seq::empty())),
                ],
            ),
        ) == seq![LoadActionView::CreateDir, LoadActionView::ReadDir, LoadActionView::Done],
{
    let listed = LoadInputView::Listed(Ok(Seq::<Seq<char>>::empty()));
    let done = LoadStep { stage: LoadStageView::Finished, action: LoadActionView::Done };
    let list = LoadStep { stage: LoadStageView::Listing, action: LoadActionView::ReadDir };
    let make = LoadStep { stage: LoadStageView::Creating, action: LoadActionView::CreateDir };
    assert(load_step_spec(LoadStageView::Listing, 0, listed) == done);
    lemma_trace_one(LoadStageView::Listing, 0, listed);
    let from_listing = seq![listed];
    let have = seq![LoadInputView::Begin { exists: true }, listed];
    assert(have.drop_first() == from_listing);
    assert(load_trace(LoadStageView::Start, 0, have) == seq![list] + seq![done]);
    assert(actions_of(seq![list] + seq![done]) =~= seq![
        LoadActionView::ReadDir,
        LoadActionView::Done,
    ]);
    let from_creating = seq![LoadInputView::Created(None), listed];
    assert(from_creating.drop_first() == from_listing);
    assert(load_trace(LoadStageView::Creating, 0, from_creating) == seq![list] + seq![done]);
    let lack = seq![LoadInputView::Begin { exists: false }, LoadInputView::Created(None), listed];
    assert(lack.drop_first() == from_creating);
    assert(load_trace(LoadStageView::Start, 0, lack) == seq![make] + (seq![list] + seq![done]));
    assert(actions_of(seq![make] + (seq![list] + seq![done])) =~= seq![
        LoadActionView::CreateDir,
        LoadActionView::ReadDir,
        LoadActionView::Done,
    ]);
}

/// One input makes one step.
proof fn lemma_trace_one(stage: LoadStageView, plugins: int, input: LoadInputView)
    ensures
        load_trace(stage, plugins, seq![input]) == seq![load_step_spec(stage, plugins, input)],
{
    let inputs = seq![input];
    let first = load_step_spec(stage, plugins, inputs[0]);
    assert(inputs.drop_first().len() == 0);
    assert(load_trace(first.stage, plugins, inputs.drop_first()) == Seq::<LoadStep>::empty());
    assert(seq![first] + Seq::<LoadStep>::empty() == seq![first]);
}

/// Once a start has failed, nothing more is loaded and no hook runs,
/// whatever comes in: every further step aborts with the same message.
pub proof fn law_failed_start_stays_failed(
    message: Seq<char>,
    plugins: int,
    inputs: Seq<LoadInputView>,
)
    ensures
        load_trace(LoadStageView::Failed { message }, plugins, inputs).len() == inputs.len(),
        forall|k: int|
            0 <= k < inputs.len() ==> #[trigger] load_trace(
                LoadStageView::Failed { message },
                plugins,
                inputs,
            )[k] == abort(message),
    decreases inputs.len(),
{
    let stage = LoadStageView::Failed { message };
    if inputs.len() > 0 {
        let first = load_step_spec(stage, plugins, inputs[0]);
        law_failed_start_stays_failed(message, plugins, inputs.drop_first());
        let rest = load_trace(stage, plugins, inputs.drop_first());
        assert(load_trace(stage, plugins, inputs) == seq![first] + rest);
        assert forall|k: int| 0 <= k < inputs.len() implies #[trigger] load_trace(
            stage,
            plugins,
            inputs,
        )[k] == abort(message) by {
            if k > 0 {
                assert(load_trace(stage, plugins, inputs)[k] == rest[k - 1]);
            }
        }
    }
}

/// The inputs that follow the listing in a start that meets no failure:
/// `loads` entries load and `hooks` hooks run.
pub open spec fn smooth_tail(loads: int, hooks: int) -> Seq<LoadInputView> {
    Seq::new(loads as nat, |i: int| LoadInputView::Loaded(None)) + Seq::new(
        hooks as nat,
        |i: int| LoadInputView::Hooked,
    )
}

/// The inputs of a start that meets no failure: the directory is there,
/// its listing brings `paths`, every entry loads and every hook runs.
pub open spec fn smooth_inputs(paths: Seq<Seq<char>>, plugins: int) -> Seq<LoadInputView> {
    seq![LoadInputView::Begin { exists: true }, LoadInputView::Listed(Ok(paths))] + smooth_tail(
        paths.len() as int,
        plugins,
    )
}

/// One load for each entry of `paths` from position `from` on, in the
/// order of the listing.
pub open spec fn loads(paths: Seq<Seq<char>>, from: int) -> Seq<LoadActionView> {
    Seq::new((paths.len() - from) as nat, |i: int| LoadActionView::Load { path: paths[from + i] })
}

/// One hook for each plugin from position `from` on, in registration
/// order, and then the end.
pub open spec fn hooks(from: int, plugins: int) -> Seq<LoadActionView> {
    Seq::new((plugins - from) as nat, |i: int| LoadActionView::OnLoad { plugin: from + i })
        + seq![LoadActionView::Done]
}

/// The actions of a start that meets no failure: the listing, one load
/// for each entry in the order of the listing, one hook for each plugin in
/// registration order, and the end.
pub open spec fn smooth_actions(paths: Seq<Seq<char>>, plugins: int) -> Seq<LoadActionView> {
    seq![LoadActionView::ReadDir] + loads(paths, 0) + hooks(0, plugins)
}

/// The actions in a sequence of steps.
pub open spec fn actions_of(steps: Seq<LoadStep>) -> Seq<LoadActionView> {
    Seq::new(steps.len(), |i: int| steps[i].action)
}

/// The actions of a step and of the steps behind it.
proof fn lemma_actions_of_cons(first: LoadStep, rest: Seq<LoadStep>)
    ensures
        actions_of(seq![first] + rest) == seq![first.action] + actions_of(rest),
{
    assert(actions_of(seq![first] + rest) =~= seq![first.action] + actions_of(rest));
}

/// The hook at position `at` and all hooks behind it run one after the
/// other, and then the start is done.
proof fn lemma_hooks_run(at: int, plugins: int)
    requires
        0 <= at <= plugins,
    ensures
        seq![hooks_from(at, plugins).action] + actions_of(
            load_trace(hooks_from(at, plugins).stage, plugins, smooth_tail(0, plugins - at)),
        ) == hooks(at, plugins),
    decreases plugins - at,
{
    let step = hooks_from(at, plugins);
    let inputs = smooth_tail(0, plugins - at);
    if at < plugins {
        assert(inputs[0] == LoadInputView::Hooked);
        let first = load_step_spec(step.stage, plugins, inputs[0]);
        assert(first == hooks_from(at + 1, plugins));
        assert(inputs.drop_first() =~= smooth_tail(0, plugins - at - 1));
        let rest = load_trace(first.stage, plugins, inputs.drop_first());
        assert(load_trace(step.stage, plugins, inputs) == seq![first] + rest);
        lemma_hooks_run(at + 1, plugins);
        lemma_actions_of_cons(first, rest);
        assert(seq![step.action] + hooks(at + 1, plugins) =~= hooks(at, plugins));
    } else {
        assert(inputs.len() == 0);
        assert(load_trace(step.stage, plugins, inputs) == Seq::<LoadStep>::empty());
        assert(seq![step.action] + actions_of(Seq::<LoadStep>::empty()) =~= hooks(at, plugins));
    }
}

/// The entry at position `at` and all entries behind it load one after
/// the other, and then all hooks run.
proof fn lemma_loads_run(paths: Seq<Seq<char>>, at: int, plugins: int)
    requires
        0 <= at <= paths.len(),
        0 <= plugins,
    ensures
        seq![load_from(paths, at, plugins).action] + actions_of(
            load_trace(
                load_from(paths, at, plugins).stage,
                plugins,
                smooth_tail(paths.len() - at, plugins),
            ),
        ) == loads(paths, at) + hooks(0, plugins),
    decreases paths.len() - at,
{
    let step = load_from(paths, at, plugins);
    let inputs = smooth_tail(paths.len() - at, plugins);
    if at < paths.len() {
        assert(inputs[0] == LoadInputView::Loaded(None));
        let first = load_step_spec(step.stage, plugins, inputs[0]);
        assert(first == load_from(paths, at + 1, plugins));
        assert(inputs.drop_first() =~= smooth_tail(paths.len() - at - 1, plugins));
        let rest = load_trace(first.stage, plugins, inputs.drop_first());
        assert(load_trace(step.stage, plugins, inputs) == seq![first] + rest);
        lemma_loads_run(paths, at + 1, plugins);
        lemma_actions_of_cons(first, rest);
        assert(seq![step.action] + (loads(paths, at + 1) + hooks(0, plugins)) =~= loads(paths, at)
            + hooks(0, plugins));
    } else {
        assert(step == hooks_from(0, plugins));
        assert(inputs =~= smooth_tail(0, plugins));
        lemma_hooks_run(0, plugins);
        assert(hooks(0, plugins) =~= loads(paths, at) + hooks(0, plugins));
    }
}

/// A start that meets no failure lists the directory, loads each entry
/// exactly once and in the order of the listing, then runs the load hook of
/// each plugin exactly once and in registration order, and is done. No
/// hook runs before the last entry is loaded.
pub proof fn law_smooth_start(paths: Seq<Seq<char>>, plugins: int)
    requires
        0 <= plugins,
    ensures
        actions_of(load_trace(LoadStageView::Start, plugins, smooth_inputs(paths, plugins)))
            == smooth_actions(paths, plugins),
{
    let inputs = smooth_inputs(paths, plugins);
    let tail = smooth_tail(paths.len() as int, plugins);
    let begin = load_step_spec(LoadStageView::Start, plugins, inputs[0]);
    let after_begin = inputs.drop_first();
    assert(after_begin =~= seq![LoadInputView::Listed(Ok(paths))] + tail);
    let listed = load_step_spec(begin.stage, plugins, after_begin[0]);
    assert(listed == load_from(paths, 0, plugins));
    assert(after_begin.drop_first() =~= tail);
    let rest = load_trace(listed.stage, plugins, tail);
    assert(load_trace(begin.stage, plugins, after_begin) == seq![listed] + rest);
    assert(load_trace(LoadStageView::Start, plugins, inputs) == seq![begin] + (seq![listed]
        + rest));
    lemma_loads_run(paths, 0, plugins);
    lemma_actions_of_cons(listed, rest);
    lemma_actions_of_cons(begin, seq![listed] + rest);
    assert(seq![begin.action] + (loads(paths, 0) + hooks(0, plugins)) =~= smooth_actions(
        paths,
        plugins,
    ));
}

} // verus!
