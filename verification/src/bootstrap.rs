//! The startup sequence as a state machine. The caller does what each action
//! asks for (reads the template directory, binds the listener, serves) and
//! reports back with an event; every decision is taken here.

use crate::port::accepted_port;
use crate::port::port_in_range;
use crate::port::rejection;
use crate::port::validate_port;
use crate::port::Configuration;
use crate::port::PortError;
use crate::port::PortErrorView;
use crate::port::DEFAULT_PORT_TEXT;
use crate::site::Site;
use crate::templates::holds_template_file;
use crate::templates::load_templates;
use crate::templates::loaded_templates;
use crate::templates::template_count;
use crate::templates::TemplateFile;
use crate::templates::TemplateInitError;
use crate::templates::TemplateMap;
use crate::templates::TemplateRegistry;
use crate::templates::TEMPLATE_EXTENSION;
use std::sync::Arc;
use vstd::prelude::*;

verus! {

/// The address the server listens on: the local machine only.
pub const BIND_ADDRESS: &'static str = "127.0.0.1";

/// Why startup failed, over plain text.
pub enum StartupErrorView {
    Configuration(PortErrorView),
    TemplatesUnreadable,
    TemplateMalformed(Seq<char>),
    Bind,
}

/// Why startup failed.
#[derive(Debug)]
pub enum StartupError {
    /// The port was rejected.
    Configuration(PortError),
    /// The templates could not be loaded.
    Templates(TemplateInitError),
    /// The listener could not be bound to the address and port.
    Bind,
}

impl View for StartupError {
    type V = StartupErrorView;

    open spec fn view(&self) -> StartupErrorView {
        match self {
            StartupError::Configuration(e) => StartupErrorView::Configuration(e@),
            StartupError::Templates(TemplateInitError::DirectoryUnreadable) => {
                StartupErrorView::TemplatesUnreadable
            },
            StartupError::Templates(TemplateInitError::Malformed { file, .. }) => {
                StartupErrorView::TemplateMalformed(file@)
            },
            StartupError::Bind => StartupErrorView::Bind,
        }
    }
}

/// How the run ended, over plain text.
pub enum EndingView {
    StartupFailed(StartupErrorView),
    ShutDown,
    Faulted,
}

/// How the run ended.
#[derive(Debug)]
pub enum Ending {
    /// Startup failed before the server listened.
    StartupFailed(StartupError),
    /// The running server was asked to shut down.
    ShutDown,
    /// The running server met a fault it could not recover from.
    Faulted,
}

impl View for Ending {
    type V = EndingView;

    open spec fn view(&self) -> EndingView {
        match self {
            Ending::StartupFailed(e) => EndingView::StartupFailed(e@),
            Ending::ShutDown => EndingView::ShutDown,
            Ending::Faulted => EndingView::Faulted,
        }
    }
}

/// The state of startup, over plain values.
pub enum StateView {
    Unconfigured,
    Configured { port: u16 },
    TemplatesLoaded { port: u16, templates: TemplateMap },
    Assembled { port: u16, templates: TemplateMap },
    Listening { port: u16, templates: TemplateMap },
    Running { port: u16, templates: TemplateMap },
    Terminated { ending: EndingView },
}

/// The state of startup, with what has been built so far. The registry and
/// the site are shared: whoever serves a request reads them, nobody writes.
pub enum State {
    /// Nothing is known yet.
    Unconfigured,
    /// The port is valid.
    Configured { config: Configuration },
    /// Every template is compiled.
    TemplatesLoaded { config: Configuration, registry: Arc<TemplateRegistry> },
    /// Mounts and routes stand beside the templates.
    Assembled { config: Configuration, registry: Arc<TemplateRegistry>, site: Arc<Site> },
    /// The listener is bound.
    Listening { config: Configuration, registry: Arc<TemplateRegistry>, site: Arc<Site> },
    /// Requests are being served.
    Running { config: Configuration, registry: Arc<TemplateRegistry>, site: Arc<Site> },
    /// The run is over.
    Terminated { ending: Ending },
}

impl View for State {
    type V = StateView;

    open spec fn view(&self) -> StateView {
        match self {
            State::Unconfigured => StateView::Unconfigured,
            State::Configured { config } => StateView::Configured { port: config.port_value() },
            State::TemplatesLoaded { config, registry } => StateView::TemplatesLoaded {
                port: config.port_value(),
                templates: registry@,
            },
            State::Assembled { config, registry, .. } => StateView::Assembled {
                port: config.port_value(),
                templates: registry@,
            },
            State::Listening { config, registry, .. } => StateView::Listening {
                port: config.port_value(),
                templates: registry@,
            },
            State::Running { config, registry, .. } => StateView::Running {
                port: config.port_value(),
                templates: registry@,
            },
            State::Terminated { ending } => StateView::Terminated { ending: ending@ },
        }
    }
}

/// What the caller reports, over plain values.
pub enum EventView {
    Started { port: Option<Seq<char>> },
    TemplatesRead { files: Seq<TemplateFile> },
    TemplatesUnreadable,
    ServerAssembled,
    Bound,
    BindFailed,
    Accepting,
    ShutdownRequested,
    ServerFault,
}

/// What the caller reports.
#[derive(Debug)]
pub enum Event {
    /// The process was started, with this text for the port if one was
    /// given.
    Started { port: Option<String> },
    /// The template directory was read: these are its files.
    TemplatesRead { files: Vec<TemplateFile> },
    /// The template directory could not be read.
    TemplatesUnreadable,
    /// The server instance is made.
    ServerAssembled,
    /// The listener is bound.
    Bound,
    /// The listener could not be bound.
    BindFailed,
    /// The server accepts connections.
    Accepting,
    /// A signal asked the server to shut down.
    ShutdownRequested,
    /// The server met a fault it could not recover from.
    ServerFault,
}

impl View for Event {
    type V = EventView;

    open spec fn view(&self) -> EventView {
        match self {
            Event::Started { port: Some(text) } => EventView::Started { port: Some(text@) },
            Event::Started { port: None } => EventView::Started { port: None },
            Event::TemplatesRead { files } => EventView::TemplatesRead { files: files@ },
            Event::TemplatesUnreadable => EventView::TemplatesUnreadable,
            Event::ServerAssembled => EventView::ServerAssembled,
            Event::Bound => EventView::Bound,
            Event::BindFailed => EventView::BindFailed,
            Event::Accepting => EventView::Accepting,
            Event::ShutdownRequested => EventView::ShutdownRequested,
            Event::ServerFault => EventView::ServerFault,
        }
    }
}

/// What the caller is to do next.
#[derive(Debug, Clone, Copy, PartialEq, Eq, Structural)]
pub enum Action {
    /// Read the files of the template directory.
    ReadTemplates,
    /// Make the server instance.
    Assemble,
    /// Bind the listener to `BIND_ADDRESS` and this port.
    Bind { port: u16 },
    /// Begin to accept connections.
    Serve,
    /// Serve until the server stops.
    AwaitShutdown,
    /// Leave, reporting a failure or not.
    Exit { failed: bool },
    /// Nothing: the event does not belong to the state.
    Nothing,
}

/// The text that is validated as the port.
pub open spec fn port_text(port: Option<Seq<char>>) -> Seq<char> {
    match port {
        Some(text) => text,
        None => DEFAULT_PORT_TEXT@,
    }
}

/// The state that ends the run with a startup error, and the action that
/// goes with it.
pub open spec fn startup_failure(error: StartupErrorView) -> (StateView, Action) {
    (
        StateView::Terminated { ending: EndingView::StartupFailed(error) },
        Action::Exit { failed: true },
    )
}

/// How the loading of the templates ended, over plain values.
pub enum LoadingView {
    /// Every template was taken by the engine: these are the templates.
    Loaded(TemplateMap),
    /// The engine refused the template file of this name.
    Malformed(Seq<char>),
    /// The directory could not be read.
    Unreadable,
}

/// How a loading ended.
pub open spec fn loading_of(loaded: Result<TemplateRegistry, TemplateInitError>) -> LoadingView {
    match loaded {
        Ok(registry) => LoadingView::Loaded(registry@),
        Err(TemplateInitError::Malformed { file, .. }) => LoadingView::Malformed(file@),
        Err(TemplateInitError::DirectoryUnreadable) => LoadingView::Unreadable,
    }
}

/// Whether the loading that `event` gives rise to can end as `loading`.
/// Whether the engine takes a template is the engine's to say, so the files
/// that were read can always end in a failure that names one of their
/// templates; where they load, they give the templates that follow from
/// them. Files without a template can only load. No other event gives rise
/// to a loading, and nothing is asked of `loading` there.
pub open spec fn possible_loading(event: EventView, loading: LoadingView) -> bool {
    match event {
        EventView::TemplatesRead { files } => match loading {
            LoadingView::Loaded(templates) => templates == loaded_templates(
                files,
                TEMPLATE_EXTENSION@,
            ),
            LoadingView::Malformed(file) => holds_template_file(files, TEMPLATE_EXTENSION@, file),
            LoadingView::Unreadable => false,
        },
        _ => true,
    }
}

/// The next state and the action once the port is valid and the loading of
/// the templates has ended.
pub open spec fn after_loading(port: u16, loading: LoadingView) -> (StateView, Action) {
    match loading {
        LoadingView::Loaded(templates) => (
            StateView::TemplatesLoaded { port, templates },
            Action::Assemble,
        ),
        LoadingView::Malformed(file) => startup_failure(StartupErrorView::TemplateMalformed(file)),
        LoadingView::Unreadable => startup_failure(StartupErrorView::TemplatesUnreadable),
    }
}

/// The next state and the action, for a state, an event and the way in
/// which the loading ended that the event gave rise to. Only the files read
/// for a state with a valid port give rise to one; everywhere else
/// `loading` decides nothing. An event that does not belong to the state
/// changes nothing.
pub open spec fn transition(state: StateView, event: EventView, loading: LoadingView) -> (
    StateView,
    Action,
) {
    match (state, event) {
        (StateView::Unconfigured, EventView::Started { port }) => {
            match accepted_port(port_text(port)) {
                Some(p) => (StateView::Configured { port: p }, Action::ReadTemplates),
                None => startup_failure(
                    StartupErrorView::Configuration(rejection(port_text(port))),
                ),
            }
        },
        (StateView::Configured { port }, EventView::TemplatesRead { .. }) => after_loading(
            port,
            loading,
        ),
        (StateView::Configured { port }, EventView::TemplatesUnreadable) => after_loading(
            port,
            LoadingView::Unreadable,
        ),
        (StateView::TemplatesLoaded { port, templates }, EventView::ServerAssembled) => (
            StateView::Assembled { port, templates },
            Action::Bind { port },
        ),
        (StateView::Assembled { port, templates }, EventView::Bound) => (
            StateView::Listening { port, templates },
            Action::Serve,
        ),
        (StateView::Assembled { .. }, EventView::BindFailed) => startup_failure(
            StartupErrorView::Bind,
        ),
        (StateView::Listening { port, templates }, EventView::Accepting) => (
            StateView::Running { port, templates },
            Action::AwaitShutdown,
        ),
        (StateView::Running { .. }, EventView::ShutdownRequested) => (
            StateView::Terminated { ending: EndingView::ShutDown },
            Action::Exit { failed: false },
        ),
        (StateView::Running { .. }, EventView::ServerFault) => (
            StateView::Terminated { ending: EndingView::Faulted },
            Action::Exit { failed: true },
        ),
        _ => (state, Action::Nothing),
    }
}

/// Whether the port that a state holds, if it holds one, is valid.
pub open spec fn state_valid(state: StateView) -> bool {
    match state {
        StateView::Configured { port } => port_in_range(port as int),
        StateView::TemplatesLoaded { port, .. } => port_in_range(port as int),
        StateView::Assembled { port, .. } => port_in_range(port as int),
        StateView::Listening { port, .. } => port_in_range(port as int),
        StateView::Running { port, .. } => port_in_range(port as int),
        _ => true,
    }
}

impl State {
    /// The state in which every run begins.
    pub fn new() -> (state: State)
        ensures
            state@ == StateView::Unconfigured,
    {
        State::Unconfigured
    }

    /// The configuration, once the port is validated and while the run
    /// lasts.
    pub fn config(&self) -> (r: Option<Configuration>)
        ensures
            r is Some <==> (self@ is Configured || self@ is TemplatesLoaded || self@ is Assembled
                || self@ is Listening || self@ is Running),
            r matches Some(config) ==> match self@ {
                StateView::Configured { port } => config.port_value() == port,
                StateView::TemplatesLoaded { port, .. } => config.port_value() == port,
                StateView::Assembled { port, .. } => config.port_value() == port,
                StateView::Listening { port, .. } => config.port_value() == port,
                StateView::Running { port, .. } => config.port_value() == port,
                _ => false,
            },
    {
        match self {
            State::Configured { config } => Some(*config),
            State::TemplatesLoaded { config, .. } => Some(*config),
            State::Assembled { config, .. } => Some(*config),
            State::Listening { config, .. } => Some(*config),
            State::Running { config, .. } => Some(*config),
            _ => None,
        }
    }

    /// The registry, once the templates are loaded and while the run lasts.
    pub fn registry(&self) -> (r: Option<Arc<TemplateRegistry>>)
        ensures
            r is Some <==> (self@ is TemplatesLoaded || self@ is Assembled || self@ is Listening
                || self@ is Running),
            r matches Some(registry) ==> match self@ {
                StateView::TemplatesLoaded { templates, .. } => registry@ == templates,
                StateView::Assembled { templates, .. } => registry@ == templates,
                StateView::Listening { templates, .. } => registry@ == templates,
                StateView::Running { templates, .. } => registry@ == templates,
                _ => false,
            },
    {
        match self {
            State::TemplatesLoaded { registry, .. } => Some(registry.clone()),
            State::Assembled { registry, .. } => Some(registry.clone()),
            State::Listening { registry, .. } => Some(registry.clone()),
            State::Running { registry, .. } => Some(registry.clone()),
            _ => None,
        }
    }

    /// The mounts and routes, once the server is assembled and while the
    /// run lasts.
    pub fn site(&self) -> (r: Option<Arc<Site>>)
        ensures
            r is Some <==> (self@ is Assembled || self@ is Listening || self@ is Running),
    {
        match self {
            State::Assembled { site, .. } => Some(site.clone()),
            State::Listening { site, .. } => Some(site.clone()),
            State::Running { site, .. } => Some(site.clone()),
            _ => None,
        }
    }

    /// How the run ended, once it has.
    pub fn ending(&self) -> (r: Option<&Ending>)
        ensures
            r is Some <==> self@ is Terminated,
            r matches Some(ending) ==> self@ == (StateView::Terminated { ending: ending@ }),
    {
        match self {
            State::Terminated { ending } => Some(ending),
            _ => None,
        }
    }

    /// Goes on from a valid port once the loading of the templates has
    /// ended, well or not.
    pub fn conclude_loading(
        config: Configuration,
        loaded: Result<TemplateRegistry, TemplateInitError>,
    ) -> (r: (State, Action))
        ensures
            (r.0@, r.1) == after_loading(config.port_value(), loading_of(loaded)),
    {
        match loaded {
            Ok(registry) => (
                State::TemplatesLoaded { config, registry: Arc::new(registry) },
                Action::Assemble,
            ),
            Err(e) => (
                State::Terminated { ending: Ending::StartupFailed(StartupError::Templates(e)) },
                Action::Exit { failed: true },
            ),
        }
    }

    /// Takes the step that `event` asks for: gives the next state and what
    /// the caller is to do. Where the event reports the files that were read
    /// and the port is valid, the templates are loaded here, and the step
    /// goes on as `conclude_loading` says for the way in which that ended.
    pub fn step(self, event: Event) -> (r: (State, Action))
        ensures
            exists|loading: LoadingView|
                possible_loading(event@, loading) && (r.0@, r.1) == transition(
                    self@,
                    event@,
                    loading,
                ),
            r.1 matches Action::Bind { port } ==> port_in_range(port as int),
    {
        // Outside the one step that loads, any possible loading bears the step out.
        let ghost state = self@;
        let ghost reported = event@;
        let ghost mut loading = match reported {
            EventView::TemplatesRead { files } => LoadingView::Loaded(
                loaded_templates(files, TEMPLATE_EXTENSION@),
            ),
            _ => LoadingView::Unreadable,
        };
        let r = match self {
            State::Unconfigured => match event {
                Event::Started { port } => {
                    let outcome = match &port {
                        Some(text) => validate_port(text.as_str()),
                        None => validate_port(DEFAULT_PORT_TEXT),
                    };
                    match outcome {
                        Ok(config) => (State::Configured { config }, Action::ReadTemplates),
                        Err(e) => (
                            State::Terminated {
                                ending: Ending::StartupFailed(StartupError::Configuration(e)),
                            },
                            Action::Exit { failed: true },
                        ),
                    }
                },
                _ => (State::Unconfigured, Action::Nothing),
            },
            State::Configured { config } => {
                match event {
                    Event::TemplatesRead { files } => {
                        let loaded = load_templates(&files, TEMPLATE_EXTENSION);
                        proof {
                            loading = loading_of(loaded);
                        }
                        State::conclude_loading(config, loaded)
                    },
                    Event::TemplatesUnreadable => State::conclude_loading(
                        config,
                        Err(TemplateInitError::DirectoryUnreadable),
                    ),
                    _ => (State::Configured { config }, Action::Nothing),
                }
            },
            State::TemplatesLoaded { config, registry } => {
                let port = config.port();
                match event {
                    Event::ServerAssembled => (
                        State::Assembled { config, registry, site: Arc::new(Site::standard()) },
                        Action::Bind { port },
                    ),
                    _ => (State::TemplatesLoaded { config, registry }, Action::Nothing),
                }
            },
            State::Assembled { config, registry, site } => {
                match event {
                    Event::Bound => (State::Listening { config, registry, site }, Action::Serve),
                    Event::BindFailed => (
                        State::Terminated { ending: Ending::StartupFailed(StartupError::Bind) },
                        Action::Exit { failed: true },
                    ),
                    _ => (State::Assembled { config, registry, site }, Action::Nothing),
                }
            },
            State::Listening { config, registry, site } => {
                match event {
                    Event::Accepting => (
                        State::Running { config, registry, site },
                        Action::AwaitShutdown,
                    ),
                    _ => (State::Listening { config, registry, site }, Action::Nothing),
                }
            },
            State::Running { config, registry, site } => {
                match event {
                    Event::ShutdownRequested => (
                        State::Terminated { ending: Ending::ShutDown },
                        Action::Exit { failed: false },
                    ),
                    Event::ServerFault => (
                        State::Terminated { ending: Ending::Faulted },
                        Action::Exit { failed: true },
                    ),
                    _ => (State::Running { config, registry, site }, Action::Nothing),
                }
            },
            State::Terminated { ending } => (State::Terminated { ending }, Action::Nothing),
        };
        assert(possible_loading(reported, loading) && (r.0@, r.1) == transition(
            state,
            reported,
            loading,
        ));
        r
    }
}

/// How far a state is along the startup sequence.
pub open spec fn rank(state: StateView) -> nat {
    match state {
        StateView::Unconfigured => 0,
        StateView::Configured { .. } => 1,
        StateView::TemplatesLoaded { .. } => 2,
        StateView::Assembled { .. } => 3,
        StateView::Listening { .. } => 4,
        StateView::Running { .. } => 5,
        StateView::Terminated { .. } => 6,
    }
}

/// One step of a run: what was reported, and how the loading ended that
/// the report gave rise to.
pub struct Step {
    pub event: EventView,
    pub loading: LoadingView,
}

/// Whether the loading of a step can end as the step has it.
pub open spec fn possible_step(step: Step) -> bool {
    possible_loading(step.event, step.loading)
}

/// The state reached from the beginning by a run of steps.
pub open spec fn run(steps: Seq<Step>) -> StateView
    decreases steps.len(),
{
    if steps.len() == 0 {
        StateView::Unconfigured
    } else {
        transition(run(steps.drop_last()), steps.last().event, steps.last().loading).0
    }
}

/// Whether `step` reports a port text that is accepted as `port`.
pub open spec fn confirms_port(step: Step, port: u16) -> bool {
    step.event matches EventView::Started { port: text } && accepted_port(port_text(text))
        == Some(port)
}

/// Whether `step` reports files that were loaded as a whole and give
/// `templates`.
pub open spec fn confirms_templates(step: Step, templates: TemplateMap) -> bool {
    step.event matches EventView::TemplatesRead { files } && step.loading
        == LoadingView::Loaded(templates) && templates == loaded_templates(
        files,
        TEMPLATE_EXTENSION@,
    )
}

/// Whether one of `steps` reports a port text that is accepted as `port`.
pub open spec fn port_confirmed(steps: Seq<Step>, port: u16) -> bool {
    exists|i: int| 0 <= i < steps.len() && confirms_port(#[trigger] steps[i], port)
}

/// Whether one of `steps` reports files that were loaded as a whole and
/// give `templates`.
pub open spec fn templates_confirmed(steps: Seq<Step>, templates: TemplateMap) -> bool {
    exists|i: int| 0 <= i < steps.len() && confirms_templates(#[trigger] steps[i], templates)
}

/// Whether what a state holds is backed by the steps: its port by a port
/// text that was accepted, its templates by files that were loaded as a
/// whole.
pub open spec fn backed(steps: Seq<Step>, state: StateView) -> bool {
    match state {
        StateView::Configured { port } => port_confirmed(steps, port),
        StateView::TemplatesLoaded { port, templates } => port_confirmed(steps, port)
            && templates_confirmed(steps, templates),
        StateView::Assembled { port, templates } => port_confirmed(steps, port)
            && templates_confirmed(steps, templates),
        StateView::Listening { port, templates } => port_confirmed(steps, port)
            && templates_confirmed(steps, templates),
        StateView::Running { port, templates } => port_confirmed(steps, port)
            && templates_confirmed(steps, templates),
        _ => true,
    }
}

/// How the loading ends decides a step only where files were read for a
/// state with a valid port: every other step is fixed by the state and the
/// event alone.
pub proof fn lemma_loading_decides_one_step(
    state: StateView,
    event: EventView,
    one: LoadingView,
    other: LoadingView,
)
    requires
        !(state is Configured && event is TemplatesRead),
    ensures
        transition(state, event, one) == transition(state, event, other),
{
}

/// Files without a template can only load, and give no templates: a start
/// from an empty directory never fails for its templates.
pub proof fn lemma_no_templates_always_load(files: Seq<TemplateFile>, loading: LoadingView)
    requires
        template_count(files, TEMPLATE_EXTENSION@) == 0,
        possible_loading(EventView::TemplatesRead { files }, loading),
    ensures
        loading == LoadingView::Loaded(TemplateMap::empty()),
{
    crate::templates::lemma_no_templates_load_nothing(files, TEMPLATE_EXTENSION@);
    if loading is Malformed {
        let i = choose|i: int|
            0 <= i < files.len() && crate::templates::is_template(
                (#[trigger] files[i]).name@,
                TEMPLATE_EXTENSION@,
            ) && files[i].name@ == loading->Malformed_0;
        crate::templates::lemma_template_is_counted(files, TEMPLATE_EXTENSION@, i);
    }
}

/// A step changes nothing, moves on by one stage, or ends the run with a
/// failure. No stage is passed over and none is gone back to.
pub proof fn lemma_step_keeps_order(state: StateView, event: EventView, loading: LoadingView)
    ensures
        ({
            let (next, action) = transition(state, event, loading);
            ||| next == state && action == Action::Nothing
            ||| rank(next) == rank(state) + 1 && action != Action::Nothing
            ||| next is Terminated && action == (Action::Exit { failed: true })
        }),
{
}

/// Once the run is over, no event changes anything.
pub proof fn lemma_terminated_is_final(state: StateView, event: EventView, loading: LoadingView)
    requires
        state is Terminated,
    ensures
        transition(state, event, loading) == (state, Action::Nothing),
{
}

/// The listener is bound only for a state whose templates are loaded, and
/// to the port of that state.
pub proof fn lemma_bind_follows_loading(state: StateView, event: EventView, loading: LoadingView)
    requires
        transition(state, event, loading).1 is Bind,
    ensures
        state matches StateView::TemplatesLoaded { port, templates } && transition(
            state,
            event,
            loading,
        ) == (StateView::Assembled { port, templates }, Action::Bind { port }),
{
}

/// A failure at startup ends the run: after it the state is neither
/// listening nor running, and stays so. A template that the engine refused
/// is such a failure, so no registry that lacks a template is ever served
/// from.
pub proof fn lemma_failure_ends_run(state: StateView, event: EventView, loading: LoadingView)
    ensures
        transition(state, event, loading).1 == (Action::Exit { failed: true }) ==> transition(
            state,
            event,
            loading,
        ).0 is Terminated,
        state is Configured && event is TemplatesRead && !(loading is Loaded) ==> transition(
            state,
            event,
            loading,
        ).0 is Terminated,
{
}

/// A valid port stays valid through every step.
pub proof fn lemma_step_keeps_valid(state: StateView, event: EventView, loading: LoadingView)
    requires
        state_valid(state),
    ensures
        state_valid(transition(state, event, loading).0),
{
}

/// Whatever the steps, the state they lead to holds a valid port, if it
/// holds one, and holds only what the steps back: no server is assembled,
/// listens or runs unless a port text was accepted and a set of template
/// files was loaded as a whole.
pub proof fn lemma_run_is_backed(steps: Seq<Step>)
    requires
        forall|i: int| 0 <= i < steps.len() ==> possible_step(#[trigger] steps[i]),
    ensures
        state_valid(run(steps)),
        backed(steps, run(steps)),
    decreases steps.len(),
{
    if steps.len() > 0 {
        let earlier = steps.drop_last();
        let step = steps.last();
        let before = run(earlier);
        assert forall|i: int| 0 <= i < earlier.len() implies possible_step(
            #[trigger] earlier[i],
        ) by {
            assert(earlier[i] == steps[i]);
        }
        lemma_run_is_backed(earlier);
        lemma_step_keeps_valid(before, step.event, step.loading);
        assert forall|port: u16| port_confirmed(earlier, port) implies port_confirmed(
            steps,
            port,
        ) by {
            let i = choose|i: int| 0 <= i < earlier.len() && confirms_port(#[trigger] earlier[i], port);
            assert(steps[i] == earlier[i]);
        }
        assert forall|templates: TemplateMap|
            templates_confirmed(earlier, templates) implies templates_confirmed(
            steps,
            templates,
        ) by {
            let i = choose|i: int|
                0 <= i < earlier.len() && confirms_templates(#[trigger] earlier[i], templates);
            assert(steps[i] == earlier[i]);
        }
        assert(steps[steps.len() - 1] == step);
        assert(possible_step(step));
    }
}

/// A rejected port ends the run at once and for good: whatever is reported
/// after it, nothing is read, assembled or bound.
pub proof fn lemma_rejected_port_ends_run(steps: Seq<Step>)
    requires
        steps.len() > 0,
        steps[0].event is Started,
        accepted_port(port_text(steps[0].event->port)) is None,
    ensures
        run(steps) == (StateView::Terminated {
            ending: EndingView::StartupFailed(
                StartupErrorView::Configuration(rejection(port_text(steps[0].event->port))),
            ),
        }),
    decreases steps.len(),
{
    let earlier = steps.drop_last();
    if earlier.len() > 0 {
        assert(earlier[0] == steps[0]);
        lemma_rejected_port_ends_run(earlier);
    } else {
        assert(run(earlier) == StateView::Unconfigured);
        assert(steps.last() == steps[0]);
    }
}

} // verus!
