//! The diagnostics composer: which sinks a process runs with, and the order
//! in which they are built and installed.
//!
//! Building a sink and installing the pipeline are the caller's work. The
//! [`Composer`] decides: the caller hands it what happened as an [`Event`] and
//! gets back what to do next as an [`Action`], until the action is
//! [`Action::Done`] or [`Action::Abort`].

use crate::config::{otel_enabled_by, DiagnosticsConfig, DiagnosticsConfigView};
use vstd::prelude::*;

verus! {

/// One destination of diagnostics.
#[derive(Clone, Copy, Debug, PartialEq, Eq, Structural)]
pub enum Sink {
    /// Formatted log lines on the console.
    Console,
    /// The live-debugging feed.
    LiveDebug,
    /// The exporter of spans to a trace collector. Building it takes in
    /// registering it as the process-wide provider of tracers, so that is
    /// done before the installation is asked for.
    TraceExporter,
}

/// Why the pipeline was not installed.
#[derive(Clone, Copy, Debug, PartialEq, Eq, Structural)]
pub enum SetupError {
    /// The sink could not be built.
    SinkUnavailable(Sink),
    /// A pipeline is installed already, or on its way.
    AlreadyInstalled,
    /// The event is none that the composer was waiting for.
    UnexpectedEvent,
}

/// What happened since the composer's last action.
#[derive(Debug)]
pub enum Event {
    /// The process asks for a pipeline with this configuration.
    Begin(DiagnosticsConfig),
    /// The sink asked for was built.
    SinkConstructed,
    /// The sink asked for could not be built.
    SinkFailed,
    /// The pipeline was installed as the process-wide target.
    Installed,
    /// The process already had a process-wide target.
    InstallRefused,
}

/// What the caller does next.
#[derive(Clone, Copy, Debug, PartialEq, Eq, Structural)]
pub enum Action {
    /// Build this sink, then report how it went.
    Construct(Sink),
    /// Install the sinks built so far, in the order built, behind the log
    /// filter, then report how it went.
    Install,
    /// The pipeline is in place.
    Done,
    /// Give up: the process must not serve.
    Abort(SetupError),
}

/// The sinks of a pipeline in the order in which they are built: the console,
/// the live-debugging feed, and the trace exporter where it is enabled.
pub open spec fn sinks_for(otel_enabled: bool) -> Seq<Sink> {
    if otel_enabled {
        seq![Sink::Console, Sink::LiveDebug, Sink::TraceExporter]
    } else {
        seq![Sink::Console, Sink::LiveDebug]
    }
}

/// The sinks of one pipeline, in the order in which they are built.
#[derive(Debug)]
pub struct SinkSet {
    sinks: Vec<Sink>,
}

impl View for SinkSet {
    type V = Seq<Sink>;

    closed spec fn view(&self) -> Seq<Sink> {
        self.sinks@
    }
}

impl SinkSet {
    #[verifier::type_invariant]
    spec fn composed(self) -> bool {
        self.sinks@ == sinks_for(true) || self.sinks@ == sinks_for(false)
    }

    /// The sinks that the configuration asks for.
    pub fn for_config(config: &DiagnosticsConfig) -> (set: SinkSet)
        ensures
            set@ == sinks_for(config@.otel_enabled),
    {
        let mut sinks: Vec<Sink> = Vec::new();
        sinks.push(Sink::Console);
        sinks.push(Sink::LiveDebug);
        if config.otel_enabled() {
            sinks.push(Sink::TraceExporter);
        }
        assert(sinks@ =~= sinks_for(config@.otel_enabled));
        SinkSet { sinks }
    }

    /// How many sinks there are: two, or three with the trace exporter.
    pub fn len(&self) -> (len: usize)
        ensures
            len == self@.len(),
            self@ == sinks_for(len == 3),
    {
        proof {
            use_type_invariant(self);
        }
        self.sinks.len()
    }

    /// The sink built at place `index`, if there is one.
    pub fn get(&self, index: usize) -> (sink: Option<Sink>)
        ensures
            sink == if index < self@.len() {
                Some(self@[index as int])
            } else {
                None
            },
    {
        if index < self.sinks.len() {
            Some(self.sinks[index])
        } else {
            None
        }
    }

    /// The sink built at place `index`.
    fn at(&self, index: usize) -> (sink: Sink)
        requires
            index < self@.len(),
        ensures
            sink == self@[index as int],
    {
        self.sinks[index]
    }

    /// Whether the sink is among them. The console and the live-debugging
    /// feed always are.
    pub fn contains(&self, sink: Sink) -> (found: bool)
        ensures
            found == self@.contains(sink),
            sink != Sink::TraceExporter ==> found,
    {
        proof {
            use_type_invariant(self);
            lemma_sink_set_composition(true);
            lemma_sink_set_composition(false);
        }
        let mut index: usize = 0;
        while index < self.sinks.len()
            invariant
                index <= self.sinks@.len(),
                forall|i: int| 0 <= i < index ==> self.sinks@[i] != sink,
            decreases self.sinks@.len() - index,
        {
            if self.sinks[index] == sink {
                return true;
            }
            index += 1;
        }
        false
    }
}

/// How far the composer has come.
pub enum ComposerState {
    /// Nothing was asked for yet.
    Idle,
    /// The first `built` sinks are built and the next one was asked for.
    Constructing { config: DiagnosticsConfigView, built: nat },
    /// Every sink is built and the installation was asked for.
    Installing { config: DiagnosticsConfigView },
    /// The pipeline is the process-wide target.
    Installed { config: DiagnosticsConfigView },
    /// The composition was given up.
    Failed { error: SetupError },
}

impl ComposerState {
    /// While sinks are being built, one of them is still to come.
    pub open spec fn well_formed(self) -> bool {
        self matches ComposerState::Constructing { config, built } ==> built < sinks_for(
            config.otel_enabled,
        ).len()
    }

    /// The sinks of the pipeline that is installed, if one is.
    pub open spec fn installed_sinks(self) -> Option<Seq<Sink>> {
        match self {
            ComposerState::Installed { config } => Some(sinks_for(config.otel_enabled)),
            _ => None,
        }
    }

    /// The state after an event, and the action that answers it.
    ///
    /// A composition begins once, from [`ComposerState::Idle`]. Sinks are
    /// built one by one in their order, and only when the last is built is
    /// the installation asked for. A sink that cannot be built, or a refused
    /// installation, ends the composition for good. Asking for a pipeline
    /// again is refused and changes nothing.
    pub open spec fn step(self, event: Event) -> (ComposerState, Action) {
        match self {
            ComposerState::Idle => match event {
                Event::Begin(config) => (
                    ComposerState::Constructing { config: config@, built: 0 },
                    Action::Construct(sinks_for(config@.otel_enabled)[0]),
                ),
                _ => (self, Action::Abort(SetupError::UnexpectedEvent)),
            },
            ComposerState::Constructing { config, built } => match event {
                Event::SinkConstructed => if built + 1 < sinks_for(config.otel_enabled).len() {
                    (
                        ComposerState::Constructing { config, built: built + 1 },
                        Action::Construct(sinks_for(config.otel_enabled)[built + 1 as int]),
                    )
                } else {
                    (ComposerState::Installing { config }, Action::Install)
                },
                Event::SinkFailed => {
                    let error = SetupError::SinkUnavailable(
                        sinks_for(config.otel_enabled)[built as int],
                    );
                    (ComposerState::Failed { error }, Action::Abort(error))
                },
                Event::Begin(_) => (self, Action::Abort(SetupError::AlreadyInstalled)),
                _ => (self, Action::Abort(SetupError::UnexpectedEvent)),
            },
            ComposerState::Installing { config } => match event {
                Event::Installed => (ComposerState::Installed { config }, Action::Done),
                Event::InstallRefused => (
                    ComposerState::Failed { error: SetupError::AlreadyInstalled },
                    Action::Abort(SetupError::AlreadyInstalled),
                ),
                Event::Begin(_) => (self, Action::Abort(SetupError::AlreadyInstalled)),
                _ => (self, Action::Abort(SetupError::UnexpectedEvent)),
            },
            ComposerState::Installed { .. } => match event {
                Event::Begin(_) => (self, Action::Abort(SetupError::AlreadyInstalled)),
                _ => (self, Action::Abort(SetupError::UnexpectedEvent)),
            },
            ComposerState::Failed { error } => (self, Action::Abort(error)),
        }
    }

    /// The state after a run of events.
    pub open spec fn run(self, events: Seq<Event>) -> ComposerState
        decreases events.len(),
    {
        if events.len() == 0 {
            self
        } else {
            self.step(events[0]).0.run(events.drop_first())
        }
    }
}

#[derive(Debug)]
enum Stage {
    Idle,
    Constructing { config: DiagnosticsConfig, built: usize },
    Installing { config: DiagnosticsConfig },
    Installed { config: DiagnosticsConfig },
    Failed { error: SetupError },
}

/// The one composer of a process: it holds whether a pipeline is installed,
/// and with what configuration.
#[derive(Debug)]
pub struct Composer {
    stage: Stage,
}

impl View for Composer {
    type V = ComposerState;

    closed spec fn view(&self) -> ComposerState {
        match self.stage {
            Stage::Idle => ComposerState::Idle,
            Stage::Constructing { config, built } => ComposerState::Constructing {
                config: config@,
                built: built as nat,
            },
            Stage::Installing { config } => ComposerState::Installing { config: config@ },
            Stage::Installed { config } => ComposerState::Installed { config: config@ },
            Stage::Failed { error } => ComposerState::Failed { error },
        }
    }
}

impl Composer {
    #[verifier::type_invariant]
    spec fn in_order(self) -> bool {
        self@.well_formed()
    }

    /// A composer that was asked for nothing yet.
    pub fn new() -> (composer: Composer)
        ensures
            composer@ == ComposerState::Idle,
    {
        Composer { stage: Stage::Idle }
    }

    /// Takes an event and answers with the next action, as
    /// [`ComposerState::step`] says.
    pub fn step(self, event: Event) -> (next: (Composer, Action))
        ensures
            self@.well_formed(),
            next.0@.well_formed(),
            (next.0@, next.1) == self@.step(event),
    {
        proof {
            use_type_invariant(&self);
        }
        match self.stage {
            Stage::Idle => match event {
                Event::Begin(config) => {
                    let first = SinkSet::for_config(&config).at(0);
                    (
                        Composer { stage: Stage::Constructing { config, built: 0 } },
                        Action::Construct(first),
                    )
                },
                _ => (Composer { stage: Stage::Idle }, Action::Abort(SetupError::UnexpectedEvent)),
            },
            Stage::Constructing { config, built } => match event {
                Event::SinkConstructed => {
                    match SinkSet::for_config(&config).get(built + 1) {
                        Some(sink) => (
                            Composer { stage: Stage::Constructing { config, built: built + 1 } },
                            Action::Construct(sink),
                        ),
                        None => (Composer { stage: Stage::Installing { config } }, Action::Install),
                    }
                },
                Event::SinkFailed => {
                    let error = SetupError::SinkUnavailable(SinkSet::for_config(&config).at(built));
                    (Composer { stage: Stage::Failed { error } }, Action::Abort(error))
                },
                Event::Begin(_) => (
                    Composer { stage: Stage::Constructing { config, built } },
                    Action::Abort(SetupError::AlreadyInstalled),
                ),
                _ => (
                    Composer { stage: Stage::Constructing { config, built } },
                    Action::Abort(SetupError::UnexpectedEvent),
                ),
            },
            Stage::Installing { config } => match event {
                Event::Installed => (Composer { stage: Stage::Installed { config } }, Action::Done),
                Event::InstallRefused => (
                    Composer { stage: Stage::Failed { error: SetupError::AlreadyInstalled } },
                    Action::Abort(SetupError::AlreadyInstalled),
                ),
                Event::Begin(_) => (
                    Composer { stage: Stage::Installing { config } },
                    Action::Abort(SetupError::AlreadyInstalled),
                ),
                _ => (
                    Composer { stage: Stage::Installing { config } },
                    Action::Abort(SetupError::UnexpectedEvent),
                ),
            },
            Stage::Installed { config } => match event {
                Event::Begin(_) => (
                    Composer { stage: Stage::Installed { config } },
                    Action::Abort(SetupError::AlreadyInstalled),
                ),
                _ => (
                    Composer { stage: Stage::Installed { config } },
                    Action::Abort(SetupError::UnexpectedEvent),
                ),
            },
            Stage::Failed { error } => (Composer { stage: Stage::Failed { error } }, Action::Abort(error)),
        }
    }

    /// Whether a pipeline is installed.
    pub fn is_installed(&self) -> (installed: bool)
        ensures
            installed == (self@ is Installed),
    {
        match &self.stage {
            Stage::Installed { .. } => true,
            _ => false,
        }
    }

    /// The configuration of the pipeline that is installed or on its way.
    pub fn config(&self) -> (config: Option<&DiagnosticsConfig>)
        ensures
            match self@ {
                ComposerState::Constructing { config: held, .. } => config matches Some(c) && c@
                    == held,
                ComposerState::Installing { config: held } => config matches Some(c) && c@ == held,
                ComposerState::Installed { config: held } => config matches Some(c) && c@ == held,
                _ => config is None,
            },
    {
        match &self.stage {
            Stage::Constructing { config, .. } => Some(config),
            Stage::Installing { config } => Some(config),
            Stage::Installed { config } => Some(config),
            _ => None,
        }
    }

    /// The sinks of the installed pipeline, if one is installed.
    pub fn installed_sinks(&self) -> (sinks: Option<SinkSet>)
        ensures
            match self@.installed_sinks() {
                Some(installed) => sinks matches Some(set) && set@ == installed,
                None => sinks is None,
            },
    {
        match &self.stage {
            Stage::Installed { config } => Some(SinkSet::for_config(config)),
            _ => None,
        }
    }

    /// Why the composition was given up, if it was.
    pub fn error(&self) -> (error: Option<SetupError>)
        ensures
            error == match self@ {
                ComposerState::Failed { error } => Some(error),
                _ => None,
            },
    {
        match &self.stage {
            Stage::Failed { error } => Some(*error),
            _ => None,
        }
    }
}

/// The console and the live-debugging feed are in every pipeline, and the
/// trace exporter is in it exactly when trace export is enabled. No sink is
/// there twice.
pub proof fn lemma_sink_set_composition(otel_enabled: bool)
    ensures
        sinks_for(otel_enabled).contains(Sink::Console),
        sinks_for(otel_enabled).contains(Sink::LiveDebug),
        sinks_for(otel_enabled).contains(Sink::TraceExporter) <==> otel_enabled,
        sinks_for(otel_enabled).no_duplicates(),
{
    let sinks = sinks_for(otel_enabled);
    assert(sinks[0] == Sink::Console);
    assert(sinks[1] == Sink::LiveDebug);
    if otel_enabled {
        assert(sinks[2] == Sink::TraceExporter);
    }
}

/// The trace exporter is among the sinks exactly when the environment's
/// switch reads `true`. Any other value, and no value at all, gives the sinks
/// that `false` gives.
pub proof fn lemma_exporter_follows_the_switch(raw: Option<Seq<char>>)
    ensures
        sinks_for(otel_enabled_by(raw)).contains(Sink::TraceExporter) <==> raw == Some("true"@),
        raw != Some("true"@) ==> sinks_for(otel_enabled_by(raw)) == sinks_for(
            otel_enabled_by(Some("false"@)),
        ),
{
    reveal_strlit("true");
    reveal_strlit("false");
    assert("true"@.len() != "false"@.len());
    lemma_sink_set_composition(otel_enabled_by(raw));
}

/// The events of a composition in which every sink is built and the
/// installation is accepted.
pub open spec fn successful_events(config: DiagnosticsConfig) -> Seq<Event> {
    seq![Event::Begin(config)] + Seq::new(
        sinks_for(config@.otel_enabled).len(),
        |i: int| Event::SinkConstructed,
    ) + seq![Event::Installed]
}

/// The events of a composition in which the first `built` sinks are built
/// and the next one is not.
pub open spec fn failing_events(config: DiagnosticsConfig, built: nat) -> Seq<Event> {
    seq![Event::Begin(config)] + Seq::new(built, |i: int| Event::SinkConstructed) + seq![
        Event::SinkFailed,
    ]
}

/// Once a pipeline is installed, asking for one again is refused at once, and
/// whatever else arrives, the installed pipeline stays as it is.
pub proof fn lemma_installed_pipeline_stays(state: ComposerState, event: Event)
    requires
        state is Installed,
    ensures
        state.step(event).0 == state,
        state.step(event).1 is Abort,
        event is Begin ==> state.step(event).1 == Action::Abort(SetupError::AlreadyInstalled),
{
}

/// Whatever events follow, an installed pipeline stays as it is.
pub proof fn lemma_installed_pipeline_stays_for_good(state: ComposerState, events: Seq<Event>)
    requires
        state is Installed,
    ensures
        state.run(events) == state,
    decreases events.len(),
{
    if events.len() > 0 {
        lemma_installed_pipeline_stays(state, events[0]);
        lemma_installed_pipeline_stays_for_good(state, events.drop_first());
    }
}

/// The installation is asked for only when the last sink of the pipeline has
/// been built, and a pipeline counts as installed only when its installation
/// was accepted: no pipeline is ever installed half-built.
pub proof fn lemma_never_half_built(state: ComposerState, event: Event)
    requires
        state.well_formed(),
    ensures
        state.step(event).1 == Action::Install ==> {
            &&& state matches ComposerState::Constructing { config, built }
            &&& event is SinkConstructed
            &&& built + 1 == sinks_for(config.otel_enabled).len()
            &&& state.step(event).0 == ComposerState::Installing { config }
        },
        state.step(event).0 is Installed && !(state is Installed) ==> {
            &&& state matches ComposerState::Installing { config }
            &&& event is Installed
            &&& state.step(event).0 == ComposerState::Installed { config }
        },
{
}

/// A composition that was given up stays given up: nothing is installed
/// afterwards, whatever events follow.
pub proof fn lemma_failure_is_final(error: SetupError, events: Seq<Event>)
    ensures
        (ComposerState::Failed { error }).run(events) == (ComposerState::Failed { error }),
    decreases events.len(),
{
    if events.len() > 0 {
        lemma_failure_is_final(error, events.drop_first());
    }
}

/// From a composer that was asked for nothing yet, building every sink and an
/// accepted installation end with the pipeline installed, and its sinks are
/// those that the configuration asks for.
pub proof fn lemma_composition_installs(config: DiagnosticsConfig)
    ensures
        ComposerState::Idle.run(successful_events(config)) == (ComposerState::Installed {
            config: config@,
        }),
        ComposerState::Idle.run(successful_events(config)).installed_sinks() == Some(
            sinks_for(config@.otel_enabled),
        ),
{
    let events = successful_events(config);
    let e1 = events.drop_first();
    let e2 = e1.drop_first();
    let e3 = e2.drop_first();
    let e4 = e3.drop_first();
    let e5 = e4.drop_first();
    reveal_with_fuel(ComposerState::run, 7);
    assert(events[0] == Event::Begin(config));
    assert(e1[0] == Event::SinkConstructed);
    assert(e2[0] == Event::SinkConstructed);
    if config@.otel_enabled {
        assert(e3[0] == Event::SinkConstructed);
        assert(e4[0] == Event::Installed);
        assert(e5.len() == 0);
    } else {
        assert(e3[0] == Event::Installed);
        assert(e4.len() == 0);
    }
}

/// From a composer that was asked for nothing yet, a sink that cannot be
/// built ends the composition with that sink's error, and nothing is
/// installed.
pub proof fn lemma_unavailable_sink_aborts(config: DiagnosticsConfig, built: nat)
    requires
        built < sinks_for(config@.otel_enabled).len(),
    ensures
        ComposerState::Idle.run(failing_events(config, built)) == (ComposerState::Failed {
            error: SetupError::SinkUnavailable(sinks_for(config@.otel_enabled)[built as int]),
        }),
{
    let events = failing_events(config, built);
    let e1 = events.drop_first();
    let e2 = e1.drop_first();
    let e3 = e2.drop_first();
    let e4 = e3.drop_first();
    reveal_with_fuel(ComposerState::run, 6);
    assert(events[0] == Event::Begin(config));
    if built == 0 {
        assert(e1[0] == Event::SinkFailed);
        assert(e2.len() == 0);
    } else if built == 1 {
        assert(e1[0] == Event::SinkConstructed);
        assert(e2[0] == Event::SinkFailed);
        assert(e3.len() == 0);
    } else {
        assert(e1[0] == Event::SinkConstructed);
        assert(e2[0] == Event::SinkConstructed);
        assert(e3[0] == Event::SinkFailed);
        assert(e4.len() == 0);
    }
}

} // verus!
