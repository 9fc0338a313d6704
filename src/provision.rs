//! The provisioning run as a state machine: it is handed the runtime's answer
//! to its last request and replies with the event to report, if any, and the
//! next request. Whoever drives it performs the requests and delivers the
//! events, in order, to one consumer.

use crate::container::{ContainerConfigView, DbContainerConfig};
use crate::naming::{
    copy_pairs, effective_env, env_strings, image_ref, image_reference, management_label,
    management_labels, pairs_view, resolve_tag, resolved_tag, strings_view, CONTAINER_LABEL_VALUE,
    VOLUME_LABEL_VALUE,
};
use vstd::prelude::*;
use vstd::string::StringExecFns;

verus! {

/// Download progress of one image layer, in bytes.
#[derive(Clone, Debug)]
pub struct LayerProgress {
    pub layer: String,
    pub current: u64,
    pub total: u64,
}

/// The contents of a [`LayerProgress`].
pub struct LayerProgressView {
    pub layer: Seq<char>,
    pub current: u64,
    pub total: u64,
}

impl View for LayerProgress {
    type V = LayerProgressView;

    open spec fn view(&self) -> LayerProgressView {
        LayerProgressView { layer: self.layer@, current: self.current, total: self.total }
    }
}

/// The contents of a progress list.
pub open spec fn layers_view(v: Seq<LayerProgress>) -> Seq<LayerProgressView> {
    v.map_values(|l: LayerProgress| l@)
}

/// What a provisioning run reports to its consumer.
#[derive(Clone, Debug)]
pub enum CreateContainerEvent {
    /// The image is being pulled; the progress of each layer seen so far.
    Pulling(Vec<LayerProgress>),
    /// Volumes and the container are being created.
    Building,
    /// The container exists and has been started.
    Done,
    /// The run failed; the message says why.
    Error(String),
}

/// The contents of a [`CreateContainerEvent`].
pub enum EventView {
    Pulling(Seq<LayerProgressView>),
    Building,
    Done,
    Error(Seq<char>),
}

impl View for CreateContainerEvent {
    type V = EventView;

    open spec fn view(&self) -> EventView {
        match self {
            CreateContainerEvent::Pulling(l) => EventView::Pulling(layers_view(l@)),
            CreateContainerEvent::Building => EventView::Building,
            CreateContainerEvent::Done => EventView::Done,
            CreateContainerEvent::Error(m) => EventView::Error(m@),
        }
    }
}

/// The runtime's answer to the last request.
#[derive(Clone, Debug)]
pub enum Outcome {
    /// An inspection found no resource of that name.
    Absent,
    /// An inspection found a resource of that name.
    Present,
    /// One notification of the image pull, with the layer progress it
    /// carries, if any.
    Progress(Option<LayerProgress>),
    /// The image pull has ended without error.
    PullComplete,
    /// A volume was created, or the container was started.
    Succeeded,
    /// The container was created under this identifier.
    Created(String),
    /// The runtime reported an error, with its cause.
    Failed(String),
    /// The consumer of the events has gone away.
    ConsumerClosed,
}

/// The contents of an [`Outcome`].
pub enum OutcomeView {
    Absent,
    Present,
    Progress(Option<LayerProgressView>),
    PullComplete,
    Succeeded,
    Created(Seq<char>),
    Failed(Seq<char>),
    ConsumerClosed,
}

impl View for Outcome {
    type V = OutcomeView;

    open spec fn view(&self) -> OutcomeView {
        match self {
            Outcome::Absent => OutcomeView::Absent,
            Outcome::Present => OutcomeView::Present,
            Outcome::Progress(p) => OutcomeView::Progress(
                match p {
                    Some(l) => Some(l@),
                    None => None,
                },
            ),
            Outcome::PullComplete => OutcomeView::PullComplete,
            Outcome::Succeeded => OutcomeView::Succeeded,
            Outcome::Created(id) => OutcomeView::Created(id@),
            Outcome::Failed(m) => OutcomeView::Failed(m@),
            Outcome::ConsumerClosed => OutcomeView::ConsumerClosed,
        }
    }
}

/// The container to create: its name, `image:tag`, its environment strings,
/// its mounts (volume name paired with the path it is mounted at,
/// read-write) and its labels.
#[derive(Clone, Debug)]
pub struct ContainerRequest {
    pub name: String,
    pub image: String,
    pub env: Vec<String>,
    pub mounts: Vec<(String, String)>,
    pub labels: Vec<(String, String)>,
}

/// The contents of a [`ContainerRequest`].
pub struct ContainerRequestView {
    pub name: Seq<char>,
    pub image: Seq<char>,
    pub env: Seq<Seq<char>>,
    pub mounts: Seq<(Seq<char>, Seq<char>)>,
    pub labels: Seq<(Seq<char>, Seq<char>)>,
}

impl View for ContainerRequest {
    type V = ContainerRequestView;

    open spec fn view(&self) -> ContainerRequestView {
        ContainerRequestView {
            name: self.name@,
            image: self.image@,
            env: strings_view(self.env@),
            mounts: pairs_view(self.mounts@),
            labels: pairs_view(self.labels@),
        }
    }
}

/// What the run asks of the runtime next.
#[derive(Clone, Debug)]
pub enum Action {
    /// Inspect the container of this name.
    InspectContainer(String),
    /// Start pulling this image and tag, and answer with the first notification.
    PullImage { image: String, tag: String },
    /// Answer with the next notification of the pull.
    NextPullNotification,
    /// Inspect the volume of this name.
    InspectVolume(String),
    /// Create the volume of this name, with these labels.
    CreateVolume { name: String, labels: Vec<(String, String)> },
    /// Create the container.
    CreateContainer(ContainerRequest),
    /// Start the container of this identifier.
    StartContainer(String),
    /// Nothing more: the run is over.
    Finish,
}

/// The contents of an [`Action`].
pub enum ActionView {
    InspectContainer(Seq<char>),
    PullImage { image: Seq<char>, tag: Seq<char> },
    NextPullNotification,
    InspectVolume(Seq<char>),
    CreateVolume { name: Seq<char>, labels: Seq<(Seq<char>, Seq<char>)> },
    CreateContainer(ContainerRequestView),
    StartContainer(Seq<char>),
    Finish,
}

impl View for Action {
    type V = ActionView;

    open spec fn view(&self) -> ActionView {
        match self {
            Action::InspectContainer(n) => ActionView::InspectContainer(n@),
            Action::PullImage { image, tag } => ActionView::PullImage { image: image@, tag: tag@ },
            Action::NextPullNotification => ActionView::NextPullNotification,
            Action::InspectVolume(n) => ActionView::InspectVolume(n@),
            Action::CreateVolume { name, labels } => ActionView::CreateVolume {
                name: name@,
                labels: pairs_view(labels@),
            },
            Action::CreateContainer(r) => ActionView::CreateContainer(r@),
            Action::StartContainer(id) => ActionView::StartContainer(id@),
            Action::Finish => ActionView::Finish,
        }
    }
}

/// The event to report, if any, and the next request.
#[derive(Clone, Debug)]
pub struct Step {
    pub emit: Option<CreateContainerEvent>,
    pub action: Action,
}

/// The contents of a [`Step`].
pub struct StepView {
    pub emit: Option<EventView>,
    pub action: ActionView,
}

impl View for Step {
    type V = StepView;

    open spec fn view(&self) -> StepView {
        StepView {
            emit: match self.emit {
                Some(e) => Some(e@),
                None => None,
            },
            action: self.action@,
        }
    }
}

/// Where a run stands.
#[derive(Clone, Copy, Debug, PartialEq, Eq, Structural)]
pub enum Phase {
    CheckingConflict,
    PrecheckingVolume(usize),
    Pulling,
    CheckingVolume(usize),
    CreatingVolume(usize),
    CreatingContainer,
    Starting,
    Finished,
}

/// The state of a run: its configuration, its phase and the layer progress seen so far.
pub struct ProvisionerView {
    pub config: ContainerConfigView,
    pub phase: Phase,
    pub layers: Seq<LayerProgressView>,
}

/// Message of a name conflict with the resource `name`.
pub open spec fn conflict_message(name: Seq<char>) -> Seq<char> {
    CONFLICT_MESSAGE@ + name
}

/// Text that starts the message of a name conflict.
pub const CONFLICT_MESSAGE: &'static str = "Name conflict with existing resource ";

/// Message of an answer that does not fit the request.
pub const UNEXPECTED_ANSWER: &'static str = "Unexpected answer from the container runtime";

/// The container to create for configuration `c`.
pub open spec fn container_request(c: ContainerConfigView) -> ContainerRequestView {
    ContainerRequestView {
        name: c.name,
        image: image_reference(c.image, resolved_tag(c.tag)),
        env: env_strings(c.variables),
        mounts: c.volumes,
        labels: management_label(CONTAINER_LABEL_VALUE@),
    }
}

/// The progress list with `p` recorded: the entry of its layer replaced, or
/// `p` appended when its layer was not seen before.
pub open spec fn recorded(layers: Seq<LayerProgressView>, p: LayerProgressView) -> Seq<
    LayerProgressView,
> {
    if exists|i: int| 0 <= i < layers.len() && layers[i].layer == p.layer {
        layers.map_values(|q: LayerProgressView| if q.layer == p.layer { p } else { q })
    } else {
        layers.push(p)
    }
}

/// The state `p` moved to `phase`.
pub open spec fn in_phase(p: ProvisionerView, phase: Phase) -> ProvisionerView {
    ProvisionerView { phase, ..p }
}

/// The run moves to `phase` and sends `action`, reporting nothing.
pub open spec fn quiet(p: ProvisionerView, phase: Phase, action: ActionView) -> (
    ProvisionerView,
    StepView,
) {
    (in_phase(p, phase), StepView { emit: None, action })
}

/// The run ends with an error event carrying `message`.
pub open spec fn failure(p: ProvisionerView, message: Seq<char>) -> (ProvisionerView, StepView) {
    (
        in_phase(p, Phase::Finished),
        StepView { emit: Some(EventView::Error(message)), action: ActionView::Finish },
    )
}

/// The pull starts: the run reports that it is pulling, with no layer seen yet.
pub open spec fn pull_start(p: ProvisionerView) -> (ProvisionerView, StepView) {
    (
        ProvisionerView { phase: Phase::Pulling, layers: seq![], ..p },
        StepView {
            emit: Some(EventView::Pulling(seq![])),
            action: ActionView::PullImage { image: p.config.image, tag: resolved_tag(p.config.tag) },
        },
    )
}

/// What follows the name checks of the volumes before index `i`: the check
/// of the next volume name, or the pull.
pub open spec fn prechecks_from(p: ProvisionerView, i: int) -> (ProvisionerView, StepView) {
    if i < p.config.volumes.len() {
        quiet(p, Phase::PrecheckingVolume(i as usize), ActionView::InspectVolume(p.config.volumes[i].0))
    } else {
        pull_start(p)
    }
}

/// What follows the creation of the volumes from index `i` on: the next
/// volume's inspection, or the container's creation.
pub open spec fn volumes_from(p: ProvisionerView, i: int) -> (Phase, ActionView) {
    if i < p.config.volumes.len() {
        (Phase::CheckingVolume(i as usize), ActionView::InspectVolume(p.config.volumes[i].0))
    } else {
        (Phase::CreatingContainer, ActionView::CreateContainer(container_request(p.config)))
    }
}

/// The answer `o` to an inspection of the resource `name`, in a run that
/// goes on with `next` when no such resource exists.
pub open spec fn after_inspection(
    p: ProvisionerView,
    o: OutcomeView,
    name: Seq<char>,
    next: (ProvisionerView, StepView),
) -> (ProvisionerView, StepView) {
    match o {
        OutcomeView::Absent => next,
        OutcomeView::Present => failure(p, conflict_message(name)),
        OutcomeView::Failed(m) => failure(p, m),
        _ => failure(p, UNEXPECTED_ANSWER@),
    }
}

/// One transition of a run: from state `p`, on the runtime's answer `o`,
/// the next state, the event to report, if any, and the next request.
pub open spec fn transition(p: ProvisionerView, o: OutcomeView) -> (ProvisionerView, StepView) {
    if p.phase == Phase::Finished {
        (p, StepView { emit: None, action: ActionView::Finish })
    } else if o == OutcomeView::ConsumerClosed {
        (in_phase(p, Phase::Finished), StepView { emit: None, action: ActionView::Finish })
    } else {
        match p.phase {
            Phase::CheckingConflict => after_inspection(p, o, p.config.name, prechecks_from(p, 0)),
            Phase::PrecheckingVolume(i) => after_inspection(
                p,
                o,
                p.config.volumes[i as int].0,
                prechecks_from(p, i + 1),
            ),
            Phase::Pulling => match o {
                OutcomeView::Progress(n) => {
                    let layers = match n {
                        Some(l) => recorded(p.layers, l),
                        None => p.layers,
                    };
                    (
                        ProvisionerView { layers, ..p },
                        StepView {
                            emit: Some(EventView::Pulling(layers)),
                            action: ActionView::NextPullNotification,
                        },
                    )
                },
                OutcomeView::PullComplete => {
                    let next = volumes_from(p, 0);
                    (in_phase(p, next.0), StepView { emit: Some(EventView::Building), action: next.1 })
                },
                OutcomeView::Failed(m) => failure(p, m),
                _ => failure(p, UNEXPECTED_ANSWER@),
            },
            Phase::CheckingVolume(i) => after_inspection(
                p,
                o,
                p.config.volumes[i as int].0,
                quiet(
                    p,
                    Phase::CreatingVolume(i),
                    ActionView::CreateVolume {
                        name: p.config.volumes[i as int].0,
                        labels: management_label(VOLUME_LABEL_VALUE@),
                    },
                ),
            ),
            Phase::CreatingVolume(i) => match o {
                OutcomeView::Succeeded => {
                    let next = volumes_from(p, i + 1);
                    quiet(p, next.0, next.1)
                },
                OutcomeView::Failed(m) => failure(p, m),
                _ => failure(p, UNEXPECTED_ANSWER@),
            },
            Phase::CreatingContainer => match o {
                OutcomeView::Created(id) => quiet(p, Phase::Starting, ActionView::StartContainer(id)),
                OutcomeView::Failed(m) => failure(p, m),
                _ => failure(p, UNEXPECTED_ANSWER@),
            },
            Phase::Starting => match o {
                OutcomeView::Succeeded => (
                    in_phase(p, Phase::Finished),
                    StepView { emit: Some(EventView::Done), action: ActionView::Finish },
                ),
                OutcomeView::Failed(m) => failure(p, m),
                _ => failure(p, UNEXPECTED_ANSWER@),
            },
            Phase::Finished => (p, StepView { emit: None, action: ActionView::Finish }),
        }
    }
}

/// The state in which a run for configuration `c` starts.
pub open spec fn initial(c: ContainerConfigView) -> ProvisionerView {
    ProvisionerView { config: c, phase: Phase::CheckingConflict, layers: seq![] }
}

/// The events reported by a run from state `p` on the answers `outcomes`.
pub open spec fn run_events(p: ProvisionerView, outcomes: Seq<OutcomeView>) -> Seq<EventView>
    decreases outcomes.len(),
{
    if outcomes.len() == 0 {
        seq![]
    } else {
        let (q, s) = transition(p, outcomes[0]);
        emitted(s) + run_events(q, outcomes.drop_first())
    }
}

/// The event that a step reports, as a sequence of at most one.
pub open spec fn emitted(s: StepView) -> Seq<EventView> {
    match s.emit {
        Some(e) => seq![e],
        None => seq![],
    }
}

/// The state a run reaches from `p` on the answers `outcomes`.
pub open spec fn run_state(p: ProvisionerView, outcomes: Seq<OutcomeView>) -> ProvisionerView
    decreases outcomes.len(),
{
    if outcomes.len() == 0 {
        p
    } else {
        run_state(transition(p, outcomes[0]).0, outcomes.drop_first())
    }
}

/// The answers of a pull that sends the notifications `notes`.
pub open spec fn pull_answers(notes: Seq<Option<LayerProgressView>>) -> Seq<OutcomeView> {
    notes.map_values(|n: Option<LayerProgressView>| OutcomeView::Progress(n))
}

/// The answers for `k` volumes that do not exist yet and are created.
pub open spec fn volume_answers(k: nat) -> Seq<OutcomeView> {
    Seq::new(
        2 * k,
        |i: int|
            if i % 2 == 0 {
                OutcomeView::Absent
            } else {
                OutcomeView::Succeeded
            },
    )
}

/// The answers of `k` inspections that find no resource.
pub open spec fn free_names(k: nat) -> Seq<OutcomeView> {
    Seq::new(k, |i: int| OutcomeView::Absent)
}

/// The answers of a runtime on which every step of a run for `c` succeeds:
/// the container name and each volume name are free, the pull sends `notes`
/// and ends, each volume is still free and is created, the container is
/// created as `id` and starts.
pub open spec fn successful_answers(
    c: ContainerConfigView,
    notes: Seq<Option<LayerProgressView>>,
    id: Seq<char>,
) -> Seq<OutcomeView> {
    free_names(c.volumes.len() + 1) + pull_answers(notes) + seq![OutcomeView::PullComplete]
        + volume_answers(c.volumes.len()) + seq![OutcomeView::Created(id), OutcomeView::Succeeded]
}

/// Running on `a` and then on `b` is running on `a + b`.
pub proof fn lemma_run_concat(p: ProvisionerView, a: Seq<OutcomeView>, b: Seq<OutcomeView>)
    ensures
        run_events(p, a + b) == run_events(p, a) + run_events(run_state(p, a), b),
        run_state(p, a + b) == run_state(run_state(p, a), b),
    decreases a.len(),
{
    if a.len() == 0 {
        assert(a + b =~= b);
        assert(run_events(p, a) + run_events(run_state(p, a), b) =~= run_events(p, b));
    } else {
        let (q, st) = transition(p, a[0]);
        assert((a + b)[0] == a[0]);
        assert((a + b).drop_first() =~= a.drop_first() + b);
        lemma_run_concat(q, a.drop_first(), b);
        assert(emitted(st) + (run_events(q, a.drop_first()) + run_events(run_state(q, a.drop_first()), b))
            =~= (emitted(st) + run_events(q, a.drop_first())) + run_events(run_state(q, a.drop_first()), b));
    }
}

/// A run that has ended reports nothing more, whatever it is told.
pub proof fn lemma_finished_run_is_silent(p: ProvisionerView, outcomes: Seq<OutcomeView>)
    requires
        p.phase == Phase::Finished,
    ensures
        run_events(p, outcomes) == Seq::<EventView>::empty(),
        run_state(p, outcomes) == p,
    decreases outcomes.len(),
{
    if outcomes.len() > 0 {
        lemma_finished_run_is_silent(p, outcomes.drop_first());
        assert(run_events(p, outcomes) =~= Seq::<EventView>::empty());
    }
}

/// Once the consumer of the events has gone away, the run ends and reports
/// nothing more, whatever state it was in and whatever follows.
pub proof fn lemma_closed_consumer_ends_run(p: ProvisionerView, rest: Seq<OutcomeView>)
    ensures
        run_events(p, seq![OutcomeView::ConsumerClosed] + rest) == Seq::<EventView>::empty(),
        run_state(p, seq![OutcomeView::ConsumerClosed] + rest).phase == Phase::Finished,
{
    let outs = seq![OutcomeView::ConsumerClosed] + rest;
    assert(outs[0] == OutcomeView::ConsumerClosed);
    assert(outs.drop_first() =~= rest);
    let q = transition(p, outs[0]).0;
    lemma_finished_run_is_silent(q, rest);
    assert(run_events(p, outs) =~= Seq::<EventView>::empty());
}

/// When a container of the requested name exists already, the run reports
/// exactly one event, an error whose message ends with that name, whatever
/// the runtime answers afterwards.
pub proof fn lemma_name_conflict_single_error(c: ContainerConfigView, rest: Seq<OutcomeView>)
    ensures
        run_events(initial(c), seq![OutcomeView::Present] + rest) == seq![
            EventView::Error(conflict_message(c.name)),
        ],
        ({
            let m = conflict_message(c.name);
            m.subrange(m.len() - c.name.len(), m.len() as int) == c.name
        }),
{
    let outs = seq![OutcomeView::Present] + rest;
    assert(outs[0] == OutcomeView::Present);
    assert(outs.drop_first() =~= rest);
    let q = transition(initial(c), outs[0]).0;
    lemma_finished_run_is_silent(q, rest);
    assert(run_events(initial(c), outs) =~= seq![EventView::Error(conflict_message(c.name))]);
    let m = conflict_message(c.name);
    assert(m.subrange(m.len() - c.name.len(), m.len() as int) =~= c.name);
}

/// `e` ends a run.
pub open spec fn is_terminal(e: EventView) -> bool {
    e is Done || e is Error
}

/// A step that reports a terminal event ends the run.
proof fn lemma_terminal_step_finishes(p: ProvisionerView, o: OutcomeView)
    ensures
        ({
            let (q, st) = transition(p, o);
            st.emit matches Some(e) && is_terminal(e) ==> q.phase == Phase::Finished
        }),
{
}

/// Whatever the runtime answers, a terminal event (`Done` or `Error`) is
/// the last event a run reports: once it has ended, it reports nothing more.
pub proof fn lemma_terminal_event_is_last(p: ProvisionerView, outcomes: Seq<OutcomeView>)
    ensures
        forall|i: int|
            0 <= i < run_events(p, outcomes).len() && is_terminal(
                #[trigger] run_events(p, outcomes)[i],
            ) ==> i == run_events(p, outcomes).len() - 1,
    decreases outcomes.len(),
{
    if outcomes.len() > 0 {
        let (q, st) = transition(p, outcomes[0]);
        let rest = outcomes.drop_first();
        lemma_terminal_event_is_last(q, rest);
        lemma_terminal_step_finishes(p, outcomes[0]);
        let ev = run_events(p, outcomes);
        let tail = run_events(q, rest);
        assert(ev == emitted(st) + tail);
        if st.emit is Some && is_terminal(st.emit->0) {
            lemma_finished_run_is_silent(q, rest);
            assert(ev =~= seq![st.emit->0]);
        }
        assert forall|i: int| 0 <= i < ev.len() && is_terminal(#[trigger] ev[i]) implies i == ev.len()
            - 1 by {
            if i >= emitted(st).len() {
                assert(ev[i] == tail[i - emitted(st).len()]);
            }
        }
    }
}

/// While pulling, each notification reports one `Pulling` event and the run
/// stays in the pull.
proof fn lemma_pull_notifications(p: ProvisionerView, notes: Seq<Option<LayerProgressView>>)
    requires
        p.phase == Phase::Pulling,
    ensures
        run_events(p, pull_answers(notes)).len() == notes.len(),
        forall|i: int|
            0 <= i < notes.len() ==> #[trigger] run_events(p, pull_answers(notes))[i] is Pulling,
        run_state(p, pull_answers(notes)).phase == Phase::Pulling,
        run_state(p, pull_answers(notes)).config == p.config,
    decreases notes.len(),
{
    let outs = pull_answers(notes);
    if notes.len() > 0 {
        assert(outs[0] == OutcomeView::Progress(notes[0]));
        assert(outs.drop_first() =~= pull_answers(notes.drop_first()));
        let (q, st) = transition(p, outs[0]);
        lemma_pull_notifications(q, notes.drop_first());
        let ev = run_events(p, outs);
        assert(ev == emitted(st) + run_events(q, pull_answers(notes.drop_first())));
        assert forall|i: int| 0 <= i < notes.len() implies #[trigger] ev[i] is Pulling by {
            if i > 0 {
                assert(ev[i] == run_events(q, pull_answers(notes.drop_first()))[i - 1]);
            }
        }
    }
}

/// From the creation of the volumes at index `i`, `k` free volumes that are
/// created lead, silently, to the creation of the volumes from `i + k` on.
proof fn lemma_volume_creations(p: ProvisionerView, i: int, k: nat)
    requires
        0 <= i,
        i + k <= p.config.volumes.len(),
        p.config.volumes.len() <= usize::MAX,
        p.phase == volumes_from(p, i).0,
    ensures
        run_events(p, volume_answers(k)) == Seq::<EventView>::empty(),
        run_state(p, volume_answers(k)) == in_phase(p, volumes_from(p, i + k).0),
    decreases k,
{
    reveal_with_fuel(run_events, 3);
    reveal_with_fuel(run_state, 3);
    let outs = volume_answers(k);
    if k == 0 {
        assert(outs =~= Seq::<OutcomeView>::empty());
        assert(p == in_phase(p, volumes_from(p, i).0));
    } else {
        let rest = volume_answers((k - 1) as nat);
        let two = seq![OutcomeView::Absent, OutcomeView::Succeeded];
        assert(outs =~= two + rest);
        lemma_run_concat(p, two, rest);
        let s1 = transition(p, OutcomeView::Absent).0;
        assert(two[0] == OutcomeView::Absent);
        assert(two.drop_first() =~= seq![OutcomeView::Succeeded]);
        assert(seq![OutcomeView::Succeeded].drop_first() =~= Seq::<OutcomeView>::empty());
        let s2 = transition(s1, OutcomeView::Succeeded).0;
        assert(run_state(p, two) == s2);
        assert(run_events(p, two) =~= Seq::<EventView>::empty());
        lemma_volume_creations(s2, i + 1, (k - 1) as nat);
        assert(in_phase(s2, volumes_from(s2, i + k).0) == in_phase(p, volumes_from(p, i + k).0));
        assert(run_events(p, outs) =~= Seq::<EventView>::empty());
    }
}

/// After a free container name and `k` free volume names, with `k` below
/// the number of volumes, the run has reported nothing and checks the name
/// of volume `k`.
proof fn lemma_prechecks_reach(c: ContainerConfigView, k: nat)
    requires
        k < c.volumes.len(),
        c.volumes.len() <= usize::MAX,
    ensures
        run_events(initial(c), free_names(k + 1)) == Seq::<EventView>::empty(),
        run_state(initial(c), free_names(k + 1)) == in_phase(
            initial(c),
            Phase::PrecheckingVolume(k as usize),
        ),
    decreases k,
{
    reveal_with_fuel(run_events, 2);
    reveal_with_fuel(run_state, 2);
    let one = seq![OutcomeView::Absent];
    assert(one.drop_first() =~= Seq::<OutcomeView>::empty());
    if k == 0 {
        assert(free_names(1) =~= one);
        assert(run_events(initial(c), one) =~= Seq::<EventView>::empty());
    } else {
        lemma_prechecks_reach(c, (k - 1) as nat);
        assert(free_names(k + 1) =~= free_names(k) + one);
        lemma_run_concat(initial(c), free_names(k), one);
        let s = in_phase(initial(c), Phase::PrecheckingVolume((k - 1) as usize));
        assert(transition(s, OutcomeView::Absent).0 == in_phase(
            initial(c),
            Phase::PrecheckingVolume(k as usize),
        ));
        assert(run_events(s, one) =~= Seq::<EventView>::empty());
        assert(run_events(initial(c), free_names(k + 1)) =~= Seq::<EventView>::empty());
    }
}

/// After a free container name and free names for every volume, the run
/// has reported one `Pulling` event and pulls, with no layer seen yet.
proof fn lemma_prechecks_pass(c: ContainerConfigView)
    requires
        c.volumes.len() <= usize::MAX,
    ensures
        run_events(initial(c), free_names(c.volumes.len() + 1)) == seq![
            EventView::Pulling(seq![]),
        ],
        run_state(initial(c), free_names(c.volumes.len() + 1)) == pull_start(initial(c)).0,
{
    reveal_with_fuel(run_events, 2);
    reveal_with_fuel(run_state, 2);
    let n = c.volumes.len();
    let one = seq![OutcomeView::Absent];
    assert(one.drop_first() =~= Seq::<OutcomeView>::empty());
    if n == 0 {
        assert(free_names(1) =~= one);
        assert(run_events(initial(c), one) =~= seq![EventView::Pulling(seq![])]);
    } else {
        lemma_prechecks_reach(c, (n - 1) as nat);
        assert(free_names(n + 1) =~= free_names(n) + one);
        lemma_run_concat(initial(c), free_names(n), one);
        let s = in_phase(initial(c), Phase::PrecheckingVolume((n - 1) as usize));
        assert(transition(s, OutcomeView::Absent).0 == pull_start(initial(c)).0);
        assert(run_events(s, one) =~= seq![EventView::Pulling(seq![])]);
        assert(run_events(initial(c), free_names(n + 1)) =~= seq![EventView::Pulling(seq![])]);
    }
}

/// The answers of a runtime on which the container name and the names of
/// the first `k` volumes are free and the next volume exists already; `rest`
/// follows.
pub open spec fn volume_conflict_answers(k: nat, rest: Seq<OutcomeView>) -> Seq<OutcomeView> {
    free_names(k + 1) + seq![OutcomeView::Present] + rest
}

/// When a volume to create exists already, the run reports exactly one
/// event, an error whose message ends with that volume's name, whatever the
/// runtime answers afterwards: every volume name is checked before the pull.
pub proof fn lemma_volume_conflict_single_error(
    c: ContainerConfigView,
    k: nat,
    rest: Seq<OutcomeView>,
)
    requires
        k < c.volumes.len(),
        c.volumes.len() <= usize::MAX,
    ensures
        run_events(initial(c), volume_conflict_answers(k, rest)) == seq![
            EventView::Error(conflict_message(c.volumes[k as int].0)),
        ],
        ({
            let v = c.volumes[k as int].0;
            let m = conflict_message(v);
            m.subrange(m.len() - v.len(), m.len() as int) == v
        }),
{
    let a1 = free_names(k + 1);
    let a2 = seq![OutcomeView::Present] + rest;
    assert(volume_conflict_answers(k, rest) =~= a1 + a2);
    lemma_prechecks_reach(c, k);
    lemma_run_concat(initial(c), a1, a2);
    let s = run_state(initial(c), a1);
    assert(a2[0] == OutcomeView::Present);
    assert(a2.drop_first() =~= rest);
    let q = transition(s, OutcomeView::Present).0;
    lemma_finished_run_is_silent(q, rest);
    assert(run_events(s, a2) =~= seq![EventView::Error(conflict_message(c.volumes[k as int].0))]);
    assert(run_events(initial(c), volume_conflict_answers(k, rest)) =~= seq![
        EventView::Error(conflict_message(c.volumes[k as int].0)),
    ]);
    let v = c.volumes[k as int].0;
    let m = conflict_message(v);
    assert(m.subrange(m.len() - v.len(), m.len() as int) =~= v);
}

/// When the name is free and every runtime call succeeds, the run reports a
/// non-empty series of `Pulling` events, one for the start of the pull and
/// one for each notification, then exactly one `Building`, then exactly one
/// `Done`, and no error.
pub proof fn lemma_successful_run(
    c: ContainerConfigView,
    notes: Seq<Option<LayerProgressView>>,
    id: Seq<char>,
)
    requires
        c.volumes.len() <= usize::MAX,
    ensures
        ({
            let ev = run_events(initial(c), successful_answers(c, notes, id));
            &&& ev.len() == notes.len() + 3
            &&& forall|i: int| 0 <= i <= notes.len() ==> #[trigger] ev[i] is Pulling
            &&& ev[notes.len() + 1int] == EventView::Building
            &&& ev[notes.len() + 2int] == EventView::Done
        }),
{
    reveal_with_fuel(run_events, 3);
    reveal_with_fuel(run_state, 3);
    let s0 = initial(c);
    let a1 = free_names(c.volumes.len() + 1);
    let a2 = pull_answers(notes);
    let a3 = seq![OutcomeView::PullComplete];
    let a4 = volume_answers(c.volumes.len());
    let a5 = seq![OutcomeView::Created(id), OutcomeView::Succeeded];
    lemma_prechecks_pass(c);
    assert(a3.drop_first() =~= Seq::<OutcomeView>::empty());
    assert(a5.drop_first() =~= seq![OutcomeView::Succeeded]);
    assert(seq![OutcomeView::Succeeded].drop_first() =~= Seq::<OutcomeView>::empty());

    lemma_run_concat(s0, a1 + a2 + a3 + a4, a5);
    lemma_run_concat(s0, a1 + a2 + a3, a4);
    lemma_run_concat(s0, a1 + a2, a3);
    lemma_run_concat(s0, a1, a2);

    let s1 = run_state(s0, a1);
    let e1 = run_events(s0, a1);
    assert(e1 =~= seq![EventView::Pulling(seq![])]);
    lemma_pull_notifications(s1, notes);
    let s2 = run_state(s1, a2);
    let e2 = run_events(s1, a2);
    let s3 = run_state(s2, a3);
    let e3 = run_events(s2, a3);
    assert(e3 =~= seq![EventView::Building]);
    assert(s3 == in_phase(s2, volumes_from(s2, 0).0));
    lemma_volume_creations(s3, 0, c.volumes.len());
    let s4 = run_state(s3, a4);
    let e4 = run_events(s3, a4);
    let e5 = run_events(s4, a5);
    assert(e5 =~= seq![EventView::Done]);
    let ev = run_events(s0, a1 + a2 + a3 + a4 + a5);
    assert(ev =~= e1 + e2 + e3 + e4 + e5);
    assert forall|i: int| 0 <= i <= notes.len() implies #[trigger] ev[i] is Pulling by {
        if i > 0 {
            assert(ev[i] == e2[i - 1]);
        }
    }
}

/// The indices that the phase `p` names lie within the volume list.
pub open spec fn phase_fits(p: ProvisionerView) -> bool {
    match p.phase {
        Phase::PrecheckingVolume(i) => i < p.config.volumes.len(),
        Phase::CheckingVolume(i) => i < p.config.volumes.len(),
        Phase::CreatingVolume(i) => i < p.config.volumes.len(),
        _ => true,
    }
}

/// A copy of a progress list.
fn copy_layers(v: &Vec<LayerProgress>) -> (r: Vec<LayerProgress>)
    ensures
        layers_view(r@) == layers_view(v@),
{
    let mut r: Vec<LayerProgress> = Vec::new();
    let mut i: usize = 0;
    while i < v.len()
        invariant
            i <= v.len(),
            layers_view(r@) =~= layers_view(v@.subrange(0, i as int)),
        decreases v.len() - i,
    {
        let ghost r_before = r@;
        r.push(LayerProgress { layer: v[i].layer.clone(), current: v[i].current, total: v[i].total });
        proof {
            assert(layers_view(r@) =~= layers_view(r_before).push(v@[i as int]@));
            assert(layers_view(v@.subrange(0, i + 1)) =~= layers_view(v@.subrange(0, i as int)).push(
                v@[i as int]@,
            ));
        }
        i = i + 1;
    }
    proof {
        assert(v@.subrange(0, v@.len() as int) =~= v@);
    }
    r
}

/// The progress list with `p` recorded: the entry of its layer replaced, or
/// `p` appended when its layer was not seen before.
pub fn record_progress(layers: &Vec<LayerProgress>, p: LayerProgress) -> (r: Vec<LayerProgress>)
    ensures
        layers_view(r@) == recorded(layers_view(layers@), p@),
{
    let ghost old_view = layers_view(layers@);
    let ghost pv = p@;
    let mut r: Vec<LayerProgress> = Vec::new();
    let mut found = false;
    let mut i: usize = 0;
    while i < layers.len()
        invariant
            i <= layers.len(),
            old_view == layers_view(layers@),
            pv == p@,
            layers_view(r@) =~= old_view.subrange(0, i as int).map_values(
                |q: LayerProgressView| if q.layer == pv.layer { pv } else { q },
            ),
            found == exists|j: int| 0 <= j < i && old_view[j].layer == pv.layer,
        decreases layers.len() - i,
    {
        let ghost r_before = r@;
        let same = layers[i].layer == p.layer;
        if same {
            r.push(LayerProgress { layer: p.layer.clone(), current: p.current, total: p.total });
            found = true;
        } else {
            r.push(
                LayerProgress {
                    layer: layers[i].layer.clone(),
                    current: layers[i].current,
                    total: layers[i].total,
                },
            );
        }
        proof {
            let f = |q: LayerProgressView| if q.layer == pv.layer { pv } else { q };
            assert(old_view.subrange(0, i + 1) =~= old_view.subrange(0, i as int).push(old_view[i as int]));
            assert(layers_view(r@) =~= layers_view(r_before).push(f(old_view[i as int])));
            assert(old_view.subrange(0, i + 1).map_values(f) =~= old_view.subrange(0, i as int).map_values(f).push(
                f(old_view[i as int]),
            ));
        }
        i = i + 1;
    }
    proof {
        assert(old_view.subrange(0, old_view.len() as int) =~= old_view);
    }
    if !found {
        let ghost r_before = r@;
        r.push(p);
        proof {
            assert(layers_view(r@) =~= layers_view(r_before).push(pv));
            assert(old_view.map_values(|q: LayerProgressView| if q.layer == pv.layer { pv } else { q }) =~= old_view);
        }
    }
    r
}

/// The message of a name conflict with the resource `name`.
pub fn conflict_text(name: &str) -> (r: String)
    ensures
        r@ == conflict_message(name@),
{
    let mut r = String::from_str(CONFLICT_MESSAGE);
    r.append(name);
    r
}

/// The runtime's answer to an inspection by name.
#[derive(Clone, Debug)]
pub enum InspectAnswer {
    /// A resource of that name exists.
    Found,
    /// The inspection failed, with the HTTP status of the runtime's answer
    /// when there was one, and the error's message.
    Error { status: Option<u16>, message: String },
}

/// Status with which the runtime answers an inspection of a name that no
/// resource has.
pub const NOT_FOUND_STATUS: u16 = 404;

/// What an inspection means for a name check: "not found" means the name is
/// free, a resource found means a conflict, any other error is a runtime error.
pub fn inspection_outcome(a: InspectAnswer) -> (r: Outcome)
    ensures
        r@ == match a {
            InspectAnswer::Found => OutcomeView::Present,
            InspectAnswer::Error { status, message } => if status == Some(NOT_FOUND_STATUS) {
                OutcomeView::Absent
            } else {
                OutcomeView::Failed(message@)
            },
        },
{
    match a {
        InspectAnswer::Found => Outcome::Present,
        InspectAnswer::Error { status, message } => match status {
            Some(code) => if code == NOT_FOUND_STATUS {
                Outcome::Absent
            } else {
                Outcome::Failed(message)
            },
            None => Outcome::Failed(message),
        },
    }
}

/// One notification of an image pull, as the runtime sends it.
#[derive(Clone, Debug)]
pub struct PullNotification {
    pub layer: Option<String>,
    pub error: Option<String>,
    pub current: Option<i64>,
    pub total: Option<i64>,
}

/// What a pull notification means: an error aborts the pull; a layer with
/// its byte counts is that layer's progress; anything else only shows that
/// the pull goes on.
pub fn pull_outcome(n: PullNotification) -> (r: Outcome)
    ensures
        r@ == match (n.error, n.layer, n.current, n.total) {
            (Some(m), _, _, _) => OutcomeView::Failed(m@),
            (None, Some(l), Some(c), Some(t)) => if c >= 0 && t >= 0 {
                OutcomeView::Progress(
                    Some(LayerProgressView { layer: l@, current: c as u64, total: t as u64 }),
                )
            } else {
                OutcomeView::Progress(None)
            },
            _ => OutcomeView::Progress(None),
        },
{
    match (n.error, n.layer, n.current, n.total) {
        (Some(m), _, _, _) => Outcome::Failed(m),
        (None, Some(l), Some(c), Some(t)) => if c >= 0 && t >= 0 {
            Outcome::Progress(Some(LayerProgress { layer: l, current: c as u64, total: t as u64 }))
        } else {
            Outcome::Progress(None)
        },
        _ => Outcome::Progress(None),
    }
}

/// A provisioning run for one container configuration.
pub struct Provisioner {
    config: DbContainerConfig,
    phase: Phase,
    layers: Vec<LayerProgress>,
}

impl View for Provisioner {
    type V = ProvisionerView;

    closed spec fn view(&self) -> ProvisionerView {
        ProvisionerView { config: self.config@, phase: self.phase, layers: layers_view(self.layers@) }
    }
}

impl Provisioner {
    /// The volume index that the phase names lies within the volume list.
    #[verifier::type_invariant]
    spec fn wf(self) -> bool {
        phase_fits(self@)
    }

    /// Starts a run for `config`: the first request inspects the container name.
    pub fn start(config: DbContainerConfig) -> (r: (Provisioner, Step))
        ensures
            r.0@ == initial(config@),
            r.1@ == (StepView { emit: None, action: ActionView::InspectContainer(config@.name) }),
    {
        let name = config.name.clone();
        let p = Provisioner { config, phase: Phase::CheckingConflict, layers: Vec::new() };
        proof {
            assert(p@.layers =~= seq![]);
        }
        (p, Step { emit: None, action: Action::InspectContainer(name) })
    }

    /// The run has ended.
    pub fn is_finished(&self) -> (r: bool)
        ensures
            r == (self@.phase == Phase::Finished),
    {
        self.phase == Phase::Finished
    }

    /// Ends the run with an error event carrying `message`.
    fn fail(&mut self, message: String) -> (r: Step)
        ensures
            (final(self)@, r@) == failure(old(self)@, message@),
    {
        self.phase = Phase::Finished;
        Step { emit: Some(CreateContainerEvent::Error(message)), action: Action::Finish }
    }

    /// The container to create.
    fn request(&self) -> (r: ContainerRequest)
        ensures
            r@ == container_request(self.config@),
    {
        let tag = resolve_tag(self.config.tag.as_str());
        ContainerRequest {
            name: self.config.name.clone(),
            image: image_ref(self.config.image.as_str(), tag.as_str()),
            env: effective_env(&self.config.variables),
            mounts: copy_pairs(&self.config.volumes),
            labels: management_labels(CONTAINER_LABEL_VALUE),
        }
    }

    /// Goes on after the name checks of the volumes before index `i`.
    fn prechecks_from(&mut self, i: usize) -> (r: Step)
        requires
            i <= old(self)@.config.volumes.len(),
        ensures
            (final(self)@, r@) == prechecks_from(old(self)@, i as int),
    {
        if i < self.config.volumes.len() {
            self.phase = Phase::PrecheckingVolume(i);
            Step { emit: None, action: Action::InspectVolume(self.config.volumes[i].0.clone()) }
        } else {
            self.phase = Phase::Pulling;
            self.layers = Vec::new();
            proof {
                assert(layers_view(self.layers@) =~= seq![]);
            }
            let tag = resolve_tag(self.config.tag.as_str());
            Step {
                emit: Some(CreateContainerEvent::Pulling(Vec::new())),
                action: Action::PullImage { image: self.config.image.clone(), tag },
            }
        }
    }

    /// What follows the creation of the volumes from index `i` on.
    fn volumes_from(&self, i: usize) -> (r: (Phase, Action))
        ensures
            (r.0, r.1@) == volumes_from(self@, i as int),
    {
        if i < self.config.volumes.len() {
            (Phase::CheckingVolume(i), Action::InspectVolume(self.config.volumes[i].0.clone()))
        } else {
            (Phase::CreatingContainer, Action::CreateContainer(self.request()))
        }
    }

    /// Takes the runtime's answer `o` to the last request, and returns the
    /// event to report, if any, and the next request.
    pub fn step(&mut self, o: Outcome) -> (r: Step)
        ensures
            (final(self)@, r@) == transition(old(self)@, o@),
    {
        proof {
            use_type_invariant(&*self);
        }
        if self.phase == Phase::Finished {
            return Step { emit: None, action: Action::Finish };
        }
        if let Outcome::ConsumerClosed = o {
            self.phase = Phase::Finished;
            return Step { emit: None, action: Action::Finish };
        }
        match self.phase {
            Phase::CheckingConflict => match o {
                Outcome::Absent => self.prechecks_from(0),
                Outcome::Present => {
                    let m = conflict_text(self.config.name.as_str());
                    self.fail(m)
                },
                Outcome::Failed(m) => self.fail(m),
                _ => self.fail(String::from_str(UNEXPECTED_ANSWER)),
            },
            Phase::PrecheckingVolume(i) => match o {
                Outcome::Absent => {
                    let n = self.config.volumes.len();
                    assert(i < n);
                    self.prechecks_from(i + 1)
                },
                Outcome::Present => {
                    let m = conflict_text(self.config.volumes[i].0.as_str());
                    self.fail(m)
                },
                Outcome::Failed(m) => self.fail(m),
                _ => self.fail(String::from_str(UNEXPECTED_ANSWER)),
            },
            Phase::Pulling => match o {
                Outcome::Progress(n) => {
                    match n {
                        Some(l) => {
                            self.layers = record_progress(&self.layers, l);
                        },
                        None => {},
                    }
                    let snapshot = copy_layers(&self.layers);
                    Step {
                        emit: Some(CreateContainerEvent::Pulling(snapshot)),
                        action: Action::NextPullNotification,
                    }
                },
                Outcome::PullComplete => {
                    let (phase, action) = self.volumes_from(0);
                    self.phase = phase;
                    Step { emit: Some(CreateContainerEvent::Building), action }
                },
                Outcome::Failed(m) => self.fail(m),
                _ => self.fail(String::from_str(UNEXPECTED_ANSWER)),
            },
            Phase::CheckingVolume(i) => match o {
                Outcome::Absent => {
                    self.phase = Phase::CreatingVolume(i);
                    Step {
                        emit: None,
                        action: Action::CreateVolume {
                            name: self.config.volumes[i].0.clone(),
                            labels: management_labels(VOLUME_LABEL_VALUE),
                        },
                    }
                },
                Outcome::Present => {
                    let m = conflict_text(self.config.volumes[i].0.as_str());
                    self.fail(m)
                },
                Outcome::Failed(m) => self.fail(m),
                _ => self.fail(String::from_str(UNEXPECTED_ANSWER)),
            },
            Phase::CreatingVolume(i) => match o {
                Outcome::Succeeded => {
                    let n = self.config.volumes.len();
                    assert(i < n);
                    let (phase, action) = self.volumes_from(i + 1);
                    self.phase = phase;
                    Step { emit: None, action }
                },
                Outcome::Failed(m) => self.fail(m),
                _ => self.fail(String::from_str(UNEXPECTED_ANSWER)),
            },
            Phase::CreatingContainer => match o {
                Outcome::Created(id) => {
                    self.phase = Phase::Starting;
                    Step { emit: None, action: Action::StartContainer(id) }
                },
                Outcome::Failed(m) => self.fail(m),
                _ => self.fail(String::from_str(UNEXPECTED_ANSWER)),
            },
            Phase::Starting => match o {
                Outcome::Succeeded => {
                    self.phase = Phase::Finished;
                    Step { emit: Some(CreateContainerEvent::Done), action: Action::Finish }
                },
                Outcome::Failed(m) => self.fail(m),
                _ => self.fail(String::from_str(UNEXPECTED_ANSWER)),
            },
            Phase::Finished => Step { emit: None, action: Action::Finish },
        }
    }
}

} // verus!
