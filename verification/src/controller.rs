use crate::frame::{row_views, Row, RowView};
use crate::input::{event_for_key, event_of, InputEvent, Key};
use crate::navigation::{
    distinct_contexts, filtered_indices, in_context, indices_where, lemma_filtered_indices,
    lemma_initial_wf, Navigation,
};
use crate::pod::{Pod, PodView};
use crate::session::{
    label, process_selected_pod, spawn_result, Error, PodUI, PodUIView, ProcessStatus, Toggle,
};
use vstd::arithmetic::div_mod::lemma_fundamental_div_mod_converse;
use vstd::prelude::*;

verus! {

/// The targets of a list of sessions.
pub open spec fn targets<H>(sessions: Seq<PodUIView<H>>) -> Seq<PodView> {
    sessions.map_values(|session: PodUIView<H>| session.pod)
}

/// What a list of sessions stands for.
pub open spec fn session_views<H>(pods: Seq<PodUI<H>>) -> Seq<PodUIView<H>> {
    pods.map_values(|pod: PodUI<H>| pod@)
}

/// What a list of names stands for.
pub open spec fn names(texts: Seq<String>) -> Seq<Seq<char>> {
    texts.map_values(|text: String| text@)
}

/// A list of indices as integers.
pub open spec fn indices(places: Seq<usize>) -> Seq<int> {
    places.map_values(|place: usize| place as int)
}

/// What the poll of session `index` found; where the list of polls has no
/// entry for it, nothing is known.
pub open spec fn status_at(statuses: Seq<ProcessStatus>, index: int) -> ProcessStatus {
    if 0 <= index < statuses.len() {
        statuses[index]
    } else {
        ProcessStatus::Unknown
    }
}

/// What the poll of session `index` found.
pub fn status_of(statuses: &Vec<ProcessStatus>, index: usize) -> (status: ProcessStatus)
    ensures
        status == status_at(statuses@, index as int),
{
    if index < statuses.len() {
        statuses[index]
    } else {
        ProcessStatus::Unknown
    }
}

fn contains_name(list: &Vec<String>, name: &String) -> (found: bool)
    ensures
        found == names(list@).contains(name@),
{
    let mut i: usize = 0;
    while i < list.len()
        invariant
            i <= list.len(),
            forall|j: int| 0 <= j < i ==> names(list@)[j] != name@,
        decreases list.len() - i,
    {
        if list[i] == *name {
            assert(names(list@)[i as int] == name@);
            return true;
        }
        i += 1;
    }
    false
}

/// The environments of the sessions: their distinct contexts, each at the
/// place of its first appearance.
pub fn contexts_of<H>(pods: &Vec<PodUI<H>>) -> (contexts: Vec<String>)
    ensures
        names(contexts@) == distinct_contexts(targets(session_views(pods@))),
{
    let ghost all = targets(session_views(pods@));
    let mut contexts: Vec<String> = Vec::new();
    let mut i: usize = 0;
    while i < pods.len()
        invariant
            i <= pods.len(),
            all == targets(session_views(pods@)),
            names(contexts@) == distinct_contexts(all.take(i as int)),
        decreases pods.len() - i,
    {
        let context = pods[i].get_context();
        proof {
            assert(all.take(i + 1).drop_last() =~= all.take(i as int));
        }
        if !contains_name(&contexts, &context) {
            contexts.push(context);
        }
        i += 1;
    }
    assert(all.take(pods.len() as int) =~= all);
    contexts
}

/// The filtered list of an environment: the indices of the sessions whose
/// context is `context`, in the order of the sessions.
pub fn filtered_pods<H>(pods: &Vec<PodUI<H>>, context: &String) -> (filtered: Vec<usize>)
    ensures
        indices(filtered@) == filtered_indices(targets(session_views(pods@)), context@),
{
    let ghost keep = in_context(targets(session_views(pods@)), context@);
    let mut filtered: Vec<usize> = Vec::new();
    let mut i: usize = 0;
    while i < pods.len()
        invariant
            i <= pods.len(),
            keep == in_context(targets(session_views(pods@)), context@),
            indices(filtered@) == indices_where(i as nat, keep),
        decreases pods.len() - i,
    {
        if pods[i].in_context(context) {
            filtered.push(i);
        }
        i += 1;
    }
    filtered
}

/// Whether the process of session `index` was signalled and reaped; where
/// the list of outcomes has no entry for it, it was not.
pub open spec fn outcome_at(terminated: Seq<bool>, index: int) -> bool {
    0 <= index < terminated.len() && terminated[index]
}

/// Holds of the indices of the sessions that are running.
pub open spec fn is_running_at<H>(
    sessions: Seq<PodUIView<H>>,
    statuses: Seq<ProcessStatus>,
) -> spec_fn(int) -> bool {
    |i: int| sessions[i].running(status_at(statuses, i))
}

/// The running sessions, in their order.
pub open spec fn running_indices<H>(
    sessions: Seq<PodUIView<H>>,
    statuses: Seq<ProcessStatus>,
) -> Seq<int> {
    indices_where(sessions.len(), is_running_at(sessions, statuses))
}

/// Holds of the indices of the running sessions whose termination failed.
pub open spec fn fails_at<H>(
    sessions: Seq<PodUIView<H>>,
    statuses: Seq<ProcessStatus>,
    terminated: Seq<bool>,
) -> spec_fn(int) -> bool {
    |i: int| sessions[i].running(status_at(statuses, i)) && !outcome_at(terminated, i)
}

/// The running sessions whose termination failed, in their order.
pub open spec fn failed_indices<H>(
    sessions: Seq<PodUIView<H>>,
    statuses: Seq<ProcessStatus>,
    terminated: Seq<bool>,
) -> Seq<int> {
    indices_where(sessions.len(), fails_at(sessions, statuses, terminated))
}

/// The session after a shutdown: stopped if it was running, else as it was.
pub open spec fn shut_down<H>(
    session: PodUIView<H>,
    status: ProcessStatus,
    terminated: bool,
) -> PodUIView<H> {
    if session.running(status) {
        session.stopped(terminated)
    } else {
        session
    }
}

/// What the caller of the controller has to do next.
#[derive(Debug)]
pub enum Action {
    /// Nothing but to draw the next frame.
    Continue,
    /// Spawn the forward of this session and report with `started`.
    Start(usize),
    /// Terminate and reap the process of this session and report with
    /// `stopped`.
    Stop(usize),
    /// Terminate and reap the processes of these sessions, report with
    /// `shutdown_all`, and leave the loop.
    Shutdown(Vec<usize>),
}

/// What an action stands for.
pub enum ActionView {
    Continue,
    Start(int),
    Stop(int),
    Shutdown(Seq<int>),
}

impl View for Action {
    type V = ActionView;

    open spec fn view(&self) -> ActionView {
        match self {
            Action::Continue => ActionView::Continue,
            Action::Start(index) => ActionView::Start(*index as int),
            Action::Stop(index) => ActionView::Stop(*index as int),
            Action::Shutdown(plan) => ActionView::Shutdown(indices(plan@)),
        }
    }
}

/// What a controller stands for: its sessions and where the interface
/// stands.
pub struct ControllerView<H> {
    pub sessions: Seq<PodUIView<H>>,
    pub navigation: Navigation,
}

impl<H> ControllerView<H> {
    /// The targets of the sessions.
    pub open spec fn targets(self) -> Seq<PodView> {
        targets(self.sessions)
    }

    /// The navigation state fits the sessions.
    pub open spec fn wf(self) -> bool {
        self.navigation.wf(self.targets())
    }

    /// The controller at startup.
    pub open spec fn initial(sessions: Seq<PodUIView<H>>) -> ControllerView<H> {
        ControllerView { sessions, navigation: Navigation::initial(targets(sessions)) }
    }

    /// The controller after an input. Only the navigation state changes:
    /// what an input does to the sessions is done by the caller and
    /// reported afterwards.
    pub open spec fn handle(self, event: InputEvent) -> ControllerView<H> {
        match event {
            InputEvent::NextEnvironment => ControllerView {
                navigation: self.navigation.next_environment(),
                ..self
            },
            InputEvent::Up => ControllerView {
                navigation: self.navigation.cursor_up(self.targets()),
                ..self
            },
            InputEvent::Down => ControllerView {
                navigation: self.navigation.cursor_down(self.targets()),
                ..self
            },
            InputEvent::Select => self,
            InputEvent::Quit => self,
        }
    }

    /// What an input asks the caller to do. A selection toggles the session
    /// under the cursor; quitting stops every running session; the other
    /// inputs ask for nothing.
    pub open spec fn action(self, event: InputEvent, statuses: Seq<ProcessStatus>) -> ActionView {
        match event {
            InputEvent::Select => match self.navigation.selected(self.targets()) {
                Some(index) => match self.sessions[index].toggle(status_at(statuses, index)) {
                    Toggle::Start => ActionView::Start(index),
                    Toggle::Stop => ActionView::Stop(index),
                },
                None => ActionView::Continue,
            },
            InputEvent::Quit => ActionView::Shutdown(running_indices(self.sessions, statuses)),
            _ => ActionView::Continue,
        }
    }

    /// The rows of the environment shown: one for each session of its
    /// filtered list, in that order.
    pub open spec fn rows(self, statuses: Seq<ProcessStatus>) -> Seq<RowView> {
        let visible = self.navigation.visible(self.targets());
        Seq::new(
            visible.len(),
            |k: int|
                RowView {
                    label: label(
                        self.sessions[visible[k]].pod,
                        self.sessions[visible[k]].running(status_at(statuses, visible[k])),
                    ),
                    selected: k == self.navigation.cursor(),
                    running: self.sessions[visible[k]].running(status_at(statuses, visible[k])),
                },
        )
    }

    /// The controller after the spawn for session `index` was reported.
    pub open spec fn started(self, index: int, spawned: Option<H>) -> ControllerView<H> {
        ControllerView {
            sessions: self.sessions.update(index, self.sessions[index].started(spawned)),
            ..self
        }
    }

    /// The controller after the termination of session `index`, asked for
    /// by a selection, was reported.
    pub open spec fn stopped(self, index: int) -> ControllerView<H> {
        ControllerView {
            sessions: self.sessions.update(index, self.sessions[index].released()),
            ..self
        }
    }

    /// The controller after the terminations of a shutdown were reported.
    pub open spec fn shut_down(
        self,
        statuses: Seq<ProcessStatus>,
        terminated: Seq<bool>,
    ) -> ControllerView<H> {
        ControllerView {
            sessions: Seq::new(
                self.sessions.len(),
                |i: int|
                    shut_down(self.sessions[i], status_at(statuses, i), outcome_at(terminated, i)),
            ),
            ..self
        }
    }
}

/// The controller of the interface. It owns the sessions, keeps the
/// environment shown and one cursor for each environment, and decides what
/// each input leads to.
///
/// The controller does no work outside itself. Its caller polls the
/// processes and hands in what the polls found (`statuses`, one entry for
/// each session, in their order), draws the rows, reads the keys, carries
/// out the action that an input leads to, and reports what came of it.
pub struct Controller<H> {
    pods: Vec<PodUI<H>>,
    contexts: Vec<String>,
    selected_indices: Vec<usize>,
    environment_position: usize,
}

impl<H> View for Controller<H> {
    type V = ControllerView<H>;

    closed spec fn view(&self) -> ControllerView<H> {
        ControllerView {
            sessions: session_views(self.pods@),
            navigation: Navigation {
                environments: names(self.contexts@),
                cursors: indices(self.selected_indices@),
                position: self.environment_position as int,
            },
        }
    }
}

impl<H> Controller<H> {
    /// The navigation state fits the sessions.
    pub open spec fn wf(&self) -> bool {
        self@.wf()
    }

    /// A controller for `pods`, showing the first environment with every
    /// cursor on the first row.
    pub fn new(pods: Vec<PodUI<H>>) -> (controller: Self)
        ensures
            controller@ == ControllerView::initial(session_views(pods@)),
            controller.wf(),
    {
        let contexts = contexts_of(&pods);
        let mut selected_indices: Vec<usize> = Vec::new();
        let mut e: usize = 0;
        while e < contexts.len()
            invariant
                e <= contexts.len(),
                selected_indices@.len() == e,
                forall|j: int| 0 <= j < e ==> selected_indices@[j] == 0,
            decreases contexts.len() - e,
        {
            selected_indices.push(0);
            e += 1;
        }
        let controller = Controller { pods, contexts, selected_indices, environment_position: 0 };
        proof {
            let initial = ControllerView::initial(session_views(pods@));
            assert(controller@.navigation.cursors =~= initial.navigation.cursors);
            lemma_initial_wf(targets(session_views(pods@)));
        }
        controller
    }

    /// The number of sessions.
    pub fn len(&self) -> (count: usize)
        ensures
            count == self@.sessions.len(),
    {
        self.pods.len()
    }

    /// The environments, in the order of their first appearance.
    pub fn environments(&self) -> (environments: Vec<String>)
        ensures
            names(environments@) == self@.navigation.environments,
    {
        let mut environments: Vec<String> = Vec::new();
        let mut e: usize = 0;
        while e < self.contexts.len()
            invariant
                e <= self.contexts.len(),
                names(environments@) == names(self.contexts@).take(e as int),
            decreases self.contexts.len() - e,
        {
            let ghost before = environments@;
            environments.push(self.contexts[e].clone());
            assert(names(environments@) =~= names(before).push(self.contexts@[e as int]@));
            e += 1;
        }
        environments
    }

    /// The index of the environment shown.
    pub fn environment_position(&self) -> (position: usize)
        ensures
            position == self@.navigation.position,
    {
        self.environment_position
    }

    /// The name of the environment shown; the empty name when there is no
    /// environment at all.
    pub fn environment(&self) -> (environment: String)
        ensures
            environment@ == self@.navigation.environment(),
    {
        if self.environment_position < self.contexts.len() {
            self.contexts[self.environment_position].clone()
        } else {
            String::new()
        }
    }

    /// The cursor of the environment shown.
    pub fn selected_index(&self) -> (cursor: usize)
        ensures
            cursor == self@.navigation.cursor(),
    {
        if self.environment_position < self.selected_indices.len() {
            self.selected_indices[self.environment_position]
        } else {
            0
        }
    }

    /// The filtered list of the environment shown: the indices of its
    /// sessions, in the order of the sessions.
    pub fn filtered_pods(&self) -> (filtered: Vec<usize>)
        ensures
            indices(filtered@) == self@.navigation.visible(self@.targets()),
    {
        let environment = self.environment();
        filtered_pods(&self.pods, &environment)
    }

    /// The target of session `index`, to hand to the command that spawns
    /// its forward.
    pub fn get_pod(&self, index: usize) -> (pod: &Pod)
        requires
            index < self@.sessions.len(),
        ensures
            pod@ == self@.sessions[index as int].pod,
    {
        self.pods[index].get_pod()
    }

    /// Lends out the handle of session `index`, so that its process can be
    /// polled or signalled. Nothing else changes: the targets and the
    /// navigation state stay, and with them the controller stays well
    /// formed.
    pub fn process_mut(&mut self, index: usize) -> (handle: Option<&mut H>)
        requires
            index < old(self)@.sessions.len(),
        ensures
            final(self)@.navigation == old(self)@.navigation,
            final(self)@.sessions.len() == old(self)@.sessions.len(),
            forall|i: int|
                0 <= i < old(self)@.sessions.len() && i != index ==> final(self)@.sessions[i]
                    == old(self)@.sessions[i],
            final(self)@.sessions[index as int].pod == old(self)@.sessions[index as int].pod,
            match old(self)@.sessions[index as int].process {
                None => handle is None && final(self)@.sessions[index as int].process is None,
                Some(held) => handle is Some && *handle->0 == held
                    && final(self)@.sessions[index as int].process == Some(*final(handle->0)),
            },
            final(self)@.targets() == old(self)@.targets(),
    {
        self.pods[index].process_mut()
    }

    /// The rows of the environment shown, given what the polls found.
    pub fn rows(&self, statuses: &Vec<ProcessStatus>) -> (rows: Vec<Row>)
        ensures
            row_views(rows@) == self@.rows(statuses@),
    {
        let filtered = self.filtered_pods();
        let cursor = self.selected_index();
        let ghost visible = self@.navigation.visible(self@.targets());
        proof {
            lemma_filtered_indices(self@.targets(), self@.navigation.environment());
        }
        let mut rows: Vec<Row> = Vec::new();
        let mut k: usize = 0;
        while k < filtered.len()
            invariant
                k <= filtered.len(),
                indices(filtered@) == visible,
                visible == self@.navigation.visible(self@.targets()),
                cursor == self@.navigation.cursor(),
                forall|j: int| 0 <= j < visible.len() ==> 0 <= #[trigger] visible[j] < self.pods@.len(),
                row_views(rows@) == self@.rows(statuses@).take(k as int),
            decreases filtered.len() - k,
        {
            let index = filtered[k];
            assert(index == visible[k as int]);
            let status = status_of(statuses, index);
            let pod = &self.pods[index];
            let row = Row {
                label: pod.label(status),
                selected: k == cursor,
                running: pod.is_running(status),
            };
            let ghost before = rows@;
            rows.push(row);
            assert(row_views(rows@) =~= row_views(before).push(row@));
            k += 1;
        }
        rows
    }

    /// The running sessions, in their order: those that a shutdown stops.
    pub fn running_pods(&self, statuses: &Vec<ProcessStatus>) -> (running: Vec<usize>)
        ensures
            indices(running@) == running_indices(self@.sessions, statuses@),
    {
        let ghost keep = is_running_at(self@.sessions, statuses@);
        let mut running: Vec<usize> = Vec::new();
        let mut i: usize = 0;
        while i < self.pods.len()
            invariant
                i <= self.pods.len(),
                keep == is_running_at(self@.sessions, statuses@),
                indices(running@) == indices_where(i as nat, keep),
            decreases self.pods.len() - i,
        {
            if self.pods[i].is_running(status_of(statuses, i)) {
                running.push(i);
            }
            i += 1;
        }
        running
    }

    /// Takes one input: moves the cursor or shows the next environment, and
    /// says what the caller has to do for a selection or for quitting.
    pub fn handle_event(&mut self, event: InputEvent, statuses: &Vec<ProcessStatus>) -> (action:
        Action)
        requires
            old(self).wf(),
        ensures
            final(self)@ == old(self)@.handle(event),
            action@ == old(self)@.action(event, statuses@),
            final(self).wf(),
    {
        match event {
            InputEvent::Quit => Action::Shutdown(self.running_pods(statuses)),
            InputEvent::NextEnvironment => {
                let count = self.contexts.len();
                if count > 0 {
                    self.environment_position = (self.environment_position + 1) % count;
                }
                Action::Continue
            },
            InputEvent::Up => {
                let rows = self.filtered_pods().len();
                let position = self.environment_position;
                if rows > 0 && position < self.selected_indices.len() {
                    let cursor = self.selected_indices[position];
                    let moved = if cursor > 0 {
                        cursor - 1
                    } else {
                        rows - 1
                    };
                    proof {
                        if cursor > 0 {
                            lemma_fundamental_div_mod_converse(
                                cursor + rows - 1,
                                rows as int,
                                1,
                                cursor - 1,
                            );
                        } else {
                            lemma_fundamental_div_mod_converse(
                                cursor + rows - 1,
                                rows as int,
                                0,
                                rows - 1,
                            );
                        }
                    }
                    let ghost before = self.selected_indices@;
                    self.selected_indices.set(position, moved);
                    assert(indices(self.selected_indices@) =~= indices(before).update(
                        position as int,
                        moved as int,
                    ));
                }
                Action::Continue
            },
            InputEvent::Down => {
                let rows = self.filtered_pods().len();
                let position = self.environment_position;
                if rows > 0 && position < self.selected_indices.len() {
                    let cursor = self.selected_indices[position];
                    let moved = (cursor + 1) % rows;
                    let ghost before = self.selected_indices@;
                    self.selected_indices.set(position, moved);
                    assert(indices(self.selected_indices@) =~= indices(before).update(
                        position as int,
                        moved as int,
                    ));
                }
                Action::Continue
            },
            InputEvent::Select => {
                let filtered = self.filtered_pods();
                let cursor = self.selected_index();
                proof {
                    lemma_filtered_indices(self@.targets(), self@.navigation.environment());
                }
                if cursor < filtered.len() {
                    let index = filtered[cursor];
                    match process_selected_pod(&self.pods[index], status_of(statuses, index)) {
                        Toggle::Start => Action::Start(index),
                        Toggle::Stop => Action::Stop(index),
                    }
                } else {
                    Action::Continue
                }
            },
        }
    }

    /// Takes one key press. A key that stands for no input changes nothing
    /// and asks for nothing.
    pub fn handle_key(&mut self, key: Key, statuses: &Vec<ProcessStatus>) -> (action: Action)
        requires
            old(self).wf(),
        ensures
            match event_of(key) {
                Some(event) => final(self)@ == old(self)@.handle(event)
                    && action@ == old(self)@.action(event, statuses@),
                None => final(self)@ == old(self)@ && action@ == ActionView::Continue,
            },
            final(self).wf(),
    {
        match event_for_key(key) {
            Some(event) => self.handle_event(event, statuses),
            None => Action::Continue,
        }
    }

    /// Takes the report of the spawn for session `index`: the session holds
    /// the new handle, or none when the spawn failed.
    pub fn started(&mut self, index: usize, spawned: Option<H>) -> (outcome: Result<(), Error>)
        requires
            old(self).wf(),
            index < old(self)@.sessions.len(),
        ensures
            final(self)@ == old(self)@.started(index as int, spawned),
            outcome == spawn_result(spawned),
            final(self).wf(),
    {
        let outcome = self.pods[index].started(spawned);
        proof {
            assert(final(self)@.sessions =~= old(self)@.sessions.update(
                index as int,
                old(self)@.sessions[index as int].started(spawned),
            ));
            assert(final(self)@.targets() =~= old(self)@.targets());
        }
        outcome
    }

    /// Takes the report of the termination of session `index` that a
    /// selection asked for. The session holds no handle afterwards, whether
    /// the process was signalled and reaped or not; the result says which.
    pub fn stopped(&mut self, index: usize, terminated: bool) -> (outcome: Result<(), Error>)
        requires
            old(self).wf(),
            index < old(self)@.sessions.len(),
        ensures
            final(self)@ == old(self)@.stopped(index as int),
            outcome == old(self)@.sessions[index as int].stop(terminated),
            final(self).wf(),
    {
        let outcome = self.pods[index].stop(terminated);
        self.pods[index].release();
        proof {
            assert(final(self)@.sessions =~= old(self)@.sessions.update(
                index as int,
                old(self)@.sessions[index as int].released(),
            ));
            assert(final(self)@.targets() =~= old(self)@.targets());
        }
        outcome
    }

    /// Takes the report of the terminations of a shutdown: `terminated`
    /// says of each session, in their order, whether its process was
    /// signalled and reaped. Every running session is stopped, one
    /// termination that failed does not keep the others from being
    /// recorded, and the sessions whose termination failed are returned.
    pub fn shutdown_all(&mut self, statuses: &Vec<ProcessStatus>, terminated: &Vec<bool>) -> (failures:
        Vec<usize>)
        requires
            old(self).wf(),
        ensures
            final(self)@ == old(self)@.shut_down(statuses@, terminated@),
            indices(failures@) == failed_indices(old(self)@.sessions, statuses@, terminated@),
            final(self).wf(),
    {
        let ghost before = self@;
        let ghost fails = fails_at(before.sessions, statuses@, terminated@);
        let mut failures: Vec<usize> = Vec::new();
        let mut i: usize = 0;
        while i < self.pods.len()
            invariant
                i <= self.pods.len(),
                before.wf(),
                fails == fails_at(before.sessions, statuses@, terminated@),
                self@.navigation == before.navigation,
                self@.sessions.len() == before.sessions.len(),
                forall|j: int|
                    0 <= j < i ==> #[trigger] self@.sessions[j] == shut_down(
                        before.sessions[j],
                        status_at(statuses@, j),
                        outcome_at(terminated@, j),
                    ),
                forall|j: int|
                    i <= j < before.sessions.len() ==> #[trigger] self@.sessions[j]
                        == before.sessions[j],
                indices(failures@) == indices_where(i as nat, fails),
            decreases self.pods.len() - i,
        {
            let ghost entered = self@;
            assert(entered.sessions[i as int] == before.sessions[i as int]);
            if self.pods[i].is_running(status_of(statuses, i)) {
                let signalled = i < terminated.len() && terminated[i];
                let outcome = self.pods[i].stop(signalled);
                if outcome.is_err() {
                    failures.push(i);
                }
            }
            assert(self@.sessions =~= entered.sessions.update(
                i as int,
                shut_down(
                    before.sessions[i as int],
                    status_at(statuses@, i as int),
                    outcome_at(terminated@, i as int),
                ),
            ));
            i += 1;
        }
        proof {
            assert(self@.sessions =~= before.shut_down(statuses@, terminated@).sessions);
            assert(self@.targets() =~= before.targets());
        }
        failures
    }
}

} // verus!
