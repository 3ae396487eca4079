use crate::controller::{
    failed_indices, fails_at, is_running_at, outcome_at, running_indices, status_at, ActionView,
    ControllerView,
};
use crate::input::InputEvent;
use crate::navigation::{
    distinct_contexts, filtered_indices, in_context, indices_where, lemma_distinct_contexts,
    lemma_environment_has_rows, lemma_filtered_indices, lemma_indices_where, Navigation,
};
use crate::pod::PodView;
use crate::session::{Error, PodUIView, ProcessStatus};
use vstd::arithmetic::div_mod::{
    lemma_add_mod_noop_right, lemma_mod_add_multiples_vanish, lemma_small_mod,
};
use vstd::prelude::*;

verus! {

/// The navigation state after `count` moves of the cursor down.
pub open spec fn moved_down(nav: Navigation, targets: Seq<PodView>, count: nat) -> Navigation
    decreases count,
{
    if count == 0 {
        nav
    } else {
        moved_down(nav, targets, (count - 1) as nat).cursor_down(targets)
    }
}

/// The controller after a run of inputs, taken one after the other.
pub open spec fn handle_all<H>(
    controller: ControllerView<H>,
    events: Seq<InputEvent>,
) -> ControllerView<H>
    decreases events.len(),
{
    if events.len() == 0 {
        controller
    } else {
        handle_all(controller, events.drop_last()).handle(events.last())
    }
}

/// A session never gets a second process while its first is alive: a start
/// is refused exactly when the session is running, and a selection asks
/// for a spawn only for a session that is not running.
pub proof fn lemma_one_process_per_session<H>(
    controller: ControllerView<H>,
    event: InputEvent,
    statuses: Seq<ProcessStatus>,
    index: int,
)
    requires
        controller.wf(),
        0 <= index < controller.sessions.len(),
    ensures
        controller.sessions[index].start(status_at(statuses, index)) == Err::<(), Error>(
            Error::AlreadyRunning,
        ) <==> controller.sessions[index].running(status_at(statuses, index)),
        controller.action(event, statuses) == ActionView::Start(index)
            ==> !controller.sessions[index].running(status_at(statuses, index)),
        controller.handle(event).sessions == controller.sessions,
{
}

/// An action names only sessions that exist: the session under the cursor
/// for a selection, the running sessions for a shutdown.
pub proof fn lemma_action_in_range<H>(
    controller: ControllerView<H>,
    event: InputEvent,
    statuses: Seq<ProcessStatus>,
)
    requires
        controller.wf(),
    ensures
        match controller.action(event, statuses) {
            ActionView::Continue => true,
            ActionView::Start(index) => 0 <= index < controller.sessions.len(),
            ActionView::Stop(index) => 0 <= index < controller.sessions.len(),
            ActionView::Shutdown(plan) => forall|k: int|
                0 <= k < plan.len() ==> 0 <= #[trigger] plan[k] < controller.sessions.len(),
        },
{
    lemma_filtered_indices(controller.targets(), controller.navigation.environment());
    lemma_indices_where(controller.sessions.len(), is_running_at(controller.sessions, statuses));
}

/// Stopping twice: once a stop has left the session without a handle, the
/// next stop finds nothing to stop and changes nothing. (A stop whose
/// termination failed leaves the handle, and the next stop may succeed.)
pub proof fn lemma_stop_twice<H>(session: PodUIView<H>, first: bool, second: bool)
    requires
        session.process is None || first,
    ensures
        session.stopped(first).stop(second) == Err::<(), Error>(Error::NotRunning),
        session.stopped(first).stopped(second) == session.stopped(first),
{
}

/// Start and stop are seen by the next poll: a session whose spawn gave a
/// handle is running as long as its process is alive, and a session that
/// was stopped is not running, whatever a poll says.
pub proof fn lemma_start_stop_round_trip<H>(
    session: PodUIView<H>,
    handle: H,
    status: ProcessStatus,
)
    ensures
        session.started(Some(handle)).running(ProcessStatus::Running),
        session.started(Some(handle)).running(status) == (status == ProcessStatus::Running),
        !session.stopped(true).running(status),
        !session.released().running(status),
        !session.started(None).running(status),
{
}

/// Moving the cursor down `count` times advances it by `count` rows, from
/// the last row on to the first, and touches nothing else.
pub proof fn lemma_moved_down(nav: Navigation, targets: Seq<PodView>, count: nat)
    requires
        nav.wf(targets),
        nav.visible(targets).len() > 0,
    ensures
        moved_down(nav, targets, count) == nav.with_cursor(
            (nav.cursor() + count) % (nav.visible(targets).len() as int),
        ),
        moved_down(nav, targets, count).wf(targets),
    decreases count,
{
    let rows = nav.visible(targets).len() as int;
    lemma_environment_position(nav, targets);
    if count == 0 {
        lemma_small_mod(nav.cursor() as nat, rows as nat);
        assert(nav.with_cursor(nav.cursor()).cursors =~= nav.cursors);
    } else {
        let before = moved_down(nav, targets, (count - 1) as nat);
        lemma_moved_down(nav, targets, (count - 1) as nat);
        lemma_add_mod_noop_right(1, nav.cursor() + count - 1, rows);
        assert(before.cursor_down(targets).cursors =~= nav.with_cursor(
            (nav.cursor() + count) % rows,
        ).cursors);
    }
}

/// Where the filtered list of the environment shown has a row, an
/// environment is shown and has a cursor.
proof fn lemma_environment_position(nav: Navigation, targets: Seq<PodView>)
    requires
        nav.wf(targets),
        nav.visible(targets).len() > 0,
    ensures
        0 <= nav.position < nav.cursors.len(),
        0 <= nav.cursor() < nav.visible(targets).len(),
{
    if nav.environments.len() == 0 {
        lemma_filtered_indices(targets, nav.environment());
        lemma_distinct_contexts(targets);
    }
}

/// Wraparound: as many moves down as the environment has rows bring the
/// cursor back to where it was, so from the first row back to the first.
pub proof fn lemma_down_wraps_around(nav: Navigation, targets: Seq<PodView>)
    requires
        nav.wf(targets),
    ensures
        moved_down(nav, targets, nav.visible(targets).len()) == nav,
{
    let rows = nav.visible(targets).len();
    if rows > 0 {
        lemma_moved_down(nav, targets, rows);
        lemma_environment_position(nav, targets);
        lemma_mod_add_multiples_vanish(nav.cursor(), rows as int);
        lemma_small_mod(nav.cursor() as nat, rows);
        assert(nav.with_cursor(nav.cursor()).cursors =~= nav.cursors);
    }
}

/// A move up undoes a move down, and a move down undoes a move up.
pub proof fn lemma_up_undoes_down(nav: Navigation, targets: Seq<PodView>)
    requires
        nav.wf(targets),
    ensures
        nav.cursor_down(targets).cursor_up(targets) == nav,
        nav.cursor_up(targets).cursor_down(targets) == nav,
{
    let rows = nav.visible(targets).len() as int;
    if rows > 0 {
        lemma_environment_position(nav, targets);
        let cursor = nav.cursor();
        lemma_add_mod_noop_right(rows - 1, cursor + 1, rows);
        lemma_add_mod_noop_right(1, cursor + rows - 1, rows);
        lemma_mod_add_multiples_vanish(cursor, rows);
        lemma_small_mod(cursor as nat, rows as nat);
        assert(nav.cursor_down(targets).cursor_up(targets).cursors =~= nav.cursors);
        assert(nav.cursor_up(targets).cursor_down(targets).cursors =~= nav.cursors);
    }
}

/// An input keeps the navigation state fitting the sessions, and leaves
/// the sessions and the environments as they are.
pub proof fn lemma_handle_keeps_wf<H>(controller: ControllerView<H>, event: InputEvent)
    requires
        controller.wf(),
    ensures
        controller.handle(event).wf(),
        controller.handle(event).sessions == controller.sessions,
        controller.handle(event).navigation.environments == controller.navigation.environments,
{
    let nav = controller.navigation;
    let targets = controller.targets();
    if nav.visible(targets).len() > 0 {
        lemma_environment_position(nav, targets);
    }
}

/// Cursor independence, one input: an input moves no cursor but that of
/// the environment shown, and showing the next environment moves none.
pub proof fn lemma_other_cursors_stay<H>(
    controller: ControllerView<H>,
    event: InputEvent,
    environment: int,
)
    requires
        controller.wf(),
        0 <= environment < controller.navigation.environments.len(),
        environment != controller.navigation.position || event == InputEvent::NextEnvironment,
    ensures
        controller.handle(event).navigation.cursors[environment]
            == controller.navigation.cursors[environment],
{
}

/// Cursor independence, any run of inputs: the cursor of an environment is
/// where it was left, whatever was done while other environments were
/// shown.
pub proof fn lemma_cursor_kept_elsewhere<H>(
    controller: ControllerView<H>,
    events: Seq<InputEvent>,
    environment: int,
)
    requires
        controller.wf(),
        0 <= environment < controller.navigation.environments.len(),
        forall|i: int|
            0 <= i < events.len() && (events[i] == InputEvent::Up || events[i] == InputEvent::Down)
                ==> #[trigger] handle_all(controller, events.take(i)).navigation.position
                != environment,
    ensures
        handle_all(controller, events).wf(),
        handle_all(controller, events).sessions == controller.sessions,
        handle_all(controller, events).navigation.environments
            == controller.navigation.environments,
        handle_all(controller, events).navigation.cursors[environment]
            == controller.navigation.cursors[environment],
    decreases events.len(),
{
    if events.len() > 0 {
        let front = events.drop_last();
        assert forall|i: int|
            0 <= i < front.len() && (front[i] == InputEvent::Up || front[i]
                == InputEvent::Down) implies #[trigger] handle_all(
            controller,
            front.take(i),
        ).navigation.position != environment by {
            assert(front.take(i) =~= events.take(i));
        }
        lemma_cursor_kept_elsewhere(controller, front, environment);
        assert(events.take(events.len() - 1) =~= front);
        lemma_handle_keeps_wf(handle_all(controller, front), events.last());
    }
}

/// Shutdown completeness: a shutdown stops every running session whose
/// termination succeeded, whatever became of the others; it collects
/// exactly the running sessions whose termination failed; and it leaves
/// the sessions that were not running as they were.
pub proof fn lemma_shutdown_complete<H>(
    controller: ControllerView<H>,
    statuses: Seq<ProcessStatus>,
    terminated: Seq<bool>,
    index: int,
)
    requires
        0 <= index < controller.sessions.len(),
    ensures
        ({
            let before = controller.sessions[index];
            let after = controller.shut_down(statuses, terminated).sessions[index];
            let running = before.running(status_at(statuses, index));
            let done = outcome_at(terminated, index);
            &&& after.pod == before.pod
            &&& running && done ==> after.process is None
            &&& running && !done ==> after == before
            &&& !running ==> after == before
            &&& running_indices(controller.sessions, statuses).contains(index) <==> running
            &&& failed_indices(controller.sessions, statuses, terminated).contains(index)
                <==> running && !done
        }),
{
    let runs = is_running_at(controller.sessions, statuses);
    let fails = fails_at(controller.sessions, statuses, terminated);
    lemma_indices_where(controller.sessions.len(), runs);
    lemma_indices_where(controller.sessions.len(), fails);
}

/// Where every termination succeeds, a shutdown leaves no session running.
pub proof fn lemma_shutdown_leaves_none_running<H>(
    controller: ControllerView<H>,
    statuses: Seq<ProcessStatus>,
    terminated: Seq<bool>,
)
    requires
        failed_indices(controller.sessions, statuses, terminated).len() == 0,
    ensures
        running_indices(controller.shut_down(statuses, terminated).sessions, statuses).len() == 0,
        forall|i: int|
            0 <= i < controller.sessions.len() ==> !(#[trigger] controller.shut_down(
                statuses,
                terminated,
            ).sessions[i]).running(status_at(statuses, i)),
{
    let after = controller.shut_down(statuses, terminated).sessions;
    assert forall|i: int| 0 <= i < controller.sessions.len() implies !(#[trigger] after[i]).running(
        status_at(statuses, i),
    ) by {
        lemma_shutdown_complete(controller, statuses, terminated, i);
    }
    let runs = is_running_at(after, statuses);
    lemma_indices_where(after.len(), runs);
    let left = running_indices(after, statuses);
    if left.len() > 0 {
        assert(runs(left[0]));
    }
}

/// Order of first appearance: of two environments, the one listed first is
/// the one whose first target comes first.
pub proof fn lemma_environments_in_order_of_appearance(targets: Seq<PodView>, first: int, second: int)
    requires
        0 <= first < second < distinct_contexts(targets).len(),
    ensures
        filtered_indices(targets, distinct_contexts(targets)[first]).len() > 0,
        filtered_indices(targets, distinct_contexts(targets)[second]).len() > 0,
        filtered_indices(targets, distinct_contexts(targets)[first])[0] < filtered_indices(
            targets,
            distinct_contexts(targets)[second],
        )[0],
    decreases targets.len(),
{
    let all = distinct_contexts(targets);
    lemma_environment_has_rows(targets, first);
    lemma_environment_has_rows(targets, second);
    let front = targets.drop_last();
    let earlier = distinct_contexts(front);
    lemma_distinct_contexts(front);
    lemma_filtered_indices(front, all[first]);
    lemma_filtered_indices(front, all[second]);
    lemma_filtered_indices(targets, all[first]);
    lemma_filtered_indices(targets, all[second]);
    lemma_filtered_front(targets, all[first]);
    lemma_filtered_front(targets, all[second]);
    lemma_environment_has_rows(front, first);
    if second < earlier.len() {
        lemma_environments_in_order_of_appearance(front, first, second);
    }
}

/// The filtered list of a list of targets begins with the filtered list of
/// all targets but the last.
proof fn lemma_filtered_front(targets: Seq<PodView>, context: Seq<char>)
    requires
        targets.len() > 0,
    ensures
        filtered_indices(targets, context) == if targets.last().context == context {
            filtered_indices(targets.drop_last(), context).push(targets.len() - 1)
        } else {
            filtered_indices(targets.drop_last(), context)
        },
{
    let front = targets.drop_last();
    lemma_same_indices(front.len(), targets, front, context);
}

/// Two lists of targets that agree on their first `count` contexts have the
/// same filtered list up to there.
proof fn lemma_same_indices(count: nat, left: Seq<PodView>, right: Seq<PodView>, context: Seq<char>)
    requires
        count <= left.len(),
        count <= right.len(),
        forall|i: int| 0 <= i < count ==> left[i].context == right[i].context,
    ensures
        indices_where(count, in_context(left, context)) == indices_where(
            count,
            in_context(right, context),
        ),
    decreases count,
{
    if count > 0 {
        lemma_same_indices((count - 1) as nat, left, right, context);
    }
}

} // verus!
