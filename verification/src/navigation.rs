use crate::pod::PodView;
use vstd::prelude::*;

verus! {

/// The environments of a list of targets: the distinct contexts, each at the
/// place of its first appearance.
pub open spec fn distinct_contexts(targets: Seq<PodView>) -> Seq<Seq<char>>
    decreases targets.len(),
{
    if targets.len() == 0 {
        Seq::empty()
    } else {
        let earlier = distinct_contexts(targets.drop_last());
        if earlier.contains(targets.last().context) {
            earlier
        } else {
            earlier.push(targets.last().context)
        }
    }
}

/// The indices below `count` that `keep` holds of, in increasing order.
pub open spec fn indices_where(count: nat, keep: spec_fn(int) -> bool) -> Seq<int>
    decreases count,
{
    if count == 0 {
        Seq::empty()
    } else {
        let earlier = indices_where((count - 1) as nat, keep);
        if keep(count - 1) {
            earlier.push(count - 1)
        } else {
            earlier
        }
    }
}

/// Holds of the indices of the targets whose context is `context`.
pub open spec fn in_context(targets: Seq<PodView>, context: Seq<char>) -> spec_fn(int) -> bool {
    |i: int| targets[i].context == context
}

/// The filtered list of an environment: the indices of the targets whose
/// context is `context`, in the order of the list.
pub open spec fn filtered_indices(targets: Seq<PodView>, context: Seq<char>) -> Seq<int> {
    indices_where(targets.len(), in_context(targets, context))
}

/// Where the interface stands: the environments, the cursor that each of
/// them remembers, and which environment is shown.
pub struct Navigation {
    pub environments: Seq<Seq<char>>,
    pub cursors: Seq<int>,
    pub position: int,
}

impl Navigation {
    /// The navigation state fits the targets: the environments are those of
    /// the targets, one of them is shown if there is any, and each cursor
    /// points into the filtered list of its environment.
    pub open spec fn wf(self, targets: Seq<PodView>) -> bool {
        &&& self.environments == distinct_contexts(targets)
        &&& self.cursors.len() == self.environments.len()
        &&& 0 <= self.position
        &&& self.position < self.environments.len() || self.position == 0
        &&& forall|e: int|
            0 <= e < self.environments.len() ==> 0 <= #[trigger] self.cursors[e]
                < filtered_indices(targets, self.environments[e]).len()
    }

    /// The state at startup: the first environment is shown and every
    /// cursor is on the first row.
    pub open spec fn initial(targets: Seq<PodView>) -> Navigation {
        Navigation {
            environments: distinct_contexts(targets),
            cursors: Seq::new(distinct_contexts(targets).len(), |e: int| 0int),
            position: 0,
        }
    }

    /// The name of the environment shown; the empty name when there is no
    /// environment at all.
    pub open spec fn environment(self) -> Seq<char> {
        if 0 <= self.position < self.environments.len() {
            self.environments[self.position]
        } else {
            Seq::empty()
        }
    }

    /// The filtered list of the environment shown.
    pub open spec fn visible(self, targets: Seq<PodView>) -> Seq<int> {
        filtered_indices(targets, self.environment())
    }

    /// The cursor of the environment shown.
    pub open spec fn cursor(self) -> int {
        if 0 <= self.position < self.cursors.len() {
            self.cursors[self.position]
        } else {
            0
        }
    }

    /// The index of the target under the cursor, if the filtered list has
    /// any row.
    pub open spec fn selected(self, targets: Seq<PodView>) -> Option<int> {
        if 0 <= self.cursor() < self.visible(targets).len() {
            Some(self.visible(targets)[self.cursor()])
        } else {
            None
        }
    }

    /// The state with the cursor of the environment shown set to `cursor`.
    pub open spec fn with_cursor(self, cursor: int) -> Navigation {
        if 0 <= self.position < self.cursors.len() {
            Navigation { cursors: self.cursors.update(self.position, cursor), ..self }
        } else {
            self
        }
    }

    /// Shows the next environment, the first one after the last.
    pub open spec fn next_environment(self) -> Navigation {
        if self.environments.len() == 0 {
            self
        } else {
            Navigation { position: (self.position + 1) % (self.environments.len() as int), ..self }
        }
    }

    /// Moves the cursor one row down, from the last row to the first.
    pub open spec fn cursor_down(self, targets: Seq<PodView>) -> Navigation {
        let rows = self.visible(targets).len() as int;
        if rows == 0 {
            self
        } else {
            self.with_cursor((self.cursor() + 1) % rows)
        }
    }

    /// Moves the cursor one row up, from the first row to the last.
    pub open spec fn cursor_up(self, targets: Seq<PodView>) -> Navigation {
        let rows = self.visible(targets).len() as int;
        if rows == 0 {
            self
        } else {
            self.with_cursor((self.cursor() + rows - 1) % rows)
        }
    }
}

/// Every entry of such a list is an index below `count` that `keep` holds
/// of, the entries increase, and no such index is missing.
pub proof fn lemma_indices_where(count: nat, keep: spec_fn(int) -> bool)
    ensures
        indices_where(count, keep).len() <= count,
        forall|k: int|
            0 <= k < indices_where(count, keep).len() ==> 0 <= #[trigger] indices_where(
                count,
                keep,
            )[k] < count && keep(indices_where(count, keep)[k]),
        forall|j: int, k: int|
            0 <= j < k < indices_where(count, keep).len() ==> indices_where(count, keep)[j]
                < indices_where(count, keep)[k],
        forall|i: int| 0 <= i < count && keep(i) ==> indices_where(count, keep).contains(i),
    decreases count,
{
    let all = indices_where(count, keep);
    if count > 0 {
        let earlier = indices_where((count - 1) as nat, keep);
        lemma_indices_where((count - 1) as nat, keep);
        assert forall|i: int| 0 <= i < count && keep(i) implies all.contains(i) by {
            if i < count - 1 {
                assert(earlier.contains(i));
                let k = choose|k: int| 0 <= k < earlier.len() && earlier[k] == i;
                assert(all[k] == i);
            } else {
                assert(all[all.len() - 1] == i);
            }
        }
    }
}

/// Every entry of a filtered list is the index of a target of that context,
/// the entries increase, and no such target is missing.
pub proof fn lemma_filtered_indices(targets: Seq<PodView>, context: Seq<char>)
    ensures
        filtered_indices(targets, context).len() <= targets.len(),
        forall|k: int|
            0 <= k < filtered_indices(targets, context).len() ==> 0 <= #[trigger] filtered_indices(
                targets,
                context,
            )[k] < targets.len() && targets[filtered_indices(targets, context)[k]].context
                == context,
        forall|j: int, k: int|
            0 <= j < k < filtered_indices(targets, context).len() ==> filtered_indices(
                targets,
                context,
            )[j] < filtered_indices(targets, context)[k],
        forall|i: int|
            0 <= i < targets.len() && targets[i].context == context ==> filtered_indices(
                targets,
                context,
            ).contains(i),
{
    lemma_indices_where(targets.len(), in_context(targets, context));
}

/// The environments are exactly the contexts that occur among the targets,
/// none of them twice.
pub proof fn lemma_distinct_contexts(targets: Seq<PodView>)
    ensures
        distinct_contexts(targets).no_duplicates(),
        distinct_contexts(targets).len() <= targets.len(),
        forall|i: int|
            0 <= i < targets.len() ==> distinct_contexts(targets).contains(
                #[trigger] targets[i].context,
            ),
        forall|e: int|
            0 <= e < distinct_contexts(targets).len() ==> exists|i: int|
                0 <= i < targets.len() && targets[i].context == #[trigger] distinct_contexts(
                    targets,
                )[e],
    decreases targets.len(),
{
    let all = distinct_contexts(targets);
    if targets.len() > 0 {
        let front = targets.drop_last();
        let earlier = distinct_contexts(front);
        lemma_distinct_contexts(front);
        assert forall|i: int| 0 <= i < targets.len() implies all.contains(
            #[trigger] targets[i].context,
        ) by {
            if i < front.len() {
                assert(earlier.contains(front[i].context));
                let e = choose|e: int| 0 <= e < earlier.len() && earlier[e] == front[i].context;
                assert(all[e] == targets[i].context);
            } else if !earlier.contains(targets.last().context) {
                assert(all[all.len() - 1] == targets[i].context);
            }
        }
        assert forall|e: int| 0 <= e < all.len() implies exists|i: int|
            0 <= i < targets.len() && targets[i].context == #[trigger] all[e] by {
            if e < earlier.len() {
                let i = choose|i: int| 0 <= i < front.len() && front[i].context == earlier[e];
                assert(targets[i].context == all[e]);
            } else {
                assert(targets[targets.len() - 1].context == all[e]);
            }
        }
    }
}

/// The filtered list of an environment of the targets has at least one row.
pub proof fn lemma_environment_has_rows(targets: Seq<PodView>, e: int)
    requires
        0 <= e < distinct_contexts(targets).len(),
    ensures
        filtered_indices(targets, distinct_contexts(targets)[e]).len() > 0,
{
    lemma_distinct_contexts(targets);
    let context = distinct_contexts(targets)[e];
    let i = choose|i: int| 0 <= i < targets.len() && targets[i].context == context;
    lemma_filtered_indices(targets, context);
    assert(filtered_indices(targets, context).contains(i));
}

/// The state at startup fits the targets.
pub proof fn lemma_initial_wf(targets: Seq<PodView>)
    ensures
        Navigation::initial(targets).wf(targets),
{
    let nav = Navigation::initial(targets);
    assert forall|e: int| 0 <= e < nav.environments.len() implies 0 <= #[trigger] nav.cursors[e]
        < filtered_indices(targets, nav.environments[e]).len() by {
        lemma_environment_has_rows(targets, e);
    }
}

} // verus!
