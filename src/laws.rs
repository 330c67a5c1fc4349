use vstd::prelude::*;

use crate::changer::{
    duplicate_at, entries_of, faulty_at, first_fault, first_unresolved, name_in, registry_of, step,
    Action, CursorId,
};
use crate::config;

verus! {

/// Where some record is faulty, a first faulty record exists.
proof fn lemma_least_fault(
    existing: Seq<crate::changer::CursorEntry>,
    cursors: Seq<config::Cursor>,
    present: Seq<bool>,
    x: int,
)
    requires
        0 <= x < cursors.len(),
        faulty_at(existing, cursors, present, x),
    ensures
        exists|m: int|
            0 <= m <= x && faulty_at(existing, cursors, present, m) && forall|k: int|
                0 <= k < m ==> !#[trigger] faulty_at(existing, cursors, present, k),
    decreases x,
{
    if exists|k: int| 0 <= k < x && faulty_at(existing, cursors, present, k) {
        let k = choose|k: int| 0 <= k < x && faulty_at(existing, cursors, present, k);
        lemma_least_fault(existing, cursors, present, k);
    } else {
        assert(forall|k: int| 0 <= k < x ==> !#[trigger] faulty_at(existing, cursors, present, k));
    }
}

/// Cursor records in which a name repeats never give a registry. Where every
/// image file up to the repeat exists, the first record rejected is rejected
/// for its name, so building reports `DuplicateCursorName`.
pub proof fn lemma_repeated_name_rejected(
    cursors: Seq<config::Cursor>,
    present: Seq<bool>,
    applications: Seq<config::Application>,
    i: int,
    j: int,
)
    requires
        present.len() == cursors.len(),
        0 <= i < j < cursors.len(),
        cursors[i].name@ == cursors[j].name@,
    ensures
        registry_of(cursors, present, applications) is None,
        first_fault(Seq::empty(), cursors, present) is Some,
        (forall|k: int| 0 <= k < j ==> #[trigger] present[k]) ==> duplicate_at(
            Seq::empty(),
            cursors,
            first_fault(Seq::empty(), cursors, present)->Some_0,
        ),
{
    let e = Seq::<crate::changer::CursorEntry>::empty();
    assert(cursors[i].name@ == cursors[j].name@ && 0 <= i < j);
    assert(duplicate_at(e, cursors, j));
    assert(faulty_at(e, cursors, present, j));
    assert(exists|x: int| 0 <= x < cursors.len() && faulty_at(e, cursors, present, x));
    lemma_least_fault(e, cursors, present, j);
    let f = first_fault(e, cursors, present)->Some_0;
    assert(0 <= f < cursors.len() && faulty_at(e, cursors, present, f) && forall|k: int|
        0 <= k < f ==> !#[trigger] faulty_at(e, cursors, present, k));
    if f > j {
        assert(!faulty_at(e, cursors, present, j));
    }
    if forall|k: int| 0 <= k < j ==> #[trigger] present[k] {
        if f < j {
            assert(present[f]);
        }
    }
}

/// Application records that name a cursor no cursor record declares never
/// give a registry; where the cursor records themselves are accepted, an
/// application record is what is rejected (`MissingCursorNameError`).
pub proof fn lemma_unknown_cursor_rejected(
    cursors: Seq<config::Cursor>,
    present: Seq<bool>,
    applications: Seq<config::Application>,
    k: int,
)
    requires
        present.len() == cursors.len(),
        0 <= k < applications.len(),
        forall|i: int| 0 <= i < cursors.len() ==> #[trigger] cursors[i].name@ != applications[k].cursor@,
    ensures
        registry_of(cursors, present, applications) is None,
        first_fault(Seq::empty(), cursors, present) is None ==> first_unresolved(
            entries_of(0, cursors),
            applications,
        ) is Some,
{
    let entries = entries_of(0, cursors);
    if name_in(entries, applications[k].cursor@) {
        let m = choose|m: int| 0 <= m < entries.len() && entries[m].name == applications[k].cursor@;
        assert(cursors[m].name@ == applications[k].cursor@);
    }
    assert(!name_in(entries, applications[k].cursor@));
}

/// A cursor record whose image file is absent never gives a registry,
/// wherever it stands in the list.
pub proof fn lemma_missing_file_rejected(
    cursors: Seq<config::Cursor>,
    present: Seq<bool>,
    applications: Seq<config::Application>,
    i: int,
)
    requires
        present.len() == cursors.len(),
        0 <= i < cursors.len(),
        !present[i],
    ensures
        registry_of(cursors, present, applications) is None,
{
    assert(faulty_at(Seq::empty(), cursors, present, i));
}

/// A second tick that observes what the first observed asks nothing of the
/// platform and leaves the state as the first left it.
pub proof fn lemma_tick_idempotent(active: Option<CursorId>, seen: Option<Option<CursorId>>)
    ensures
        step(step(active, seen).0, seen) == (step(active, seen).0, Action::Keep),
{
}

/// The transition table of the activation state machine, row by row: from the
/// cursor shown `cur` and what a tick saw, the action and the next state.
pub open spec fn transition_table(
    cur: Option<CursorId>,
    seen: Option<Option<CursorId>>,
    action: Action,
    next: Option<CursorId>,
) -> bool {
    // No process under the pointer: nothing changes.
    ||| seen is None && action == Action::Keep && next == cur
    // The cursor asked for is the one shown.
    ||| cur is Some && seen == Some(cur) && action == Action::Keep && next == cur
    // Another cursor is asked for than the one shown.
    ||| cur is Some && (seen matches Some(Some(c)) && Some(c) != cur && action == Action::Activate(c)
        && next == Some(c))
    // A cursor is asked for while the default is shown.
    ||| cur is None && (seen matches Some(Some(c)) && action == Action::Activate(c) && next == Some(c))
    // No application matches while a custom cursor is shown.
    ||| cur is Some && seen == Some(None::<CursorId>) && action == Action::RestoreDefault && next
        is None
    // No application matches while the default is shown.
    ||| cur is None && seen == Some(None::<CursorId>) && action == Action::Keep && next is None
}

/// The table covers every state and observation, and allows exactly one
/// outcome for each: the one that a tick gives.
pub proof fn lemma_transition_table_complete(cur: Option<CursorId>, seen: Option<Option<CursorId>>)
    ensures
        transition_table(cur, seen, step(cur, seen).1, step(cur, seen).0),
        forall|action: Action, next: Option<CursorId>|
            transition_table(cur, seen, action, next) ==> (next, action) == step(cur, seen),
{
}

/// The states and actions of successive ticks from `active`, one per observation.
pub open spec fn run(active: Option<CursorId>, seen: Seq<Option<Option<CursorId>>>) -> Seq<
    (Option<CursorId>, Action),
>
    decreases seen.len(),
{
    if seen.len() == 0 {
        Seq::empty()
    } else {
        let earlier = run(active, seen.drop_last());
        let cur = if earlier.len() == 0 {
            active
        } else {
            earlier.last().0
        };
        earlier.push(step(cur, seen.last()))
    }
}

/// The state before the tick at `i` of a run.
pub open spec fn state_before(
    active: Option<CursorId>,
    outcomes: Seq<(Option<CursorId>, Action)>,
    i: int,
) -> Option<CursorId> {
    if i == 0 {
        active
    } else {
        outcomes[i - 1].0
    }
}

/// Over any sequence of observations, each tick of a run follows a row of the
/// transition table.
pub proof fn lemma_run_follows_table(active: Option<CursorId>, seen: Seq<Option<Option<CursorId>>>)
    ensures
        run(active, seen).len() == seen.len(),
        forall|i: int|
            0 <= i < seen.len() ==> transition_table(
                state_before(active, run(active, seen), i),
                seen[i],
                #[trigger] run(active, seen)[i].1,
                run(active, seen)[i].0,
            ),
    decreases seen.len(),
{
    if seen.len() > 0 {
        let rest = seen.drop_last();
        lemma_run_follows_table(active, rest);
        let earlier = run(active, rest);
        let outcomes = run(active, seen);
        assert forall|i: int| 0 <= i < seen.len() implies transition_table(
            state_before(active, outcomes, i),
            seen[i],
            #[trigger] outcomes[i].1,
            outcomes[i].0,
        ) by {
            if i < rest.len() {
                assert(outcomes[i] == earlier[i]);
                assert(seen[i] == rest[i]);
                if i > 0 {
                    assert(outcomes[i - 1] == earlier[i - 1]);
                }
            } else {
                lemma_transition_table_complete(state_before(active, outcomes, i), seen[i]);
                if i > 0 {
                    assert(outcomes[i - 1] == earlier[i - 1]);
                }
            }
        }
    }
}

} // verus!
