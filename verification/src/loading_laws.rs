//! What holds of every load of a model, whatever the operations give.
use vstd::prelude::*;

use crate::error::ErrorView;
use crate::eviction::{
    arranged, fits, lemma_total_size_of_arrangement, longest_fitting, oldest_first,
};
use crate::items::{files, first_failure, total_size, Item};
use crate::loading::{
    room_step, ActionView, EventView, LoadView, RequestView, StepView,
};

verus! {

/// Whether `states` are the states that a load of `request` goes through as `events` come, one
/// state before the first event and one behind each.
pub open spec fn is_run<P, E>(
    request: RequestView,
    states: Seq<LoadView<P, E>>,
    events: Seq<EventView<P, E>>,
) -> bool {
    &&& states.len() == events.len() + 1
    &&& states[0] == LoadView::<P, E>::begin(request)
    &&& forall|i: int|
        0 <= i < events.len() ==> {
            &&& states[i].admits(#[trigger] events[i])
            &&& states[i].leads_to(events[i], states[i + 1])
        }
}

/// Whether the model file was copied when `event` came.
pub open spec fn copies<P, E>(state: LoadView<P, E>, event: EventView<P, E>) -> bool {
    &&& state matches LoadView::Pending(_, StepView::Copy { .. })
    &&& event matches EventView::Copied(Ok(_))
}

/// Whether the lock was given when `event` came.
pub open spec fn takes_lock<P, E>(state: LoadView<P, E>, event: EventView<P, E>) -> bool {
    &&& state matches LoadView::Pending(_, StepView::Lock)
    &&& event matches EventView::Locked(Ok(_))
}

/// Whether the load has copied the model file before state `j`.
pub open spec fn copied_before<P, E>(
    states: Seq<LoadView<P, E>>,
    events: Seq<EventView<P, E>>,
    j: int,
) -> bool {
    exists|i: int| 0 <= i < j && #[trigger] copies(states[i], events[i])
}

/// Whether the load was given the lock before state `j` and has kept it since.
pub open spec fn locked_since<P, E>(
    states: Seq<LoadView<P, E>>,
    events: Seq<EventView<P, E>>,
    j: int,
) -> bool {
    exists|i: int|
        {
            &&& 0 <= i < j
            &&& #[trigger] takes_lock(states[i], events[i])
            &&& forall|k: int| i < k <= j ==> (#[trigger] states[k]).holds_lock()
        }
}

/// Whether `rest` is what remains of the files of some listing that the load was given before
/// state `j`: all of them where they all fit, and otherwise a part at the front of an arrangement
/// of them of which no longer part fits.
pub open spec fn remains_of_listing<P, E>(
    request: RequestView,
    states: Seq<LoadView<P, E>>,
    events: Seq<EventView<P, E>>,
    j: int,
    need: u64,
    rest: Seq<Item<P>>,
) -> bool {
    exists|i: int|
        {
            &&& 0 <= i < j
            &&& states[i] == LoadView::<P, E>::Pending(request, StepView::List { need })
            &&& #[trigger] events[i] matches EventView::Listed(Ok(listing))
            &&& remains(files(listing), rest, need as nat, request.memory_limit as nat)
        }
}

/// Whether `rest` is what remains of `items` while room is made for a file of `need` bytes.
pub open spec fn remains<P>(
    items: Seq<Item<P>>,
    rest: Seq<Item<P>>,
    need: nat,
    limit: nat,
) -> bool {
    ||| rest == items && fits(items, need, limit)
    ||| exists|order: Seq<Item<P>>|
        {
            &&& #[trigger] arranged(items, order)
            &&& rest.len() <= order.len()
            &&& rest == order.take(rest.len() as int)
            &&& forall|n: int|
                rest.len() < n <= order.len() ==> !fits(#[trigger] order.take(n), need, limit)
        }
}

/// What the states before `j` of a run tell of state `j`.
spec fn history<P, E>(
    request: RequestView,
    states: Seq<LoadView<P, E>>,
    events: Seq<EventView<P, E>>,
    j: int,
) -> bool {
    &&& states[j].wf()
    &&& states[j] matches LoadView::Pending(r, _) ==> r == request
    &&& states[j].holds_lock() ==> locked_since(states, events, j)
    &&& match states[j] {
        LoadView::Pending(_, StepView::Touch { update }) => update == copied_before(
            states,
            events,
            j,
        ),
        LoadView::Done(Ok(update)) => update == copied_before(states, events, j),
        LoadView::Done(Err(_)) => true,
        _ => !copied_before(states, events, j),
    }
    &&& match states[j] {
        LoadView::Pending(_, StepView::Remove { need, kept, victim, .. }) => remains_of_listing(
            request,
            states,
            events,
            j,
            need,
            kept.push(victim),
        ),
        LoadView::Pending(_, StepView::Copy { need, kept }) => remains_of_listing(
            request,
            states,
            events,
            j,
            need,
            kept,
        ),
        _ => true,
    }
}

/// The files that remain once room is made are counted rightly.
proof fn lemma_room_step_wf<P, E>(
    request: RequestView,
    rest: Seq<Item<P>>,
    left: u64,
    need: u64,
)
    requires
        left == total_size(rest),
        left + need <= u64::MAX,
        need <= request.memory_limit,
        left + need > request.memory_limit ==> oldest_first(rest),
    ensures
        LoadView::<P, E>::Pending(
            request,
            room_step(rest, left, need, request.memory_limit),
        ).wf(),
        left + need > request.memory_limit ==> rest.len() > 0 && rest.drop_last().push(rest.last())
            == rest,
{
    if left + need > request.memory_limit {
        assert(rest.len() > 0);
        assert(rest.drop_last().push(rest.last()) =~= rest);
    }
}

/// A step of a load leaves it well-formed.
proof fn lemma_step_wf<P, E>(state: LoadView<P, E>, event: EventView<P, E>, next: LoadView<P, E>)
    requires
        state.wf(),
        state.admits(event),
        state.leads_to(event, next),
    ensures
        next.wf(),
{
    match (state, event) {
        (
            LoadView::Pending(request, StepView::List { need }),
            EventView::Listed(Ok(listing)),
        ) => {
            let items = files(listing);
            if LoadView::<P, E>::listed(request, need, listing, next)
                && first_failure(listing) is None
                && !fits(items, need as nat, request.memory_limit as nat) {
                let size = total_size(items) as u64;
                let order = choose|order: Seq<Item<P>>| #[trigger]
                    arranged(items, order) && next == LoadView::<P, E>::Pending(
                        request,
                        room_step(order, size, need, request.memory_limit),
                    );
                lemma_total_size_of_arrangement(items, order);
                lemma_room_step_wf::<P, E>(request, order, size, need);
            }
        },
        (
            LoadView::Pending(request, StepView::Remove { need, kept, victim, left }),
            EventView::Removed(Ok(_)),
        ) => {
            assert(kept.push(victim).drop_last() =~= kept);
            assert(oldest_first(kept)) by {
                assert forall|i: int, j: int| 0 <= i <= j < kept.len() implies kept[i].access_time
                    <= kept[j].access_time by {
                    assert(kept.push(victim)[i] == kept[i]);
                    assert(kept.push(victim)[j] == kept[j]);
                }
            }
            lemma_room_step_wf::<P, E>(request, kept, (left - victim.file_size) as u64, need);
        },
        _ => {},
    }
}

/// Once one more file has left, what remains is still a part at the front of the arrangement.
proof fn lemma_remains_shrinks<P>(
    items: Seq<Item<P>>,
    kept: Seq<Item<P>>,
    victim: Item<P>,
    need: nat,
    limit: nat,
)
    requires
        remains(items, kept.push(victim), need, limit),
        !fits(kept.push(victim), need, limit),
    ensures
        remains(items, kept, need, limit),
{
    let rest = kept.push(victim);
    let order = choose|order: Seq<Item<P>>|
        {
            &&& #[trigger] arranged(items, order)
            &&& rest.len() <= order.len()
            &&& rest == order.take(rest.len() as int)
            &&& forall|n: int|
                rest.len() < n <= order.len() ==> !fits(#[trigger] order.take(n), need, limit)
        };
    assert(arranged(items, order));
    assert(kept =~= order.take(kept.len() as int)) by {
        assert forall|i: int| 0 <= i < kept.len() implies kept[i] == order[i] by {
            assert(rest[i] == order.take(rest.len() as int)[i]);
        }
    }
    assert forall|n: int| kept.len() < n <= order.len() implies !fits(
        #[trigger] order.take(n),
        need,
        limit,
    ) by {
        if n == rest.len() {
            assert(order.take(n) == rest);
        }
    }
}

/// Every state of a run has the history that it should have.
proof fn lemma_history<P, E>(
    request: RequestView,
    states: Seq<LoadView<P, E>>,
    events: Seq<EventView<P, E>>,
    j: int,
)
    requires
        is_run(request, states, events),
        0 <= j < states.len(),
    ensures
        history(request, states, events, j),
    decreases j,
{
    if j > 0 {
        let i = j - 1;
        lemma_history(request, states, events, i);
        let state = states[i];
        let event = events[i];
        let next = states[j];
        assert(state.leads_to(event, next));
        lemma_step_wf(state, event, next);
        assert(next.holds_lock() ==> locked_since(states, events, j)) by {
            if next.holds_lock() {
                if state.holds_lock() {
                    let k = choose|k: int|
                        {
                            &&& 0 <= k < i
                            &&& #[trigger] takes_lock(states[k], events[k])
                            &&& forall|m: int| k < m <= i ==> (#[trigger] states[m]).holds_lock()
                        };
                    assert(takes_lock(states[k], events[k]));
                } else {
                    assert(takes_lock(states[i], events[i]));
                }
            }
        }
        assert(copied_before(states, events, j) == (copied_before(states, events, i) || copies(
            state,
            event,
        ))) by {
            if copied_before(states, events, i) {
                let k = choose|k: int| 0 <= k < i && #[trigger] copies(states[k], events[k]);
                assert(copies(states[k], events[k]));
            }
        }
        lemma_remains_of_listing(request, states, events, j);
    }
}

/// What remains of the listing behind state `j - 1` follows from what remains before it.
proof fn lemma_remains_of_listing<P, E>(
    request: RequestView,
    states: Seq<LoadView<P, E>>,
    events: Seq<EventView<P, E>>,
    j: int,
)
    requires
        is_run(request, states, events),
        0 < j < states.len(),
        history(request, states, events, j - 1),
    ensures
        match states[j] {
            LoadView::Pending(_, StepView::Remove { need, kept, victim, .. }) => remains_of_listing(
                request,
                states,
                events,
                j,
                need,
                kept.push(victim),
            ),
            LoadView::Pending(_, StepView::Copy { need, kept }) => remains_of_listing(
                request,
                states,
                events,
                j,
                need,
                kept,
            ),
            _ => true,
        },
{
    let i = j - 1;
    let state = states[i];
    let event = events[i];
    let next = states[j];
    let limit = request.memory_limit;
    assert(state.leads_to(event, next));
    match (state, event) {
        (
            LoadView::Pending(_, StepView::List { need }),
            EventView::Listed(Ok(listing)),
        ) => {
            let items = files(listing);
            if first_failure(listing) is None {
                if fits(items, need as nat, limit as nat) {
                    assert(remains(items, items, need as nat, limit as nat));
                } else {
                    let size = total_size(items) as u64;
                    let order = choose|order: Seq<Item<P>>| #[trigger]
                        arranged(items, order) && next == LoadView::<P, E>::Pending(
                            request,
                            room_step(order, size, need, limit),
                        );
                    lemma_total_size_of_arrangement(items, order);
                    lemma_room_step_wf::<P, E>(request, order, size, need);
                    assert(order =~= order.take(order.len() as int));
                    assert(remains(items, order, need as nat, limit as nat));
                }
                assert(events[i] matches EventView::Listed(Ok(_)));
            }
        },
        (
            LoadView::Pending(_, StepView::Remove { need, kept, victim, left }),
            EventView::Removed(Ok(_)),
        ) => {
            let k = choose|k: int|
                {
                    &&& 0 <= k < i
                    &&& states[k] == LoadView::<P, E>::Pending(request, StepView::List { need })
                    &&& #[trigger] events[k] matches EventView::Listed(Ok(listing))
                    &&& remains(files(listing), kept.push(victim), need as nat, limit as nat)
                };
            let items = match events[k] {
                EventView::Listed(Ok(listing)) => files(listing),
                _ => arbitrary(),
            };
            assert(kept.push(victim).drop_last() =~= kept);
            lemma_remains_shrinks(items, kept, victim, need as nat, limit as nat);
            lemma_step_wf(state, event, next);
            if (left - victim.file_size) + need > limit {
                assert(left == total_size(kept) + victim.file_size);
                assert(need <= limit);
                assert(kept.len() > 0);
                assert(kept.drop_last().push(kept.last()) =~= kept);
            }
            assert(events[k] matches EventView::Listed(Ok(_)));
        },
        _ => {
            match next {
                LoadView::Pending(_, StepView::Remove { need, kept, victim, .. }) => {
                    lemma_still_remains(request, states, events, i, j, need, kept.push(victim));
                },
                LoadView::Pending(_, StepView::Copy { need, kept }) => {
                    lemma_still_remains(request, states, events, i, j, need, kept);
                },
                _ => {},
            }
        },
    }
}

/// What remains of a listing given before one state remains of a listing given before a later one.
proof fn lemma_still_remains<P, E>(
    request: RequestView,
    states: Seq<LoadView<P, E>>,
    events: Seq<EventView<P, E>>,
    i: int,
    j: int,
    need: u64,
    rest: Seq<Item<P>>,
)
    requires
        i <= j,
        remains_of_listing(request, states, events, i, need, rest),
    ensures
        remains_of_listing(request, states, events, j, need, rest),
{
    let k = choose|k: int|
        {
            &&& 0 <= k < i
            &&& states[k] == LoadView::<P, E>::Pending(request, StepView::List { need })
            &&& #[trigger] events[k] matches EventView::Listed(Ok(listing))
            &&& remains(files(listing), rest, need as nat, request.memory_limit as nat)
        };
    assert(events[k] matches EventView::Listed(Ok(_)));
}

/// How far a load has come.
pub open spec fn phase<P, E>(state: LoadView<P, E>) -> int {
    match state {
        LoadView::Pending(_, step) => match step {
            StepView::Probe => 0,
            StepView::Lock => 1,
            StepView::Reprobe => 2,
            StepView::Measure => 3,
            StepView::List { .. } => 4,
            StepView::Remove { .. } => 5,
            StepView::Copy { .. } => 6,
            StepView::Touch { .. } => 7,
        },
        LoadView::Done(_) => 8,
    }
}

/// Whether the load waits for an event of this kind.
pub open spec fn awaits<P, E>(state: LoadView<P, E>, event: EventView<P, E>) -> bool {
    match state {
        LoadView::Pending(_, step) => match step {
            StepView::Probe | StepView::Reprobe => event is Probed,
            StepView::Lock => event is Locked,
            StepView::Measure => event is Measured,
            StepView::List { .. } => event is Listed,
            StepView::Remove { .. } => event is Removed,
            StepView::Copy { .. } => event is Copied,
            StepView::Touch { .. } => event is Touched,
        },
        LoadView::Done(_) => false,
    }
}

/// No load goes back to an earlier phase.
proof fn lemma_phases_advance<P, E>(
    request: RequestView,
    states: Seq<LoadView<P, E>>,
    events: Seq<EventView<P, E>>,
    i: int,
    j: int,
)
    requires
        is_run(request, states, events),
        0 <= i <= j < states.len(),
    ensures
        phase(states[i]) <= phase(states[j]),
    decreases j - i,
{
    if i < j {
        lemma_phases_advance(request, states, events, i, j - 1);
        assert(states[j - 1].leads_to(events[j - 1], states[j]));
    }
}

/// A load that has ended stays as it ended.
proof fn lemma_end_stays<P, E>(
    request: RequestView,
    states: Seq<LoadView<P, E>>,
    events: Seq<EventView<P, E>>,
    i: int,
    j: int,
)
    requires
        is_run(request, states, events),
        0 <= i <= j < states.len(),
        states[i] is Done,
    ensures
        states[j] == states[i],
    decreases j - i,
{
    if i < j {
        lemma_end_stays(request, states, events, i, j - 1);
        assert(states[j - 1].leads_to(events[j - 1], states[j]));
    }
}

/// When the model file is copied, it and the files that were left in its directory take no more
/// room than the limit.
pub proof fn law_memory_limit_is_kept<P, E>(
    request: RequestView,
    states: Seq<LoadView<P, E>>,
    events: Seq<EventView<P, E>>,
    j: int,
    need: u64,
    kept: Seq<Item<P>>,
)
    requires
        is_run(request, states, events),
        0 <= j < states.len(),
        states[j] == LoadView::<P, E>::Pending(request, StepView::Copy { need, kept }),
    ensures
        total_size(kept) + need <= request.memory_limit,
{
    lemma_history(request, states, events, j);
}

/// How the room that the files of the model's directory take changes, from `before` to `after`,
/// as `event` comes. A file that is removed sets its room free, and the model file takes the room
/// that it was measured to need; where its copy fails, a part of it may be left.
pub open spec fn room_changes<P, E>(
    state: LoadView<P, E>,
    event: EventView<P, E>,
    before: nat,
    after: nat,
) -> bool {
    match (state, event) {
        (
            LoadView::Pending(_, StepView::Remove { victim, .. }),
            EventView::Removed(Ok(_)),
        ) => after + victim.file_size == before,
        (LoadView::Pending(_, StepView::Copy { need, .. }), EventView::Copied(result)) => {
            match result {
                Ok(_) => after == before + need,
                Err(_) => before <= after <= before + need,
            }
        },
        _ => after == before,
    }
}

/// Whether a listing that `event` brings tells the room that is taken in the model's directory.
pub open spec fn lists_room<P, E>(
    state: LoadView<P, E>,
    event: EventView<P, E>,
    room: nat,
) -> bool {
    match (state, event) {
        (
            LoadView::Pending(_, StepView::List { .. }),
            EventView::Listed(Ok(listing)),
        ) => first_failure(listing) is None ==> room == total_size(files(listing)),
        _ => true,
    }
}

/// Whether `rooms` is the room that the files of the model's directory take in each of `states`,
/// where nothing but the load changes the directory.
pub open spec fn is_account<P, E>(
    states: Seq<LoadView<P, E>>,
    events: Seq<EventView<P, E>>,
    rooms: Seq<nat>,
) -> bool {
    &&& rooms.len() == states.len()
    &&& forall|i: int|
        0 <= i < events.len() ==> {
            &&& lists_room(states[i], #[trigger] events[i], rooms[i])
            &&& room_changes(states[i], events[i], rooms[i], rooms[i + 1])
        }
}

/// What the states before `j` tell of the room that is taken in state `j`.
spec fn room_known<P, E>(
    request: RequestView,
    states: Seq<LoadView<P, E>>,
    events: Seq<EventView<P, E>>,
    rooms: Seq<nat>,
    j: int,
) -> bool {
    &&& rooms[j] <= rooms[0] || rooms[j] <= request.memory_limit
    &&& copied_before(states, events, j) ==> rooms[j] <= request.memory_limit
    &&& match states[j] {
        LoadView::Pending(_, StepView::Remove { left, .. }) => rooms[j] == left,
        LoadView::Pending(_, StepView::Copy { kept, .. }) => rooms[j] == total_size(kept),
        _ => true,
    }
}

/// The room that is taken in each state of a run.
proof fn lemma_room_known<P, E>(
    request: RequestView,
    states: Seq<LoadView<P, E>>,
    events: Seq<EventView<P, E>>,
    rooms: Seq<nat>,
    j: int,
)
    requires
        is_run(request, states, events),
        is_account(states, events, rooms),
        0 <= j < states.len(),
    ensures
        room_known(request, states, events, rooms, j),
    decreases j,
{
    if j > 0 {
        let i = j - 1;
        lemma_room_known(request, states, events, rooms, i);
        lemma_history(request, states, events, i);
        let state = states[i];
        let event = events[i];
        let next = states[j];
        assert(state.leads_to(event, next));
        assert(room_changes(state, event, rooms[i], rooms[j]));
        assert(copied_before(states, events, j) ==> copied_before(states, events, i) || copies(
            state,
            event,
        )) by {
            if copied_before(states, events, j) {
                let k = choose|k: int| 0 <= k < j && #[trigger] copies(states[k], events[k]);
                if k < i {
                    assert(copies(states[k], events[k]));
                }
            }
        }
        match (state, event) {
            (
                LoadView::Pending(_, StepView::List { need }),
                EventView::Listed(Ok(listing)),
            ) => {
                let items = files(listing);
                let limit = request.memory_limit;
                assert(lists_room(state, event, rooms[i]));
                if first_failure(listing) is None && !fits(items, need as nat, limit as nat) {
                    let size = total_size(items) as u64;
                    let order = choose|order: Seq<Item<P>>| #[trigger]
                        arranged(items, order) && next == LoadView::<P, E>::Pending(
                            request,
                            room_step(order, size, need, limit),
                        );
                    lemma_total_size_of_arrangement(items, order);
                }
            },
            (
                LoadView::Pending(_, StepView::Remove { kept, victim, .. }),
                EventView::Removed(Ok(_)),
            ) => {
                assert(kept.push(victim).drop_last() =~= kept);
            },
            _ => {},
        }
    }
}

/// Where nothing else changes the model's directory, its files never come to take more room than
/// the limit, whether the load succeeds or fails, unless they took more before; they then take no
/// more than they did. Once the model file is copied they are within the limit in either case.
pub proof fn law_room_stays_within_limit<P, E>(
    request: RequestView,
    states: Seq<LoadView<P, E>>,
    events: Seq<EventView<P, E>>,
    rooms: Seq<nat>,
    j: int,
)
    requires
        is_run(request, states, events),
        is_account(states, events, rooms),
        0 <= j < states.len(),
    ensures
        rooms[0] <= request.memory_limit ==> rooms[j] <= request.memory_limit,
        rooms[0] > request.memory_limit ==> rooms[j] <= rooms[0],
        copied_before(states, events, j) ==> rooms[j] <= request.memory_limit,
        states[j] == LoadView::<P, E>::Done(Ok(true)) ==> rooms[j] <= request.memory_limit,
{
    lemma_room_known(request, states, events, rooms, j);
    lemma_history(request, states, events, j);
}

/// When the model file is copied, the files left in its directory are all that were listed where
/// the model fits next to them. Otherwise they are, of the files arranged by access time, the
/// longest part at the front that the model fits next to: the most recently accessed files have
/// left, and no more of them than needed.
pub proof fn law_only_needed_files_leave<P, E>(
    request: RequestView,
    states: Seq<LoadView<P, E>>,
    events: Seq<EventView<P, E>>,
    j: int,
    need: u64,
    kept: Seq<Item<P>>,
)
    requires
        is_run(request, states, events),
        0 <= j < states.len(),
        states[j] == LoadView::<P, E>::Pending(request, StepView::Copy { need, kept }),
    ensures
        exists|i: int|
            {
                &&& 0 <= i < j
                &&& states[i] == LoadView::<P, E>::Pending(request, StepView::List { need })
                &&& #[trigger] events[i] matches EventView::Listed(Ok(listing))
                &&& left_by_need(
                    files(listing),
                    kept,
                    need as nat,
                    request.memory_limit as nat,
                )
            },
{
    lemma_history(request, states, events, j);
    let limit = request.memory_limit as nat;
    let i = choose|i: int|
        {
            &&& 0 <= i < j
            &&& states[i] == LoadView::<P, E>::Pending(request, StepView::List { need })
            &&& #[trigger] events[i] matches EventView::Listed(Ok(listing))
            &&& remains(files(listing), kept, need as nat, limit)
        };
    let items = match events[i] {
        EventView::Listed(Ok(listing)) => files(listing),
        _ => arbitrary(),
    };
    if !(kept == items && fits(items, need as nat, limit)) {
        let order = choose|order: Seq<Item<P>>|
            {
                &&& #[trigger] arranged(items, order)
                &&& kept.len() <= order.len()
                &&& kept == order.take(kept.len() as int)
                &&& forall|n: int|
                    kept.len() < n <= order.len() ==> !fits(
                        #[trigger] order.take(n),
                        need as nat,
                        limit,
                    )
            };
        assert(arranged(items, order));
        assert(longest_fitting(order, kept, need as nat, limit));
    }
    assert(left_by_need(items, kept, need as nat, limit));
    assert(events[i] matches EventView::Listed(Ok(_)));
}

/// Whether `kept` is what is left of `items` once those have left that had to.
pub open spec fn left_by_need<P>(
    items: Seq<Item<P>>,
    kept: Seq<Item<P>>,
    need: nat,
    limit: nat,
) -> bool {
    ||| kept == items && fits(items, need, limit)
    ||| exists|order: Seq<Item<P>>| #[trigger]
        arranged(items, order) && longest_fitting(order, kept, need, limit)
}

/// A file is removed only where the model would not fit next to the files that are still there,
/// and none of those was accessed later.
pub proof fn law_latest_file_leaves_first<P, E>(
    request: RequestView,
    states: Seq<LoadView<P, E>>,
    events: Seq<EventView<P, E>>,
    j: int,
    need: u64,
    kept: Seq<Item<P>>,
    victim: Item<P>,
    left: u64,
)
    requires
        is_run(request, states, events),
        0 <= j < states.len(),
        states[j] == LoadView::<P, E>::Pending(
            request,
            StepView::Remove { need, kept, victim, left },
        ),
    ensures
        total_size(kept) + victim.file_size + need > request.memory_limit,
        forall|k: int| 0 <= k < kept.len() ==> (#[trigger] kept[k]).access_time
            <= victim.access_time,
{
    lemma_history(request, states, events, j);
    assert(kept.push(victim).drop_last() =~= kept);
    assert forall|k: int| 0 <= k < kept.len() implies (#[trigger] kept[k]).access_time
        <= victim.access_time by {
        assert(kept.push(victim)[k] == kept[k]);
        assert(kept.push(victim)[kept.len() as int] == victim);
    }
}

/// Only files that were listed are removed.
pub proof fn law_removed_file_was_listed<P, E>(
    request: RequestView,
    states: Seq<LoadView<P, E>>,
    events: Seq<EventView<P, E>>,
    j: int,
    need: u64,
    kept: Seq<Item<P>>,
    victim: Item<P>,
    left: u64,
)
    requires
        is_run(request, states, events),
        0 <= j < states.len(),
        states[j] == LoadView::<P, E>::Pending(
            request,
            StepView::Remove { need, kept, victim, left },
        ),
    ensures
        exists|i: int|
            {
                &&& 0 <= i < j
                &&& #[trigger] events[i] matches EventView::Listed(Ok(listing))
                &&& files(listing).contains(victim)
            },
{
    lemma_history(request, states, events, j);
    let limit = request.memory_limit as nat;
    let rest = kept.push(victim);
    let i = choose|i: int|
        {
            &&& 0 <= i < j
            &&& states[i] == LoadView::<P, E>::Pending(request, StepView::List { need })
            &&& #[trigger] events[i] matches EventView::Listed(Ok(listing))
            &&& remains(files(listing), rest, need as nat, limit)
        };
    let items = match events[i] {
        EventView::Listed(Ok(listing)) => files(listing),
        _ => arbitrary(),
    };
    let order = choose|order: Seq<Item<P>>|
        {
            &&& #[trigger] arranged(items, order)
            &&& rest.len() <= order.len()
            &&& rest == order.take(rest.len() as int)
            &&& forall|n: int|
                rest.len() < n <= order.len() ==> !fits(
                    #[trigger] order.take(n),
                    need as nat,
                    limit,
                )
        };
    let last = kept.len() as int;
    assert(rest[last] == victim);
    assert(order[last] == order.take(rest.len() as int)[last]);
    assert(order.contains(victim));
    order.to_multiset_ensures();
    items.to_multiset_ensures();
    assert(order.to_multiset().count(victim) > 0);
    assert(items.contains(victim));
    assert(events[i] matches EventView::Listed(Ok(_)));
}

/// A load that succeeds tells whether it has copied the model file.
pub proof fn law_update_tells_of_a_copy<P, E>(
    request: RequestView,
    states: Seq<LoadView<P, E>>,
    events: Seq<EventView<P, E>>,
    j: int,
    update: bool,
)
    requires
        is_run(request, states, events),
        0 <= j < states.len(),
        states[j] == LoadView::<P, E>::Done(Ok(update)),
    ensures
        update == copied_before(states, events, j),
{
    lemma_history(request, states, events, j);
}

/// Files are removed from and copied into memory only while the load holds the lock, which it was
/// given before and has kept since.
pub proof fn law_directory_changes_under_lock<P, E>(
    request: RequestView,
    states: Seq<LoadView<P, E>>,
    events: Seq<EventView<P, E>>,
    j: int,
)
    requires
        is_run(request, states, events),
        0 <= j < states.len(),
        states[j].action() matches Some(action) && (action is Remove || action is Copy),
    ensures
        locked_since(states, events, j),
{
    lemma_history(request, states, events, j);
}

/// A model that is found in memory is neither copied nor does it cost another file its place:
/// what is left to do is to set its access time.
pub proof fn law_cached_model_stays<P, E>(
    request: RequestView,
    states: Seq<LoadView<P, E>>,
    events: Seq<EventView<P, E>>,
    i: int,
    j: int,
)
    requires
        is_run(request, states, events),
        0 <= i < events.len(),
        0 <= j < states.len(),
        states[i].action() matches Some(ActionView::Probe(_)),
        events[i] == EventView::<P, E>::Probed(true),
    ensures
        !(states[j].action() matches Some(action) && (action is Remove || action is Copy)),
        states[j] matches LoadView::Done(Ok(update)) ==> !update,
{
    assert(states[i].leads_to(events[i], states[i + 1]));
    if j <= i {
        lemma_phases_advance(request, states, events, j, i);
        assert(phase(states[j]) <= 2);
    } else {
        lemma_phases_advance(request, states, events, i + 1, j);
    }
    lemma_history(request, states, events, j);
    if copied_before(states, events, j) {
        let k = choose|k: int| 0 <= k < j && #[trigger] copies(states[k], events[k]);
        if k <= i {
            lemma_phases_advance(request, states, events, k, i);
        } else {
            lemma_phases_advance(request, states, events, i + 1, k);
        }
    }
}

/// A model that is larger than the limit is refused, and nothing in memory changes for it.
pub proof fn law_too_large_model_changes_nothing<P, E>(
    request: RequestView,
    states: Seq<LoadView<P, E>>,
    events: Seq<EventView<P, E>>,
    i: int,
    size: u64,
    j: int,
)
    requires
        is_run(request, states, events),
        0 <= i < events.len(),
        0 <= j < states.len(),
        states[i].action() matches Some(ActionView::Measure(_)),
        events[i] == EventView::<P, E>::Measured(Ok(size)),
        size > request.memory_limit,
    ensures
        j > i ==> states[j] == LoadView::<P, E>::Done(
            Err(ErrorView::Type(request.model_name + " size > memory limit"@)),
        ),
        !(states[j].action() matches Some(action) && (action is Remove || action is Copy
            || action is Touch)),
{
    lemma_history(request, states, events, i);
    assert(states[i].leads_to(events[i], states[i + 1]));
    if j <= i {
        lemma_phases_advance(request, states, events, j, i);
    } else {
        lemma_end_stays(request, states, events, i + 1, j);
    }
}

/// The failure of an operation that the load waits for ends the load, which reports that failure.
pub proof fn law_failure_ends_load<P, E>(
    state: LoadView<P, E>,
    event: EventView<P, E>,
    next: LoadView<P, E>,
)
    requires
        state.leads_to(event, next),
        awaits(state, event),
    ensures
        match event {
            EventView::Locked(Err(text)) => next == LoadView::<P, E>::Done(
                Err(ErrorView::Type(text)),
            ),
            EventView::Measured(Err(e)) => next == LoadView::<P, E>::Done(Err(ErrorView::Os(e))),
            EventView::Listed(Err(e)) => next == LoadView::<P, E>::Done(Err(ErrorView::Os(e))),
            EventView::Removed(Err(e)) => next == LoadView::<P, E>::Done(Err(ErrorView::Os(e))),
            EventView::Copied(Err(e)) => next == LoadView::<P, E>::Done(Err(ErrorView::Os(e))),
            EventView::Touched(Err(e)) => next == LoadView::<P, E>::Done(Err(ErrorView::Os(e))),
            _ => true,
        },
{
}

/// A load fails only where an operation has failed or the model is larger than the limit, and it
/// reports that failure.
pub proof fn law_load_fails_for_a_reason<P, E>(
    request: RequestView,
    step: StepView<P>,
    event: EventView<P, E>,
    e: ErrorView<E>,
)
    requires
        LoadView::<P, E>::Pending(request, step).leads_to(event, LoadView::Done(Err(e))),
    ensures
        match event {
            EventView::Probed(_) => false,
            EventView::Locked(result) => result matches Err(text) && e == ErrorView::<E>::Type(
                text,
            ),
            EventView::Measured(result) => match result {
                Ok(size) => size > request.memory_limit && e == ErrorView::<E>::Type(
                    request.model_name + " size > memory limit"@,
                ),
                Err(cause) => e == ErrorView::<E>::Os(cause),
            },
            EventView::Listed(result) => match result {
                Ok(listing) => first_failure(listing) matches Some(cause) && e
                    == ErrorView::<E>::Os(cause),
                Err(cause) => e == ErrorView::<E>::Os(cause),
            },
            EventView::Removed(result) => result matches Err(cause) && e == ErrorView::<E>::Os(
                cause,
            ),
            EventView::Copied(result) => result matches Err(cause) && e == ErrorView::<E>::Os(
                cause,
            ),
            EventView::Touched(result) => result matches Err(cause) && e == ErrorView::<E>::Os(
                cause,
            ),
        },
{
}

/// Every load ends: each event that it waits for brings it to a later phase, or takes one more
/// file off those that may still leave.
pub proof fn law_load_ends<P, E>(
    state: LoadView<P, E>,
    event: EventView<P, E>,
    next: LoadView<P, E>,
)
    requires
        state.wf(),
        state.admits(event),
        state.leads_to(event, next),
        awaits(state, event),
    ensures
        match (state, next) {
            (
                LoadView::Pending(_, StepView::Remove { kept: before, .. }),
                LoadView::Pending(_, StepView::Remove { kept: after, .. }),
            ) => after.len() < before.len(),
            _ => phase(state) < phase(next),
        },
{
    lemma_step_wf(state, event, next);
    match (state, event) {
        (
            LoadView::Pending(request, StepView::Remove { need, kept, victim, left }),
            EventView::Removed(Ok(_)),
        ) => {
            assert(kept.push(victim).drop_last() =~= kept);
            if kept.len() == 0 {
                assert(total_size(kept) == 0);
            }
        },
        _ => {},
    }
}

} // verus!
