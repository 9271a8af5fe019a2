//! The course of a load: which operation follows which, and on which places.
use vstd::prelude::*;

use crate::error::ErrorView;
use crate::eviction::{arranged, lemma_total_size_of_arrangement};
use crate::items::{
    files, first_failure, law_first_failure_is_reported, law_listing_without_failure, total_size,
    Entry, Item,
};
use crate::loading::{room_step, ActionView, EventView, LoadView, RequestView, StepView};
use crate::loading_laws::{awaits, is_run};
use crate::location::LocationView;

verus! {

/// Whether `event` is an outcome of `action`.
pub open spec fn is_outcome<P, E>(action: ActionView<P>, event: EventView<P, E>) -> bool {
    match action {
        ActionView::Probe(_) => event is Probed,
        ActionView::Lock(_) => event is Locked,
        ActionView::Measure(_) => event is Measured,
        ActionView::List(_) => event is Listed,
        ActionView::Remove(_) => event is Removed,
        ActionView::Copy(_, _) => event is Copied,
        ActionView::Touch(_) => event is Touched,
    }
}

/// Whether each of `events` is an outcome of the operation that the load waits for at its turn.
pub open spec fn are_outcomes<P, E>(
    states: Seq<LoadView<P, E>>,
    events: Seq<EventView<P, E>>,
) -> bool {
    forall|i: int|
        0 <= i < events.len() ==> (states[i].action() matches Some(action) && is_outcome(
            action,
            #[trigger] events[i],
        ))
}

/// Whether the model file was copied before state `j`: an operation that copies was asked for, and
/// has succeeded.
pub open spec fn copy_was_done<P, E>(
    states: Seq<LoadView<P, E>>,
    events: Seq<EventView<P, E>>,
    j: int,
) -> bool {
    exists|i: int|
        {
            &&& 0 <= i < j
            &&& states[i].action() matches Some(ActionView::Copy(_, _))
            &&& #[trigger] events[i] matches EventView::Copied(Ok(_))
        }
}

/// The place of each step in the course of a load.
spec fn in_course<P, E>(
    request: RequestView,
    states: Seq<LoadView<P, E>>,
    events: Seq<EventView<P, E>>,
    j: int,
) -> bool {
    match states[j] {
        LoadView::Pending(r, step) => {
            &&& r == request
            &&& match step {
                StepView::Probe => j == 0,
                StepView::Lock => j == 1,
                StepView::Reprobe => j == 2,
                StepView::Measure => j == 3,
                StepView::List { need } => j == 4 && events[3] == EventView::<P, E>::Measured(
                    Ok(need),
                ) && need <= request.memory_limit,
                StepView::Remove { .. } => j >= 5,
                StepView::Copy { .. } => j >= 5,
                StepView::Touch { update } => j >= 1 && update == copy_was_done(states, events, j),
            }
            &&& !(step is Touch) ==> !copy_was_done(states, events, j)
            &&& !(step is Touch) && j >= 2 ==> (events[1] matches EventView::Locked(Ok(_)))
        },
        LoadView::Done(result) => result matches Ok(update) ==> update == copy_was_done(
            states,
            events,
            j,
        ),
    }
}

/// Every step comes in its place.
proof fn lemma_in_course<P, E>(
    request: RequestView,
    states: Seq<LoadView<P, E>>,
    events: Seq<EventView<P, E>>,
    j: int,
)
    requires
        is_run(request, states, events),
        are_outcomes(states, events),
        0 <= j < states.len(),
    ensures
        in_course(request, states, events, j),
    decreases j,
{
    if j > 0 {
        let i = j - 1;
        lemma_in_course(request, states, events, i);
        let event = events[i];
        assert(states[i].leads_to(event, states[j]));
        assert(copy_was_done(states, events, j) == (copy_was_done(states, events, i) || (
        states[i].action() matches Some(ActionView::Copy(_, _)) && event matches EventView::Copied(
            Ok(_),
        )))) by {
            if copy_was_done(states, events, i) {
                let k = choose|k: int|
                    {
                        &&& 0 <= k < i
                        &&& states[k].action() matches Some(ActionView::Copy(_, _))
                        &&& #[trigger] events[k] matches EventView::Copied(Ok(_))
                    };
                assert(events[k] matches EventView::Copied(Ok(_)));
            }
        }
        if i == 1 {
            assert(events[1] == event);
        }
    }
}

/// What a load does at its turn, and what it does next when the outcome comes. It looks for the
/// model file in memory. Where the file is there, its access time is set. Otherwise the lock of the
/// memory directory is taken and the file is looked for once more; where it is still missing, the
/// file on disk is measured, the directory in memory that the file belongs into is listed, the file
/// is copied from disk into that directory, and its access time is set. The load then tells whether
/// it has copied the file.
pub proof fn law_load_takes_its_course<P, E>(
    request: RequestView,
    states: Seq<LoadView<P, E>>,
    events: Seq<EventView<P, E>>,
    j: int,
)
    requires
        is_run(request, states, events),
        are_outcomes(states, events),
        0 <= j < events.len(),
    ensures
        ({
            let file = LocationView {
                base: request.memory_disk_path,
                parts: seq![request.model_parent_path, request.model_name],
            };
            let source = LocationView {
                base: request.disk_path,
                parts: seq![request.model_parent_path, request.model_name],
            };
            let directory = LocationView {
                base: request.memory_disk_path,
                parts: seq![request.model_parent_path],
            };
            let lock = LocationView {
                base: request.memory_disk_path,
                parts: seq!["fooocus_lock"@],
            };
            let asked = states[j].action().unwrap();
            let next = states[j + 1];
            match events[j] {
                EventView::Probed(found) => {
                    &&& asked == ActionView::<P>::Probe(file)
                    &&& j == 0 || j == 2
                    &&& next.action() == if found {
                        Some(ActionView::<P>::Touch(file))
                    } else if j == 0 {
                        Some(ActionView::Lock(lock))
                    } else {
                        Some(ActionView::Measure(source))
                    }
                },
                EventView::Locked(result) => {
                    &&& asked == ActionView::<P>::Lock(lock)
                    &&& j == 1
                    &&& result is Ok ==> next.action() == Some(ActionView::<P>::Probe(file))
                },
                EventView::Measured(result) => {
                    &&& asked == ActionView::<P>::Measure(source)
                    &&& j == 3
                    &&& result matches Ok(size) ==> if size <= request.memory_limit {
                        next.action() == Some(ActionView::<P>::List(directory))
                    } else {
                        next == LoadView::<P, E>::Done(
                            Err(ErrorView::Type(request.model_name + " size > memory limit"@)),
                        )
                    }
                },
                EventView::Listed(_) => {
                    &&& asked == ActionView::<P>::List(directory)
                    &&& j == 4
                },
                EventView::Removed(_) => {
                    &&& asked is Remove
                    &&& j >= 5
                },
                EventView::Copied(result) => {
                    &&& asked == ActionView::<P>::Copy(source, file)
                    &&& j >= 5
                    &&& result is Ok ==> next.action() == Some(ActionView::<P>::Touch(file))
                },
                EventView::Touched(result) => {
                    &&& asked == ActionView::<P>::Touch(file)
                    &&& result is Ok ==> next == LoadView::<P, E>::Done(
                        Ok(copy_was_done(states, events, j)),
                    )
                },
            }
        }),
{
    lemma_in_course(request, states, events, j);
    assert(states[j].leads_to(events[j], states[j + 1]));
}

/// The directory that a load lists is the one that holds the file which it looks for, copies to and
/// sets the access time of: the directory of the request below the memory of the request. And the
/// file that it measures is the one that it copies from, under the same name on disk.
pub proof fn law_listed_directory_is_that_of_the_file<P, E>(
    request: RequestView,
    states: Seq<LoadView<P, E>>,
    events: Seq<EventView<P, E>>,
    i: int,
    j: int,
)
    requires
        is_run(request, states, events),
        0 <= i < states.len(),
        0 <= j < states.len(),
    ensures
        states[i].action() matches Some(ActionView::List(directory)) ==> {
            &&& directory.base == request.memory_disk_path
            &&& directory.parts == seq![request.model_parent_path]
            &&& match states[j].action() {
                Some(ActionView::Probe(file)) | Some(ActionView::Touch(file)) => file.base
                    == directory.base && file.parts == directory.parts.push(request.model_name),
                Some(ActionView::Copy(_, file)) => file.base == directory.base && file.parts
                    == directory.parts.push(request.model_name),
                _ => true,
            }
        },
        states[i].action() matches Some(ActionView::Copy(source, file)) ==> {
            &&& source.base == request.disk_path
            &&& file.base == request.memory_disk_path
            &&& source.parts == file.parts
            &&& file.parts == seq![request.model_parent_path, request.model_name]
            &&& match states[j].action() {
                Some(ActionView::Probe(place)) | Some(ActionView::Touch(place)) => place == file,
                Some(ActionView::Measure(place)) => place == source,
                Some(ActionView::List(place)) => place.base == file.base && place.parts
                    == file.parts.drop_last(),
                Some(ActionView::Lock(place)) => place.base == file.base && place.parts
                    == seq!["fooocus_lock"@],
                _ => true,
            }
        },
{
    lemma_same_request(request, states, events, i);
    lemma_same_request(request, states, events, j);
    let parent = request.model_parent_path;
    let name = request.model_name;
    assert(seq![parent].push(name) =~= seq![parent, name]);
    assert(seq![parent, name].drop_last() =~= seq![parent]);
}

/// A load stays with its request.
proof fn lemma_same_request<P, E>(
    request: RequestView,
    states: Seq<LoadView<P, E>>,
    events: Seq<EventView<P, E>>,
    j: int,
)
    requires
        is_run(request, states, events),
        0 <= j < states.len(),
    ensures
        states[j] matches LoadView::Pending(r, _) ==> r == request,
    decreases j,
{
    if j > 0 {
        lemma_same_request(request, states, events, j - 1);
        assert(states[j - 1].leads_to(events[j - 1], states[j]));
    }
}

/// Whether each of the first `m` outcomes behind the listing is that of a file which was removed.
pub open spec fn were_removed<P, E>(events: Seq<EventView<P, E>>, m: int) -> bool {
    &&& 0 <= m <= events.len() - 5
    &&& forall|k: int| 5 <= k < 5 + m ==> (#[trigger] events[k] matches EventView::Removed(Ok(_)))
}

/// Whether, of the files in `order`, one after the other is removed from the end until those that
/// are left and the model of `size` bytes are within the limit, and the model file is then copied.
pub open spec fn room_is_made<P, E>(
    request: RequestView,
    states: Seq<LoadView<P, E>>,
    events: Seq<EventView<P, E>>,
    size: u64,
    order: Seq<Item<P>>,
) -> bool {
    forall|m: int|
        #[trigger] were_removed(events, m) ==> {
            let left = order.take(order.len() - m);
            &&& m <= order.len()
            &&& states[5 + m].action() == if total_size(left) + size > request.memory_limit {
                Some(ActionView::Remove(left.last().model_path))
            } else {
                Some(
                    ActionView::Copy(
                        LocationView {
                            base: request.disk_path,
                            parts: seq![request.model_parent_path, request.model_name],
                        },
                        LocationView {
                            base: request.memory_disk_path,
                            parts: seq![request.model_parent_path, request.model_name],
                        },
                    ),
                )
            }
        }
}

/// How room is made for a model of `size` bytes next to the files that were listed. Where the model
/// fits next to all of them, it is copied at once. Otherwise the files leave one by one, those
/// first that were accessed last, until it fits, and then it is copied.
pub proof fn law_room_is_made_for_the_model<P, E>(
    request: RequestView,
    states: Seq<LoadView<P, E>>,
    events: Seq<EventView<P, E>>,
    size: u64,
    listing: Seq<Result<Entry<P>, E>>,
)
    requires
        is_run(request, states, events),
        are_outcomes(states, events),
        events.len() >= 5,
        events[3] == EventView::<P, E>::Measured(Ok(size)),
        events[4] == EventView::<P, E>::Listed(Ok(listing)),
        forall|i: int| 0 <= i < listing.len() ==> #[trigger] listing[i] is Ok,
    ensures
        size <= request.memory_limit,
        if total_size(files(listing)) + size <= request.memory_limit {
            states[5].action() matches Some(ActionView::Copy(_, _))
        } else {
            exists|order: Seq<Item<P>>|
                {
                    &&& order.to_multiset() == files(listing).to_multiset()
                    &&& forall|i: int, k: int|
                        0 <= i <= k < order.len() ==> order[i].access_time <= order[k].access_time
                    &&& #[trigger] room_is_made(request, states, events, size, order)
                }
        },
{
    lemma_in_course(request, states, events, 4);
    lemma_in_course(request, states, events, 3);
    law_listing_without_failure(listing);
    let limit = request.memory_limit;
    let items = files(listing);
    assert(states[3].leads_to(events[3], states[4]));
    assert(states[4].leads_to(events[4], states[5]));
    assert(states[4].action() matches Some(action) && is_outcome(action, events[4]));
    assert(states[4] == LoadView::<P, E>::Pending(request, StepView::List { need: size }));
    assert(states[4].admits(events[4]));
    if total_size(items) + size > limit {
        let order = choose|order: Seq<Item<P>>| #[trigger]
            arranged(items, order) && states[5] == LoadView::<P, E>::Pending(
                request,
                room_step(order, total_size(items) as u64, size, limit),
            );
        lemma_total_size_of_arrangement(items, order);
        assert forall|m: int| #[trigger] were_removed(events, m) implies {
            let left = order.take(order.len() - m);
            &&& m <= order.len()
            &&& states[5 + m].action() == if total_size(left) + size > limit {
                Some(ActionView::Remove(left.last().model_path))
            } else {
                Some(
                    ActionView::Copy(
                        LocationView {
                            base: request.disk_path,
                            parts: seq![request.model_parent_path, request.model_name],
                        },
                        LocationView {
                            base: request.memory_disk_path,
                            parts: seq![request.model_parent_path, request.model_name],
                        },
                    ),
                )
            }
        } by {
            lemma_room_after(request, states, events, size, order, m);
        }
        assert(room_is_made(request, states, events, size, order));
    }
}

/// The step of a load once `m` files of `order` have left.
proof fn lemma_room_after<P, E>(
    request: RequestView,
    states: Seq<LoadView<P, E>>,
    events: Seq<EventView<P, E>>,
    size: u64,
    order: Seq<Item<P>>,
    m: int,
)
    requires
        is_run(request, states, events),
        are_outcomes(states, events),
        were_removed(events, m),
        size <= request.memory_limit,
        total_size(order) + size <= u64::MAX,
        states[5] == LoadView::<P, E>::Pending(
            request,
            room_step(order, total_size(order) as u64, size, request.memory_limit),
        ),
    ensures
        m <= order.len(),
        total_size(order.take(order.len() - m)) <= total_size(order),
        states[5 + m] == LoadView::<P, E>::Pending(
            request,
            room_step(
                order.take(order.len() - m),
                total_size(order.take(order.len() - m)) as u64,
                size,
                request.memory_limit,
            ),
        ),
    decreases m,
{
    if m == 0 {
        assert(order.take(order.len() as int) =~= order);
    } else {
        let i = 5 + m - 1;
        assert(were_removed(events, m - 1));
        lemma_room_after(request, states, events, size, order, m - 1);
        let left = order.take(order.len() - (m - 1));
        assert(events[i] matches EventView::Removed(Ok(_)));
        assert(states[i].action() matches Some(action) && is_outcome(action, events[i]));
        assert(states[i].leads_to(events[i], states[i + 1]));
        assert(total_size(left) + size > request.memory_limit);
        assert(left.len() > 0);
        assert(left.drop_last() =~= order.take(order.len() - m));
    }
}

/// A load holds the lock from when it was given until the access time of the file is to be set or
/// the load has ended, and at no other time.
pub proof fn law_lock_is_held_while_the_directory_is_worked_on<P, E>(
    request: RequestView,
    states: Seq<LoadView<P, E>>,
    events: Seq<EventView<P, E>>,
    j: int,
)
    requires
        is_run(request, states, events),
        are_outcomes(states, events),
        0 <= j < states.len(),
    ensures
        states[j].holds_lock() <==> {
            &&& j >= 2
            &&& events[1] matches EventView::Locked(Ok(_))
            &&& states[j].action() matches Some(action) && !(action is Touch)
        },
{
    lemma_in_course(request, states, events, j);
}

/// A load waits for the outcomes of the operation that it asks for. Any other outcome changes
/// nothing.
pub proof fn law_load_takes_what_it_asked_for<P, E>(
    state: LoadView<P, E>,
    event: EventView<P, E>,
    next: LoadView<P, E>,
)
    requires
        state.leads_to(event, next),
    ensures
        awaits(state, event) <==> (state.action() matches Some(action) && is_outcome(
            action,
            event,
        )),
        state.action() is None <==> state is Done,
        !(state.action() matches Some(action) && is_outcome(action, event)) ==> next == state,
{
}

/// Where an entry of the listed directory could not be read, the load ends with the failure of the
/// first such entry.
pub proof fn law_unreadable_entry_ends_load<P, E>(
    state: LoadView<P, E>,
    listing: Seq<Result<Entry<P>, E>>,
    i: int,
    e: E,
    next: LoadView<P, E>,
)
    requires
        state.action() matches Some(ActionView::List(_)),
        0 <= i < listing.len(),
        listing[i] == Err::<Entry<P>, E>(e),
        forall|k: int| 0 <= k < i ==> #[trigger] listing[k] is Ok,
        state.leads_to(EventView::Listed(Ok(listing)), next),
    ensures
        next == LoadView::<P, E>::Done(Err(ErrorView::Os(e))),
{
    law_first_failure_is_reported(listing, e);
    assert(first_failure(listing) == Some(e));
}

/// A load admits every outcome but a listing whose sizes cannot be added up: those of the files
/// and, where every entry could be read, that of the measured model with them.
pub proof fn law_what_a_load_admits<P, E>(
    request: RequestView,
    states: Seq<LoadView<P, E>>,
    events: Seq<EventView<P, E>>,
    event: EventView<P, E>,
)
    requires
        is_run(request, states, events),
        are_outcomes(states, events),
    ensures
        ({
            let state = states[events.len() as int];
            state.admits(event) <==> match (state.action(), event) {
                (Some(ActionView::List(_)), EventView::Listed(Ok(listing))) => {
                    &&& events.len() == 4
                    &&& total_size(files(listing)) <= u64::MAX
                    &&& {
                        ||| exists|i: int| 0 <= i < listing.len() && #[trigger] listing[i] is Err
                        ||| events[3] matches EventView::Measured(Ok(size)) && total_size(
                            files(listing),
                        ) + size <= u64::MAX
                    }
                },
                _ => true,
            }
        }),
{
    lemma_in_course(request, states, events, events.len() as int);
    if let EventView::Listed(Ok(listing)) = event {
        law_listing_without_failure(listing);
    }
}

} // verus!
