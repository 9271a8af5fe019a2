//! Bringing one model file into the memory directory, and making room for it there.
use vstd::prelude::*;

use crate::error::{outcome, reported, ErrorView, PluginError};
use crate::eviction::{
    arranged, fits, lemma_total_size_of_arrangement, oldest_first, sort_by_access_time,
};
use crate::items::{
    files, first_failure, has_failure, listed_size, search_models, search_result, total_size,
    Entry, Item,
};
use crate::location::{Location, LocationView};

verus! {

/// The name of the lock that all processes share which change the memory directory.
pub open spec fn lock_name() -> Seq<char> {
    "fooocus_lock"@
}

/// Which model to bring from where to where.
#[derive(Debug)]
pub struct LoadRequest {
    /// The directory that holds all models.
    pub disk_path: String,
    /// The directory that models are brought into.
    pub memory_disk_path: String,
    /// The directory of the model below either of them.
    pub model_parent_path: String,
    pub model_name: String,
    /// The room, in bytes, that the model's directory in memory may take.
    pub memory_limit: u64,
}

/// What a [`LoadRequest`] says.
pub struct RequestView {
    pub disk_path: Seq<char>,
    pub memory_disk_path: Seq<char>,
    pub model_parent_path: Seq<char>,
    pub model_name: Seq<char>,
    pub memory_limit: u64,
}

impl View for LoadRequest {
    type V = RequestView;

    open spec fn view(&self) -> RequestView {
        RequestView {
            disk_path: self.disk_path@,
            memory_disk_path: self.memory_disk_path@,
            model_parent_path: self.model_parent_path@,
            model_name: self.model_name@,
            memory_limit: self.memory_limit,
        }
    }
}

impl RequestView {
    /// The model file on disk.
    pub open spec fn disk_file(self) -> LocationView {
        LocationView { base: self.disk_path, parts: seq![self.model_parent_path, self.model_name] }
    }

    /// The model's directory in memory.
    pub open spec fn memory_directory(self) -> LocationView {
        LocationView { base: self.memory_disk_path, parts: seq![self.model_parent_path] }
    }

    /// The model file in memory.
    pub open spec fn memory_file(self) -> LocationView {
        LocationView {
            base: self.memory_disk_path,
            parts: seq![self.model_parent_path, self.model_name],
        }
    }
}

/// The place of the lock of a memory directory.
pub open spec fn lock_place(memory_disk_path: Seq<char>) -> LocationView {
    LocationView { base: memory_disk_path, parts: seq![lock_name()] }
}

/// The place of the lock of a memory directory.
pub fn lock_location(memory_disk_path: &str) -> (place: Location)
    ensures
        place@ == lock_place(memory_disk_path@),
        place@ == (LocationView { base: memory_disk_path@, parts: seq!["fooocus_lock"@] }),
{
    let place = Location::root(memory_disk_path).join("fooocus_lock");
    assert(place@.parts =~= seq![lock_name()]);
    place
}

impl LoadRequest {
    /// The model file on disk.
    pub fn disk_file(&self) -> (place: Location)
        ensures
            place@ == self@.disk_file(),
            place@ == (LocationView {
                base: self.disk_path@,
                parts: seq![self.model_parent_path@, self.model_name@],
            }),
    {
        let place = Location::root(self.disk_path.as_str()).join(
            self.model_parent_path.as_str(),
        ).join(self.model_name.as_str());
        assert(place@.parts =~= self@.disk_file().parts);
        place
    }

    /// The model's directory in memory.
    pub fn memory_directory(&self) -> (place: Location)
        ensures
            place@ == self@.memory_directory(),
            place@ == (LocationView {
                base: self.memory_disk_path@,
                parts: seq![self.model_parent_path@],
            }),
    {
        let place = Location::root(self.memory_disk_path.as_str()).join(
            self.model_parent_path.as_str(),
        );
        assert(place@.parts =~= self@.memory_directory().parts);
        place
    }

    /// The model file in memory.
    pub fn memory_file(&self) -> (place: Location)
        ensures
            place@ == self@.memory_file(),
            place@ == (LocationView {
                base: self.memory_disk_path@,
                parts: seq![self.model_parent_path@, self.model_name@],
            }),
    {
        let place = self.memory_directory().join(self.model_name.as_str());
        assert(place@.parts =~= self@.memory_file().parts);
        place
    }
}

/// What a load waits for.
#[derive(Debug)]
pub enum LoadStep<P> {
    /// Whether the model file is in memory.
    Probe,
    /// The lock of the memory directory.
    Lock,
    /// Whether the model file is in memory, now that no other process changes the directory.
    Reprobe,
    /// The size of the model file on disk.
    Measure,
    /// The listing of the model's directory in memory.
    List { need: u64 },
    /// The removal of `victim` from memory. The files in `kept` and the victim take `left` bytes.
    Remove { need: u64, kept: Vec<Item<P>>, victim: Item<P>, left: u64 },
    /// The copy of the model file from disk to memory, next to the files in `kept`.
    Copy { need: u64, kept: Vec<Item<P>> },
    /// The new access time of the model file in memory.
    Touch { update: bool },
}

/// A load of one model.
#[derive(Debug)]
pub enum Loading<P, E> {
    /// The load waits for the outcome of an operation.
    Pending(LoadRequest, LoadStep<P>),
    /// The load has ended. It says whether the model file was brought into memory.
    Done(Result<bool, PluginError<E>>),
}

/// The outcome of an operation that a load waits for.
pub enum LoadEvent<P, E> {
    Probed(bool),
    Locked(Result<(), String>),
    Measured(Result<u64, E>),
    Listed(Result<Vec<Result<Entry<P>, E>>, E>),
    Removed(Result<(), E>),
    Copied(Result<(), E>),
    Touched(Result<(), E>),
}

/// The operation that a load waits for.
pub enum LoadAction<'a, P> {
    /// Tell whether there is a file.
    Probe(Location),
    /// Take the lock.
    Lock(Location),
    /// Tell the size of a file.
    Measure(Location),
    /// List a directory.
    List(Location),
    /// Remove a file.
    Remove(&'a P),
    /// Copy a file from one place to another.
    Copy(Location, Location),
    /// Set the access time of a file to the present.
    Touch(Location),
}

/// What a [`LoadStep`] says.
pub enum StepView<P> {
    Probe,
    Lock,
    Reprobe,
    Measure,
    List { need: u64 },
    Remove { need: u64, kept: Seq<Item<P>>, victim: Item<P>, left: u64 },
    Copy { need: u64, kept: Seq<Item<P>> },
    Touch { update: bool },
}

/// What a [`Loading`] says.
pub enum LoadView<P, E> {
    Pending(RequestView, StepView<P>),
    Done(Result<bool, ErrorView<E>>),
}

/// What a [`LoadEvent`] says.
pub enum EventView<P, E> {
    Probed(bool),
    Locked(Result<(), Seq<char>>),
    Measured(Result<u64, E>),
    Listed(Result<Seq<Result<Entry<P>, E>>, E>),
    Removed(Result<(), E>),
    Copied(Result<(), E>),
    Touched(Result<(), E>),
}

/// What a [`LoadAction`] says.
pub enum ActionView<P> {
    Probe(LocationView),
    Lock(LocationView),
    Measure(LocationView),
    List(LocationView),
    Remove(P),
    Copy(LocationView, LocationView),
    Touch(LocationView),
}

impl<P> View for LoadStep<P> {
    type V = StepView<P>;

    open spec fn view(&self) -> StepView<P> {
        match self {
            LoadStep::Probe => StepView::Probe,
            LoadStep::Lock => StepView::Lock,
            LoadStep::Reprobe => StepView::Reprobe,
            LoadStep::Measure => StepView::Measure,
            LoadStep::List { need } => StepView::List { need: *need },
            LoadStep::Remove { need, kept, victim, left } => StepView::Remove {
                need: *need,
                kept: kept@,
                victim: *victim,
                left: *left,
            },
            LoadStep::Copy { need, kept } => StepView::Copy { need: *need, kept: kept@ },
            LoadStep::Touch { update } => StepView::Touch { update: *update },
        }
    }
}

impl<P, E> View for Loading<P, E> {
    type V = LoadView<P, E>;

    open spec fn view(&self) -> LoadView<P, E> {
        match self {
            Loading::Pending(request, step) => LoadView::Pending(request@, step@),
            Loading::Done(result) => LoadView::Done(outcome(*result)),
        }
    }
}

impl<P, E> View for LoadEvent<P, E> {
    type V = EventView<P, E>;

    open spec fn view(&self) -> EventView<P, E> {
        match self {
            LoadEvent::Probed(found) => EventView::Probed(*found),
            LoadEvent::Locked(result) => EventView::Locked(reported(*result)),
            LoadEvent::Measured(result) => EventView::Measured(*result),
            LoadEvent::Listed(result) => EventView::Listed(
                match result {
                    Ok(listing) => Ok(listing@),
                    Err(e) => Err(*e),
                },
            ),
            LoadEvent::Removed(result) => EventView::Removed(*result),
            LoadEvent::Copied(result) => EventView::Copied(*result),
            LoadEvent::Touched(result) => EventView::Touched(*result),
        }
    }
}

impl<'a, P> View for LoadAction<'a, P> {
    type V = ActionView<P>;

    open spec fn view(&self) -> ActionView<P> {
        match self {
            LoadAction::Probe(place) => ActionView::Probe(place@),
            LoadAction::Lock(place) => ActionView::Lock(place@),
            LoadAction::Measure(place) => ActionView::Measure(place@),
            LoadAction::List(place) => ActionView::List(place@),
            LoadAction::Remove(path) => ActionView::Remove(**path),
            LoadAction::Copy(from, to) => ActionView::Copy(from@, to@),
            LoadAction::Touch(place) => ActionView::Touch(place@),
        }
    }
}

/// The text of the failure to load a model that is larger than the room for all models.
pub open spec fn too_large_text(model_name: Seq<char>) -> Seq<char> {
    model_name + " size > memory limit"@
}

/// The step that follows once the files in `rest`, which take `left` bytes, are in memory and a
/// file of `need` bytes is to come: the last of them leaves as long as the room is exceeded.
pub open spec fn room_step<P>(rest: Seq<Item<P>>, left: u64, need: u64, limit: u64) -> StepView<P> {
    if left + need > limit {
        StepView::Remove { need, kept: rest.drop_last(), victim: rest.last(), left }
    } else {
        StepView::Copy { need, kept: rest }
    }
}

impl<P, E> LoadView<P, E> {
    /// A load that has not begun.
    pub open spec fn begin(request: RequestView) -> LoadView<P, E> {
        LoadView::Pending(request, StepView::Probe)
    }

    /// A load that ends with the failure of a file operation.
    pub open spec fn os(e: E) -> LoadView<P, E> {
        LoadView::Done(Err(ErrorView::Os(e)))
    }

    /// A load that ends with a failure described in a text.
    pub open spec fn refused(text: Seq<char>) -> LoadView<P, E> {
        LoadView::Done(Err(ErrorView::Type(text)))
    }

    /// What holds of every load: the room that is counted is the room that the files take, and a
    /// file leaves only where the model would not fit otherwise.
    pub open spec fn wf(self) -> bool {
        match self {
            LoadView::Pending(request, StepView::List { need }) => need <= request.memory_limit,
            LoadView::Pending(request, StepView::Remove { need, kept, victim, left }) => {
                &&& need <= request.memory_limit
                &&& left == total_size(kept.push(victim))
                &&& left + need <= u64::MAX
                &&& !fits(kept.push(victim), need as nat, request.memory_limit as nat)
                &&& oldest_first(kept.push(victim))
            },
            LoadView::Pending(request, StepView::Copy { need, kept }) => {
                fits(kept, need as nat, request.memory_limit as nat)
            },
            _ => true,
        }
    }

    /// Whether the sizes that an event reports can be added up: those of the listed files and,
    /// where every entry could be read, that of the model with them.
    pub open spec fn admits(self, event: EventView<P, E>) -> bool {
        match (self, event) {
            (
                LoadView::Pending(_, StepView::List { need }),
                EventView::Listed(Ok(listing)),
            ) => {
                &&& total_size(files(listing)) <= u64::MAX
                &&& first_failure(listing) is None ==> total_size(files(listing)) + need
                    <= u64::MAX
            },
            _ => true,
        }
    }

    /// The operation that the load waits for.
    pub open spec fn action(self) -> Option<ActionView<P>> {
        match self {
            LoadView::Pending(request, step) => Some(
                match step {
                    StepView::Probe | StepView::Reprobe => ActionView::Probe(request.memory_file()),
                    StepView::Lock => ActionView::Lock(lock_place(request.memory_disk_path)),
                    StepView::Measure => ActionView::Measure(request.disk_file()),
                    StepView::List { .. } => ActionView::List(request.memory_directory()),
                    StepView::Remove { victim, .. } => ActionView::Remove(victim.model_path),
                    StepView::Copy { .. } => ActionView::Copy(
                        request.disk_file(),
                        request.memory_file(),
                    ),
                    StepView::Touch { .. } => ActionView::Touch(request.memory_file()),
                },
            ),
            LoadView::Done(_) => None,
        }
    }

    /// Whether the load works under the lock of the memory directory.
    pub open spec fn holds_lock(self) -> bool {
        match self {
            LoadView::Pending(_, step) => !(step is Probe || step is Lock || step is Touch),
            LoadView::Done(_) => false,
        }
    }

    /// Whether the listing of the memory directory leads to `next`. Files leave only where the
    /// model does not fit; which of two files leaves first that were accessed at the same time is
    /// left open.
    pub open spec fn listed(
        request: RequestView,
        need: u64,
        listing: Seq<Result<Entry<P>, E>>,
        next: LoadView<P, E>,
    ) -> bool {
        match search_result(listing) {
            Err(e) => next == LoadView::<P, E>::os(e),
            Ok((items, size)) => if fits(items, need as nat, request.memory_limit as nat) {
                next == LoadView::<P, E>::Pending(request, StepView::Copy { need, kept: items })
            } else {
                exists|order: Seq<Item<P>>| #[trigger]
                    arranged(items, order) && next == LoadView::<P, E>::Pending(
                        request,
                        room_step(order, size as u64, need, request.memory_limit),
                    )
            },
        }
    }

    /// Whether the load becomes `next` when `event` comes. An event that the load does not wait
    /// for changes nothing.
    pub open spec fn leads_to(self, event: EventView<P, E>, next: LoadView<P, E>) -> bool {
        match self {
            LoadView::Done(_) => next == self,
            LoadView::Pending(request, step) => match (step, event) {
                (StepView::Probe, EventView::Probed(found)) => {
                    next == LoadView::<P, E>::Pending(
                        request,
                        if found {
                            StepView::Touch { update: false }
                        } else {
                            StepView::Lock
                        },
                    )
                },
                (StepView::Lock, EventView::Locked(result)) => {
                    next == match result {
                        Ok(_) => LoadView::<P, E>::Pending(request, StepView::Reprobe),
                        Err(text) => LoadView::<P, E>::refused(text),
                    }
                },
                (StepView::Reprobe, EventView::Probed(found)) => {
                    next == LoadView::<P, E>::Pending(
                        request,
                        if found {
                            StepView::Touch { update: false }
                        } else {
                            StepView::Measure
                        },
                    )
                },
                (StepView::Measure, EventView::Measured(result)) => {
                    next == match result {
                        Ok(size) => if size > request.memory_limit {
                            LoadView::<P, E>::refused(too_large_text(request.model_name))
                        } else {
                            LoadView::<P, E>::Pending(request, StepView::List { need: size })
                        },
                        Err(e) => LoadView::<P, E>::os(e),
                    }
                },
                (StepView::List { need }, EventView::Listed(result)) => match result {
                    Ok(listing) => LoadView::listed(request, need, listing, next),
                    Err(e) => next == LoadView::<P, E>::os(e),
                },
                (
                    StepView::Remove { need, kept, victim, left },
                    EventView::Removed(result),
                ) => {
                    next == match result {
                        Ok(_) => LoadView::<P, E>::Pending(
                            request,
                            room_step(
                                kept,
                                (left - victim.file_size) as u64,
                                need,
                                request.memory_limit,
                            ),
                        ),
                        Err(e) => LoadView::<P, E>::os(e),
                    }
                },
                (StepView::Copy { .. }, EventView::Copied(result)) => {
                    next == match result {
                        Ok(_) => LoadView::<P, E>::Pending(
                            request,
                            StepView::Touch { update: true },
                        ),
                        Err(e) => LoadView::<P, E>::os(e),
                    }
                },
                (StepView::Touch { update }, EventView::Touched(result)) => {
                    next == match result {
                        Ok(_) => LoadView::<P, E>::Done(Ok(update)),
                        Err(e) => LoadView::<P, E>::os(e),
                    }
                },
                _ => next == self,
            },
        }
    }
}

/// The step that follows once the files in `rest` are in memory.
fn make_room<P>(rest: Vec<Item<P>>, left: u64, need: u64, limit: u64) -> (step: LoadStep<P>)
    requires
        left == total_size(rest@),
        left + need <= u64::MAX,
        need <= limit,
    ensures
        step@ == room_step(rest@, left, need, limit),
        left + need > limit ==> rest@.len() > 0,
{
    let mut kept = rest;
    if left + need > limit {
        let victim = kept.pop().unwrap();
        LoadStep::Remove { need, kept, victim, left }
    } else {
        LoadStep::Copy { need, kept }
    }
}

/// Begins to load the model `model_name` of the directory `model_parent_path` into a memory
/// directory with room for `memory_limit` bytes.
pub fn load_model<P, E>(
    disk_path: &str,
    memory_disk_path: &str,
    model_parent_path: &str,
    model_name: &str,
    memory_limit: u64,
) -> (load: Loading<P, E>)
    ensures
        load@ == LoadView::<P, E>::begin(
            RequestView {
                disk_path: disk_path@,
                memory_disk_path: memory_disk_path@,
                model_parent_path: model_parent_path@,
                model_name: model_name@,
                memory_limit,
            },
        ),
        load@.wf(),
        load matches Loading::Pending(request, LoadStep::Probe) && {
            &&& request.disk_path@ == disk_path@
            &&& request.memory_disk_path@ == memory_disk_path@
            &&& request.model_parent_path@ == model_parent_path@
            &&& request.model_name@ == model_name@
            &&& request.memory_limit == memory_limit
        },
{
    Loading::begin(
        LoadRequest {
            disk_path: disk_path.to_owned(),
            memory_disk_path: memory_disk_path.to_owned(),
            model_parent_path: model_parent_path.to_owned(),
            model_name: model_name.to_owned(),
            memory_limit,
        },
    )
}

impl<P, E> Loading<P, E> {
    /// Begins a load.
    pub fn begin(request: LoadRequest) -> (load: Loading<P, E>)
        ensures
            load@ == LoadView::<P, E>::begin(request@),
            load@.wf(),
            load == Loading::<P, E>::Pending(request, LoadStep::Probe),
    {
        Loading::Pending(request, LoadStep::Probe)
    }

    /// The operation that the load waits for, or nothing once it has ended.
    pub fn action(&self) -> (action: Option<LoadAction<'_, P>>)
        ensures
            match action {
                Some(a) => self@.action() == Some(a@),
                None => self@.action() is None,
            },
            match (self, action) {
                (Loading::Done(_), None) => true,
                (Loading::Pending(request, step), Some(a)) => match a {
                    LoadAction::Probe(place) | LoadAction::Touch(place) => place@ == (
                    LocationView {
                        base: request.memory_disk_path@,
                        parts: seq![request.model_parent_path@, request.model_name@],
                    }),
                    LoadAction::Lock(place) => place@ == (LocationView {
                        base: request.memory_disk_path@,
                        parts: seq!["fooocus_lock"@],
                    }),
                    LoadAction::Measure(place) => place@ == (LocationView {
                        base: request.disk_path@,
                        parts: seq![request.model_parent_path@, request.model_name@],
                    }),
                    LoadAction::List(place) => place@ == (LocationView {
                        base: request.memory_disk_path@,
                        parts: seq![request.model_parent_path@],
                    }),
                    LoadAction::Remove(path) => *step matches LoadStep::Remove { victim, .. }
                        && *path == victim.model_path,
                    LoadAction::Copy(from, to) => {
                        &&& from@ == (LocationView {
                            base: request.disk_path@,
                            parts: seq![request.model_parent_path@, request.model_name@],
                        })
                        &&& to@ == (LocationView {
                            base: request.memory_disk_path@,
                            parts: seq![request.model_parent_path@, request.model_name@],
                        })
                    },
                },
                _ => false,
            },
    {
        match self {
            Loading::Pending(request, step) => Some(
                match step {
                    LoadStep::Probe => LoadAction::Probe(request.memory_file()),
                    LoadStep::Lock => LoadAction::Lock(
                        lock_location(request.memory_disk_path.as_str()),
                    ),
                    LoadStep::Reprobe => LoadAction::Probe(request.memory_file()),
                    LoadStep::Measure => LoadAction::Measure(request.disk_file()),
                    LoadStep::List { need: _ } => LoadAction::List(request.memory_directory()),
                    LoadStep::Remove { need: _, kept: _, victim, left: _ } => LoadAction::Remove(
                        &victim.model_path,
                    ),
                    LoadStep::Copy { need: _, kept: _ } => LoadAction::Copy(
                        request.disk_file(),
                        request.memory_file(),
                    ),
                    LoadStep::Touch { update: _ } => LoadAction::Touch(request.memory_file()),
                },
            ),
            Loading::Done(_) => None,
        }
    }

    /// Whether the load works under the lock of the memory directory. The lock is given back as
    /// soon as it does not.
    pub fn holds_lock(&self) -> (held: bool)
        ensures
            held == self@.holds_lock(),
    {
        match self {
            Loading::Pending(_, step) => match step {
                LoadStep::Probe | LoadStep::Lock => false,
                LoadStep::Touch { update: _ } => false,
                _ => true,
            },
            Loading::Done(_) => false,
        }
    }

    /// Whether the sizes that an event reports can be added up.
    pub fn admits(&self, event: &LoadEvent<P, E>) -> (admitted: bool)
        ensures
            admitted == self@.admits(event@),
            match (*self, *event) {
                (
                    Loading::Pending(_, LoadStep::List { need }),
                    LoadEvent::Listed(Ok(listing)),
                ) => admitted == {
                    &&& total_size(files(listing@)) <= u64::MAX
                    &&& first_failure(listing@) is None ==> total_size(files(listing@)) + need
                        <= u64::MAX
                },
                _ => admitted,
            },
    {
        match (self, event) {
            (
                Loading::Pending(_, LoadStep::List { need }),
                LoadEvent::Listed(Ok(listing)),
            ) => match listed_size(listing) {
                Some(size) => size <= u64::MAX - *need || has_failure(listing),
                None => false,
            },
            _ => true,
        }
    }

    /// Hands the load the outcome of an operation.
    pub fn step(self, event: LoadEvent<P, E>) -> (next: Loading<P, E>)
        requires
            self@.wf(),
            self@.admits(event@),
        ensures
            self@.leads_to(event@, next@),
            next@.wf(),
            match (self, event) {
                (Loading::Pending(request, LoadStep::Probe), LoadEvent::Probed(found)) => next
                    == Loading::<P, E>::Pending(
                    request,
                    if found {
                        LoadStep::Touch { update: false }
                    } else {
                        LoadStep::Lock
                    },
                ),
                (Loading::Pending(request, LoadStep::Lock), LoadEvent::Locked(result)) => next
                    == match result {
                    Ok(_) => Loading::<P, E>::Pending(request, LoadStep::Reprobe),
                    Err(text) => Loading::Done(Err(PluginError::Type(text))),
                },
                (Loading::Pending(request, LoadStep::Reprobe), LoadEvent::Probed(found)) => next
                    == Loading::<P, E>::Pending(
                    request,
                    if found {
                        LoadStep::Touch { update: false }
                    } else {
                        LoadStep::Measure
                    },
                ),
                (Loading::Pending(request, LoadStep::Measure), LoadEvent::Measured(Ok(size))) => {
                    if size > request.memory_limit {
                        next matches Loading::Done(Err(PluginError::Type(text))) && text@
                            == request.model_name@ + " size > memory limit"@
                    } else {
                        next == Loading::<P, E>::Pending(request, LoadStep::List { need: size })
                    }
                },
                (Loading::Pending(_, LoadStep::Measure), LoadEvent::Measured(Err(e))) => next
                    == Loading::<P, E>::Done(Err(PluginError::Os(e))),
                (
                    Loading::Pending(request, LoadStep::List { need }),
                    LoadEvent::Listed(Ok(listing)),
                ) => LoadView::listed(request@, need, listing@, next@),
                (Loading::Pending(_, LoadStep::List { .. }), LoadEvent::Listed(Err(e))) => next
                    == Loading::<P, E>::Done(Err(PluginError::Os(e))),
                (Loading::Pending(_, LoadStep::Remove { .. }), LoadEvent::Removed(Err(e))) => next
                    == Loading::<P, E>::Done(Err(PluginError::Os(e))),
                (Loading::Pending(request, LoadStep::Copy { .. }), LoadEvent::Copied(result)) => {
                    next == match result {
                        Ok(_) => Loading::<P, E>::Pending(
                            request,
                            LoadStep::Touch { update: true },
                        ),
                        Err(e) => Loading::Done(Err(PluginError::Os(e))),
                    }
                },
                (Loading::Pending(_, LoadStep::Touch { update }), LoadEvent::Touched(result)) => {
                    next == match result {
                        Ok(_) => Loading::<P, E>::Done(Ok(update)),
                        Err(e) => Loading::Done(Err(PluginError::Os(e))),
                    }
                },
                _ => true,
            },
    {
        match self {
            Loading::Done(result) => Loading::Done(result),
            Loading::Pending(request, step) => match (step, event) {
                (LoadStep::Probe, LoadEvent::Probed(found)) => {
                    if found {
                        Loading::Pending(request, LoadStep::Touch { update: false })
                    } else {
                        Loading::Pending(request, LoadStep::Lock)
                    }
                },
                (LoadStep::Lock, LoadEvent::Locked(result)) => match result {
                    Ok(_) => Loading::Pending(request, LoadStep::Reprobe),
                    Err(text) => Loading::Done(Err(PluginError::Type(text))),
                },
                (LoadStep::Reprobe, LoadEvent::Probed(found)) => {
                    if found {
                        Loading::Pending(request, LoadStep::Touch { update: false })
                    } else {
                        Loading::Pending(request, LoadStep::Measure)
                    }
                },
                (LoadStep::Measure, LoadEvent::Measured(result)) => match result {
                    Ok(size) => {
                        if size > request.memory_limit {
                            let text = request.model_name.concat(" size > memory limit");
                            Loading::Done(Err(PluginError::Type(text)))
                        } else {
                            Loading::Pending(request, LoadStep::List { need: size })
                        }
                    },
                    Err(e) => Loading::Done(Err(PluginError::Os(e))),
                },
                (LoadStep::List { need }, LoadEvent::Listed(result)) => match result {
                    Ok(listing) => Loading::after_listing(request, need, listing),
                    Err(e) => Loading::Done(Err(PluginError::Os(e))),
                },
                (
                    LoadStep::Remove { need, kept, victim, left },
                    LoadEvent::Removed(result),
                ) => match result {
                    Ok(_) => {
                        assert(kept@.push(victim).drop_last() =~= kept@);
                        let limit: u64 = request.memory_limit;
                        let step = make_room(kept, left - victim.file_size, need, limit);
                        assert(kept@.len() > 0 ==> kept@.drop_last().push(kept@.last()) =~= kept@);
                        Loading::Pending(request, step)
                    },
                    Err(e) => Loading::Done(Err(PluginError::Os(e))),
                },
                (LoadStep::Copy { need: _, kept: _ }, LoadEvent::Copied(result)) => match result {
                    Ok(_) => Loading::Pending(request, LoadStep::Touch { update: true }),
                    Err(e) => Loading::Done(Err(PluginError::Os(e))),
                },
                (LoadStep::Touch { update }, LoadEvent::Touched(result)) => match result {
                    Ok(_) => Loading::Done(Ok(update)),
                    Err(e) => Loading::Done(Err(PluginError::Os(e))),
                },
                (step, _) => Loading::Pending(request, step),
            },
        }
    }

    /// The load once the memory directory is listed.
    fn after_listing(
        request: LoadRequest,
        need: u64,
        listing: Vec<Result<Entry<P>, E>>,
    ) -> (next: Loading<P, E>)
        requires
            need <= request.memory_limit,
            total_size(files(listing@)) <= u64::MAX,
            first_failure(listing@) is None ==> total_size(files(listing@)) + need <= u64::MAX,
        ensures
            LoadView::listed(request@, need, listing@, next@),
            next@.wf(),
    {
        match search_models(listing) {
            Err(e) => Loading::Done(Err(PluginError::Os(e))),
            Ok((models, models_size)) => {
                let limit: u64 = request.memory_limit;
                let mut models = models;
                let ghost items = models@;
                if models_size + need > limit {
                    sort_by_access_time(&mut models);
                    let ghost order = models@;
                    proof {
                        lemma_total_size_of_arrangement(items, order);
                    }
                    let step = make_room(models, models_size, need, limit);
                    assert(order.drop_last().push(order.last()) =~= order);
                    Loading::Pending(request, step)
                } else {
                    Loading::Pending(request, LoadStep::Copy { need, kept: models })
                }
            },
        }
    }
}

} // verus!
