//! Which models to load for a call of the plugin, and with how much room.
use vstd::prelude::*;

use crate::config::{checked_bytes, in_bytes, Config, ModelsConfig, GIB};
use crate::error::{not_initialized, not_initialized_text, outcome, ErrorView, PluginError};
use crate::loading::{
    load_model, ActionView, LoadRequest, LoadStep, LoadView, Loading, RequestView, StepView,
};
use crate::location::{texts, Location, LocationView};

verus! {

/// The load of the model `model_name` of the directory `parent` with room for `limit` bytes.
pub open spec fn request_for(
    models: ModelsConfig,
    parent: Seq<char>,
    model_name: Seq<char>,
    limit: int,
) -> RequestView {
    RequestView {
        disk_path: models.model_path@,
        memory_disk_path: models.model_memory_path@,
        model_parent_path: parent,
        model_name,
        memory_limit: limit as u64,
    }
}

/// Whether a name stands for a model at all.
pub open spec fn names_model(model_name: Seq<char>) -> bool {
    model_name.len() > 0 && model_name != "None"@
}

/// What the load of a checkpoint begins with. Where no model is named there is nothing to load,
/// whether or not the plugin is initialized.
pub open spec fn checkpoint_load<P, E>(config: Option<&Config>, model_name: Seq<char>) -> LoadView<
    P,
    E,
> {
    if !names_model(model_name) {
        LoadView::Done(Ok(false))
    } else {
        match config {
            None => LoadView::Done(Err(ErrorView::Type(not_initialized_text()))),
            Some(c) => LoadView::begin(
                request_for(
                    c.models_config,
                    "checkpoints"@,
                    model_name,
                    in_bytes(c.models_config.checkpoints_memory_limit),
                ),
            ),
        }
    }
}

/// Whether the load of a checkpoint can begin: where a model is named and the plugin is
/// initialized, the room for checkpoints can be counted in bytes.
pub open spec fn checkpoint_can_begin(config: Option<&Config>, model_name: Seq<char>) -> bool {
    match config {
        Some(c) => names_model(model_name) ==> c.models_config.checkpoints_limit_fits(),
        None => true,
    }
}

/// Whether a name stands for a model at all.
fn check_name(model_name: &str) -> (named: bool)
    ensures
        named == names_model(model_name@),
{
    let none: String = "None".to_owned();
    !(model_name.is_empty() || model_name.to_owned() == none)
}

/// Whether the load of a checkpoint can begin.
pub fn check_checkpoint(config: Option<&Config>, model_name: &str) -> (can: bool)
    ensures
        can == checkpoint_can_begin(config, model_name@),
        can == !(config matches Some(c) && model_name@.len() > 0 && model_name@ != "None"@
            && c.models_config.checkpoints_memory_limit * 1024 * 1024 * 1024 > u64::MAX),
{
    match config {
        Some(c) => {
            !check_name(model_name) || checked_bytes(
                c.models_config.checkpoints_memory_limit,
            ).is_some()
        },
        None => true,
    }
}

/// Whether the load of LoRA models can begin: where the plugin is initialized, the room for them
/// can be counted in bytes.
pub open spec fn loras_can_begin(config: Option<&Config>) -> bool {
    match config {
        Some(c) => c.models_config.loras_limit_fits(),
        None => true,
    }
}

/// Whether the load of LoRA models can begin.
pub fn check_loras(config: Option<&Config>) -> (can: bool)
    ensures
        can == loras_can_begin(config),
        can == !(config matches Some(c) && c.models_config.loras_memory_limit * 1024 * 1024 * 1024
            > u64::MAX),
{
    match config {
        Some(c) => checked_bytes(c.models_config.loras_memory_limit).is_some(),
        None => true,
    }
}

/// Begins to load a checkpoint.
pub fn load_checkpoint_model<P, E>(config: Option<&Config>, model_name: &str) -> (load: Loading<
    P,
    E,
>)
    requires
        checkpoint_can_begin(config, model_name@),
    ensures
        load@ == checkpoint_load::<P, E>(config, model_name@),
        load@.wf(),
        if model_name@.len() == 0 || model_name@ == "None"@ {
            load matches Loading::Done(Ok(update)) && !update
        } else {
            match config {
                Some(c) => load matches Loading::Pending(request, LoadStep::Probe) && {
                    &&& request.disk_path@ == c.models_config.model_path@
                    &&& request.memory_disk_path@ == c.models_config.model_memory_path@
                    &&& request.model_parent_path@ == "checkpoints"@
                    &&& request.model_name@ == model_name@
                    &&& request.memory_limit == c.models_config.checkpoints_memory_limit * 1024
                        * 1024 * 1024
                },
                None => load matches Loading::Done(Err(PluginError::Type(text))) && text@
                    == "fooocus plugin is not initialized"@,
            }
        },
{
    if !check_name(model_name) {
        return Loading::Done(Ok(false));
    }
    match config {
        None => Loading::Done(Err(not_initialized())),
        Some(c) => {
            let models = &c.models_config;
            let memory_limit: u64 = models.checkpoints_memory_limit * GIB;
            load_model(
                models.model_path.as_str(),
                models.model_memory_path.as_str(),
                "checkpoints",
                model_name,
                memory_limit,
            )
        },
    }
}

/// The LoRA models of one call.
#[derive(Debug)]
pub struct LoraBatch {
    pub disk_path: String,
    pub memory_disk_path: String,
    pub names: Vec<String>,
    pub memory_limit: u64,
}

/// What a [`LoraBatch`] says.
pub struct BatchView {
    pub disk_path: Seq<char>,
    pub memory_disk_path: Seq<char>,
    pub names: Seq<Seq<char>>,
    pub memory_limit: u64,
}

impl View for LoraBatch {
    type V = BatchView;

    open spec fn view(&self) -> BatchView {
        BatchView {
            disk_path: self.disk_path@,
            memory_disk_path: self.memory_disk_path@,
            names: texts(self.names@),
            memory_limit: self.memory_limit,
        }
    }
}

impl BatchView {
    /// The files of the models on disk.
    pub open spec fn disk_files(self) -> Seq<LocationView> {
        self.names.map_values(
            |name: Seq<char>|
                LocationView { base: self.disk_path, parts: seq!["loras"@, name] },
        )
    }

    /// The load of model `i`.
    pub open spec fn request(self, i: int) -> RequestView {
        RequestView {
            disk_path: self.disk_path,
            memory_disk_path: self.memory_disk_path,
            model_parent_path: "loras"@,
            model_name: self.names[i],
            memory_limit: self.memory_limit,
        }
    }
}

impl LoraBatch {
    /// The files of the models on disk.
    pub fn disk_files(&self) -> (places: Vec<Location>)
        ensures
            places@.map_values(|p: Location| p@) == self@.disk_files(),
            places@.len() == self.names@.len(),
            forall|k: int|
                0 <= k < places@.len() ==> (#[trigger] places@[k])@ == (LocationView {
                    base: self.disk_path@,
                    parts: seq!["loras"@, self.names@[k]@],
                }),
    {
        let mut places: Vec<Location> = Vec::new();
        let mut i: usize = 0;
        while i < self.names.len()
            invariant
                i <= self.names@.len(),
                places@.len() == i,
                forall|k: int| 0 <= k < i ==> (#[trigger] places@[k])@ == self@.disk_files()[k],
            decreases self.names@.len() - i,
        {
            let place = Location::root(self.disk_path.as_str()).join("loras").join(
                self.names[i].as_str(),
            );
            assert(place@.parts =~= self@.disk_files()[i as int].parts);
            places.push(place);
            i = i + 1;
        }
        assert(places@.map_values(|p: Location| p@) =~= self@.disk_files());
        places
    }

    /// The load of model `i`.
    pub fn request(&self, i: usize) -> (request: LoadRequest)
        requires
            i < self.names@.len(),
        ensures
            request@ == self@.request(i as int),
            request.disk_path@ == self.disk_path@,
            request.memory_disk_path@ == self.memory_disk_path@,
            request.model_parent_path@ == "loras"@,
            request.model_name@ == self.names@[i as int]@,
            request.memory_limit == self.memory_limit,
    {
        LoadRequest {
            disk_path: self.disk_path.clone(),
            memory_disk_path: self.memory_disk_path.clone(),
            model_parent_path: "loras".to_owned(),
            model_name: self.names[i].clone(),
            memory_limit: self.memory_limit,
        }
    }
}

/// A load of several LoRA models, one after the other.
#[derive(Debug)]
pub enum LoraLoading<E> {
    /// The load waits for the sizes of the files on disk.
    Measuring(LoraBatch),
    /// The load waits for model `next` to be loaded.
    Loading { batch: LoraBatch, next: usize, update: bool },
    /// The load has ended. It says whether any model file was brought into memory.
    Done(Result<bool, PluginError<E>>),
}

/// The outcome of what a load of LoRA models waits for.
pub enum LoraEvent<E> {
    Measured(Vec<u64>),
    Loaded(Result<bool, PluginError<E>>),
}

/// What a load of LoRA models waits for.
pub enum LoraAction {
    /// Tell the size of each of these files.
    Measure(Vec<Location>),
    /// Load a model.
    Load(LoadRequest),
}

/// What a [`LoraLoading`] says.
pub enum LoraView<E> {
    Measuring(BatchView),
    Loading { batch: BatchView, next: int, update: bool },
    Done(Result<bool, ErrorView<E>>),
}

/// What a [`LoraEvent`] says.
pub enum LoraEventView<E> {
    Measured(Seq<u64>),
    Loaded(Result<bool, ErrorView<E>>),
}

/// What a [`LoraAction`] says.
pub enum LoraActionView {
    Measure(Seq<LocationView>),
    Load(RequestView),
}

impl<E> View for LoraLoading<E> {
    type V = LoraView<E>;

    open spec fn view(&self) -> LoraView<E> {
        match self {
            LoraLoading::Measuring(batch) => LoraView::Measuring(batch@),
            LoraLoading::Loading { batch, next, update } => LoraView::Loading {
                batch: batch@,
                next: *next as int,
                update: *update,
            },
            LoraLoading::Done(result) => LoraView::Done(outcome(*result)),
        }
    }
}

impl<E> View for LoraEvent<E> {
    type V = LoraEventView<E>;

    open spec fn view(&self) -> LoraEventView<E> {
        match self {
            LoraEvent::Measured(sizes) => LoraEventView::Measured(sizes@),
            LoraEvent::Loaded(result) => LoraEventView::Loaded(outcome(*result)),
        }
    }
}

impl View for LoraAction {
    type V = LoraActionView;

    open spec fn view(&self) -> LoraActionView {
        match self {
            LoraAction::Measure(places) => LoraActionView::Measure(
                places@.map_values(|p: Location| p@),
            ),
            LoraAction::Load(request) => LoraActionView::Load(request@),
        }
    }
}

/// The sum of `sizes`.
pub open spec fn sum_of(sizes: Seq<u64>) -> nat
    decreases sizes.len(),
{
    if sizes.len() == 0 {
        0
    } else {
        sum_of(sizes.drop_last()) + sizes.last() as nat
    }
}

/// The sum of the first sizes is no more than the sum of all.
proof fn lemma_sum_of_prefix(sizes: Seq<u64>, n: int)
    requires
        0 <= n <= sizes.len(),
    ensures
        sum_of(sizes.take(n)) <= sum_of(sizes),
    decreases sizes.len() - n,
{
    if n < sizes.len() {
        lemma_sum_of_prefix(sizes, n + 1);
        assert(sizes.take(n + 1).drop_last() =~= sizes.take(n));
    } else {
        assert(sizes.take(n) =~= sizes);
    }
}

/// The sum of `sizes`, or nothing where it is more than can be counted.
pub fn checked_sum(sizes: &Vec<u64>) -> (sum: Option<u64>)
    ensures
        match sum {
            Some(n) => n == sum_of(sizes@),
            None => sum_of(sizes@) > u64::MAX,
        },
{
    let mut sum: u64 = 0;
    let mut i: usize = 0;
    while i < sizes.len()
        invariant
            i <= sizes@.len(),
            sum == sum_of(sizes@.take(i as int)),
        decreases sizes@.len() - i,
    {
        proof {
            assert(sizes@.take(i + 1).drop_last() =~= sizes@.take(i as int));
            lemma_sum_of_prefix(sizes@, i + 1);
        }
        match sum.checked_add(sizes[i]) {
            Some(more) => {
                sum = more;
            },
            None => {
                return None;
            },
        }
        i = i + 1;
    }
    assert(sizes@.take(sizes@.len() as int) =~= sizes@);
    Some(sum)
}

/// The text of the failure to load models that are together larger than the room for them.
pub open spec fn loras_too_large_text() -> Seq<char> {
    "lora model size > memory limit"@
}

impl<E> LoraView<E> {
    /// What the load of the models `names` begins with.
    pub open spec fn begin(config: Option<&Config>, names: Seq<Seq<char>>) -> LoraView<E> {
        match config {
            None => LoraView::Done(Err(ErrorView::Type(not_initialized_text()))),
            Some(c) => LoraView::Measuring(
                BatchView {
                    disk_path: c.models_config.model_path@,
                    memory_disk_path: c.models_config.model_memory_path@,
                    names,
                    memory_limit: in_bytes(c.models_config.loras_memory_limit) as u64,
                },
            ),
        }
    }

    /// What holds of every load: while it goes on, there is a model to load.
    pub open spec fn wf(self) -> bool {
        match self {
            LoraView::Loading { batch, next, .. } => 0 <= next < batch.names.len(),
            _ => true,
        }
    }

    /// Whether the sizes that an event reports can be added up.
    pub open spec fn admits(self, event: LoraEventView<E>) -> bool {
        match (self, event) {
            (LoraView::Measuring(_), LoraEventView::Measured(sizes)) => sum_of(sizes) <= u64::MAX,
            _ => true,
        }
    }

    /// What the load waits for.
    pub open spec fn action(self) -> Option<LoraActionView> {
        match self {
            LoraView::Measuring(batch) => Some(LoraActionView::Measure(batch.disk_files())),
            LoraView::Loading { batch, next, .. } => Some(
                LoraActionView::Load(batch.request(next)),
            ),
            LoraView::Done(_) => None,
        }
    }

    /// The load of the models from `next` on.
    pub open spec fn from_model(batch: BatchView, next: int, update: bool) -> LoraView<E> {
        if next < batch.names.len() {
            LoraView::Loading { batch, next, update }
        } else {
            LoraView::Done(Ok(update))
        }
    }

    /// What the load becomes when `event` comes. An event that it does not wait for changes
    /// nothing.
    pub open spec fn after(self, event: LoraEventView<E>) -> LoraView<E> {
        match (self, event) {
            (LoraView::Measuring(batch), LoraEventView::Measured(sizes)) => {
                if sum_of(sizes) > batch.memory_limit {
                    LoraView::Done(Err(ErrorView::Type(loras_too_large_text())))
                } else {
                    LoraView::from_model(batch, 0, false)
                }
            },
            (
                LoraView::Loading { batch, next, update },
                LoraEventView::Loaded(result),
            ) => match result {
                Ok(updated) => LoraView::from_model(batch, next + 1, update || updated),
                Err(e) => LoraView::Done(Err(e)),
            },
            _ => self,
        }
    }
}

/// Begins to load LoRA models.
pub fn load_lora_models<E>(config: Option<&Config>, names: Vec<String>) -> (load: LoraLoading<E>)
    requires
        loras_can_begin(config),
    ensures
        load@ == LoraView::<E>::begin(config, texts(names@)),
        load@.wf(),
        match config {
            Some(c) => load matches LoraLoading::Measuring(batch) && {
                &&& batch.disk_path@ == c.models_config.model_path@
                &&& batch.memory_disk_path@ == c.models_config.model_memory_path@
                &&& batch.names@ == names@
                &&& batch.memory_limit == c.models_config.loras_memory_limit * 1024 * 1024 * 1024
            },
            None => load matches LoraLoading::Done(Err(PluginError::Type(text))) && text@
                == "fooocus plugin is not initialized"@,
        },
{
    match config {
        None => LoraLoading::Done(Err(not_initialized())),
        Some(c) => {
            let models = &c.models_config;
            let memory_limit: u64 = models.loras_memory_limit * GIB;
            LoraLoading::Measuring(
                LoraBatch {
                    disk_path: models.model_path.clone(),
                    memory_disk_path: models.model_memory_path.clone(),
                    names,
                    memory_limit,
                },
            )
        },
    }
}

impl<E> LoraLoading<E> {
    /// What the load waits for, or nothing once it has ended.
    pub fn action(&self) -> (action: Option<LoraAction>)
        requires
            self@.wf(),
        ensures
            match action {
                Some(a) => self@.action() == Some(a@),
                None => self@.action() is None,
            },
            match (self, action) {
                (LoraLoading::Measuring(batch), Some(LoraAction::Measure(places))) => {
                    &&& places@.len() == batch.names@.len()
                    &&& forall|k: int|
                        0 <= k < places@.len() ==> (#[trigger] places@[k])@ == (LocationView {
                            base: batch.disk_path@,
                            parts: seq!["loras"@, batch.names@[k]@],
                        })
                },
                (
                    LoraLoading::Loading { batch, next, update: _ },
                    Some(LoraAction::Load(request)),
                ) => {
                    &&& request.disk_path@ == batch.disk_path@
                    &&& request.memory_disk_path@ == batch.memory_disk_path@
                    &&& request.model_parent_path@ == "loras"@
                    &&& request.model_name@ == batch.names@[*next as int]@
                    &&& request.memory_limit == batch.memory_limit
                },
                (LoraLoading::Done(_), None) => true,
                _ => false,
            },
    {
        match self {
            LoraLoading::Measuring(batch) => Some(LoraAction::Measure(batch.disk_files())),
            LoraLoading::Loading { batch, next, update: _ } => Some(
                LoraAction::Load(batch.request(*next)),
            ),
            LoraLoading::Done(_) => None,
        }
    }

    /// Whether the sizes that an event reports can be added up.
    pub fn admits(&self, event: &LoraEvent<E>) -> (admitted: bool)
        ensures
            admitted == self@.admits(event@),
    {
        match (self, event) {
            (LoraLoading::Measuring(_), LoraEvent::Measured(sizes)) => {
                checked_sum(sizes).is_some()
            },
            _ => true,
        }
    }

    /// The load of the models from `next` on.
    fn from_model(batch: LoraBatch, next: usize, update: bool) -> (load: LoraLoading<E>)
        ensures
            load@ == LoraView::<E>::from_model(batch@, next as int, update),
            load@.wf(),
            load == if next < batch.names@.len() {
                LoraLoading::<E>::Loading { batch, next, update }
            } else {
                LoraLoading::Done(Ok(update))
            },
    {
        if next < batch.names.len() {
            LoraLoading::Loading { batch, next, update }
        } else {
            LoraLoading::Done(Ok(update))
        }
    }

    /// Hands the load the outcome of what it waits for.
    pub fn step(self, event: LoraEvent<E>) -> (next: LoraLoading<E>)
        requires
            self@.wf(),
            self@.admits(event@),
        ensures
            next@ == self@.after(event@),
            next@.wf(),
            match (self, event) {
                (LoraLoading::Measuring(batch), LoraEvent::Measured(sizes)) => {
                    if sum_of(sizes@) > batch.memory_limit {
                        next matches LoraLoading::Done(Err(PluginError::Type(text))) && text@
                            == "lora model size > memory limit"@
                    } else if batch.names@.len() == 0 {
                        next == LoraLoading::<E>::Done(Ok(false))
                    } else {
                        next == (LoraLoading::<E>::Loading { batch, next: 0, update: false })
                    }
                },
                (LoraLoading::Loading { batch, next: at, update }, LoraEvent::Loaded(result)) => {
                    match result {
                        Ok(updated) => if at + 1 < batch.names@.len() {
                            next matches LoraLoading::Loading { batch: b, next: n, update: u }
                                && b == batch && n == at + 1 && u == (update || updated)
                        } else {
                            next == LoraLoading::<E>::Done(Ok(update || updated))
                        },
                        Err(e) => next == LoraLoading::<E>::Done(Err(e)),
                    }
                },
                _ => next == self,
            },
    {
        match (self, event) {
            (LoraLoading::Measuring(batch), LoraEvent::Measured(sizes)) => {
                let total_size: u64 = checked_sum(&sizes).unwrap();
                if total_size > batch.memory_limit {
                    LoraLoading::Done(
                        Err(PluginError::Type("lora model size > memory limit".to_owned())),
                    )
                } else {
                    LoraLoading::from_model(batch, 0, false)
                }
            },
            (LoraLoading::Loading { batch, next, update }, LoraEvent::Loaded(result)) => {
                assert(next < batch.names.len());
                match result {
                    Ok(updated) => LoraLoading::from_model(batch, next + 1, update || updated),
                    Err(e) => LoraLoading::Done(Err(e)),
                }
            },
            (load, _) => load,
        }
    }
}

/// What a load of LoRA models becomes as one outcome after the other comes.
pub open spec fn after_all<E>(load: LoraView<E>, events: Seq<LoraEventView<E>>) -> LoraView<E>
    decreases events.len(),
{
    if events.len() == 0 {
        load
    } else {
        after_all(load, events.drop_last()).after(events.last())
    }
}

/// The outcomes of the loads of single models, one after the other.
pub open spec fn loaded<E>(results: Seq<Result<bool, ErrorView<E>>>) -> Seq<LoraEventView<E>> {
    results.map_values(|r: Result<bool, ErrorView<E>>| LoraEventView::Loaded(r))
}

/// Where the models fit together and the loads up to now have succeeded, the next model is loaded
/// in its turn, and the load knows whether any file was brought into memory.
proof fn lemma_loads_in_turn<E>(
    batch: BatchView,
    sizes: Seq<u64>,
    results: Seq<Result<bool, ErrorView<E>>>,
)
    requires
        sum_of(sizes) <= batch.memory_limit,
        results.len() <= batch.names.len(),
        forall|i: int| 0 <= i < results.len() ==> #[trigger] results[i] is Ok,
    ensures
        after_all(
            LoraView::<E>::Measuring(batch).after(LoraEventView::Measured(sizes)),
            loaded(results),
        ) == LoraView::<E>::from_model(
            batch,
            results.len() as int,
            exists|i: int| 0 <= i < results.len() && #[trigger] results[i] == Ok::<
                bool,
                ErrorView<E>,
            >(true),
        ),
    decreases results.len(),
{
    if results.len() > 0 {
        let before = results.drop_last();
        lemma_loads_in_turn(batch, sizes, before);
        assert(loaded(results).drop_last() =~= loaded(before));
        let updated_before = exists|i: int|
            0 <= i < before.len() && #[trigger] before[i] == Ok::<bool, ErrorView<E>>(true);
        let updated = exists|i: int|
            0 <= i < results.len() && #[trigger] results[i] == Ok::<bool, ErrorView<E>>(true);
        let last = results.last();
        assert(updated == (updated_before || last == Ok::<bool, ErrorView<E>>(true))) by {
            if updated_before {
                let i = choose|i: int|
                    0 <= i < before.len() && #[trigger] before[i] == Ok::<bool, ErrorView<E>>(true);
                assert(results[i] == Ok::<bool, ErrorView<E>>(true));
            }
            if last == Ok::<bool, ErrorView<E>>(true) {
                assert(results[results.len() - 1] == Ok::<bool, ErrorView<E>>(true));
            }
            if updated {
                let i = choose|i: int|
                    0 <= i < results.len() && #[trigger] results[i] == Ok::<bool, ErrorView<E>>(
                        true,
                    );
                if i < before.len() {
                    assert(before[i] == Ok::<bool, ErrorView<E>>(true));
                }
            }
        }
        assert(results[results.len() - 1] is Ok);
    } else {
        assert(loaded(results) =~= Seq::empty());
    }
}

/// Where all models could be loaded, the load says whether any of their files was brought into
/// memory.
pub proof fn law_loras_report_any_update<E>(
    batch: BatchView,
    sizes: Seq<u64>,
    results: Seq<Result<bool, ErrorView<E>>>,
)
    requires
        sum_of(sizes) <= batch.memory_limit,
        results.len() == batch.names.len(),
        forall|i: int| 0 <= i < results.len() ==> #[trigger] results[i] is Ok,
    ensures
        after_all(
            LoraView::<E>::Measuring(batch).after(LoraEventView::Measured(sizes)),
            loaded(results),
        ) == LoraView::<E>::Done(
            Ok(
                exists|i: int|
                    0 <= i < results.len() && #[trigger] results[i] == Ok::<bool, ErrorView<E>>(
                        true,
                    ),
            ),
        ),
{
    lemma_loads_in_turn(batch, sizes, results);
}

/// Each model is loaded in its turn: as long as the loads before it have succeeded, model
/// `results.len()` is what the load waits for.
pub proof fn law_loras_load_in_turn<E>(
    batch: BatchView,
    sizes: Seq<u64>,
    results: Seq<Result<bool, ErrorView<E>>>,
)
    requires
        sum_of(sizes) <= batch.memory_limit,
        results.len() < batch.names.len(),
        forall|i: int| 0 <= i < results.len() ==> #[trigger] results[i] is Ok,
    ensures
        after_all(
            LoraView::<E>::Measuring(batch).after(LoraEventView::Measured(sizes)),
            loaded(results),
        ).action() == Some(LoraActionView::Load(batch.request(results.len() as int))),
{
    lemma_loads_in_turn(batch, sizes, results);
}

/// The first model that cannot be loaded ends the load with its failure, whatever would have come
/// of the models behind it.
pub proof fn law_loras_end_at_first_failure<E>(
    batch: BatchView,
    sizes: Seq<u64>,
    results: Seq<Result<bool, ErrorView<E>>>,
    e: ErrorView<E>,
    rest: Seq<LoraEventView<E>>,
)
    requires
        sum_of(sizes) <= batch.memory_limit,
        results.len() < batch.names.len(),
        forall|i: int| 0 <= i < results.len() ==> #[trigger] results[i] is Ok,
    ensures
        after_all(
            LoraView::<E>::Measuring(batch).after(LoraEventView::Measured(sizes)),
            loaded(results).push(LoraEventView::Loaded(Err(e))) + rest,
        ) == LoraView::<E>::Done(Err(e)),
    decreases rest.len(),
{
    let events = loaded(results).push(LoraEventView::<E>::Loaded(Err(e)));
    if rest.len() == 0 {
        assert(events + rest =~= events);
        assert(events.drop_last() =~= loaded(results));
        lemma_loads_in_turn(batch, sizes, results);
    } else {
        law_loras_end_at_first_failure(batch, sizes, results, e, rest.drop_last());
        assert((events + rest).drop_last() =~= events + rest.drop_last());
    }
}

/// LoRA models that are together larger than the room for them are refused, and none of them is
/// loaded.
pub proof fn law_too_large_loras_are_refused<E>(
    batch: BatchView,
    sizes: Seq<u64>,
    rest: Seq<LoraEventView<E>>,
)
    requires
        sum_of(sizes) > batch.memory_limit,
    ensures
        after_all(
            LoraView::<E>::Measuring(batch).after(LoraEventView::Measured(sizes)),
            rest,
        ) == LoraView::<E>::Done(Err(ErrorView::Type(loras_too_large_text()))),
    decreases rest.len(),
{
    if rest.len() > 0 {
        law_too_large_loras_are_refused(batch, sizes, rest.drop_last());
    }
}

/// Where a model is named and the plugin is initialized, a checkpoint is looked for under its name
/// in the directory `checkpoints`, and is loaded with the room, the disk and the memory that are
/// configured.
pub proof fn law_checkpoint_is_loaded_as_configured<P, E>(config: &Config, model_name: Seq<char>)
    requires
        model_name.len() > 0,
        model_name != "None"@,
        config.models_config.checkpoints_memory_limit * 1024 * 1024 * 1024 <= u64::MAX,
    ensures
        checkpoint_can_begin(Some(config), model_name),
        ({
            let load = checkpoint_load::<P, E>(Some(config), model_name);
            &&& load matches LoadView::Pending(request, StepView::Probe) && {
                &&& request.disk_path == config.models_config.model_path@
                &&& request.memory_disk_path == config.models_config.model_memory_path@
                &&& request.model_parent_path == "checkpoints"@
                &&& request.model_name == model_name
                &&& request.memory_limit == config.models_config.checkpoints_memory_limit * 1024
                    * 1024 * 1024
            }
            &&& load.action() == Some(
                ActionView::<P>::Probe(
                    LocationView {
                        base: config.models_config.model_memory_path@,
                        parts: seq!["checkpoints"@, model_name],
                    },
                ),
            )
        }),
{
}

/// An empty name and the name `None` stand for no model: nothing is loaded, whatever is configured.
/// Any other checkpoint needs a plugin that is initialized.
pub proof fn law_checkpoint_that_is_not_loaded<P, E>(
    config: Option<&Config>,
    model_name: Seq<char>,
)
    ensures
        model_name.len() == 0 || model_name == "None"@ ==> checkpoint_can_begin(config, model_name)
            && checkpoint_load::<P, E>(config, model_name) == LoadView::<P, E>::Done(Ok(false)),
        model_name.len() > 0 && model_name != "None"@ && config is None ==> checkpoint_can_begin(
            config,
            model_name,
        ) && checkpoint_load::<P, E>(config, model_name) == LoadView::<P, E>::Done(
            Err(ErrorView::Type("fooocus plugin is not initialized"@)),
        ),
{
}

/// The sum of sizes: none come to nothing, one comes to itself, and two groups add up.
pub proof fn law_sizes_add_up(first: Seq<u64>, size: u64, second: Seq<u64>)
    ensures
        sum_of(Seq::<u64>::empty()) == 0,
        sum_of(seq![size]) == size,
        sum_of(first + second) == sum_of(first) + sum_of(second),
    decreases second.len(),
{
    assert(seq![size].drop_last() =~= Seq::empty());
    assert(sum_of(seq![size].drop_last()) == 0);
    if second.len() == 0 {
        assert(first + second =~= first);
    } else {
        law_sizes_add_up(first, size, second.drop_last());
        assert((first + second).drop_last() =~= first + second.drop_last());
    }
}

/// The files of all models of a call are measured, each in the directory `loras` of the configured
/// disk, in the order of their names.
pub proof fn law_all_loras_are_measured<E>(config: &Config, names: Seq<Seq<char>>)
    requires
        config.models_config.loras_memory_limit * 1024 * 1024 * 1024 <= u64::MAX,
    ensures
        loras_can_begin(Some(config)),
        LoraView::<E>::begin(Some(config), names).action() matches Some(LoraActionView::Measure(
            places,
        )) && {
            &&& places.len() == names.len()
            &&& forall|i: int|
                0 <= i < names.len() ==> #[trigger] places[i] == (LocationView {
                    base: config.models_config.model_path@,
                    parts: seq!["loras"@, names[i]],
                })
        },
{
}

/// Where the models of a call fit together into the configured room, each is loaded in its turn:
/// behind `results.len()` successful loads the model of that number is loaded, with the configured
/// disk, memory and room, and behind the last one the call tells whether any file was copied.
pub proof fn law_all_loras_are_loaded<E>(
    config: &Config,
    names: Seq<Seq<char>>,
    sizes: Seq<u64>,
    results: Seq<Result<bool, ErrorView<E>>>,
)
    requires
        config.models_config.loras_memory_limit * 1024 * 1024 * 1024 <= u64::MAX,
        sum_of(sizes) <= config.models_config.loras_memory_limit * 1024 * 1024 * 1024,
        results.len() <= names.len(),
        forall|i: int| 0 <= i < results.len() ==> #[trigger] results[i] is Ok,
    ensures
        ({
            let load = after_all(
                LoraView::<E>::begin(Some(config), names).after(LoraEventView::Measured(sizes)),
                loaded(results),
            );
            if results.len() < names.len() {
                load.action() == Some(
                    LoraActionView::Load(
                        RequestView {
                            disk_path: config.models_config.model_path@,
                            memory_disk_path: config.models_config.model_memory_path@,
                            model_parent_path: "loras"@,
                            model_name: names[results.len() as int],
                            memory_limit: (config.models_config.loras_memory_limit * 1024 * 1024
                                * 1024) as u64,
                        },
                    ),
                )
            } else {
                load == LoraView::<E>::Done(
                    Ok(
                        exists|i: int|
                            0 <= i < results.len() && #[trigger] results[i] == Ok::<
                                bool,
                                ErrorView<E>,
                            >(true),
                    ),
                )
            }
        }),
{
    let limit = (config.models_config.loras_memory_limit * 1024 * 1024 * 1024) as u64;
    let batch = BatchView {
        disk_path: config.models_config.model_path@,
        memory_disk_path: config.models_config.model_memory_path@,
        names,
        memory_limit: limit,
    };
    assert(LoraView::<E>::begin(Some(config), names) == LoraView::<E>::Measuring(batch));
    lemma_loads_in_turn(batch, sizes, results);
}

/// The first model of a call that cannot be loaded ends it with that failure, and models that are
/// together larger than the configured room are refused; whatever comes then, no model is loaded.
pub proof fn law_lora_call_fails<E>(
    config: &Config,
    names: Seq<Seq<char>>,
    sizes: Seq<u64>,
    results: Seq<Result<bool, ErrorView<E>>>,
    e: ErrorView<E>,
    rest: Seq<LoraEventView<E>>,
)
    requires
        config.models_config.loras_memory_limit * 1024 * 1024 * 1024 <= u64::MAX,
        results.len() < names.len(),
        forall|i: int| 0 <= i < results.len() ==> #[trigger] results[i] is Ok,
    ensures
        sum_of(sizes) <= config.models_config.loras_memory_limit * 1024 * 1024 * 1024 ==> after_all(
            LoraView::<E>::begin(Some(config), names).after(LoraEventView::Measured(sizes)),
            loaded(results).push(LoraEventView::Loaded(Err(e))) + rest,
        ) == LoraView::<E>::Done(Err(e)),
        sum_of(sizes) > config.models_config.loras_memory_limit * 1024 * 1024 * 1024 ==> after_all(
            LoraView::<E>::begin(Some(config), names).after(LoraEventView::Measured(sizes)),
            rest,
        ) == LoraView::<E>::Done(Err(ErrorView::Type("lora model size > memory limit"@))),
{
    let limit = (config.models_config.loras_memory_limit * 1024 * 1024 * 1024) as u64;
    let batch = BatchView {
        disk_path: config.models_config.model_path@,
        memory_disk_path: config.models_config.model_memory_path@,
        names,
        memory_limit: limit,
    };
    assert(LoraView::<E>::begin(Some(config), names) == LoraView::<E>::Measuring(batch));
    if sum_of(sizes) <= limit {
        law_loras_end_at_first_failure(batch, sizes, results, e, rest);
    } else {
        law_too_large_loras_are_refused(batch, sizes, rest);
    }
}

/// The number of successful loads among `events`.
pub open spec fn successes<E>(events: Seq<LoraEventView<E>>) -> nat
    decreases events.len(),
{
    if events.len() == 0 {
        0
    } else {
        successes(events.drop_last()) + if events.last() matches LoraEventView::Loaded(Ok(_)) {
            1nat
        } else {
            0nat
        }
    }
}

/// Whatever comes, a call succeeds only behind as many successful loads as it names models.
pub proof fn law_lora_call_succeeds_behind_all_loads<E>(
    config: &Config,
    names: Seq<Seq<char>>,
    events: Seq<LoraEventView<E>>,
)
    ensures
        after_all(LoraView::<E>::begin(Some(config), names), events) matches LoraView::Done(Ok(_))
            ==> successes(events) >= names.len(),
{
    lemma_successes(config, names, events);
}

/// No model is passed over without a successful load.
proof fn lemma_successes<E>(
    config: &Config,
    names: Seq<Seq<char>>,
    events: Seq<LoraEventView<E>>,
)
    ensures
        match after_all(LoraView::<E>::begin(Some(config), names), events) {
            LoraView::Measuring(batch) => batch.names == names,
            LoraView::Loading { batch, next, .. } => batch.names == names && next <= successes(
                events,
            ),
            LoraView::Done(result) => result is Ok ==> successes(events) >= names.len(),
        },
    decreases events.len(),
{
    if events.len() > 0 {
        lemma_successes(config, names, events.drop_last());
    }
}

/// A call before the plugin is initialized is refused. Without a configuration there is no limit
/// that could not be counted.
pub proof fn law_lora_call_needs_a_configuration<E>(names: Seq<Seq<char>>)
    ensures
        loras_can_begin(None),
        LoraView::<E>::begin(None, names) == LoraView::<E>::Done(
            Err(ErrorView::Type("fooocus plugin is not initialized"@)),
        ),
{
}

/// An outcome of what a load of LoRA models does not wait for changes nothing, and only sizes whose
/// sum cannot be counted are not admitted.
pub proof fn law_lora_load_takes_what_it_waits_for<E>(
    load: LoraView<E>,
    event: LoraEventView<E>,
)
    ensures
        match (load.action(), event) {
            (Some(LoraActionView::Measure(_)), LoraEventView::Measured(sizes)) => load.admits(event)
                == (sum_of(sizes) <= u64::MAX),
            (Some(LoraActionView::Load(_)), LoraEventView::Loaded(_)) => load.admits(event),
            _ => load.admits(event) && load.after(event) == load,
        },
{
}

} // verus!
