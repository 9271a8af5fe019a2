//! Bringing into memory, at a start, the models that every start needs.
use vstd::prelude::*;

use crate::config::Config;
use crate::error::{not_initialized, not_initialized_text, outcome, ErrorView, PluginError};
use crate::loading::{lock_location, lock_place};
use crate::location::{texts, Location, LocationView};

verus! {

/// One thing to do so that the models which every start needs are in memory.
#[derive(Debug)]
pub enum CacheStep {
    /// Create a directory and those above it, where they are missing.
    CreateDir(Location),
    /// Load a checkpoint.
    LoadCheckpoint(String),
    /// Load LoRA models.
    LoadLoras(Vec<String>),
    /// Take the lock of the memory directory and keep it to the end.
    Lock(Location),
    /// Copy what is missing of a directory from one place to another.
    CopyTree { from: Location, to: Location },
}

/// What a [`CacheStep`] says.
pub enum CacheStepView {
    CreateDir(LocationView),
    LoadCheckpoint(Seq<char>),
    LoadLoras(Seq<Seq<char>>),
    Lock(LocationView),
    CopyTree { from: LocationView, to: LocationView },
}

impl View for CacheStep {
    type V = CacheStepView;

    open spec fn view(&self) -> CacheStepView {
        match self {
            CacheStep::CreateDir(place) => CacheStepView::CreateDir(place@),
            CacheStep::LoadCheckpoint(name) => CacheStepView::LoadCheckpoint(name@),
            CacheStep::LoadLoras(names) => CacheStepView::LoadLoras(texts(names@)),
            CacheStep::Lock(place) => CacheStepView::Lock(place@),
            CacheStep::CopyTree { from, to } => CacheStepView::CopyTree { from: from@, to: to@ },
        }
    }
}

/// The directory `part` below `base`.
pub open spec fn directory(base: Seq<char>, part: Seq<char>) -> LocationView {
    LocationView { base, parts: seq![part] }
}

/// The copy of the directory `part` from disk to memory.
pub open spec fn tree_copy(disk: Seq<char>, memory: Seq<char>, part: Seq<char>) -> CacheStepView {
    CacheStepView::CopyTree { from: directory(disk, part), to: directory(memory, part) }
}

/// What is done, in this order, so that the models which every start needs are in memory.
pub open spec fn cache_plan(disk: Seq<char>, memory: Seq<char>) -> Seq<CacheStepView> {
    seq![
        CacheStepView::CreateDir(LocationView { base: memory, parts: Seq::empty() }),
        CacheStepView::CreateDir(directory(memory, "checkpoints"@)),
        CacheStepView::CreateDir(directory(memory, "loras"@)),
        CacheStepView::LoadCheckpoint("juggernautXL_version6Rundiffusion.safetensors"@),
        CacheStepView::LoadLoras(seq!["sd_xl_offset_example-lora_1.0.safetensors"@]),
        CacheStepView::Lock(lock_place(memory)),
        tree_copy(disk, memory, "embeddings"@),
        tree_copy(disk, memory, "vae_approx"@),
        tree_copy(disk, memory, "upscale_models"@),
        tree_copy(disk, memory, "inpaint"@),
        tree_copy(disk, memory, "controlnet"@),
        tree_copy(disk, memory, "clip_vision"@),
        tree_copy(disk, memory, "prompt_expansion/fooocus_expansion"@),
    ]
}

/// The directory `model_parent_path` in memory, to be created where it is missing.
pub fn create_dic(memory_path: &str, model_parent_path: &str) -> (step: CacheStep)
    ensures
        step@ == CacheStepView::CreateDir(directory(memory_path@, model_parent_path@)),
        step matches CacheStep::CreateDir(place) && place@ == (LocationView {
            base: memory_path@,
            parts: seq![model_parent_path@],
        }),
{
    let place = Location::root(memory_path).join(model_parent_path);
    assert(place@.parts =~= seq![model_parent_path@]);
    CacheStep::CreateDir(place)
}

/// The copy of the directory `model_parent_path` from disk to memory.
pub fn copy_models(memory_path: &str, disk_path: &str, model_parent_path: &str) -> (step: CacheStep)
    ensures
        step@ == tree_copy(disk_path@, memory_path@, model_parent_path@),
        step matches CacheStep::CopyTree { from, to } && {
            &&& from@ == (LocationView { base: disk_path@, parts: seq![model_parent_path@] })
            &&& to@ == (LocationView { base: memory_path@, parts: seq![model_parent_path@] })
        },
{
    let from = Location::root(disk_path).join(model_parent_path);
    let to = Location::root(memory_path).join(model_parent_path);
    assert(from@.parts =~= seq![model_parent_path@]);
    assert(to@.parts =~= seq![model_parent_path@]);
    CacheStep::CopyTree { from, to }
}

/// The loading of the models that every start needs.
#[derive(Debug)]
pub enum CacheLoading<E> {
    /// Step `next` of `plan` is to be done.
    Running { plan: Vec<CacheStep>, next: usize },
    /// The loading has ended.
    Done(Result<(), PluginError<E>>),
}

/// What a [`CacheLoading`] says.
pub enum CacheView<E> {
    Running { plan: Seq<CacheStepView>, next: int },
    Done(Result<(), ErrorView<E>>),
}

/// What a sequence of steps says.
pub open spec fn plan_view(plan: Seq<CacheStep>) -> Seq<CacheStepView> {
    plan.map_values(|s: CacheStep| s@)
}

impl<E> View for CacheLoading<E> {
    type V = CacheView<E>;

    open spec fn view(&self) -> CacheView<E> {
        match self {
            CacheLoading::Running { plan, next } => CacheView::Running {
                plan: plan_view(plan@),
                next: *next as int,
            },
            CacheLoading::Done(result) => CacheView::Done(outcome(*result)),
        }
    }
}

impl<E> CacheView<E> {
    /// What the loading begins with.
    pub open spec fn begin(config: Option<&Config>) -> CacheView<E> {
        match config {
            None => CacheView::Done(Err(ErrorView::Type(not_initialized_text()))),
            Some(c) => CacheView::Running {
                plan: cache_plan(c.models_config.model_path@, c.models_config.model_memory_path@),
                next: 0,
            },
        }
    }

    /// What holds of every loading: while it goes on, there is a step to do.
    pub open spec fn wf(self) -> bool {
        match self {
            CacheView::Running { plan, next } => 0 <= next < plan.len(),
            CacheView::Done(_) => true,
        }
    }

    /// The step that is to be done.
    pub open spec fn action(self) -> Option<CacheStepView> {
        match self {
            CacheView::Running { plan, next } => Some(plan[next]),
            CacheView::Done(_) => None,
        }
    }

    /// Whether the loading works under the lock of the memory directory: the step that takes the
    /// lock was done, and the loading has not ended.
    pub open spec fn holds_lock(self) -> bool {
        match self {
            CacheView::Running { plan, next } => exists|k: int|
                0 <= k < next && #[trigger] plan[k] is Lock,
            CacheView::Done(_) => false,
        }
    }

    /// What the loading becomes when the step was done or has failed.
    pub open spec fn after(self, result: Result<(), ErrorView<E>>) -> CacheView<E> {
        match self {
            CacheView::Running { plan, next } => match result {
                Ok(_) => if next + 1 < plan.len() {
                    CacheView::Running { plan, next: next + 1 }
                } else {
                    CacheView::Done(Ok(()))
                },
                Err(e) => CacheView::Done(Err(e)),
            },
            CacheView::Done(_) => self,
        }
    }

    /// What the loading becomes as the outcomes of one step after the other come.
    pub open spec fn after_all(self, results: Seq<Result<(), ErrorView<E>>>) -> CacheView<E>
        decreases results.len(),
    {
        if results.len() == 0 {
            self
        } else {
            self.after_all(results.drop_last()).after(results.last())
        }
    }
}

/// Begins to load the models that every start needs.
pub fn load_model_caches<E>(config: Option<&Config>) -> (load: CacheLoading<E>)
    ensures
        load@ == CacheView::<E>::begin(config),
        load@.wf(),
{
    match config {
        None => CacheLoading::Done(Err(not_initialized())),
        Some(c) => {
            let disk = c.models_config.model_path.as_str();
            let memory = c.models_config.model_memory_path.as_str();
            let mut names: Vec<String> = Vec::new();
            names.push("sd_xl_offset_example-lora_1.0.safetensors".to_owned());
            assert(texts(names@) =~= seq!["sd_xl_offset_example-lora_1.0.safetensors"@]);
            let mut plan: Vec<CacheStep> = Vec::new();
            plan.push(CacheStep::CreateDir(Location::root(memory)));
            plan.push(create_dic(memory, "checkpoints"));
            plan.push(create_dic(memory, "loras"));
            plan.push(
                CacheStep::LoadCheckpoint(
                    "juggernautXL_version6Rundiffusion.safetensors".to_owned(),
                ),
            );
            plan.push(CacheStep::LoadLoras(names));
            plan.push(CacheStep::Lock(lock_location(memory)));
            plan.push(copy_models(memory, disk, "embeddings"));
            plan.push(copy_models(memory, disk, "vae_approx"));
            plan.push(copy_models(memory, disk, "upscale_models"));
            plan.push(copy_models(memory, disk, "inpaint"));
            plan.push(copy_models(memory, disk, "controlnet"));
            plan.push(copy_models(memory, disk, "clip_vision"));
            plan.push(copy_models(memory, disk, "prompt_expansion/fooocus_expansion"));
            assert(plan_view(plan@) =~= cache_plan(disk@, memory@));
            CacheLoading::Running { plan, next: 0 }
        },
    }
}

impl<E> CacheLoading<E> {
    /// The step that is to be done, or nothing once the loading has ended.
    pub fn action(&self) -> (step: Option<&CacheStep>)
        requires
            self@.wf(),
        ensures
            match step {
                Some(s) => self@.action() == Some(s@),
                None => self@.action() is None,
            },
            match (self, step) {
                (CacheLoading::Running { plan, next }, Some(s)) => *s == plan@[*next as int],
                (CacheLoading::Done(_), None) => true,
                _ => false,
            },
    {
        match self {
            CacheLoading::Running { plan, next } => Some(&plan[*next]),
            CacheLoading::Done(_) => None,
        }
    }

    /// Whether the loading works under the lock of the memory directory. The lock is given back as
    /// soon as it does not.
    pub fn holds_lock(&self) -> (held: bool)
        requires
            self@.wf(),
        ensures
            held == self@.holds_lock(),
    {
        match self {
            CacheLoading::Running { plan, next } => {
                let mut i: usize = 0;
                while i < *next
                    invariant
                        self@ == (CacheView::<E>::Running {
                            plan: plan_view(plan@),
                            next: *next as int,
                        }),
                        i <= *next < plan@.len(),
                        forall|k: int| 0 <= k < i ==> !(#[trigger] plan_view(plan@)[k] is Lock),
                    decreases *next - i,
                {
                    assert(plan_view(plan@)[i as int] == plan@[i as int]@);
                    if let CacheStep::Lock(_) = &plan[i] {
                        return true;
                    }
                    i = i + 1;
                }
                false
            },
            CacheLoading::Done(_) => false,
        }
    }

    /// Tells the loading whether the step was done. The first failure ends it.
    pub fn step(self, result: Result<(), PluginError<E>>) -> (load: CacheLoading<E>)
        requires
            self@.wf(),
        ensures
            load@ == self@.after(outcome(result)),
            load@.wf(),
            match self {
                CacheLoading::Running { plan, next } => match result {
                    Ok(_) => if next + 1 < plan@.len() {
                        load matches CacheLoading::Running { plan: p, next: n } && p == plan && n
                            == next + 1
                    } else {
                        load == CacheLoading::<E>::Done(Ok(()))
                    },
                    Err(e) => load == CacheLoading::<E>::Done(Err(e)),
                },
                CacheLoading::Done(_) => load == self,
            },
    {
        match self {
            CacheLoading::Running { plan, next } => match result {
                Ok(_) => {
                    assert(next < plan.len());
                    if next + 1 < plan.len() {
                        CacheLoading::Running { plan, next: next + 1 }
                    } else {
                        CacheLoading::Done(Ok(()))
                    }
                },
                Err(e) => CacheLoading::Done(Err(e)),
            },
            CacheLoading::Done(result) => CacheLoading::Done(result),
        }
    }
}

/// Each step is done in its turn as long as those before it succeed, and once all have succeeded
/// so has the loading.
pub proof fn law_cache_steps_run_in_turn<E>(
    config: &Config,
    results: Seq<Result<(), ErrorView<E>>>,
)
    requires
        results.len() <= cache_plan(
            config.models_config.model_path@,
            config.models_config.model_memory_path@,
        ).len(),
        forall|i: int| 0 <= i < results.len() ==> #[trigger] results[i] is Ok,
    ensures
        ({
            let plan = cache_plan(
                config.models_config.model_path@,
                config.models_config.model_memory_path@,
            );
            let load = CacheView::<E>::begin(Some(config)).after_all(results);
            if results.len() < plan.len() {
                load == CacheView::<E>::Running { plan, next: results.len() as int }
            } else {
                load == CacheView::<E>::Done(Ok(()))
            }
        }),
    decreases results.len(),
{
    if results.len() > 0 {
        law_cache_steps_run_in_turn(config, results.drop_last());
        assert(results[results.len() - 1] is Ok);
    }
}

/// The first step that fails ends the loading with its failure, and no later step is done.
pub proof fn law_cache_loading_ends_at_first_failure<E>(
    config: &Config,
    results: Seq<Result<(), ErrorView<E>>>,
    e: ErrorView<E>,
    rest: Seq<Result<(), ErrorView<E>>>,
)
    requires
        results.len() < cache_plan(
            config.models_config.model_path@,
            config.models_config.model_memory_path@,
        ).len(),
        forall|i: int| 0 <= i < results.len() ==> #[trigger] results[i] is Ok,
    ensures
        CacheView::<E>::begin(Some(config)).after_all(results.push(Err(e)) + rest)
            == CacheView::<E>::Done(Err(e)),
    decreases rest.len(),
{
    let events = results.push(Err(e));
    if rest.len() == 0 {
        assert(events + rest =~= events);
        assert(events.drop_last() =~= results);
        law_cache_steps_run_in_turn(config, results);
    } else {
        law_cache_loading_ends_at_first_failure(config, results, e, rest.drop_last());
        assert((events + rest).drop_last() =~= events + rest.drop_last());
    }
}

/// A loading that has not ended has done all the steps before the one it is at.
proof fn lemma_running_has_succeeded<E>(config: &Config, results: Seq<Result<(), ErrorView<E>>>)
    ensures
        ({
            let plan = cache_plan(
                config.models_config.model_path@,
                config.models_config.model_memory_path@,
            );
            let load = CacheView::<E>::begin(Some(config)).after_all(results);
            load is Running ==> {
                &&& load == CacheView::<E>::Running { plan, next: results.len() as int }
                &&& results.len() < plan.len()
                &&& forall|i: int| 0 <= i < results.len() ==> #[trigger] results[i] is Ok
            }
        }),
    decreases results.len(),
{
    if results.len() > 0 {
        let before = results.drop_last();
        lemma_running_has_succeeded(config, before);
        let load = CacheView::<E>::begin(Some(config)).after_all(results);
        if load is Running {
            assert forall|i: int| 0 <= i < results.len() implies #[trigger] results[i] is Ok by {
                if i < before.len() {
                    assert(before[i] is Ok);
                }
            }
        }
    }
}

/// Whether the loading was given the lock of the memory directory `memory` in one of the steps
/// whose outcomes are `results`, and has kept it since.
pub open spec fn locked_since<E>(
    start: CacheView<E>,
    memory: Seq<char>,
    results: Seq<Result<(), ErrorView<E>>>,
) -> bool {
    exists|k: int|
        {
            &&& 0 <= k < results.len()
            &&& start.after_all(results.take(k)).action() == Some(
                CacheStepView::Lock(lock_place(memory)),
            )
            &&& #[trigger] results[k] is Ok
            &&& forall|m: int|
                k < m <= results.len() ==> start.after_all(#[trigger] results.take(m)).holds_lock()
        }
}

/// Directories are copied only while the loading holds the lock, which it was given before and has
/// kept since.
pub proof fn law_directories_are_copied_under_lock<E>(
    config: &Config,
    results: Seq<Result<(), ErrorView<E>>>,
)
    requires
        CacheView::<E>::begin(Some(config)).after_all(results).action() matches Some(step)
            && step is CopyTree,
    ensures
        CacheView::<E>::begin(Some(config)).after_all(results).holds_lock(),
        locked_since(
            CacheView::<E>::begin(Some(config)),
            config.models_config.model_memory_path@,
            results,
        ),
{
    let memory = config.models_config.model_memory_path@;
    let plan = cache_plan(config.models_config.model_path@, memory);
    let start = CacheView::<E>::begin(Some(config));
    lemma_running_has_succeeded(config, results);
    assert(plan[5] == CacheStepView::Lock(lock_place(memory)));
    assert(results.len() > 5);
    law_cache_steps_run_in_turn(config, results.take(5));
    assert forall|m: int| 5 < m <= results.len() implies start.after_all(
        #[trigger] results.take(m),
    ).holds_lock() by {
        law_cache_steps_run_in_turn(config, results.take(m));
        assert(plan[5] is Lock);
    }
    assert(results.take(results.len() as int) =~= results);
    assert(results[5] is Ok);
}

/// A loading that holds the lock keeps it until it ends, and holds it no more once it has ended.
pub proof fn law_lock_is_kept_to_the_end<E>(load: CacheView<E>, result: Result<(), ErrorView<E>>)
    requires
        load.holds_lock(),
    ensures
        load.after(result).holds_lock() == load.after(result) is Running,
{
    match load {
        CacheView::Running { plan, next } => {
            let k = choose|k: int| 0 <= k < next && #[trigger] plan[k] is Lock;
            assert(plan[k] is Lock);
        },
        CacheView::Done(_) => {},
    }
}

/// What every start brings into memory: its directories are created, the first checkpoint and the
/// first LoRA model are loaded, the lock is taken, and the directories of all other models are
/// copied, each from the configured disk to the same place below the configured memory. As long as
/// all goes well, step `results.len()` of these is what the loading does, and behind the last one
/// it has succeeded.
pub proof fn law_start_brings_all_models<E>(
    config: &Config,
    results: Seq<Result<(), ErrorView<E>>>,
)
    requires
        results.len() <= 13,
        forall|i: int| 0 <= i < results.len() ==> #[trigger] results[i] is Ok,
    ensures
        ({
            let disk = config.models_config.model_path@;
            let memory = config.models_config.model_memory_path@;
            let load = CacheView::<E>::begin(Some(config)).after_all(results);
            let done = results.len();
            if done == 13 {
                load == CacheView::<E>::Done(Ok(()))
            } else {
                load.action() matches Some(step) && if done < 3 {
                    step == CacheStepView::CreateDir(
                        LocationView {
                            base: memory,
                            parts: if done == 0 {
                                seq![]
                            } else if done == 1 {
                                seq!["checkpoints"@]
                            } else {
                                seq!["loras"@]
                            },
                        },
                    )
                } else if done == 3 {
                    step == CacheStepView::LoadCheckpoint(
                        "juggernautXL_version6Rundiffusion.safetensors"@,
                    )
                } else if done == 4 {
                    step == CacheStepView::LoadLoras(
                        seq!["sd_xl_offset_example-lora_1.0.safetensors"@],
                    )
                } else if done == 5 {
                    step == CacheStepView::Lock(
                        LocationView { base: memory, parts: seq!["fooocus_lock"@] },
                    )
                } else {
                    step matches CacheStepView::CopyTree { from, to } && {
                        &&& from.base == disk
                        &&& to.base == memory
                        &&& from.parts == to.parts
                        &&& to.parts == seq![
                            seq![
                                "embeddings"@,
                                "vae_approx"@,
                                "upscale_models"@,
                                "inpaint"@,
                                "controlnet"@,
                                "clip_vision"@,
                                "prompt_expansion/fooocus_expansion"@,
                            ][done - 6],
                        ]
                    }
                }
            }
        }),
{
    law_cache_steps_run_in_turn(config, results);
}

/// A start before the plugin is initialized is refused, and the first step that fails ends it with
/// that failure, whatever comes then.
pub proof fn law_start_fails<E>(
    config: &Config,
    results: Seq<Result<(), ErrorView<E>>>,
    e: ErrorView<E>,
    rest: Seq<Result<(), ErrorView<E>>>,
)
    requires
        results.len() < 13,
        forall|i: int| 0 <= i < results.len() ==> #[trigger] results[i] is Ok,
    ensures
        CacheView::<E>::begin(None) == CacheView::<E>::Done(
            Err(ErrorView::Type("fooocus plugin is not initialized"@)),
        ),
        CacheView::<E>::begin(Some(config)).after_all(results.push(Err(e)) + rest)
            == CacheView::<E>::Done(Err(e)),
{
    law_cache_loading_ends_at_first_failure(config, results, e, rest);
}

/// The loading holds the lock while it copies directories, and at no other time.
pub proof fn law_lock_is_held_for_the_copies<E>(
    config: Option<&Config>,
    results: Seq<Result<(), ErrorView<E>>>,
)
    ensures
        ({
            let load = CacheView::<E>::begin(config).after_all(results);
            load.holds_lock() <==> (load.action() matches Some(step) && step is CopyTree)
        }),
{
    match config {
        Some(c) => {
            let load = CacheView::<E>::begin(config).after_all(results);
            let memory = c.models_config.model_memory_path@;
            let plan = cache_plan(c.models_config.model_path@, memory);
            lemma_running_has_succeeded(c, results);
            if load is Running {
                assert(plan[5] is Lock);
                assert forall|k: int| 0 <= k < 5 implies !(#[trigger] plan[k] is Lock) by {}
            }
        },
        None => {
            lemma_refused_stays::<E>(results);
        },
    }
}

/// A loading that was refused at once stays refused.
proof fn lemma_refused_stays<E>(results: Seq<Result<(), ErrorView<E>>>)
    ensures
        CacheView::<E>::begin(None).after_all(results) is Done,
    decreases results.len(),
{
    if results.len() > 0 {
        lemma_refused_stays::<E>(results.drop_last());
    }
}

} // verus!
