//! Which models a call loads.
use fooocus_plugin::caches::{load_model_caches, CacheLoading, CacheStep};
use fooocus_plugin::config::{
    checked_bytes, Config, ModelsConfig, ServiceConfig, TranslatorConfig,
};
use fooocus_plugin::error::PluginError;
use fooocus_plugin::loading::{LoadStep, Loading};
use fooocus_plugin::models::{
    checked_sum, load_checkpoint_model, load_lora_models, LoraAction, LoraEvent, LoraLoading,
};

type Load = Loading<(), &'static str>;
type Loras = LoraLoading<&'static str>;
type Caches = CacheLoading<&'static str>;

fn config() -> Config {
    Config {
        nacos_service_config: ServiceConfig {
            server_addr: "server".to_string(),
            username: "user".to_string(),
            password: "word".to_string(),
            namespace: "space".to_string(),
        },
        translator_config: TranslatorConfig::LibreTranslate { api: "api".to_string() },
        models_config: ModelsConfig {
            model_memory_path: "/memory".to_string(),
            model_path: "/disk".to_string(),
            checkpoints_memory_limit: 3,
            loras_memory_limit: 1,
        },
    }
}

fn names(list: &[&str]) -> Vec<String> {
    list.iter().map(|name| name.to_string()).collect()
}

fn is_not_initialized(e: &PluginError<&'static str>) -> bool {
    match e {
        PluginError::Type(text) => text == "fooocus plugin is not initialized",
        PluginError::Os(_) => false,
    }
}

#[test]
fn checkpoint_is_loaded_with_the_room_for_checkpoints() {
    let config: Config = config();
    let load: Load = load_checkpoint_model(Some(&config), "a.safetensors");
    match load {
        Loading::Pending(request, LoadStep::Probe) => {
            assert_eq!(request.disk_path, "/disk");
            assert_eq!(request.memory_disk_path, "/memory");
            assert_eq!(request.model_parent_path, "checkpoints");
            assert_eq!(request.model_name, "a.safetensors");
            assert_eq!(request.memory_limit, 3221225472);
        }
        _ => panic!("no load has begun"),
    }
}

#[test]
fn no_model_is_loaded_where_none_is_named() {
    let config: Config = config();
    for name in ["", "None"] {
        let load: Load = load_checkpoint_model(Some(&config), name);
        assert!(matches!(load, Loading::Done(Ok(false))));
        let load: Load = load_checkpoint_model(None, name);
        assert!(matches!(load, Loading::Done(Ok(false))));
    }
    let load: Load = load_checkpoint_model(Some(&config), "none");
    assert!(matches!(load, Loading::Pending(_, _)));
}

#[test]
fn nothing_is_loaded_before_the_plugin_is_initialized() {
    let load: Load = load_checkpoint_model(None, "a");
    match load {
        Loading::Done(Err(e)) => assert!(is_not_initialized(&e)),
        _ => panic!("not refused"),
    }
    let load: Loras = load_lora_models(None, names(&["a"]));
    match load {
        LoraLoading::Done(Err(e)) => assert!(is_not_initialized(&e)),
        _ => panic!("not refused"),
    }
    let load: Caches = load_model_caches(None);
    match load {
        CacheLoading::Done(Err(e)) => assert!(is_not_initialized(&e)),
        _ => panic!("not refused"),
    }
}

#[test]
fn limits_are_counted_in_gibibytes() {
    assert_eq!(checked_bytes(0), Some(0));
    assert_eq!(checked_bytes(1), Some(1073741824));
    assert_eq!(checked_bytes(17179869183), Some(18446744072635809792));
    assert_eq!(checked_bytes(17179869184), None);
}

#[test]
fn sums_are_checked() {
    assert_eq!(checked_sum(&vec![]), Some(0));
    assert_eq!(checked_sum(&vec![1, 2, 3]), Some(6));
    assert_eq!(checked_sum(&vec![u64::MAX, 0]), Some(u64::MAX));
    assert_eq!(checked_sum(&vec![u64::MAX, 1]), None);
}

fn measured(list: &[&str], sizes: Vec<u64>) -> Loras {
    let config: Config = config();
    let load: Loras = load_lora_models(Some(&config), names(list));
    match load.action() {
        Some(LoraAction::Measure(places)) => {
            assert_eq!(places.len(), list.len());
            for (place, name) in places.iter().zip(list) {
                assert_eq!(place.base, "/disk");
                assert_eq!(place.parts, vec!["loras".to_string(), name.to_string()]);
            }
        }
        _ => panic!("the sizes are not asked for"),
    }
    let event: LoraEvent<&'static str> = LoraEvent::Measured(sizes);
    assert!(load.admits(&event));
    load.step(event)
}

fn next_name(load: &Loras) -> String {
    match load.action() {
        Some(LoraAction::Load(request)) => {
            assert_eq!(request.disk_path, "/disk");
            assert_eq!(request.memory_disk_path, "/memory");
            assert_eq!(request.model_parent_path, "loras");
            assert_eq!(request.memory_limit, 1073741824);
            request.model_name
        }
        _ => panic!("no model is to be loaded"),
    }
}

#[test]
fn loras_are_loaded_in_turn_and_tell_of_any_update() {
    let load: Loras = measured(&["a", "b", "c"], vec![1073741822, 1, 1]);
    assert_eq!(next_name(&load), "a");
    let load: Loras = load.step(LoraEvent::Loaded(Ok(false)));
    assert_eq!(next_name(&load), "b");
    let load: Loras = load.step(LoraEvent::Loaded(Ok(true)));
    assert_eq!(next_name(&load), "c");
    let load: Loras = load.step(LoraEvent::Loaded(Ok(false)));
    assert!(matches!(load, LoraLoading::Done(Ok(true))));
}

#[test]
fn loras_without_an_update_tell_so() {
    let load: Loras = measured(&["a", "b"], vec![1, 1]);
    let load: Loras = load.step(LoraEvent::Loaded(Ok(false)));
    let load: Loras = load.step(LoraEvent::Loaded(Ok(false)));
    assert!(matches!(load, LoraLoading::Done(Ok(false))));
    assert!(matches!(measured(&[], vec![]), LoraLoading::Done(Ok(false))));
}

#[test]
fn loras_end_at_the_first_failure() {
    let load: Loras = measured(&["a", "b", "c"], vec![1, 1, 1]);
    let load: Loras = load.step(LoraEvent::Loaded(Ok(true)));
    let load: Loras = load.step(LoraEvent::Loaded(Err(PluginError::Os("broken"))));
    assert!(load.action().is_none());
    let load: Loras = load.step(LoraEvent::Loaded(Ok(true)));
    assert!(matches!(load, LoraLoading::Done(Err(PluginError::Os("broken")))));
}

#[test]
fn loras_that_are_too_large_together_are_refused() {
    let load: Loras = measured(&["a", "b"], vec![1073741824, 1]);
    match load {
        LoraLoading::Done(Err(PluginError::Type(text))) => {
            assert_eq!(text, "lora model size > memory limit")
        }
        _ => panic!("not refused"),
    }
}

#[test]
fn loras_whose_sizes_cannot_be_added_up_are_not_admitted() {
    let config: Config = config();
    let load: Loras = load_lora_models(Some(&config), names(&["a", "b"]));
    assert!(!load.admits(&LoraEvent::Measured(vec![u64::MAX, 1])));
}

/// Writes a step down in a line.
fn say(step: &CacheStep) -> String {
    match step {
        CacheStep::CreateDir(place) => format!("create {} {:?}", place.base, place.parts),
        CacheStep::LoadCheckpoint(name) => format!("checkpoint {}", name),
        CacheStep::LoadLoras(names) => format!("loras {:?}", names),
        CacheStep::Lock(place) => format!("lock {} {:?}", place.base, place.parts),
        CacheStep::CopyTree { from, to } => {
            format!("copy {} {:?} {} {:?}", from.base, from.parts, to.base, to.parts)
        }
    }
}

#[test]
fn cache_steps_come_in_their_order() {
    let config: Config = config();
    let mut load: Caches = load_model_caches(Some(&config));
    let mut said: Vec<String> = Vec::new();
    while let Some(step) = load.action() {
        said.push(say(step));
        load = load.step(Ok(()));
    }
    assert!(matches!(load, CacheLoading::Done(Ok(()))));
    assert_eq!(
        said,
        vec![
            "create /memory []",
            "create /memory [\"checkpoints\"]",
            "create /memory [\"loras\"]",
            "checkpoint juggernautXL_version6Rundiffusion.safetensors",
            "loras [\"sd_xl_offset_example-lora_1.0.safetensors\"]",
            "lock /memory [\"fooocus_lock\"]",
            "copy /disk [\"embeddings\"] /memory [\"embeddings\"]",
            "copy /disk [\"vae_approx\"] /memory [\"vae_approx\"]",
            "copy /disk [\"upscale_models\"] /memory [\"upscale_models\"]",
            "copy /disk [\"inpaint\"] /memory [\"inpaint\"]",
            "copy /disk [\"controlnet\"] /memory [\"controlnet\"]",
            "copy /disk [\"clip_vision\"] /memory [\"clip_vision\"]",
            "copy /disk [\"prompt_expansion/fooocus_expansion\"] /memory [\"prompt_expansion/fooocus_expansion\"]",
        ]
    );
}

#[test]
fn cache_loading_holds_the_lock_from_its_step_to_the_end() {
    let config: Config = config();
    let mut load: Caches = load_model_caches(Some(&config));
    let mut held: Vec<bool> = Vec::new();
    while let Some(step) = load.action() {
        let copies: bool = matches!(step, CacheStep::CopyTree { .. });
        assert_eq!(load.holds_lock(), copies);
        held.push(load.holds_lock());
        load = load.step(Ok(()));
    }
    assert_eq!(held.iter().filter(|held| **held).count(), 7);
    assert!(!load.holds_lock());
}

#[test]
fn cache_loading_that_fails_gives_the_lock_back() {
    let config: Config = config();
    let mut load: Caches = load_model_caches(Some(&config));
    for _ in 0..6 {
        assert!(!load.holds_lock());
        load = load.step(Ok(()));
    }
    assert!(load.holds_lock());
    load = load.step(Err(PluginError::Os("full")));
    assert!(!load.holds_lock());
    let mut load: Caches = load_model_caches(Some(&config));
    for _ in 0..5 {
        load = load.step(Ok(()));
    }
    load = load.step(Err(PluginError::Type("no lock".to_string())));
    assert!(!load.holds_lock());
    let load: Caches = load_model_caches(None);
    assert!(!load.holds_lock());
}

#[test]
fn cache_loading_ends_at_the_first_failure() {
    let config: Config = config();
    let load: Caches = load_model_caches(Some(&config));
    let load: Caches = load.step(Ok(()));
    let load: Caches = load.step(Err(PluginError::Os("full")));
    assert!(load.action().is_none());
    let load: Caches = load.step(Ok(()));
    assert!(matches!(load, CacheLoading::Done(Err(PluginError::Os("full")))));
}
