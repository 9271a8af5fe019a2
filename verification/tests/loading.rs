//! Loads of single models.
use fooocus_plugin::error::PluginError;
use fooocus_plugin::items::{has_failure, listed_size, search_models, Entry, Item};
use fooocus_plugin::loading::{LoadAction, LoadEvent, LoadRequest, Loading};
use fooocus_plugin::location::Location;

type Load = Loading<&'static str, &'static str>;
type Event = LoadEvent<&'static str, &'static str>;
type Listing = Vec<Result<Entry<&'static str>, &'static str>>;

fn request(limit: u64) -> LoadRequest {
    LoadRequest {
        disk_path: "/disk".to_string(),
        memory_disk_path: "/memory".to_string(),
        model_parent_path: "checkpoints".to_string(),
        model_name: "a.safetensors".to_string(),
        memory_limit: limit,
    }
}

fn file(name: &'static str, access_time: i128, file_size: u64) -> Result<
    Entry<&'static str>,
    &'static str,
> {
    Ok(Entry::File(Item { model_path: name, access_time, file_size }))
}

/// Writes an operation down in a line.
fn say(action: Option<LoadAction<'_, &'static str>>) -> String {
    fn path(place: &Location) -> String {
        let mut text: String = place.base.clone();
        for part in &place.parts {
            text.push('/');
            text.push_str(part);
        }
        text
    }
    match action {
        None => "end".to_string(),
        Some(LoadAction::Probe(place)) => format!("probe {}", path(&place)),
        Some(LoadAction::Lock(place)) => format!("lock {}", path(&place)),
        Some(LoadAction::Measure(place)) => format!("measure {}", path(&place)),
        Some(LoadAction::List(place)) => format!("list {}", path(&place)),
        Some(LoadAction::Remove(name)) => format!("remove {}", name),
        Some(LoadAction::Copy(from, to)) => format!("copy {} {}", path(&from), path(&to)),
        Some(LoadAction::Touch(place)) => format!("touch {}", path(&place)),
    }
}

/// Runs a load of a model of `size` bytes that is not in memory, and writes its operations down.
fn run(limit: u64, size: u64, listing: Listing) -> (Vec<String>, Result<bool, PluginError<&'static str>>) {
    let mut listing: Option<Listing> = Some(listing);
    let mut said: Vec<String> = Vec::new();
    let mut load: Load = Loading::begin(request(limit));
    loop {
        said.push(say(load.action()));
        let event: Event = match load.action() {
            None => break,
            Some(LoadAction::Probe(_)) => LoadEvent::Probed(false),
            Some(LoadAction::Lock(_)) => LoadEvent::Locked(Ok(())),
            Some(LoadAction::Measure(_)) => LoadEvent::Measured(Ok(size)),
            Some(LoadAction::List(_)) => LoadEvent::Listed(Ok(listing.take().unwrap())),
            Some(LoadAction::Remove(_)) => LoadEvent::Removed(Ok(())),
            Some(LoadAction::Copy(_, _)) => LoadEvent::Copied(Ok(())),
            Some(LoadAction::Touch(_)) => LoadEvent::Touched(Ok(())),
        };
        assert!(load.admits(&event));
        load = load.step(event);
    }
    match load {
        Loading::Done(result) => (said, result),
        Loading::Pending(_, _) => panic!("a load without an operation has ended"),
    }
}

#[test]
fn missing_model_is_copied_under_lock() {
    let (said, result) = run(10, 4, vec![file("x", 1, 6)]);
    assert_eq!(
        said,
        vec![
            "probe /memory/checkpoints/a.safetensors",
            "lock /memory/fooocus_lock",
            "probe /memory/checkpoints/a.safetensors",
            "measure /disk/checkpoints/a.safetensors",
            "list /memory/checkpoints",
            "copy /disk/checkpoints/a.safetensors /memory/checkpoints/a.safetensors",
            "touch /memory/checkpoints/a.safetensors",
            "end",
        ]
    );
    assert!(matches!(result, Ok(true)));
}

#[test]
fn latest_files_leave_until_the_model_fits() {
    let listing: Listing = vec![
        file("middle", 20, 3),
        file("latest", 30, 2),
        Ok(Entry::Other),
        file("oldest", 10, 4),
        file("later", 25, 1),
    ];
    let (said, result) = run(10, 5, listing);
    let removed: Vec<String> = said.into_iter().filter(|s| s.starts_with("remove")).collect();
    assert_eq!(removed, vec!["remove latest", "remove later", "remove middle"]);
    assert!(matches!(result, Ok(true)));
}

#[test]
fn no_file_leaves_where_the_model_just_fits() {
    let (said, _) = run(10, 4, vec![file("x", 1, 3), file("y", 2, 3)]);
    assert!(!said.iter().any(|s| s.starts_with("remove")));
    let (said, _) = run(10, 5, vec![file("x", 1, 3), file("y", 2, 3)]);
    let removed: Vec<&String> = said.iter().filter(|s| s.starts_with("remove")).collect();
    assert_eq!(removed, vec!["remove y"]);
}

#[test]
fn model_as_large_as_the_limit_leaves_nothing_else() {
    let (said, result) = run(10, 10, vec![file("x", 1, 3), file("y", 2, 3)]);
    let removed: Vec<&String> = said.iter().filter(|s| s.starts_with("remove")).collect();
    assert_eq!(removed, vec!["remove y", "remove x"]);
    assert!(matches!(result, Ok(true)));
}

#[test]
fn room_is_within_the_limit_after_a_copy() {
    let sizes: [(&'static str, u64); 4] = [("w", 5), ("x", 4), ("y", 3), ("z", 2)];
    for limit in 1..20 {
        for size in 0..limit + 1 {
            let listing: Listing =
                sizes.iter().map(|(name, size)| file(name, *size as i128, *size)).collect();
            let (said, result) = run(limit, size, listing);
            assert!(matches!(result, Ok(true)));
            let removed: u64 = sizes
                .iter()
                .filter(|(name, _)| said.contains(&format!("remove {}", name)))
                .map(|(_, size)| *size)
                .sum();
            assert!(14 - removed + size <= limit);
        }
    }
}

#[test]
fn too_large_model_is_refused_before_the_directory_is_listed() {
    let (said, result) = run(10, 11, vec![file("x", 1, 3)]);
    assert_eq!(said.last().unwrap(), "end");
    assert!(!said.iter().any(|s| s.starts_with("list")));
    match result {
        Err(PluginError::Type(text)) => assert_eq!(text, "a.safetensors size > memory limit"),
        _ => panic!("not refused"),
    }
}

#[test]
fn cached_model_is_only_touched() {
    let load: Load = Loading::begin(request(10));
    let load: Load = load.step(LoadEvent::Probed(true));
    assert_eq!(say(load.action()), "touch /memory/checkpoints/a.safetensors");
    let load: Load = load.step(LoadEvent::Touched(Ok(())));
    assert!(matches!(load, Loading::Done(Ok(false))));
}

#[test]
fn model_that_came_while_waiting_for_the_lock_is_not_copied() {
    let load: Load = Loading::begin(request(10));
    let load: Load = load.step(LoadEvent::Probed(false));
    let load: Load = load.step(LoadEvent::Locked(Ok(())));
    assert!(load.holds_lock());
    let load: Load = load.step(LoadEvent::Probed(true));
    assert!(!load.holds_lock());
    assert!(matches!(load.step(LoadEvent::Touched(Ok(()))), Loading::Done(Ok(false))));
}

#[test]
fn lock_is_held_from_the_second_probe_to_the_copy() {
    let mut load: Load = Loading::begin(request(10));
    assert!(!load.holds_lock());
    load = load.step(LoadEvent::Probed(false));
    assert!(!load.holds_lock());
    load = load.step(LoadEvent::Locked(Ok(())));
    assert!(load.holds_lock());
    load = load.step(LoadEvent::Probed(false));
    assert!(load.holds_lock());
    load = load.step(LoadEvent::Measured(Ok(8)));
    assert!(load.holds_lock());
    load = load.step(LoadEvent::Listed(Ok(vec![file("x", 1, 3)])));
    assert_eq!(say(load.action()), "remove x");
    assert!(load.holds_lock());
    load = load.step(LoadEvent::Removed(Ok(())));
    assert!(load.holds_lock());
    load = load.step(LoadEvent::Copied(Ok(())));
    assert!(!load.holds_lock());
    load = load.step(LoadEvent::Touched(Ok(())));
    assert!(!load.holds_lock());
}

#[test]
fn each_failure_ends_the_load() {
    fn ends_with(load: Load, failure: &str) {
        match load {
            Loading::Done(Err(PluginError::Os(e))) => assert_eq!(e, failure),
            Loading::Done(Err(PluginError::Type(text))) => assert_eq!(text, failure),
            _ => panic!("the load goes on"),
        }
    }
    fn at_lock() -> Load {
        Loading::begin(request(10)).step(LoadEvent::Probed(false))
    }
    fn at_measure() -> Load {
        at_lock().step(LoadEvent::Locked(Ok(()))).step(LoadEvent::Probed(false))
    }
    fn at_list() -> Load {
        at_measure().step(LoadEvent::Measured(Ok(8)))
    }
    fn at_remove() -> Load {
        at_list().step(LoadEvent::Listed(Ok(vec![file("x", 1, 3), file("y", 2, 3)])))
    }
    fn at_copy() -> Load {
        at_list().step(LoadEvent::Listed(Ok(vec![])))
    }
    ends_with(at_lock().step(LoadEvent::Locked(Err("no lock".to_string()))), "no lock");
    ends_with(at_measure().step(LoadEvent::Measured(Err("no file"))), "no file");
    ends_with(at_list().step(LoadEvent::Listed(Err("no directory"))), "no directory");
    ends_with(
        at_list().step(LoadEvent::Listed(Ok(vec![file("x", 1, 3), Err("no entry")]))),
        "no entry",
    );
    ends_with(at_remove().step(LoadEvent::Removed(Err("not removed"))), "not removed");
    ends_with(at_copy().step(LoadEvent::Copied(Err("not copied"))), "not copied");
    ends_with(
        at_copy().step(LoadEvent::Copied(Ok(()))).step(LoadEvent::Touched(Err("not touched"))),
        "not touched",
    );
}

#[test]
fn event_that_is_not_awaited_changes_nothing() {
    let load: Load = Loading::begin(request(10));
    let load: Load = load.step(LoadEvent::Copied(Ok(())));
    assert_eq!(say(load.action()), "probe /memory/checkpoints/a.safetensors");
    let load: Load = Loading::Done(Ok(true));
    assert!(matches!(load.step(LoadEvent::Probed(false)), Loading::Done(Ok(true))));
}

#[test]
fn listing_that_cannot_be_counted_is_not_admitted() {
    let load: Load = Loading::begin(request(10));
    let load: Load = load.step(LoadEvent::Probed(false));
    let load: Load = load.step(LoadEvent::Locked(Ok(())));
    let load: Load = load.step(LoadEvent::Probed(false));
    let load: Load = load.step(LoadEvent::Measured(Ok(8)));
    assert!(!load.admits(&LoadEvent::Listed(Ok(vec![file("x", 1, u64::MAX - 7)]))));
    assert!(load.admits(&LoadEvent::Listed(Ok(vec![file("x", 1, u64::MAX - 8)]))));
    assert!(!load.admits(&LoadEvent::Listed(Ok(vec![file("x", 1, u64::MAX), file("y", 2, 1)]))));
}

#[test]
fn listing_that_fails_is_reported_before_the_model_is_counted() {
    let load: Load = Loading::begin(request(10));
    let load: Load = load.step(LoadEvent::Probed(false));
    let load: Load = load.step(LoadEvent::Locked(Ok(())));
    let load: Load = load.step(LoadEvent::Probed(false));
    let load: Load = load.step(LoadEvent::Measured(Ok(8)));
    let over: Listing = vec![file("x", 1, u64::MAX), file("y", 2, 1), Err("no entry")];
    assert!(!load.admits(&LoadEvent::Listed(Ok(over))));
    let event: Event = LoadEvent::Listed(Ok(vec![file("x", 1, u64::MAX), Err("no entry")]));
    assert!(load.admits(&event));
    assert!(matches!(load.step(event), Loading::Done(Err(PluginError::Os("no entry")))));
}

#[test]
fn failures_in_a_listing_are_found() {
    assert!(!has_failure::<&str, &str>(&vec![]));
    assert!(!has_failure(&vec![file("x", 1, 3), Ok(Entry::Other)]));
    assert!(has_failure(&vec![file("x", 1, 3), Err("no entry"), file("y", 2, 4)]));
}

#[test]
fn search_adds_up_plain_files() {
    let listing: Listing = vec![file("x", 1, 3), Ok(Entry::Other), file("y", 2, 4)];
    assert_eq!(listed_size(&listing), Some(7));
    let (items, size) = search_models(listing).unwrap();
    assert_eq!(size, 7);
    let names: Vec<&str> = items.iter().map(|item| item.model_path).collect();
    assert_eq!(names, vec!["x", "y"]);
}

#[test]
fn search_ends_at_the_first_failure() {
    let listing: Listing = vec![file("x", 1, 3), Err("first"), file("y", 2, 4), Err("second")];
    assert_eq!(listed_size(&listing), Some(3));
    assert_eq!(search_models(listing).unwrap_err(), "first");
}

#[test]
fn search_of_an_empty_directory_finds_nothing() {
    let listing: Listing = vec![];
    let (items, size) = search_models(listing).unwrap();
    assert!(items.is_empty());
    assert_eq!(size, 0);
}
