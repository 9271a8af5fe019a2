//! Registrations.
use std::collections::HashMap;

use fooocus_plugin::config::{Config, ModelsConfig, ServiceConfig, TranslatorConfig};
use fooocus_plugin::error::PluginError;
use fooocus_plugin::registry::{
    create_naming_service, deregistered, keep_registration, service_deregister, service_register,
    RegisterEvent, RegisterRequest, Registering, Registration,
};

type Register = Registering<()>;
type Outcome = Result<(), PluginError<()>>;

fn config() -> Config {
    Config {
        nacos_service_config: ServiceConfig {
            server_addr: "server:8848".to_string(),
            username: "user".to_string(),
            password: "word".to_string(),
            namespace: "space".to_string(),
        },
        translator_config: TranslatorConfig::OpenAi { keys: vec![] },
        models_config: ModelsConfig {
            model_memory_path: "/memory".to_string(),
            model_path: "/disk".to_string(),
            checkpoints_memory_limit: 3,
            loras_memory_limit: 1,
        },
    }
}

fn text_of<T>(result: Result<T, PluginError<()>>) -> String {
    match result {
        Err(PluginError::Type(text)) => text,
        _ => panic!("no failure with a text"),
    }
}

fn at_service(metadata_json: &str) -> Register {
    let register: Register = service_register(65535, "painter".to_string(), metadata_json);
    assert!(matches!(register, Registering::FindAddress(_)));
    let register: Register = register.step(RegisterEvent::Found(Ok("10.0.0.7".to_string())));
    assert!(matches!(register, Registering::OpenService { .. }));
    register
}

fn register(metadata_json: &str) -> Registration {
    let register: Register = at_service(metadata_json).step(RegisterEvent::Opened);
    match register.step(RegisterEvent::Registered(Ok(()))) {
        Registering::Done(Ok(registration)) => registration,
        _ => panic!("not registered"),
    }
}

#[test]
fn naming_server_is_reached_as_configured() {
    let config: Config = config();
    let props = create_naming_service(Some(&config)).unwrap();
    assert_eq!(props.server_addr, "server:8848");
    assert_eq!(props.username, "user");
    assert_eq!(props.password, "word");
    assert_eq!(props.namespace, "space");
    assert_eq!(create_naming_service(None).err().unwrap(), "fooocus plugin is not initialized");
}

#[test]
fn instance_is_registered_with_its_metadata() {
    let registration: Registration = register("{\"a\": \"1\", \"b\": \"x\\ny\", \"a\": \"2\"}");
    assert_eq!(registration.service_name, "painter");
    assert_eq!(registration.group_name, "DEFAULT_GROUP");
    assert_eq!(registration.ip, "10.0.0.7");
    assert_eq!(registration.port, 65535);
    let mut expected: HashMap<String, String> = HashMap::new();
    expected.insert("a".to_string(), "2".to_string());
    expected.insert("b".to_string(), "x\ny".to_string());
    assert_eq!(registration.metadata, expected);
}

#[test]
fn address_that_is_not_found_ends_the_registration() {
    let register: Register = service_register(80, "painter".to_string(), "{}");
    match register.step(RegisterEvent::Found(Err("no network".to_string()))) {
        Registering::Done(result) => assert_eq!(text_of(result), "no network"),
        _ => panic!("the registration goes on"),
    }
}

#[test]
fn metadata_that_are_no_texts_end_the_registration() {
    match at_service("[1]").step(RegisterEvent::Opened) {
        Registering::Done(result) => {
            assert_eq!(text_of(result), "invalid type: sequence, expected a map at line 1 column 0")
        }
        _ => panic!("the registration goes on"),
    }
    match at_service("{\"a\": 1}").step(RegisterEvent::Opened) {
        Registering::Done(result) => {
            assert_eq!(
                text_of(result),
                "invalid type: integer `1`, expected a string at line 1 column 7"
            )
        }
        _ => panic!("the registration goes on"),
    }
}

#[test]
fn read_metadata_decide_what_follows() {
    fn request() -> RegisterRequest {
        RegisterRequest { port: 8, service_name: "s".to_string(), metadata_json: "?".to_string() }
    }
    let mut texts: HashMap<String, String> = HashMap::new();
    texts.insert("k".to_string(), "v".to_string());
    let next: Register = Registering::with_metadata(request(), "ip".to_string(), Ok(texts.clone()));
    match next {
        Registering::Register(registration) => {
            assert_eq!(registration.port, 8);
            assert_eq!(registration.service_name, "s");
            assert_eq!(registration.ip, "ip");
            assert_eq!(registration.metadata, texts);
        }
        _ => panic!("nothing is to be registered"),
    }
    let next: Register =
        Registering::with_metadata(request(), "ip".to_string(), Err("bad".to_string()));
    match next {
        Registering::Done(result) => assert_eq!(text_of(result), "bad"),
        _ => panic!("the registration goes on"),
    }
}

#[test]
fn refusal_of_the_server_ends_the_registration() {
    let register: Register = at_service("{}").step(RegisterEvent::Opened);
    match register.step(RegisterEvent::Registered(Err("refused".to_string()))) {
        Registering::Done(result) => assert_eq!(text_of(result), "refused"),
        _ => panic!("the registration goes on"),
    }
}

#[test]
fn last_registration_is_taken_back_again_and_again() {
    let mut held: Option<Registration> = None;
    let told: Outcome = keep_registration(&mut held, Ok(register("{\"n\": \"1\"}")));
    assert!(told.is_ok());
    let told: Outcome = keep_registration(&mut held, Ok(register("{\"n\": \"2\"}")));
    assert!(told.is_ok());
    for _ in 0..2 {
        let found: Result<&Registration, PluginError<()>> = service_deregister(&held);
        assert_eq!(found.unwrap().metadata.get("n"), Some(&"2".to_string()));
    }
}

#[test]
fn failed_registration_leaves_the_one_before() {
    let mut held: Option<Registration> = None;
    let told: Outcome = keep_registration(&mut held, Ok(register("{\"n\": \"1\"}")));
    assert!(told.is_ok());
    let told: Outcome = keep_registration(&mut held, Err(PluginError::Type("late".to_string())));
    assert_eq!(text_of(told), "late");
    let found: Result<&Registration, PluginError<()>> = service_deregister(&held);
    assert_eq!(found.unwrap().metadata.get("n"), Some(&"1".to_string()));
}

#[test]
fn nothing_is_taken_back_before_it_is_registered() {
    let found: Result<&Registration, PluginError<()>> = service_deregister(&None);
    assert_eq!(text_of(found), "service has not been registered");
}

#[test]
fn failure_to_take_back_is_told() {
    let told: Outcome = deregistered(Ok(()));
    assert!(told.is_ok());
    let told: Outcome = deregistered(Err("gone".to_string()));
    assert_eq!(text_of(told), "gone");
}
