//! Translations.
use fooocus_plugin::config::{Config, ModelsConfig, ServiceConfig, TranslatorConfig};
use fooocus_plugin::error::PluginError;
use fooocus_plugin::translate::{
    check_keys, check_translation, key_suffix, text_translate, Asked, Chat, ChatReply, ClientKey,
    LibreReply, LibreTranslate, OpenAI, Translation, Translator,
};

type Begun = Result<Translation, PluginError<&'static str>>;
type Answer = Result<String, PluginError<&'static str>>;

fn config(translator_config: TranslatorConfig) -> Config {
    Config {
        nacos_service_config: ServiceConfig {
            server_addr: "server".to_string(),
            username: "user".to_string(),
            password: "word".to_string(),
            namespace: "space".to_string(),
        },
        translator_config,
        models_config: ModelsConfig {
            model_memory_path: "/memory".to_string(),
            model_path: "/disk".to_string(),
            checkpoints_memory_limit: 3,
            loras_memory_limit: 1,
        },
    }
}

fn keys(list: &[&str]) -> TranslatorConfig {
    TranslatorConfig::OpenAi { keys: list.iter().map(|key| key.to_string()).collect() }
}

fn libre() -> LibreTranslate {
    LibreTranslate { api: "http://localhost/translate".to_string() }
}

fn openai(suffixes: &[&str]) -> OpenAI {
    OpenAI {
        clients: suffixes
            .iter()
            .map(|suffix| ClientKey { suffix: suffix.to_string(), key: "key".to_string() })
            .collect(),
    }
}

fn text_of(answer: Answer) -> String {
    match answer {
        Err(PluginError::Type(text)) => text,
        _ => panic!("no failure with a text"),
    }
}

#[test]
fn suffix_is_the_last_four_bytes() {
    assert_eq!(key_suffix("key-0123456789"), "6789");
    assert_eq!(key_suffix("abcd"), "abcd");
    assert_eq!(key_suffix("xab\u{e9}"), "ab\u{e9}");
}

#[test]
fn keys_without_a_suffix_are_found() {
    assert!(check_keys(&keys(&["abcd", "xab\u{e9}"])));
    assert!(!check_keys(&keys(&["abcd", "abc"])));
    assert!(!check_keys(&keys(&["\u{e9}abc"])));
    assert!(check_keys(&keys(&["a\u{e9}abc"])) == false);
    assert!(check_keys(&TranslatorConfig::LibreTranslate { api: String::new() }));
}

#[test]
fn translator_is_made_as_configured() {
    let with_libre: Config = config(TranslatorConfig::LibreTranslate { api: "x".to_string() });
    let begun: Begun = text_translate(Some(&with_libre), None, "hallo", "en");
    match begun.ok().unwrap().made {
        Some(Translator::LibreTranslate(libre)) => assert_eq!(libre.api, "x"),
        _ => panic!("another translator"),
    }
    let with_keys: Config = config(keys(&["first-1111", "second-2222"]));
    let begun: Begun = text_translate(Some(&with_keys), None, "hallo", "en");
    match begun.ok().unwrap().made {
        Some(Translator::OpenAi(openai)) => {
            let clients: Vec<(&str, &str)> =
                openai.clients.iter().map(|c| (c.suffix.as_str(), c.key.as_str())).collect();
            assert_eq!(clients, vec![("1111", "first-1111"), ("2222", "second-2222")]);
        }
        _ => panic!("another translator"),
    }
}

/// Writes down what a service is asked.
fn say(asked: &Asked) -> String {
    match asked {
        Asked::LibreTranslate(request) => format!("{} {:?}", request.api, request.fields),
        Asked::OpenAi(chat) => {
            format!("{}: {} / {}", chat.request.model, chat.request.system, chat.request.user)
        }
    }
}

#[test]
fn configured_service_is_asked_with_text_and_language() {
    let with_libre: Config = config(TranslatorConfig::LibreTranslate { api: "x".to_string() });
    let begun: Begun = text_translate(Some(&with_libre), None, "hallo", "en");
    assert_eq!(
        say(&begun.ok().unwrap().asked),
        "x [(\"q\", \"hallo\"), (\"source\", \"auto\"), (\"target\", \"en\")]"
    );
    let with_keys: Config = config(keys(&["first-1111"]));
    let begun: Begun = text_translate(Some(&with_keys), None, "hallo", "English");
    assert_eq!(
        say(&begun.ok().unwrap().asked),
        "gpt-3.5-turbo: Translate all text into English / hallo"
    );
}

#[test]
fn translator_that_is_held_serves_on() {
    let config: Config = config(keys(&["abc"]));
    let held: Translator = Translator::LibreTranslate(libre());
    assert!(check_translation(Some(&config), Some(&held)));
    let begun: Begun = text_translate(Some(&config), Some(&held), "hallo", "en");
    let translation: Translation = begun.ok().unwrap();
    assert!(translation.made.is_none());
    assert_eq!(
        say(&translation.asked),
        "http://localhost/translate \
         [(\"q\", \"hallo\"), (\"source\", \"auto\"), (\"target\", \"en\")]"
    );
}

#[test]
fn translator_asks_its_own_service() {
    let translator: Translator = Translator::LibreTranslate(libre());
    assert!(translator.can_ask());
    assert!(matches!(translator.text_translate("hallo", "en"), Asked::LibreTranslate(_)));
    let translator: Translator = Translator::OpenAi(openai(&["aaaa", "bbbb"]));
    assert!(translator.can_ask());
    match translator.text_translate("hallo", "English") {
        Asked::OpenAi(chat) => {
            assert_eq!(chat.request.system, "Translate all text into English");
            assert_eq!(chat.request.user, "hallo");
            assert!(chat.client < 2);
        }
        Asked::LibreTranslate(_) => panic!("another service"),
    }
}

#[test]
fn nothing_can_be_translated_without_a_client() {
    let no_client: Translator = Translator::OpenAi(openai(&[]));
    assert!(!no_client.can_ask());
    let no_keys: Config = config(keys(&[]));
    assert!(!check_translation(Some(&no_keys), None));
    assert!(!check_translation(Some(&no_keys), Some(&no_client)));
    assert!(check_translation(None, Some(&no_client)));
    assert!(!check_translation(Some(&config(keys(&["abcd", "abc"]))), None));
    assert!(check_translation(Some(&config(keys(&["abcd"]))), None));
    let with_libre: Config = config(TranslatorConfig::LibreTranslate { api: String::new() });
    assert!(check_translation(Some(&with_libre), None));
}

#[test]
fn nothing_is_translated_before_the_plugin_is_initialized() {
    let held: Translator = Translator::LibreTranslate(libre());
    for held in [None, Some(&held)] {
        let begun: Begun = text_translate(None, held, "hallo", "en");
        match begun {
            Err(PluginError::Type(text)) => assert_eq!(text, "fooocus plugin is not initialized"),
            _ => panic!("not refused"),
        }
    }
}

#[test]
fn libre_request_names_text_and_languages() {
    let request = libre().text_translate("hallo", "en");
    assert_eq!(request.api, "http://localhost/translate");
    let fields: Vec<(&str, &str)> =
        request.fields.iter().map(|f| (f.0.as_str(), f.1.as_str())).collect();
    assert_eq!(fields, vec![("q", "hallo"), ("source", "auto"), ("target", "en")]);
}

#[test]
fn libre_reply_is_the_translation_or_a_failure() {
    let answer: Answer = libre().answer(LibreReply::Translated("hello".to_string()));
    assert_eq!(answer.unwrap(), "hello");
    let answer: Answer = libre().answer(LibreReply::Failed("status 500".to_string()));
    assert_eq!(text_of(answer), "status 500");
    let answer: Answer = libre().answer(LibreReply::Unreadable("cut off"));
    assert!(matches!(answer, Err(PluginError::Os("cut off"))));
}

#[test]
fn chat_asks_one_of_the_clients() {
    let openai: OpenAI = openai(&["aaaa", "bbbb", "cccc"]);
    let mut drawn: [bool; 3] = [false, false, false];
    for _ in 0..1000 {
        let chat: Chat = openai.text_translate("hallo", "English");
        assert_eq!(chat.request.model, "gpt-3.5-turbo");
        assert_eq!(chat.request.system, "Translate all text into English");
        assert_eq!(chat.request.user, "hallo");
        drawn[chat.client] = true;
    }
    assert_eq!(drawn, [true, true, true]);
}

#[test]
fn chat_reply_is_the_last_choice() {
    let openai: OpenAI = openai(&["aaaa", "bbbb"]);
    let choices: Vec<Option<String>> = vec![Some("first".to_string()), Some("last".to_string())];
    let answer: Answer = openai.answer(0, ChatReply::Choices(choices));
    assert_eq!(answer.unwrap(), "last");
}

#[test]
fn chat_reply_without_a_text_is_a_failure() {
    let openai: OpenAI = openai(&["aaaa", "bbbb"]);
    let answer: Answer = openai.answer(0, ChatReply::Choices(vec![]));
    assert_eq!(text_of(answer), "choices is empty");
    let choices: Vec<Option<String>> = vec![Some("first".to_string()), None];
    let answer: Answer = openai.answer(0, ChatReply::Choices(choices));
    assert_eq!(text_of(answer), "content is empty");
}

#[test]
fn failed_chat_names_the_client() {
    let openai: OpenAI = openai(&["aaaa", "bbbb"]);
    let answer: Answer = openai.answer(1, ChatReply::Failed("quota".to_string()));
    assert_eq!(text_of(answer), "openai[bbbb] error: quota");
    let answer: Answer = openai.answer(1, ChatReply::Unasked("no model".to_string()));
    assert_eq!(text_of(answer), "no model");
}
