//! Translating a text: what the configured service is asked, and what its reply comes to.
use rand::Rng;
use vstd::prelude::*;
use vstd::utf8::{decode_utf8, encode_utf8, is_ascii_chars, is_char_boundary};

use crate::config::{Config, TranslatorConfig};
use crate::error::{not_initialized, not_initialized_text, ErrorView, PluginError};

verus! {

/// Whether the last four bytes of a key are whole characters.
pub open spec fn has_suffix(key: Seq<char>) -> bool {
    let bytes = encode_utf8(key);
    &&& bytes.len() >= 4
    &&& is_char_boundary(bytes, bytes.len() - 4)
}

/// The last four bytes of a key, by which it is told apart in messages.
pub open spec fn suffix_of(key: Seq<char>) -> Seq<char> {
    let bytes = encode_utf8(key);
    decode_utf8(bytes.subrange(bytes.len() - 4, bytes.len() as int))
}

/// The last four bytes of a key.
pub fn key_suffix(key: &str) -> (suffix: String)
    requires
        has_suffix(key@),
    ensures
        suffix@ == suffix_of(key@),
        encode_utf8(suffix@).len() == 4,
        exists|before: Seq<char>| key@ == #[trigger] (before + suffix@),
{
    let len: usize = key.as_bytes().len();
    let (_, suffix) = key.split_at(len - 4);
    proof {
        vstd::utf8::encode_utf8_decode_utf8(suffix@);
        law_key_ends_with_its_suffix(key@);
    }
    suffix.to_owned()
}

/// Whether a key has a suffix.
fn check_suffix(key: &str) -> (has: bool)
    ensures
        has == has_suffix(key@),
{
    let len: usize = key.as_bytes().len();
    len >= 4 && key.is_char_boundary(len - 4)
}

/// Characters are encoded one behind the other.
proof fn lemma_encoded_one_behind_the_other(first: Seq<char>, second: Seq<char>)
    ensures
        encode_utf8(first + second) == encode_utf8(first) + encode_utf8(second),
    decreases first.len(),
{
    if first.len() == 0 {
        assert(first + second =~= second);
        assert(encode_utf8(first) + encode_utf8(second) =~= encode_utf8(second));
    } else {
        lemma_encoded_one_behind_the_other(first.drop_first(), second);
        assert((first + second).drop_first() =~= first.drop_first() + second);
        assert(encode_utf8(first + second) =~= encode_utf8(first) + encode_utf8(second));
    }
}

/// Whatever stands before them, characters at the end of a key that take four bytes together are
/// its suffix.
pub proof fn law_last_four_bytes_are_the_suffix(before: Seq<char>, end: Seq<char>)
    requires
        encode_utf8(end).len() == 4,
    ensures
        has_suffix(before + end),
        suffix_of(before + end) == end,
{
    let bytes = encode_utf8(before + end);
    lemma_encoded_one_behind_the_other(before, end);
    vstd::utf8::encode_utf8_valid_utf8(before + end);
    vstd::utf8::encode_utf8_valid_utf8(end);
    vstd::utf8::is_char_boundary_iff_not_is_continuation_byte(encode_utf8(end), 0);
    vstd::utf8::is_char_boundary_iff_not_is_continuation_byte(bytes, bytes.len() - 4);
    assert(bytes[bytes.len() - 4] == encode_utf8(end)[0]);
    assert(bytes.subrange(bytes.len() - 4, bytes.len() as int) =~= encode_utf8(end));
    vstd::utf8::encode_utf8_decode_utf8(end);
}

/// A key that has a suffix ends with it, and the suffix takes four bytes.
pub proof fn law_key_ends_with_its_suffix(key: Seq<char>)
    requires
        has_suffix(key),
    ensures
        encode_utf8(suffix_of(key)).len() == 4,
        exists|before: Seq<char>| key == #[trigger] (before + suffix_of(key)),
{
    let bytes = encode_utf8(key);
    let n = bytes.len() - 4;
    let last = bytes.subrange(n, bytes.len() as int);
    vstd::utf8::encode_utf8_valid_utf8(key);
    vstd::utf8::encode_utf8_decode_utf8(key);
    vstd::utf8::valid_utf8_split(bytes, n);
    vstd::utf8::decode_utf8_split(bytes, n);
    vstd::utf8::decode_utf8_encode_utf8(last);
    assert(key =~= decode_utf8(bytes.subrange(0, n)) + suffix_of(key));
}

/// A suffix of an ASCII key is its last four characters.
pub proof fn law_suffix_of_ascii_key(key: Seq<char>)
    requires
        is_ascii_chars(key),
        key.len() >= 4,
    ensures
        has_suffix(key),
        suffix_of(key) == key.subrange(key.len() - 4, key.len() as int),
{
    let bytes = encode_utf8(key);
    let last = key.subrange(key.len() - 4, key.len() as int);
    vstd::utf8::is_ascii_chars_encode_utf8(key);
    assert(is_ascii_chars(last));
    vstd::utf8::is_ascii_chars_encode_utf8(last);
    assert(encode_utf8(last) =~= bytes.subrange(bytes.len() - 4, bytes.len() as int));
    vstd::utf8::encode_utf8_decode_utf8(last);
    vstd::utf8::encode_utf8_valid_utf8(key);
    vstd::utf8::is_char_boundary_iff_not_is_continuation_byte(bytes, bytes.len() - 4);
}

/// A key of a service account, and the part of it that stands for it in messages.
pub struct ClientKey {
    pub suffix: String,
    pub key: String,
}

/// The translator of the LibreTranslate service.
pub struct LibreTranslate {
    pub api: String,
}

/// The translator of the OpenAI service, with one client for each key.
pub struct OpenAI {
    pub clients: Vec<ClientKey>,
}

/// A translator.
pub enum Translator {
    LibreTranslate(LibreTranslate),
    OpenAi(OpenAI),
}

/// What a [`Translator`] says. A client is its suffix and its key.
pub enum TranslatorView {
    LibreTranslate(Seq<char>),
    OpenAi(Seq<(Seq<char>, Seq<char>)>),
}

/// What a sequence of clients says.
pub open spec fn clients_view(clients: Seq<ClientKey>) -> Seq<(Seq<char>, Seq<char>)> {
    clients.map_values(|c: ClientKey| (c.suffix@, c.key@))
}

impl View for Translator {
    type V = TranslatorView;

    open spec fn view(&self) -> TranslatorView {
        match self {
            Translator::LibreTranslate(libre) => TranslatorView::LibreTranslate(libre.api@),
            Translator::OpenAi(openai) => TranslatorView::OpenAi(clients_view(openai.clients@)),
        }
    }
}

/// Whether each of these keys has a suffix.
pub open spec fn have_suffixes(keys: Seq<String>) -> bool {
    forall|i: int| 0 <= i < keys.len() ==> has_suffix((#[trigger] keys[i])@)
}

/// Whether every configured key has a suffix.
pub open spec fn keys_have_suffixes(config: TranslatorConfig) -> bool {
    match config {
        TranslatorConfig::LibreTranslate { .. } => true,
        TranslatorConfig::OpenAi { keys } => have_suffixes(keys@),
    }
}

/// Whether every configured key has a suffix.
pub fn check_keys(config: &TranslatorConfig) -> (all: bool)
    ensures
        all == keys_have_suffixes(*config),
{
    match config {
        TranslatorConfig::LibreTranslate { api: _ } => true,
        TranslatorConfig::OpenAi { keys } => {
            let mut i: usize = 0;
            while i < keys.len()
                invariant
                    *config == (TranslatorConfig::OpenAi { keys: *keys }),
                    i <= keys@.len(),
                    forall|k: int| 0 <= k < i ==> has_suffix((#[trigger] keys@[k])@),
                decreases keys@.len() - i,
            {
                if !check_suffix(keys[i].as_str()) {
                    assert(!has_suffix(keys@[i as int]@));
                    return false;
                }
                i = i + 1;
            }
            true
        },
    }
}

/// The translator that is configured: one client for each key, in the order of the keys.
pub open spec fn configured(config: TranslatorConfig) -> TranslatorView {
    match config {
        TranslatorConfig::LibreTranslate { api } => TranslatorView::LibreTranslate(api@),
        TranslatorConfig::OpenAi { keys } => TranslatorView::OpenAi(
            keys@.map_values(|key: String| (suffix_of(key@), key@)),
        ),
    }
}

/// Makes the translator that is configured.
fn make_translator(config: &TranslatorConfig) -> (translator: Translator)
    requires
        keys_have_suffixes(*config),
    ensures
        translator@ == configured(*config),
        match (*config, translator) {
            (TranslatorConfig::LibreTranslate { api }, Translator::LibreTranslate(libre)) => {
                libre.api@ == api@
            },
            (TranslatorConfig::OpenAi { keys }, Translator::OpenAi(openai)) => {
                &&& openai.clients@.len() == keys@.len()
                &&& forall|i: int|
                    0 <= i < keys@.len() ==> (#[trigger] openai.clients@[i]).key@ == keys@[i]@
                        && openai.clients@[i].suffix@ == suffix_of(keys@[i]@)
            },
            _ => false,
        },
{
    match config {
        TranslatorConfig::LibreTranslate { api } => Translator::LibreTranslate(
            LibreTranslate { api: api.clone() },
        ),
        TranslatorConfig::OpenAi { keys } => {
            let mut clients: Vec<ClientKey> = Vec::with_capacity(keys.len());
            let mut i: usize = 0;
            while i < keys.len()
                invariant
                    i <= keys@.len(),
                    have_suffixes(keys@),
                    clients@.len() == i,
                    forall|k: int|
                        0 <= k < i ==> (#[trigger] clients@[k]).suffix@ == suffix_of(keys@[k]@)
                            && clients@[k].key@ == keys@[k]@,
                decreases keys@.len() - i,
            {
                let suffix = key_suffix(keys[i].as_str());
                clients.push(ClientKey { suffix, key: keys[i].clone() });
                i = i + 1;
            }
            assert(clients_view(clients@) =~= keys@.map_values(
                |key: String| (suffix_of(key@), key@),
            ));
            Translator::OpenAi(OpenAI { clients })
        },
    }
}

/// What is posted to a LibreTranslate service.
#[derive(Debug)]
pub struct LibreRequest {
    /// The address that it is posted to.
    pub api: String,
    /// The names and texts of the fields of the posted object.
    pub fields: Vec<(String, String)>,
}

/// What a [`LibreRequest`] says.
#[verifier::ext_equal]
pub struct LibreRequestView {
    pub api: Seq<char>,
    pub fields: Seq<(Seq<char>, Seq<char>)>,
}

impl View for LibreRequest {
    type V = LibreRequestView;

    open spec fn view(&self) -> LibreRequestView {
        LibreRequestView {
            api: self.api@,
            fields: self.fields@.map_values(|f: (String, String)| (f.0@, f.1@)),
        }
    }
}

/// What is posted to the address `api` to have a text put into another language. The service finds
/// out which one it is in.
pub open spec fn libre_request(
    api: Seq<char>,
    input_text: Seq<char>,
    dst_language: Seq<char>,
) -> LibreRequestView {
    LibreRequestView {
        api,
        fields: seq![("q"@, input_text), ("source"@, "auto"@), ("target"@, dst_language)],
    }
}

/// The reply of a LibreTranslate service.
pub enum LibreReply<E> {
    /// No reply came, for the reason that the text gives.
    Failed(String),
    /// A reply came that could not be read.
    Unreadable(E),
    /// The text was translated.
    Translated(String),
}

/// What a translation comes to.
pub open spec fn translation<E>(result: Result<String, PluginError<E>>) -> Result<
    Seq<char>,
    ErrorView<E>,
> {
    match result {
        Ok(text) => Ok(text@),
        Err(e) => Err(e@),
    }
}

impl LibreTranslate {
    /// What is posted to have a text put into another language.
    pub fn text_translate(&self, input_text: &str, dst_language: &str) -> (request: LibreRequest)
        ensures
            request@ == libre_request(self.api@, input_text@, dst_language@),
            request.api@ == self.api@,
            request.fields@.len() == 3,
            request.fields@[0].0@ == "q"@ && request.fields@[0].1@ == input_text@,
            request.fields@[1].0@ == "source"@ && request.fields@[1].1@ == "auto"@,
            request.fields@[2].0@ == "target"@ && request.fields@[2].1@ == dst_language@,
    {
        let mut fields: Vec<(String, String)> = Vec::new();
        fields.push(("q".to_owned(), input_text.to_owned()));
        fields.push(("source".to_owned(), "auto".to_owned()));
        fields.push(("target".to_owned(), dst_language.to_owned()));
        let request = LibreRequest { api: self.api.clone(), fields };
        assert(request@ =~= libre_request(self.api@, input_text@, dst_language@));
        request
    }

    /// What the reply comes to.
    pub fn answer<E>(&self, reply: LibreReply<E>) -> (result: Result<String, PluginError<E>>)
        ensures
            translation(result) == match reply {
                LibreReply::Failed(text) => Err(ErrorView::Type(text@)),
                LibreReply::Unreadable(e) => Err(ErrorView::Os(e)),
                LibreReply::Translated(text) => Ok(text@),
            },
            match reply {
                LibreReply::Failed(text) => result matches Err(PluginError::Type(reason))
                    && reason@ == text@,
                LibreReply::Unreadable(e) => result == Err::<String, PluginError<E>>(
                    PluginError::Os(e),
                ),
                LibreReply::Translated(text) => result matches Ok(t) && t@ == text@,
            },
    {
        match reply {
            LibreReply::Failed(text) => Err(PluginError::Type(text)),
            LibreReply::Unreadable(e) => Err(PluginError::Os(e)),
            LibreReply::Translated(text) => Ok(text),
        }
    }
}

/// What the OpenAI service is asked.
#[derive(Debug)]
pub struct ChatRequest {
    pub model: String,
    /// The message that says what to do.
    pub system: String,
    /// The message that it is done with.
    pub user: String,
}

/// What a [`ChatRequest`] says.
pub struct ChatRequestView {
    pub model: Seq<char>,
    pub system: Seq<char>,
    pub user: Seq<char>,
}

impl View for ChatRequest {
    type V = ChatRequestView;

    open spec fn view(&self) -> ChatRequestView {
        ChatRequestView { model: self.model@, system: self.system@, user: self.user@ }
    }
}

/// What the OpenAI service is asked to have a text put into another language.
pub open spec fn chat_request(
    input_text: Seq<char>,
    dst_language: Seq<char>,
) -> ChatRequestView {
    ChatRequestView {
        model: "gpt-3.5-turbo"@,
        system: "Translate all text into "@ + dst_language,
        user: input_text,
    }
}

/// A request and the client, by its number, that sends it.
#[derive(Debug)]
pub struct Chat {
    pub request: ChatRequest,
    pub client: usize,
}

/// The reply of the OpenAI service.
pub enum ChatReply {
    /// The request could not be made, for the reason that the text gives.
    Unasked(String),
    /// The request failed, for the reason that the text gives.
    Failed(String),
    /// The choices that came, each with its text where it has one.
    Choices(Vec<Option<String>>),
}

/// Draws a number below `n`.
///
/// Stands on `rand::thread_rng` and `Rng::gen_range` with the range from 0 to `n`, which panics on
/// an empty range and otherwise draws from it. Which number is drawn is left to chance.
#[verifier::external_body]
pub(crate) fn random_below(n: usize) -> (i: usize)
    requires
        n > 0,
    ensures
        i < n,
{
    rand::thread_rng().gen_range(0..n)
}

/// What the reply of the OpenAI service to the client with this suffix comes to: the text of the
/// last choice, or a failure.
pub open spec fn chat_answer<E>(suffix: Seq<char>, reply: ChatReply) -> Result<
    Seq<char>,
    ErrorView<E>,
> {
    match reply {
        ChatReply::Unasked(text) => Err(ErrorView::Type(text@)),
        ChatReply::Failed(text) => Err(
            ErrorView::Type("openai["@ + suffix + "] error: "@ + text@),
        ),
        ChatReply::Choices(choices) => if choices@.len() == 0 {
            Err(ErrorView::Type("choices is empty"@))
        } else {
            match choices@.last() {
                Some(content) => Ok(content@),
                None => Err(ErrorView::Type("content is empty"@)),
            }
        },
    }
}

impl OpenAI {
    /// What is asked to have a text translated, and by which client. Any client may be drawn.
    pub fn text_translate(&self, input_text: &str, dst_language: &str) -> (chat: Chat)
        requires
            self.clients@.len() > 0,
        ensures
            chat.request@ == chat_request(input_text@, dst_language@),
            chat.request.model@ == "gpt-3.5-turbo"@,
            chat.request.system@ == "Translate all text into "@ + dst_language@,
            chat.request.user@ == input_text@,
            chat.client < self.clients@.len(),
    {
        let request = ChatRequest {
            model: "gpt-3.5-turbo".to_owned(),
            system: "Translate all text into ".to_owned().concat(dst_language),
            user: input_text.to_owned(),
        };
        let client: usize = random_below(self.clients.len());
        Chat { request, client }
    }

    /// What the reply to a client comes to.
    pub fn answer<E>(&self, client: usize, reply: ChatReply) -> (result: Result<
        String,
        PluginError<E>,
    >)
        requires
            client < self.clients@.len(),
        ensures
            translation(result) == chat_answer::<E>(
                self.clients@[client as int].suffix@,
                reply,
            ),
            match reply {
                ChatReply::Unasked(text) => result matches Err(PluginError::Type(reason))
                    && reason@ == text@,
                ChatReply::Failed(text) => result matches Err(PluginError::Type(reason)) && reason@
                    == "openai["@ + self.clients@[client as int].suffix@ + "] error: "@ + text@,
                ChatReply::Choices(choices) => match result {
                    Ok(text) => {
                        &&& choices@.len() > 0
                        &&& choices@[choices@.len() - 1] matches Some(content) && text@ == content@
                    },
                    Err(PluginError::Type(reason)) => {
                        ||| choices@.len() == 0 && reason@ == "choices is empty"@
                        ||| choices@.len() > 0 && choices@[choices@.len() - 1] is None && reason@
                            == "content is empty"@
                    },
                    Err(PluginError::Os(_)) => false,
                },
            },
    {
        match reply {
            ChatReply::Unasked(text) => Err(PluginError::Type(text)),
            ChatReply::Failed(text) => {
                let suffix = self.clients[client].suffix.as_str();
                let message = "openai[".to_owned().concat(suffix).concat("] error: ").concat(
                    text.as_str(),
                );
                Err(PluginError::Type(message))
            },
            ChatReply::Choices(choices) => {
                let mut choices = choices;
                match choices.pop() {
                    None => Err(PluginError::Type("choices is empty".to_owned())),
                    Some(None) => Err(PluginError::Type("content is empty".to_owned())),
                    Some(Some(content)) => Ok(content),
                }
            },
        }
    }
}

/// What a translator asks its service.
#[derive(Debug)]
pub enum Asked {
    LibreTranslate(LibreRequest),
    OpenAi(Chat),
}

/// What an [`Asked`] says.
pub enum AskedView {
    LibreTranslate(LibreRequestView),
    OpenAi { request: ChatRequestView, client: int },
}

impl View for Asked {
    type V = AskedView;

    open spec fn view(&self) -> AskedView {
        match self {
            Asked::LibreTranslate(request) => AskedView::LibreTranslate(request@),
            Asked::OpenAi(chat) => AskedView::OpenAi {
                request: chat.request@,
                client: chat.client as int,
            },
        }
    }
}

impl TranslatorView {
    /// Whether there is a client that can ask.
    pub open spec fn can_ask(self) -> bool {
        match self {
            TranslatorView::LibreTranslate(_) => true,
            TranslatorView::OpenAi(clients) => clients.len() > 0,
        }
    }

    /// Whether `asked` is what this translator asks its own service to have a text put into another
    /// language. Any of its clients may be the one that asks.
    pub open spec fn asks(
        self,
        input_text: Seq<char>,
        dst_language: Seq<char>,
        asked: AskedView,
    ) -> bool {
        match (self, asked) {
            (TranslatorView::LibreTranslate(api), AskedView::LibreTranslate(request)) => {
                request == libre_request(api, input_text, dst_language)
            },
            (TranslatorView::OpenAi(clients), AskedView::OpenAi { request, client }) => {
                &&& request == chat_request(input_text, dst_language)
                &&& 0 <= client < clients.len()
            },
            _ => false,
        }
    }
}

impl Translator {
    /// Whether there is a client that can ask.
    pub fn can_ask(&self) -> (can: bool)
        ensures
            can == self@.can_ask(),
    {
        match self {
            Translator::LibreTranslate(_) => true,
            Translator::OpenAi(openai) => openai.clients.len() > 0,
        }
    }

    /// What the service of this translator is asked to have a text put into another language.
    pub fn text_translate(&self, input_text: &str, dst_language: &str) -> (asked: Asked)
        requires
            self@.can_ask(),
        ensures
            self@.asks(input_text@, dst_language@, asked@),
    {
        match self {
            Translator::LibreTranslate(libre) => Asked::LibreTranslate(
                libre.text_translate(input_text, dst_language),
            ),
            Translator::OpenAi(openai) => Asked::OpenAi(
                openai.text_translate(input_text, dst_language),
            ),
        }
    }
}

/// A translation that is to be asked for.
pub struct Translation {
    /// The translator, where it was made for this translation. It is to be held from then on.
    pub made: Option<Translator>,
    /// What its service is asked.
    pub asked: Asked,
}

/// Whether a text can be translated: where the plugin is initialized, the translator that is
/// `held`, or else the one that is configured, can ask.
pub open spec fn can_translate(config: Option<&Config>, held: Option<&Translator>) -> bool {
    match (config, held) {
        (None, _) => true,
        (Some(_), Some(translator)) => translator@.can_ask(),
        (Some(c), None) => {
            &&& keys_have_suffixes(c.translator_config)
            &&& configured(c.translator_config).can_ask()
        },
    }
}

/// Whether a text can be translated.
pub fn check_translation(config: Option<&Config>, held: Option<&Translator>) -> (can: bool)
    ensures
        can == can_translate(config, held),
        can == match (config, held) {
            (None, _) => true,
            (Some(_), Some(Translator::LibreTranslate(_))) => true,
            (Some(_), Some(Translator::OpenAi(openai))) => openai.clients@.len() > 0,
            (Some(c), None) => match c.translator_config {
                TranslatorConfig::LibreTranslate { .. } => true,
                TranslatorConfig::OpenAi { keys } => keys@.len() > 0 && have_suffixes(keys@),
            },
        },
{
    match (config, held) {
        (None, _) => true,
        (Some(_), Some(translator)) => translator.can_ask(),
        (Some(c), None) => {
            check_keys(&c.translator_config) && match &c.translator_config {
                TranslatorConfig::LibreTranslate { api: _ } => true,
                TranslatorConfig::OpenAi { keys } => keys.len() > 0,
            }
        },
    }
}

/// Begins to translate a text. The translator is made at the first translation and serves all that
/// follow: where one is `held` already, it is the one that asks, and none is made.
pub fn text_translate<E>(
    config: Option<&Config>,
    held: Option<&Translator>,
    input_text: &str,
    dst_language: &str,
) -> (begun: Result<Translation, PluginError<E>>)
    requires
        can_translate(config, held),
    ensures
        match begun {
            Ok(translation) => match (config, held, translation.made) {
                (Some(_), Some(translator), None) => translator@.asks(
                    input_text@,
                    dst_language@,
                    translation.asked@,
                ),
                (Some(c), None, Some(translator)) => {
                    &&& translator@ == configured(c.translator_config)
                    &&& translator@.asks(input_text@, dst_language@, translation.asked@)
                },
                _ => false,
            },
            Err(e) => config is None && e@ == ErrorView::<E>::Type(not_initialized_text()),
        },
        begun matches Err(e) ==> e matches PluginError::Type(text) && text@
            == "fooocus plugin is not initialized"@,
{
    match config {
        None => Err(not_initialized()),
        Some(c) => match held {
            Some(translator) => {
                let asked = translator.text_translate(input_text, dst_language);
                Ok(Translation { made: None, asked })
            },
            None => {
                let translator = make_translator(&c.translator_config);
                let asked = translator.text_translate(input_text, dst_language);
                Ok(Translation { made: Some(translator), asked })
            },
        },
    }
}

/// Every choice that comes last and has a text is the translation, however many stand before it. A
/// reply is taken for empty exactly where it has no choice, and for one without content exactly
/// where its last choice has no text.
pub proof fn law_last_choice_is_the_translation<E>(
    suffix: Seq<char>,
    choices: Vec<Option<String>>,
    before: Seq<Option<String>>,
    last: Option<String>,
)
    ensures
        choices@ == before.push(last) ==> chat_answer::<E>(suffix, ChatReply::Choices(choices))
            == match last {
            Some(text) => Ok::<Seq<char>, ErrorView<E>>(text@),
            None => Err::<Seq<char>, ErrorView<E>>(ErrorView::Type("content is empty"@)),
        },
        chat_answer::<E>(suffix, ChatReply::Choices(choices)) == Err::<Seq<char>, ErrorView<E>>(
            ErrorView::Type("choices is empty"@),
        ) <==> choices@.len() == 0,
{
    reveal_strlit("content is empty");
    reveal_strlit("choices is empty");
    if choices@.len() > 0 {
        assert("content is empty"@[1] == 'o' && "choices is empty"@[1] == 'h');
    }
}

/// A request that could not be made is reported as it was described. One that failed is reported
/// with the suffix of the client's key between the service's name and the description.
pub proof fn law_failed_chat_names_the_client<E>(suffix: Seq<char>, text: String)
    ensures
        chat_answer::<E>(suffix, ChatReply::Unasked(text)) == Err::<Seq<char>, ErrorView<E>>(
            ErrorView::Type(text@),
        ),
        chat_answer::<E>(suffix, ChatReply::Failed(text)) == Err::<Seq<char>, ErrorView<E>>(
            ErrorView::Type("openai["@ + suffix + "] error: "@ + text@),
        ),
{
}

/// The translator that is configured reaches the configured address, or has one client for each
/// configured key, in the order of the keys: client `i` has key `i` and the suffix of that key.
pub proof fn law_translator_is_as_configured(config: TranslatorConfig)
    ensures
        match (config, configured(config)) {
            (TranslatorConfig::LibreTranslate { api }, TranslatorView::LibreTranslate(address)) => {
                address == api@
            },
            (TranslatorConfig::OpenAi { keys }, TranslatorView::OpenAi(clients)) => {
                &&& clients.len() == keys@.len()
                &&& forall|i: int|
                    0 <= i < keys@.len() ==> (#[trigger] clients[i]).1 == keys@[i]@ && clients[i].0
                        == suffix_of(keys@[i]@)
            },
            _ => false,
        },
{
}

/// A translator asks its own service and no other. LibreTranslate is posted the text under `q` and
/// the language under `target`, its source to be found out; OpenAI is told the language by the
/// system and given the text by the user, through one of the clients.
pub proof fn law_own_service_is_asked(
    translator: TranslatorView,
    input_text: Seq<char>,
    dst_language: Seq<char>,
    asked: AskedView,
)
    requires
        translator.asks(input_text, dst_language, asked),
    ensures
        match asked {
            AskedView::LibreTranslate(request) => {
                &&& translator == TranslatorView::LibreTranslate(request.api)
                &&& request.fields == seq![
                    ("q"@, input_text),
                    ("source"@, "auto"@),
                    ("target"@, dst_language),
                ]
            },
            AskedView::OpenAi { request, client } => {
                &&& translator matches TranslatorView::OpenAi(clients) && 0 <= client
                    < clients.len()
                &&& request.model == "gpt-3.5-turbo"@
                &&& request.system == "Translate all text into "@ + dst_language
                &&& request.user == input_text
            },
        },
{
}

/// A call before the plugin is initialized can always be answered. After that, a text can be
/// translated unless the translator that is held has no client or, where none is held yet, no key
/// is configured or a configured key has no suffix.
pub proof fn law_when_a_text_can_be_translated(config: &Config, held: Option<&Translator>)
    ensures
        can_translate(None, held),
        held matches Some(translator) ==> (can_translate(Some(config), held) <==> !(translator@
            == TranslatorView::OpenAi(Seq::empty()))),
        held is None && config.translator_config is LibreTranslate ==> can_translate(
            Some(config),
            held,
        ),
        held is None ==> (config.translator_config matches TranslatorConfig::OpenAi { keys } ==> (
        can_translate(Some(config), held) <==> {
            &&& keys@.len() > 0
            &&& forall|i: int| 0 <= i < keys@.len() ==> has_suffix((#[trigger] keys@[i])@)
        })),
{
    if let Some(translator) = held {
        if let TranslatorView::OpenAi(clients) = translator@ {
            if clients.len() == 0 {
                assert(clients =~= Seq::empty());
            }
        }
    }
}

} // verus!
