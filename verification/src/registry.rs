//! Registering the plugin's host as an instance of a service, and taking it back.
use std::collections::HashMap;

use vstd::prelude::*;

use crate::config::Config;
use crate::error::{not_initialized_text, reported, ErrorView, PluginError};

verus! {

/// How the naming server is reached.
pub struct NamingProps {
    pub server_addr: String,
    pub username: String,
    pub password: String,
    pub namespace: String,
}

/// Tells how the naming server is reached, which only the configuration says.
pub fn create_naming_service(config: Option<&Config>) -> (props: Result<NamingProps, String>)
    ensures
        match props {
            Ok(p) => config matches Some(c) && {
                &&& p.server_addr@ == c.nacos_service_config.server_addr@
                &&& p.username@ == c.nacos_service_config.username@
                &&& p.password@ == c.nacos_service_config.password@
                &&& p.namespace@ == c.nacos_service_config.namespace@
            },
            Err(text) => config is None && text@ == not_initialized_text() && text@
                == "fooocus plugin is not initialized"@,
        },
{
    match config {
        None => Err("fooocus plugin is not initialized".to_owned()),
        Some(c) => {
            let service = &c.nacos_service_config;
            Ok(
                NamingProps {
                    server_addr: service.server_addr.clone(),
                    username: service.username.clone(),
                    password: service.password.clone(),
                    namespace: service.namespace.clone(),
                },
            )
        },
    }
}

/// What a JSON text says that is an object of texts: the texts under their names, or why it is
/// none.
pub uninterp spec fn json_texts(text: Seq<char>) -> Result<Map<Seq<char>, Seq<char>>, Seq<char>>;

/// What the reading of a JSON text came to.
pub open spec fn parsed_texts(parsed: Result<HashMap<String, String>, String>) -> Result<
    Map<Seq<char>, Seq<char>>,
    Seq<char>,
> {
    match parsed {
        Ok(texts) => Ok(texts.deep_view()),
        Err(text) => Err(text@),
    }
}

/// Reads a JSON object of texts.
///
/// Stands on `serde_json::from_str` for a hash map of strings, whose failure is described by its
/// own text. Which texts are such objects, and what is read from them, is not stated here: the
/// result is named as a function of the text alone.
#[verifier::external_body]
pub(crate) fn parse_texts(text: &str) -> (parsed: Result<HashMap<String, String>, String>)
    ensures
        parsed_texts(parsed) == json_texts(text@),
{
    serde_json::from_str::<HashMap<String, String>>(text).map_err(|e| e.to_string())
}

/// The group that services belong to unless another one is named.
///
/// Stands on the constant `nacos_sdk::api::constants::DEFAULT_GROUP`.
#[verifier::external_body]
pub(crate) fn default_group() -> (group: String)
    ensures
        group@ == "DEFAULT_GROUP"@,
{
    nacos_sdk::api::constants::DEFAULT_GROUP.to_string()
}

/// An instance of a service, as it is registered and taken back.
#[derive(Debug)]
pub struct Registration {
    pub service_name: String,
    pub group_name: String,
    pub ip: String,
    pub port: i32,
    pub metadata: HashMap<String, String>,
}

/// What a [`Registration`] says.
pub struct RegistrationView {
    pub service_name: Seq<char>,
    pub group_name: Seq<char>,
    pub ip: Seq<char>,
    pub port: int,
    pub metadata: Map<Seq<char>, Seq<char>>,
}

impl View for Registration {
    type V = RegistrationView;

    open spec fn view(&self) -> RegistrationView {
        RegistrationView {
            service_name: self.service_name@,
            group_name: self.group_name@,
            ip: self.ip@,
            port: self.port as int,
            metadata: self.metadata.deep_view(),
        }
    }
}

/// What is to be registered, as the caller gives it.
#[derive(Debug)]
pub struct RegisterRequest {
    pub port: u16,
    pub service_name: String,
    pub metadata_json: String,
}

/// What a [`RegisterRequest`] says.
pub struct RegisterRequestView {
    pub port: u16,
    pub service_name: Seq<char>,
    pub metadata_json: Seq<char>,
}

impl View for RegisterRequest {
    type V = RegisterRequestView;

    open spec fn view(&self) -> RegisterRequestView {
        RegisterRequestView {
            port: self.port,
            service_name: self.service_name@,
            metadata_json: self.metadata_json@,
        }
    }
}

/// A registration that is under way.
#[derive(Debug)]
pub enum Registering<E> {
    /// The address of this host in its network is to be found.
    FindAddress(RegisterRequest),
    /// The naming server is to be reached, where it was not reached before.
    OpenService { request: RegisterRequest, ip: String },
    /// The instance is to be registered.
    Register(Registration),
    /// The registration has ended.
    Done(Result<Registration, PluginError<E>>),
}

/// The outcome of what a registration waits for.
pub enum RegisterEvent {
    Found(Result<String, String>),
    Opened,
    Registered(Result<(), String>),
}

/// What a [`Registering`] says.
pub enum RegisteringView<E> {
    FindAddress(RegisterRequestView),
    OpenService { request: RegisterRequestView, ip: Seq<char> },
    Register(RegistrationView),
    Done(Result<RegistrationView, ErrorView<E>>),
}

/// What a [`RegisterEvent`] says.
pub enum RegisterEventView {
    Found(Result<Seq<char>, Seq<char>>),
    Opened,
    Registered(Result<(), Seq<char>>),
}

/// What a registration came to.
pub open spec fn registered<E>(result: Result<Registration, PluginError<E>>) -> Result<
    RegistrationView,
    ErrorView<E>,
> {
    match result {
        Ok(registration) => Ok(registration@),
        Err(e) => Err(e@),
    }
}

impl<E> View for Registering<E> {
    type V = RegisteringView<E>;

    open spec fn view(&self) -> RegisteringView<E> {
        match self {
            Registering::FindAddress(request) => RegisteringView::FindAddress(request@),
            Registering::OpenService { request, ip } => RegisteringView::OpenService {
                request: request@,
                ip: ip@,
            },
            Registering::Register(registration) => RegisteringView::Register(registration@),
            Registering::Done(result) => RegisteringView::Done(registered(*result)),
        }
    }
}

impl View for RegisterEvent {
    type V = RegisterEventView;

    open spec fn view(&self) -> RegisterEventView {
        match self {
            RegisterEvent::Found(Ok(ip)) => RegisterEventView::Found(Ok(ip@)),
            RegisterEvent::Found(Err(text)) => RegisterEventView::Found(Err(text@)),
            RegisterEvent::Opened => RegisterEventView::Opened,
            RegisterEvent::Registered(result) => RegisterEventView::Registered(reported(*result)),
        }
    }
}

impl<E> RegisteringView<E> {
    /// A registration that ends with a failure described in a text.
    pub open spec fn refused(text: Seq<char>) -> RegisteringView<E> {
        RegisteringView::Done(Err(ErrorView::Type(text)))
    }

    /// The registration once its metadata are read.
    pub open spec fn with_metadata(
        request: RegisterRequestView,
        ip: Seq<char>,
        metadata: Result<Map<Seq<char>, Seq<char>>, Seq<char>>,
    ) -> RegisteringView<E> {
        match metadata {
            Ok(texts) => RegisteringView::Register(
                RegistrationView {
                    service_name: request.service_name,
                    group_name: "DEFAULT_GROUP"@,
                    ip,
                    port: request.port as int,
                    metadata: texts,
                },
            ),
            Err(text) => RegisteringView::refused(text),
        }
    }

    /// What the registration becomes when `event` comes. An event that it does not wait for
    /// changes nothing.
    pub open spec fn after(self, event: RegisterEventView) -> RegisteringView<E> {
        match (self, event) {
            (
                RegisteringView::FindAddress(request),
                RegisterEventView::Found(found),
            ) => match found {
                Ok(ip) => RegisteringView::OpenService { request, ip },
                Err(text) => RegisteringView::refused(text),
            },
            (
                RegisteringView::OpenService { request, ip },
                RegisterEventView::Opened,
            ) => RegisteringView::with_metadata(request, ip, json_texts(request.metadata_json)),
            (
                RegisteringView::Register(registration),
                RegisterEventView::Registered(result),
            ) => match result {
                Ok(_) => RegisteringView::Done(Ok(registration)),
                Err(text) => RegisteringView::refused(text),
            },
            _ => self,
        }
    }
}

/// Begins to register an instance.
pub fn service_register<E>(
    instance_port: u16,
    instance_name: String,
    metadata_json: &str,
) -> (registering: Registering<E>)
    ensures
        registering@ == RegisteringView::<E>::FindAddress(
            RegisterRequestView {
                port: instance_port,
                service_name: instance_name@,
                metadata_json: metadata_json@,
            },
        ),
        registering matches Registering::FindAddress(request) && {
            &&& request.port == instance_port
            &&& request.service_name@ == instance_name@
            &&& request.metadata_json@ == metadata_json@
        },
{
    Registering::FindAddress(
        RegisterRequest {
            port: instance_port,
            service_name: instance_name,
            metadata_json: metadata_json.to_owned(),
        },
    )
}

impl<E> Registering<E> {
    /// The registration once its metadata are read.
    pub fn with_metadata(
        request: RegisterRequest,
        ip: String,
        metadata: Result<HashMap<String, String>, String>,
    ) -> (next: Registering<E>)
        ensures
            next@ == RegisteringView::<E>::with_metadata(request@, ip@, parsed_texts(metadata)),
            match metadata {
                Ok(texts) => next matches Registering::Register(registration) && {
                    &&& registration.service_name@ == request.service_name@
                    &&& registration.group_name@ == "DEFAULT_GROUP"@
                    &&& registration.ip@ == ip@
                    &&& registration.port == request.port
                    &&& registration.metadata == texts
                },
                Err(text) => next matches Registering::Done(Err(PluginError::Type(reason)))
                    && reason@ == text@,
            },
    {
        match metadata {
            Ok(texts) => Registering::Register(
                Registration {
                    service_name: request.service_name,
                    group_name: default_group(),
                    ip,
                    port: request.port as i32,
                    metadata: texts,
                },
            ),
            Err(text) => Registering::Done(Err(PluginError::Type(text))),
        }
    }

    /// Hands the registration the outcome of what it waits for.
    pub fn step(self, event: RegisterEvent) -> (next: Registering<E>)
        ensures
            next@ == self@.after(event@),
            match (self, event) {
                (Registering::FindAddress(request), RegisterEvent::Found(Ok(ip))) => next
                    == Registering::<E>::OpenService { request, ip },
                (Registering::FindAddress(_), RegisterEvent::Found(Err(text))) => next
                    == Registering::<E>::Done(Err(PluginError::Type(text))),
                (Registering::OpenService { .. }, RegisterEvent::Opened) => true,
                (Registering::Register(registration), RegisterEvent::Registered(Ok(_))) => next
                    == Registering::<E>::Done(Ok(registration)),
                (Registering::Register(_), RegisterEvent::Registered(Err(text))) => next
                    == Registering::<E>::Done(Err(PluginError::Type(text))),
                _ => next == self,
            },
    {
        match (self, event) {
            (Registering::FindAddress(request), RegisterEvent::Found(found)) => match found {
                Ok(ip) => Registering::OpenService { request, ip },
                Err(text) => Registering::Done(Err(PluginError::Type(text))),
            },
            (Registering::OpenService { request, ip }, RegisterEvent::Opened) => {
                let metadata = parse_texts(request.metadata_json.as_str());
                Registering::with_metadata(request, ip, metadata)
            },
            (Registering::Register(registration), RegisterEvent::Registered(result)) => {
                match result {
                    Ok(_) => Registering::Done(Ok(registration)),
                    Err(text) => Registering::Done(Err(PluginError::Type(text))),
                }
            },
            (registering, _) => registering,
        }
    }
}

/// What the registration that is held says.
pub open spec fn held_view(held: Option<Registration>) -> Option<RegistrationView> {
    match held {
        Some(registration) => Some(registration@),
        None => None,
    }
}

/// What is held once a registration has come to `result`: an instance that was registered takes
/// the place of any other, and a failure changes nothing.
pub open spec fn held_after<E>(
    held: Option<RegistrationView>,
    result: Result<RegistrationView, ErrorView<E>>,
) -> Option<RegistrationView> {
    match result {
        Ok(registration) => Some(registration),
        Err(_) => held,
    }
}

/// Ends a registration: keeps what is needed to take the instance back, and tells whether it was
/// registered.
pub fn keep_registration<E>(
    held: &mut Option<Registration>,
    result: Result<Registration, PluginError<E>>,
) -> (told: Result<(), PluginError<E>>)
    ensures
        held_view(*final(held)) == held_after(held_view(*old(held)), registered(result)),
        match told {
            Ok(_) => result is Ok,
            Err(e) => registered(result) == Err::<RegistrationView, ErrorView<E>>(e@),
        },
        match result {
            Ok(registration) => *final(held) == Some(registration) && told is Ok,
            Err(e) => *final(held) == *old(held) && told == Err::<(), PluginError<E>>(e),
        },
{
    match result {
        Ok(registration) => {
            *held = Some(registration);
            Ok(())
        },
        Err(e) => Err(e),
    }
}

/// The instance that is to be taken back, given what is held.
pub open spec fn to_deregister<E>(held: Option<RegistrationView>) -> Result<
    RegistrationView,
    ErrorView<E>,
> {
    match held {
        Some(registration) => Ok(registration),
        None => Err(ErrorView::Type("service has not been registered"@)),
    }
}

/// The instance that is to be taken back. It stays held.
pub fn service_deregister<E>(held: &Option<Registration>) -> (registration: Result<
    &Registration,
    PluginError<E>,
>)
    ensures
        match registration {
            Ok(r) => to_deregister::<E>(held_view(*held)) == Ok::<RegistrationView, ErrorView<E>>(
                r@,
            ),
            Err(e) => to_deregister::<E>(held_view(*held)) == Err::<RegistrationView, ErrorView<E>>(
                e@,
            ),
        },
        match held {
            Some(last) => registration == Ok::<&Registration, PluginError<E>>(last),
            None => registration matches Err(PluginError::Type(text)) && text@
                == "service has not been registered"@,
        },
{
    match held {
        Some(registration) => Ok(registration),
        None => Err(PluginError::Type("service has not been registered".to_owned())),
    }
}

/// What the attempt to take an instance back came to.
pub fn deregistered<E>(result: Result<(), String>) -> (told: Result<(), PluginError<E>>)
    ensures
        match told {
            Ok(_) => result is Ok,
            Err(e) => result matches Err(text) && e@ == ErrorView::<E>::Type(text@),
        },
{
    match result {
        Ok(_) => Ok(()),
        Err(text) => Err(PluginError::Type(text)),
    }
}

/// Where the address is found, the metadata can be read and the server agrees, an instance is
/// registered that has the address, the port, the name and the metadata of the request.
pub proof fn law_registration_is_as_requested<E>(
    request: RegisterRequestView,
    ip: Seq<char>,
    texts: Map<Seq<char>, Seq<char>>,
)
    requires
        json_texts(request.metadata_json) == Ok::<Map<Seq<char>, Seq<char>>, Seq<char>>(texts),
    ensures
        RegisteringView::<E>::FindAddress(request).after(RegisterEventView::Found(Ok(ip))).after(
            RegisterEventView::Opened,
        ).after(RegisterEventView::Registered(Ok(()))) == RegisteringView::<E>::Done(
            Ok(
                RegistrationView {
                    service_name: request.service_name,
                    group_name: "DEFAULT_GROUP"@,
                    ip,
                    port: request.port as int,
                    metadata: texts,
                },
            ),
        ),
{
}

/// A registration ends with a failure only where the address is not found, the metadata cannot be
/// read or the server refuses, and it reports that reason.
pub proof fn law_registration_fails_for_a_reason<E>(
    registering: RegisteringView<E>,
    event: RegisterEventView,
    e: ErrorView<E>,
)
    requires
        registering !is Done,
        registering.after(event) == RegisteringView::<E>::Done(Err(e)),
    ensures
        match registering {
            RegisteringView::FindAddress(_) => event matches RegisterEventView::Found(Err(text))
                && e == ErrorView::<E>::Type(text),
            RegisteringView::OpenService { request, .. } => json_texts(
                request.metadata_json,
            ) matches Err(text) && e == ErrorView::<E>::Type(text),
            RegisteringView::Register(_) => event matches RegisterEventView::Registered(Err(text))
                && e == ErrorView::<E>::Type(text),
            RegisteringView::Done(_) => true,
        },
{
}

/// What is taken back is what was registered last, with the same name, group, address, port and
/// metadata, whatever was held before.
pub proof fn law_last_registration_is_taken_back<E>(
    held: Option<RegistrationView>,
    registration: RegistrationView,
)
    ensures
        ({
            let end = RegisteringView::<E>::Register(registration).after(
                RegisterEventView::Registered(Ok(())),
            );
            &&& end == RegisteringView::<E>::Done(Ok(registration))
            &&& to_deregister::<E>(
                held_after(held, Ok::<RegistrationView, ErrorView<E>>(registration)),
            ) == Ok::<RegistrationView, ErrorView<E>>(registration)
        }),
{
}

/// A registration that fails leaves what is held as it was, so that an instance registered before
/// can still be taken back.
pub proof fn law_failed_registration_changes_nothing<E>(
    held: Option<RegistrationView>,
    e: ErrorView<E>,
)
    ensures
        to_deregister::<E>(held_after(held, Err::<RegistrationView, ErrorView<E>>(e)))
            == to_deregister::<E>(held),
{
}

/// A registration ends at the first thing that fails, and reports the text of that failure: the
/// address that is not found, the metadata that cannot be read, the server that refuses.
pub proof fn law_failure_ends_registration<E>(
    request: RegisterRequestView,
    ip: Seq<char>,
    text: Seq<char>,
)
    ensures
        RegisteringView::<E>::FindAddress(request).after(RegisterEventView::Found(Err(text)))
            == RegisteringView::<E>::Done(Err(ErrorView::Type(text))),
        json_texts(request.metadata_json) == Err::<Map<Seq<char>, Seq<char>>, Seq<char>>(text)
            ==> RegisteringView::<E>::FindAddress(request).after(
            RegisterEventView::Found(Ok(ip)),
        ).after(RegisterEventView::Opened) == RegisteringView::<E>::Done(
            Err(ErrorView::Type(text)),
        ),
        json_texts(request.metadata_json) is Ok ==> RegisteringView::<E>::FindAddress(
            request,
        ).after(RegisterEventView::Found(Ok(ip))).after(RegisterEventView::Opened).after(
            RegisterEventView::Registered(Err(text)),
        ) == RegisteringView::<E>::Done(Err(ErrorView::Type(text))),
{
}

/// What a registration waits for comes in its order: the address, then the server, and then the
/// server's word on the instance that has the address, the port, the name and the metadata of the
/// request, in the default group. Whatever comes out of turn changes nothing.
pub proof fn law_registration_goes_in_order<E>(
    request: RegisterRequestView,
    ip: Seq<char>,
    registration: RegistrationView,
    result: Result<RegistrationView, ErrorView<E>>,
    event: RegisterEventView,
)
    ensures
        RegisteringView::<E>::FindAddress(request).after(RegisterEventView::Found(Ok(ip)))
            == (RegisteringView::<E>::OpenService { request, ip }),
        json_texts(request.metadata_json) matches Ok(texts) ==> (RegisteringView::<
            E,
        >::OpenService { request, ip }).after(RegisterEventView::Opened) == RegisteringView::<
            E,
        >::Register(
            RegistrationView {
                service_name: request.service_name,
                group_name: "DEFAULT_GROUP"@,
                ip,
                port: request.port as int,
                metadata: texts,
            },
        ),
        !(event is Found) ==> RegisteringView::<E>::FindAddress(request).after(event)
            == RegisteringView::<E>::FindAddress(request),
        !(event is Opened) ==> (RegisteringView::<E>::OpenService { request, ip }).after(event) == (
        RegisteringView::<E>::OpenService { request, ip }),
        !(event is Registered) ==> RegisteringView::<E>::Register(registration).after(event)
            == RegisteringView::<E>::Register(registration),
        RegisteringView::<E>::Done(result).after(event) == RegisteringView::<E>::Done(result),
{
}

/// Where nothing was registered there is nothing to take back.
pub proof fn law_nothing_to_take_back<E>(e: ErrorView<E>)
    ensures
        to_deregister::<E>(None) == Err::<RegistrationView, ErrorView<E>>(
            ErrorView::Type("service has not been registered"@),
        ),
        to_deregister::<E>(held_after(None, Err::<RegistrationView, ErrorView<E>>(e)))
            == to_deregister::<E>(None),
{
}

} // verus!
