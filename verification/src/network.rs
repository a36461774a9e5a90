//! Outbound HTTP clients: which proxy the persisted settings ask for, how a
//! client builder is set up from them, and the cache of built clients.
use std::time::Duration;

use vstd::prelude::*;

use crate::error::Error;
use crate::text::{chars_of, str_eq};
use crate::web_url::{parse_url, url_parts};

verus! {

// ---------------------------------------------------------------------------
// Proxy settings
// ---------------------------------------------------------------------------

/// The persisted outbound proxy settings, with their secrets.
#[derive(Debug)]
pub struct ProxySettings {
    /// Whether traffic goes through the proxy below rather than the system's.
    pub custom: bool,
    pub address: String,
    pub auth_enabled: bool,
    pub username: String,
    pub password: String,
}

/// The proxy that all outbound traffic uses, with its credentials if any.
#[derive(Debug)]
pub struct ProxyPlan {
    pub address: String,
    pub credentials: Option<(String, String)>,
}

/// The proxy plan of the settings: none unless a custom proxy is chosen, and
/// credentials only where authentication is enabled.
pub fn proxy_plan(settings: &ProxySettings) -> (r: Option<ProxyPlan>)
    ensures
        settings.custom <==> r is Some,
        r matches Some(plan) ==> plan.address@ == settings.address@ && (settings.auth_enabled
            <==> plan.credentials is Some) && (plan.credentials matches Some((u, p)) ==> u@
            == settings.username@ && p@ == settings.password@),
{
    if !settings.custom {
        return None;
    }
    let credentials = if settings.auth_enabled {
        Some((settings.username.clone(), settings.password.clone()))
    } else {
        None
    };
    Some(ProxyPlan { address: settings.address.clone(), credentials })
}

// ---------------------------------------------------------------------------
// Client builders
// ---------------------------------------------------------------------------

#[verifier::external_type_specification]
#[verifier::external_body]
pub struct ExHttpClient(reqwest::Client);

#[verifier::external_type_specification]
#[verifier::external_body]
pub struct ExClientBuilder(reqwest::ClientBuilder);

#[verifier::external_type_specification]
#[verifier::external_body]
pub struct ExBlockingClientBuilder(reqwest::blocking::ClientBuilder);

#[verifier::external_type_specification]
#[verifier::external_body]
pub struct ExProxy(reqwest::Proxy);

/// What a proxy was made from: the address it sends traffic to and the
/// user name and password it sends there, if any.
pub struct ProxyTarget {
    pub address: Seq<char>,
    pub credentials: Option<(Seq<char>, Seq<char>)>,
}

/// What a client builder has been told, and so how a client built from it
/// sends requests: whether the native TLS backend was asked for, the
/// proxies that carry all traffic, whether the system's proxies are used,
/// whether redirects are followed, and the total request timeout.
pub struct BuilderConfig {
    pub native_tls_requested: bool,
    pub proxies: Seq<ProxyTarget>,
    pub system_proxies: bool,
    pub follow_redirects: bool,
    pub timeout: Option<Duration>,
}

/// A new builder's configuration: no proxy of its own, the system's proxies,
/// redirects followed, no timeout, no TLS backend asked for.
pub open spec fn default_config() -> BuilderConfig {
    BuilderConfig {
        native_tls_requested: false,
        proxies: Seq::empty(),
        system_proxies: true,
        follow_redirects: true,
        timeout: None,
    }
}

/// A `reqwest::Proxy` with what it was made from.
pub struct HttpProxy {
    proxy: reqwest::Proxy,
    target: Ghost<ProxyTarget>,
}

impl HttpProxy {
    pub closed spec fn view(&self) -> ProxyTarget {
        self.target@
    }
}

/// A `reqwest::ClientBuilder` with what it has been told.
pub struct HttpClientBuilder {
    builder: reqwest::ClientBuilder,
    config: Ghost<BuilderConfig>,
}

impl HttpClientBuilder {
    pub closed spec fn view(&self) -> BuilderConfig {
        self.config@
    }

    /// The `reqwest` builder itself.
    pub fn into_inner(self) -> reqwest::ClientBuilder {
        self.builder
    }
}

/// A `reqwest::blocking::ClientBuilder` with what it has been told.
pub struct BlockingHttpClientBuilder {
    builder: reqwest::blocking::ClientBuilder,
    config: Ghost<BuilderConfig>,
}

impl BlockingHttpClientBuilder {
    pub closed spec fn view(&self) -> BuilderConfig {
        self.config@
    }

    /// The `reqwest` builder itself.
    pub fn into_inner(self) -> reqwest::blocking::ClientBuilder {
        self.builder
    }
}

/// A `reqwest::Client` with the configuration it was built from.
pub struct HttpClient {
    client: reqwest::Client,
    config: Ghost<BuilderConfig>,
}

impl HttpClient {
    pub closed spec fn view(&self) -> BuilderConfig {
        self.config@
    }

    /// The `reqwest` client itself.
    pub fn client(&self) -> &reqwest::Client {
        &self.client
    }

    /// The `reqwest` client itself, taken out.
    pub fn into_inner(self) -> reqwest::Client {
        self.client
    }
}

/// What `reqwest::Proxy::all` makes of a proxy address: whether it reads it
/// as a proxy URL, and if not, its error's message.
pub uninterp spec fn proxy_all_result(address: Seq<char>) -> Result<(), Seq<char>>;

/// `reqwest::Client::builder`: a builder with reqwest's defaults, which
/// `ClientBuilder::new` sets: no proxies of its own, the system's proxies
/// used, the default redirect policy (follow up to ten), no total timeout.
#[verifier::external_body]
pub(crate) fn new_client_builder() -> (r: HttpClientBuilder)
    ensures
        r@ == default_config(),
{
    HttpClientBuilder { builder: reqwest::Client::builder(), config: Ghost(default_config()) }
}

/// `ClientBuilder::use_native_tls`: the builder, told to use the native TLS
/// backend; nothing else changes.
#[verifier::external_body]
fn use_native_tls(builder: HttpClientBuilder) -> (r: HttpClientBuilder)
    ensures
        r@ == (BuilderConfig { native_tls_requested: true, ..builder@ }),
{
    HttpClientBuilder { builder: builder.builder.use_native_tls(), config: builder.config }
}

/// `reqwest::blocking::Client::builder`: a blocking builder with reqwest's
/// defaults: no proxies of its own, the system's proxies used, redirects
/// followed. Its default timeout is not stated here.
#[verifier::external_body]
fn new_blocking_client_builder() -> (r: BlockingHttpClientBuilder)
    ensures
        r@ == (BuilderConfig { timeout: r@.timeout, ..default_config() }),
{
    BlockingHttpClientBuilder { builder: reqwest::blocking::Client::builder(), config: Ghost(default_config()) }
}

/// The blocking `ClientBuilder::use_native_tls`, which hands the call to
/// the inner builder.
#[verifier::external_body]
fn blocking_use_native_tls(builder: BlockingHttpClientBuilder) -> (r: BlockingHttpClientBuilder)
    ensures
        r@ == (BuilderConfig { native_tls_requested: true, ..builder@ }),
{
    BlockingHttpClientBuilder { builder: builder.builder.use_native_tls(), config: builder.config }
}

/// `reqwest::Proxy::all`: a proxy for all traffic to the address, or the
/// message of the error that the address is refused with; which one is the
/// named value `proxy_all_result(address)`.
#[verifier::external_body]
fn proxy_for_all(address: &str) -> (r: Result<HttpProxy, String>)
    ensures
        match proxy_all_result(address@) {
            Ok(()) => r matches Ok(p) && p@ == (ProxyTarget { address: address@, credentials: None }),
            Err(message) => r matches Err(m) && m@ == message,
        },
{
    match reqwest::Proxy::all(address) {
        Ok(proxy) => Ok(HttpProxy { proxy, target: Ghost(ProxyTarget { address: address@, credentials: None }) }),
        Err(error) => Err(error.to_string()),
    }
}

/// Whether the proxy that `reqwest::Proxy::all` makes of an address can
/// carry credentials. `url::Url::set_username` and `set_password` refuse a
/// URL without a host, with an empty host, or of the `file` scheme. An address
/// that parses as a URL with a host is used as it is; any other address that
/// `Proxy::all` accepts is read as `http://` followed by it, and an `http` URL
/// always has a non-empty host.
pub open spec fn proxy_takes_credentials(address: Seq<char>) -> bool {
    match url_parts(address) {
        Ok((scheme, Some(host))) => host.len() > 0 && scheme != "file"@,
        _ => true,
    }
}

/// `reqwest::Proxy::all` followed by `Proxy::basic_auth`: a proxy for all
/// traffic to the address that sends these credentials, or the message of
/// the error that the address is refused with, as `proxy_all_result(address)`
/// names it. `basic_auth` writes the credentials into the proxy's URL and
/// panics where that URL refuses them; the precondition leaves exactly those
/// addresses out.
#[verifier::external_body]
fn authenticated_proxy_for_all(address: &str, username: &str, password: &str) -> (r: Result<HttpProxy, String>)
    requires
        proxy_takes_credentials(address@),
    ensures
        match proxy_all_result(address@) {
            Ok(()) => r matches Ok(p) && p@ == (ProxyTarget {
                address: address@,
                credentials: Some((username@, password@)),
            }),
            Err(message) => r matches Err(m) && m@ == message,
        },
{
    match reqwest::Proxy::all(address) {
        Ok(proxy) => Ok(HttpProxy {
            proxy: proxy.basic_auth(username, password),
            target: Ghost(ProxyTarget { address: address@, credentials: Some((username@, password@)) }),
        }),
        Err(error) => Err(error.to_string()),
    }
}

/// Whether settings can be applied: credentials are only asked of a proxy
/// address whose URL can carry them.
pub open spec fn proxy_settings_supported(settings: ProxySettings) -> bool {
    settings.custom && settings.auth_enabled ==> proxy_takes_credentials(settings.address@)
}

/// Whether the settings can be applied; see [`proxy_settings_supported`].
pub fn supports_proxy_settings(settings: &ProxySettings) -> (r: bool)
    ensures
        r == proxy_settings_supported(*settings),
{
    if !(settings.custom && settings.auth_enabled) {
        return true;
    }
    match parse_url(settings.address.as_str()) {
        Ok((scheme, Some(host))) => chars_of(host.as_str()).len() > 0 && !str_eq(scheme.as_str(), "file"),
        _ => true,
    }
}

/// `ClientBuilder::no_proxy`: the builder with its proxy list cleared and
/// the system's proxies switched off.
#[verifier::external_body]
fn without_system_proxies(builder: HttpClientBuilder) -> (r: HttpClientBuilder)
    ensures
        r@ == (BuilderConfig { proxies: Seq::empty(), system_proxies: false, ..builder@ }),
{
    HttpClientBuilder { builder: builder.builder.no_proxy(), config: builder.config }
}

/// `ClientBuilder::proxy`: the builder with the proxy added to its list and
/// the system's proxies switched off.
#[verifier::external_body]
fn with_proxy(builder: HttpClientBuilder, proxy: HttpProxy) -> (r: HttpClientBuilder)
    ensures
        r@ == (BuilderConfig { proxies: builder@.proxies.push(proxy@), system_proxies: false, ..builder@ }),
{
    HttpClientBuilder { builder: builder.builder.proxy(proxy.proxy), config: builder.config }
}

/// The blocking `ClientBuilder::no_proxy`, which hands the call to the
/// inner builder.
#[verifier::external_body]
fn blocking_without_system_proxies(builder: BlockingHttpClientBuilder) -> (r: BlockingHttpClientBuilder)
    ensures
        r@ == (BuilderConfig { proxies: Seq::empty(), system_proxies: false, ..builder@ }),
{
    BlockingHttpClientBuilder { builder: builder.builder.no_proxy(), config: builder.config }
}

/// The blocking `ClientBuilder::proxy`, which hands the call to the inner
/// builder.
#[verifier::external_body]
fn blocking_with_proxy(builder: BlockingHttpClientBuilder, proxy: HttpProxy) -> (r: BlockingHttpClientBuilder)
    ensures
        r@ == (BuilderConfig { proxies: builder@.proxies.push(proxy@), system_proxies: false, ..builder@ }),
{
    BlockingHttpClientBuilder { builder: builder.builder.proxy(proxy.proxy), config: builder.config }
}

/// The proxy target of a plan: its address, with its credentials.
pub open spec fn plan_target(plan: ProxyPlan) -> ProxyTarget {
    ProxyTarget {
        address: plan.address@,
        credentials: match plan.credentials {
            Some((u, p)) => Some((u@, p@)),
            None => None,
        },
    }
}

/// The proxy of a plan, with its credentials, or the error that its address
/// is refused.
fn plan_proxy(plan: &ProxyPlan) -> (r: Result<HttpProxy, Error>)
    requires
        plan.credentials is Some ==> proxy_takes_credentials(plan.address@),
    ensures
        match proxy_all_result(plan.address@) {
            Ok(()) => r matches Ok(p) && p@ == plan_target(*plan),
            Err(message) => r matches Err(Error::Http(m)) && m@ == message,
        },
{
    let made = match &plan.credentials {
        Some((username, password)) => authenticated_proxy_for_all(
            plan.address.as_str(),
            username.as_str(),
            password.as_str(),
        ),
        None => proxy_for_all(plan.address.as_str()),
    };
    match made {
        Ok(proxy) => Ok(proxy),
        Err(message) => Err(Error::Http(message)),
    }
}

/// Whether the settings fail on their proxy address, and with what message.
pub open spec fn proxy_failure(settings: ProxySettings) -> Option<Seq<char>> {
    if settings.custom {
        match proxy_all_result(settings.address@) {
            Ok(()) => None,
            Err(message) => Some(message),
        }
    } else {
        None
    }
}

/// The proxy that custom settings send all traffic through: their address,
/// with their user name and password where authentication is enabled.
pub open spec fn settings_proxy(settings: ProxySettings) -> ProxyTarget {
    ProxyTarget {
        address: settings.address@,
        credentials: if settings.auth_enabled {
            Some((settings.username@, settings.password@))
        } else {
            None
        },
    }
}

/// The configuration that the settings give a builder: the native TLS
/// backend, and under a custom proxy setting that proxy alone for all
/// traffic, without the system's proxies.
pub open spec fn configured_builder(settings: ProxySettings) -> BuilderConfig {
    if settings.custom {
        BuilderConfig {
            native_tls_requested: true,
            proxies: seq![settings_proxy(settings)],
            system_proxies: false,
            ..default_config()
        }
    } else {
        BuilderConfig { native_tls_requested: true, ..default_config() }
    }
}

/// A client builder on the platform TLS stack (for provider gateways that
/// only offer older TLS 1.2 cipher suites) that, under a custom proxy
/// setting, sends all traffic through that proxy and ignores the system's.
pub fn client_builder(settings: &ProxySettings) -> (r: Result<HttpClientBuilder, Error>)
    requires
        proxy_settings_supported(*settings),
    ensures
        match proxy_failure(*settings) {
            None => r matches Ok(b) && b@ == configured_builder(*settings),
            Some(message) => r matches Err(Error::Http(m)) && m@ == message,
        },
{
    let builder = use_native_tls(new_client_builder());
    match proxy_plan(settings) {
        Some(plan) => {
            let proxy = match plan_proxy(&plan) {
                Ok(proxy) => proxy,
                Err(error) => return Err(error),
            };
            let r = with_proxy(without_system_proxies(builder), proxy);
            assert(r@.proxies =~= seq![settings_proxy(*settings)]);
            Ok(r)
        },
        None => Ok(builder),
    }
}

/// The blocking counterpart of [`client_builder`]; the blocking builder's
/// own timeout is kept.
pub fn blocking_client_builder(settings: &ProxySettings) -> (r: Result<BlockingHttpClientBuilder, Error>)
    requires
        proxy_settings_supported(*settings),
    ensures
        match proxy_failure(*settings) {
            None => r matches Ok(b) && b@ == (BuilderConfig {
                timeout: b@.timeout,
                ..configured_builder(*settings)
            }),
            Some(message) => r matches Err(Error::Http(m)) && m@ == message,
        },
{
    let builder = blocking_use_native_tls(new_blocking_client_builder());
    match proxy_plan(settings) {
        Some(plan) => {
            let proxy = match plan_proxy(&plan) {
                Ok(proxy) => proxy,
                Err(error) => return Err(error),
            };
            let r = blocking_with_proxy(blocking_without_system_proxies(builder), proxy);
            assert(r@.proxies =~= seq![settings_proxy(*settings)]);
            Ok(r)
        },
        None => Ok(builder),
    }
}

// ---------------------------------------------------------------------------
// Built clients
// ---------------------------------------------------------------------------

/// `ClientBuilder::build`: a client with the builder's configuration, or
/// its error's message. Building can fail where the machine's TLS backend
/// cannot be set up, so whether it succeeds is not stated.
#[verifier::external_body]
pub(crate) fn build_client(builder: HttpClientBuilder) -> (r: Result<HttpClient, String>)
    ensures
        r matches Ok(client) ==> client@ == builder@,
{
    match builder.builder.build() {
        Ok(client) => Ok(HttpClient { client, config: builder.config }),
        Err(error) => Err(error.to_string()),
    }
}

/// `ClientBuilder::redirect` with `Policy::none()`: redirects are answered
/// to the caller rather than followed.
#[verifier::external_body]
fn without_redirects(builder: HttpClientBuilder) -> (r: HttpClientBuilder)
    ensures
        r@ == (BuilderConfig { follow_redirects: false, ..builder@ }),
{
    HttpClientBuilder { builder: builder.builder.redirect(reqwest::redirect::Policy::none()), config: builder.config }
}

/// `ClientBuilder::timeout`: requests time out after `timeout`.
#[verifier::external_body]
pub(crate) fn with_timeout(builder: HttpClientBuilder, timeout: Duration) -> (r: HttpClientBuilder)
    ensures
        r@ == (BuilderConfig { timeout: Some(timeout), ..builder@ }),
{
    HttpClientBuilder { builder: builder.builder.timeout(timeout), config: builder.config }
}

/// Which of the shared clients is asked for.
#[derive(Clone, Copy, Debug, PartialEq, Eq, Structural)]
pub enum ClientPurpose {
    /// The general client.
    Default,
    /// The client for Cursor's own services, which does not follow redirects.
    Cursor,
    /// The client for model providers, with a request timeout.
    Provider,
}

/// How a builder is finished for a purpose.
#[derive(Clone, Copy, Debug)]
pub enum BuilderFinish {
    /// Built as it is.
    AsIs,
    /// Redirects are answered to the caller rather than followed.
    NoRedirects,
    /// Requests time out after the given duration.
    Timeout(Duration),
}

/// How a builder is finished for a purpose: the general client as it is,
/// Cursor's client without following redirects, a provider client with the
/// requested timeout.
pub fn builder_finish(purpose: ClientPurpose, timeout: Duration) -> (r: BuilderFinish)
    ensures
        purpose == ClientPurpose::Default ==> r == BuilderFinish::AsIs,
        purpose == ClientPurpose::Cursor ==> r == BuilderFinish::NoRedirects,
        purpose == ClientPurpose::Provider ==> r == BuilderFinish::Timeout(timeout),
{
    match purpose {
        ClientPurpose::Default => BuilderFinish::AsIs,
        ClientPurpose::Cursor => BuilderFinish::NoRedirects,
        ClientPurpose::Provider => BuilderFinish::Timeout(timeout),
    }
}

/// A configuration, finished for a purpose.
pub open spec fn finished_config(config: BuilderConfig, purpose: ClientPurpose, timeout: Duration) -> BuilderConfig {
    match purpose {
        ClientPurpose::Default => config,
        ClientPurpose::Cursor => BuilderConfig { follow_redirects: false, ..config },
        ClientPurpose::Provider => BuilderConfig { timeout: Some(timeout), ..config },
    }
}

/// Builds a client for a purpose from the settings' builder, finished as
/// [`builder_finish`] says; building fails with the settings' proxy error,
/// or where the HTTP stack cannot be set up.
pub fn build_for(settings: &ProxySettings, purpose: ClientPurpose, timeout: Duration) -> (r: Result<HttpClient, Error>)
    requires
        proxy_settings_supported(*settings),
    ensures
        proxy_failure(*settings) matches Some(message) ==> (r matches Err(Error::Http(m)) && m@
            == message),
        r matches Ok(client) ==> client@ == finished_config(configured_builder(*settings), purpose, timeout),
        r is Err ==> r matches Err(Error::Http(_)),
{
    let builder = match client_builder(settings) {
        Ok(builder) => builder,
        Err(error) => return Err(error),
    };
    let builder = match builder_finish(purpose, timeout) {
        BuilderFinish::AsIs => builder,
        BuilderFinish::NoRedirects => without_redirects(builder),
        BuilderFinish::Timeout(timeout) => with_timeout(builder, timeout),
    };
    match build_client(builder) {
        Ok(client) => Ok(client),
        Err(message) => Err(Error::Http(message)),
    }
}

/// A client builder for settings that can be applied, as
/// [`client_builder`] gives it; nothing for settings that ask credentials of
/// a proxy address that cannot carry them.
pub fn try_client_builder(settings: &ProxySettings) -> (r: Option<Result<HttpClientBuilder, Error>>)
    ensures
        r is None <==> !proxy_settings_supported(*settings),
        r matches Some(b) ==> match proxy_failure(*settings) {
            None => b matches Ok(b) && b@ == configured_builder(*settings),
            Some(message) => b matches Err(Error::Http(m)) && m@ == message,
        },
{
    if supports_proxy_settings(settings) {
        Some(client_builder(settings))
    } else {
        None
    }
}

/// The blocking counterpart of [`try_client_builder`].
pub fn try_blocking_client_builder(settings: &ProxySettings) -> (r: Option<Result<BlockingHttpClientBuilder, Error>>)
    ensures
        r is None <==> !proxy_settings_supported(*settings),
        r matches Some(b) ==> match proxy_failure(*settings) {
            None => b matches Ok(b) && b@ == (BuilderConfig {
                timeout: b@.timeout,
                ..configured_builder(*settings)
            }),
            Some(message) => b matches Err(Error::Http(m)) && m@ == message,
        },
{
    if supports_proxy_settings(settings) {
        Some(blocking_client_builder(settings))
    } else {
        None
    }
}

/// A client for a purpose from settings that can be applied, as
/// [`build_for`] gives it; nothing for settings that ask credentials of a
/// proxy address that cannot carry them.
pub fn try_build_for(settings: &ProxySettings, purpose: ClientPurpose, timeout: Duration) -> (r: Option<Result<HttpClient, Error>>)
    ensures
        r is None <==> !proxy_settings_supported(*settings),
        r matches Some(c) ==> (proxy_failure(*settings) matches Some(message) ==> (c matches Err(Error::Http(m)) && m@ == message)),
        r matches Some(c) ==> (c matches Ok(client) ==> client@ == finished_config(configured_builder(*settings), purpose, timeout)),
        r matches Some(c) ==> (c is Err ==> c matches Err(Error::Http(_))),
{
    if supports_proxy_settings(settings) {
        Some(build_for(settings, purpose, timeout))
    } else {
        None
    }
}

// ---------------------------------------------------------------------------
// Client cache
// ---------------------------------------------------------------------------

/// Whether two durations are the same: `Duration`'s `==` compares the
/// seconds and nanoseconds that make up the value.
#[verifier::external_body]
fn same_duration(a: &Duration, b: &Duration) -> (r: bool)
    ensures
        r == (*a == *b),
{
    *a == *b
}

/// What a client cache holds.
pub struct CacheV<C> {
    pub default: Option<C>,
    pub cursor: Option<C>,
    pub provider: Option<(Duration, C)>,
}

/// The client that a cache gives for a purpose: a provider client only for
/// the timeout it was built with.
pub open spec fn cached_client<C>(cache: CacheV<C>, purpose: ClientPurpose, timeout: Duration) -> Option<C> {
    match purpose {
        ClientPurpose::Default => cache.default,
        ClientPurpose::Cursor => cache.cursor,
        ClientPurpose::Provider => match cache.provider {
            Some((t, c)) => if t == timeout {
                Some(c)
            } else {
                None
            },
            None => None,
        },
    }
}

/// The cache after a client was kept for a purpose: a provider client
/// replaces the one kept for any timeout.
pub open spec fn stored_client<C>(cache: CacheV<C>, purpose: ClientPurpose, timeout: Duration, client: C) -> CacheV<C> {
    match purpose {
        ClientPurpose::Default => CacheV { default: Some(client), cursor: cache.cursor, provider: cache.provider },
        ClientPurpose::Cursor => CacheV { default: cache.default, cursor: Some(client), provider: cache.provider },
        ClientPurpose::Provider => CacheV {
            default: cache.default,
            cursor: cache.cursor,
            provider: Some((timeout, client)),
        },
    }
}

/// A cache holding no client.
pub open spec fn empty_cache<C>() -> CacheV<C> {
    CacheV { default: None, cursor: None, provider: None }
}

/// The clients built so far: the general one, Cursor's, and the provider
/// client for the last timeout asked for.
pub struct ClientCache<C> {
    default: Option<C>,
    cursor: Option<C>,
    provider: Option<(Duration, C)>,
}

impl<C> ClientCache<C> {
    pub closed spec fn view(&self) -> CacheV<C> {
        CacheV { default: self.default, cursor: self.cursor, provider: self.provider }
    }

    /// A cache with no clients.
    pub fn new() -> (r: Self)
        ensures
            r@ == empty_cache::<C>(),
    {
        ClientCache { default: None, cursor: None, provider: None }
    }

    /// The cached client for a purpose.
    pub fn cached(&self, purpose: ClientPurpose, timeout: &Duration) -> (r: Option<&C>)
        ensures
            match cached_client(self@, purpose, *timeout) {
                Some(c) => r == Some(&c),
                None => r is None,
            },
    {
        match purpose {
            ClientPurpose::Default => match &self.default {
                Some(c) => Some(c),
                None => None,
            },
            ClientPurpose::Cursor => match &self.cursor {
                Some(c) => Some(c),
                None => None,
            },
            ClientPurpose::Provider => match &self.provider {
                Some((t, c)) => if same_duration(t, timeout) {
                    Some(c)
                } else {
                    None
                },
                None => None,
            },
        }
    }

    /// Keeps a freshly built client for a purpose.
    pub fn store(&mut self, purpose: ClientPurpose, timeout: Duration, client: C)
        ensures
            final(self)@ == stored_client(old(self)@, purpose, timeout, client),
    {
        match purpose {
            ClientPurpose::Default => self.default = Some(client),
            ClientPurpose::Cursor => self.cursor = Some(client),
            ClientPurpose::Provider => self.provider = Some((timeout, client)),
        }
    }

    /// Forgets every client, so that the next request builds from the
    /// current settings.
    pub fn invalidate(&mut self)
        ensures
            final(self)@ == empty_cache::<C>(),
    {
        self.default = None;
        self.cursor = None;
        self.provider = None;
    }
}

/// `reqwest::Client::clone`: another handle to the same client, which shares
/// its configuration.
#[verifier::external_body]
fn clone_client(client: &HttpClient) -> (r: HttpClient)
    ensures
        r@ == client@,
{
    HttpClient { client: client.client.clone(), config: client.config }
}

/// Builds a client for a purpose from the settings, keeps it in the cache and
/// hands out a handle to it. Nothing is built, and the cache is left as it
/// was, for settings that ask credentials of a proxy address that cannot
/// carry them; a client that cannot be built leaves the cache as it was too.
pub fn build_and_store(
    cache: &mut ClientCache<HttpClient>,
    settings: &ProxySettings,
    purpose: ClientPurpose,
    timeout: Duration,
) -> (r: Option<Result<HttpClient, Error>>)
    ensures
        r is None <==> !proxy_settings_supported(*settings),
        !(r matches Some(Ok(_))) ==> final(cache)@ == old(cache)@,
        r matches Some(Ok(client)) ==> client@ == finished_config(configured_builder(*settings), purpose, timeout)
            && exists|kept: HttpClient| kept@ == client@
            && final(cache)@ == #[trigger] stored_client(old(cache)@, purpose, timeout, kept),
        r matches Some(c) ==> (proxy_failure(*settings) matches Some(message) ==> (c matches Err(Error::Http(m)) && m@ == message)),
        r matches Some(c) ==> (c is Err ==> c matches Err(Error::Http(_))),
{
    if !supports_proxy_settings(settings) {
        return None;
    }
    match build_for(settings, purpose, timeout) {
        Ok(client) => {
            let handle = clone_client(&client);
            let ghost kept = client;
            cache.store(purpose, timeout, client);
            assert(kept@ == handle@);
            Some(Ok(handle))
        },
        Err(error) => Some(Err(error)),
    }
}

/// A client kept for a purpose is the one the cache then gives for that
/// purpose (a provider client under the timeout it was kept with), and the
/// clients kept for other purposes are unchanged.
pub proof fn law_cache_gives_stored<C>(cache: CacheV<C>, purpose: ClientPurpose, other: ClientPurpose, timeout: Duration, asked: Duration, client: C)
    ensures
        cached_client(stored_client(cache, purpose, timeout, client), purpose, timeout) == Some(client),
        other != purpose ==> cached_client(stored_client(cache, purpose, timeout, client), other, asked)
            == cached_client(cache, other, asked),
{
}

/// An invalidated cache gives no client for any purpose.
pub proof fn law_invalidated_cache_is_empty<C>(purpose: ClientPurpose, timeout: Duration)
    ensures
        cached_client(empty_cache::<C>(), purpose, timeout) is None,
{
}

} // verus!
