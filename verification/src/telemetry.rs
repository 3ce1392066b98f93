//! Telemetry: logs, traces and metrics.
//!
//! The daemon always logs to standard output, in a form for people where that is a
//! terminal and as JSON where it is not. Where a collector is set, it also exports
//! over OTLP/HTTP.
//!
//! | Variable | Default | Purpose |
//! |---|---|---|
//! | `MENTISDB_OTLP_ENDPOINT` | (unset) | URL of the collector; nothing is exported when unset |
//! | `MENTISDB_OTLP_AUTH` | (unset) | Value of the `Authorization` header |
//! | `MENTISDB_OTLP_STREAM` | `"mentisdb"` | Value of the `stream-name` header |
//! | `MENTISDB_DEPLOY_ENV` | `"homelab"` | `deployment.environment` resource attribute |

use vstd::prelude::*;

verus! {

pub const ENV_OTLP_ENDPOINT: &'static str = "MENTISDB_OTLP_ENDPOINT";

pub const ENV_OTLP_AUTH: &'static str = "MENTISDB_OTLP_AUTH";

pub const ENV_OTLP_STREAM: &'static str = "MENTISDB_OTLP_STREAM";

pub const ENV_DEPLOY_ENV: &'static str = "MENTISDB_DEPLOY_ENV";

pub const DEFAULT_STREAM: &'static str = "mentisdb";

pub const DEFAULT_DEPLOY_ENV: &'static str = "homelab";

/// The filter for the log where none is set.
pub const DEFAULT_FILTER: &'static str = "info";

/// How long an export may take, in seconds.
pub const EXPORT_TIMEOUT_SECS: u64 = 10;

/// How often metrics are exported, in seconds.
pub const METRICS_INTERVAL_SECS: u64 = 60;

/// Why telemetry could not be set up.
#[derive(Debug)]
pub enum TelemetryInitError {
    /// The process has a tracing subscriber already.
    AlreadyInitialized,
    /// An exporter could not be built.
    OtlpBuild(String),
}

impl TelemetryInitError {
    /// The error as text.
    pub open spec fn text(self) -> Seq<char> {
        match self {
            TelemetryInitError::AlreadyInitialized => "global tracing subscriber already set"@,
            TelemetryInitError::OtlpBuild(error) => "OTLP exporter build error: "@ + error@,
        }
    }

    /// The error as text.
    pub fn message(&self) -> (message: String)
        ensures
            message@ == self.text(),
    {
        match self {
            TelemetryInitError::AlreadyInitialized => "global tracing subscriber already set".to_owned(),
            TelemetryInitError::OtlpBuild(error) => {
                let mut message = "OTLP exporter build error: ".to_owned();
                message.append(error.as_str());
                message
            },
        }
    }
}

/// What the environment says of the export, apart from the collector's address.
#[derive(Debug)]
pub struct OtlpSettings {
    pub auth: Option<String>,
    pub stream: Option<String>,
    pub deploy_env: Option<String>,
}

/// How to export.
#[derive(Debug)]
pub struct OtlpConfig {
    /// The collector's address.
    pub endpoint: String,
    /// The attributes of the daemon, with their values.
    pub resource: Vec<(String, String)>,
    /// The headers of an export, with their values. No header occurs twice.
    pub headers: Vec<(String, String)>,
    pub timeout_secs: u64,
    pub interval_secs: u64,
}

/// Names with their values, as text.
pub open spec fn pair_texts(pairs: Seq<(String, String)>) -> Seq<(Seq<char>, Seq<char>)> {
    pairs.map_values(|pair: (String, String)| (pair.0@, pair.1@))
}

/// The value of a variable, or `default` where it is not set.
pub open spec fn value_or(value: Option<String>, default: Seq<char>) -> Seq<char> {
    match value {
        Some(value) => value@,
        None => default,
    }
}

/// The attributes of a daemon of the given version.
pub open spec fn resource_of(settings: OtlpSettings, version: Seq<char>) -> Seq<
    (Seq<char>, Seq<char>),
> {
    seq![
        ("service.name"@, "mentisdbd"@),
        ("service.version"@, version),
        ("deployment.environment"@, value_or(settings.deploy_env, DEFAULT_DEPLOY_ENV@)),
    ]
}

/// Whether exports are authorized: a value is set, and it is not empty.
pub open spec fn has_auth(settings: OtlpSettings) -> bool {
    settings.auth matches Some(auth) && auth@.len() > 0
}

/// The headers of an export.
pub open spec fn headers_of(settings: OtlpSettings) -> Seq<(Seq<char>, Seq<char>)> {
    let stream = ("stream-name"@, value_or(settings.stream, DEFAULT_STREAM@));
    if has_auth(settings) {
        seq![("Authorization"@, settings.auth->Some_0@), stream]
    } else {
        seq![stream]
    }
}

/// The value of a variable, or `default` where it is not set.
fn set_or(value: &Option<String>, default: &str) -> (text: String)
    ensures
        text@ == value_or(*value, default@),
{
    match value {
        Some(value) => value.as_str().to_owned(),
        None => default.to_owned(),
    }
}

/// How to export, by a daemon of the given version, to the collector that
/// `endpoint` names; `None` where it names none.
pub fn build_otlp_providers(
    endpoint: Option<&str>,
    settings: &OtlpSettings,
    version: &str,
) -> (config: Option<OtlpConfig>)
    ensures
        config is Some <==> (endpoint matches Some(endpoint) && endpoint@.len() > 0),
        config matches Some(config) ==> {
            &&& config.endpoint@ == endpoint->Some_0@
            &&& pair_texts(config.resource@) == resource_of(*settings, version@)
            &&& pair_texts(config.headers@) == headers_of(*settings)
            &&& config.timeout_secs == EXPORT_TIMEOUT_SECS
            &&& config.interval_secs == METRICS_INTERVAL_SECS
        },
{
    let endpoint = match endpoint {
        Some(endpoint) => endpoint,
        None => return None,
    };
    if endpoint.is_empty() {
        return None;
    }
    let mut resource: Vec<(String, String)> = Vec::new();
    resource.push(("service.name".to_owned(), "mentisdbd".to_owned()));
    resource.push(("service.version".to_owned(), version.to_owned()));
    resource.push(
        ("deployment.environment".to_owned(), set_or(&settings.deploy_env, DEFAULT_DEPLOY_ENV)),
    );
    assert(pair_texts(resource@) =~= resource_of(*settings, version@));

    let mut headers: Vec<(String, String)> = Vec::new();
    if let Some(auth) = &settings.auth {
        if !auth.as_str().is_empty() {
            headers.push(("Authorization".to_owned(), auth.as_str().to_owned()));
        }
    }
    headers.push(("stream-name".to_owned(), set_or(&settings.stream, DEFAULT_STREAM)));
    assert(pair_texts(headers@) =~= headers_of(*settings));

    Some(
        OtlpConfig {
            endpoint: endpoint.to_owned(),
            resource,
            headers,
            timeout_secs: EXPORT_TIMEOUT_SECS,
            interval_secs: METRICS_INTERVAL_SECS,
        },
    )
}

/// No header of an export occurs twice, and there is an `Authorization` header
/// exactly where a value for it is set that is not empty.
pub proof fn law_headers_are_distinct(settings: OtlpSettings)
    ensures
        forall|i: int, j: int|
            0 <= i < j < headers_of(settings).len() ==> (#[trigger] headers_of(settings)[i]).0 != (
            #[trigger] headers_of(settings)[j]).0,
        has_auth(settings) <==> exists|i: int|
            0 <= i < headers_of(settings).len() && (#[trigger] headers_of(settings)[i]).0
                == "Authorization"@,
{
    reveal_strlit("Authorization");
    reveal_strlit("stream-name");
    assert("Authorization"@.len() == 13 && "stream-name"@.len() == 11);
    if has_auth(settings) {
        assert(headers_of(settings)[0].0 == "Authorization"@);
    }
}

/// What is exported.
#[derive(Clone, Copy, Debug, PartialEq, Eq, Structural)]
pub enum Signal {
    Traces,
    Logs,
    Metrics,
}

/// The signal whose exporter is built after that of `signal`.
pub open spec fn signal_after(signal: Signal) -> Option<Signal> {
    match signal {
        Signal::Traces => Some(Signal::Logs),
        Signal::Logs => Some(Signal::Metrics),
        Signal::Metrics => None,
    }
}

/// The signal whose exporter is built first.
pub fn first_signal() -> (signal: Signal)
    ensures
        signal is Traces,
{
    Signal::Traces
}

/// What follows the building of an exporter: the signal whose exporter is built
/// next, `None` after the last, or the error that ends the set-up.
pub fn exporter_built(signal: Signal, built: Result<(), String>) -> (next: Result<
    Option<Signal>,
    TelemetryInitError,
>)
    ensures
        match built {
            Ok(_) => next matches Ok(after) && after == signal_after(signal),
            Err(error) => next == Err::<Option<Signal>, TelemetryInitError>(
                TelemetryInitError::OtlpBuild(error),
            ),
        },
{
    match built {
        Ok(_) => match signal {
            Signal::Traces => Ok(Some(Signal::Logs)),
            Signal::Logs => Ok(Some(Signal::Metrics)),
            Signal::Metrics => Ok(None),
        },
        Err(error) => Err(TelemetryInitError::OtlpBuild(error)),
    }
}

/// A layer of the tracing subscriber.
#[derive(Clone, Copy, Debug, PartialEq, Eq, Structural)]
pub enum LayerKind {
    /// Passes on what the log filter lets through.
    EnvFilter,
    /// Logs to a terminal, in colour.
    TerminalOutput,
    /// Logs to standard output as JSON, without colour.
    JsonOutput,
    /// Exports one kind of signal.
    Export(Signal),
}

/// The layers of the tracing subscriber.
pub open spec fn layers_of(is_terminal: bool, exports: bool) -> Seq<LayerKind> {
    seq![
        LayerKind::EnvFilter,
        if is_terminal {
            LayerKind::TerminalOutput
        } else {
            LayerKind::JsonOutput
        },
    ] + if exports {
        seq![
            LayerKind::Export(Signal::Traces),
            LayerKind::Export(Signal::Logs),
            LayerKind::Export(Signal::Metrics),
        ]
    } else {
        Seq::empty()
    }
}

/// The layers of the tracing subscriber, in order, by whether standard output is a
/// terminal and whether anything is exported.
pub fn subscriber_layers(is_terminal: bool, exports: bool) -> (layers: Vec<LayerKind>)
    ensures
        layers@ == layers_of(is_terminal, exports),
{
    let mut layers: Vec<LayerKind> = Vec::new();
    layers.push(LayerKind::EnvFilter);
    if is_terminal {
        layers.push(LayerKind::TerminalOutput);
    } else {
        layers.push(LayerKind::JsonOutput);
    }
    if exports {
        layers.push(LayerKind::Export(Signal::Traces));
        layers.push(LayerKind::Export(Signal::Logs));
        layers.push(LayerKind::Export(Signal::Metrics));
    }
    assert(layers@ =~= layers_of(is_terminal, exports));
    layers
}

/// Something for each signal: the providers that export it.
pub struct OtlpProviders<T, L, M> {
    pub tracer_provider: T,
    pub logger_provider: L,
    pub meter_provider: M,
}

/// The providers that are shut down as the daemon ends.
pub struct TelemetryGuard<T, L, M> {
    pub tracer_provider: Option<T>,
    pub logger_provider: Option<L>,
    pub meter_provider: Option<M>,
}

/// Why no guard was given, and the providers that must then be left alone: to shut
/// them down would block on a collector that may not answer.
pub struct InitRefusal<T, L, M> {
    pub error: TelemetryInitError,
    pub leaked: Option<OtlpProviders<T, L, M>>,
}

/// A provider of a guard.
pub enum Provider<T, L, M> {
    Tracer(T),
    Logger(L),
    Meter(M),
}

/// The providers, in the order in which they are shut down.
pub open spec fn provider_seq<T, L, M>(providers: Option<OtlpProviders<T, L, M>>) -> Seq<
    Provider<T, L, M>,
> {
    match providers {
        Some(providers) => seq![
            Provider::Tracer(providers.tracer_provider),
            Provider::Logger(providers.logger_provider),
            Provider::Meter(providers.meter_provider),
        ],
        None => Seq::empty(),
    }
}

/// What to do about the subscriber of the process.
#[derive(Clone, Copy, Debug, PartialEq, Eq, Structural)]
pub enum SubscriberStep {
    /// Offer it the subscriber whose layers [`subscriber_layers`] gives. A process that
    /// has one already keeps that.
    Install { exports: bool },
    /// Only ask whether it has one.
    Ask,
}

/// What to do about the subscriber, given the providers that were built, if any, or
/// why they could not be. Where they could not be, none is installed.
pub fn subscriber_step<T, L, M>(
    built: &Result<Option<OtlpProviders<T, L, M>>, TelemetryInitError>,
) -> (step: SubscriberStep)
    ensures
        step == match *built {
            Ok(providers) => SubscriberStep::Install { exports: providers is Some },
            Err(_) => SubscriberStep::Ask,
        },
        step is Install <==> set_after(false, *built),
{
    match built {
        Ok(providers) => SubscriberStep::Install { exports: providers.is_some() },
        Err(_) => SubscriberStep::Ask,
    }
}

/// Whether the process has a subscriber after telemetry was set up, where `set` says
/// whether it had one before.
pub open spec fn set_after<T, L, M>(
    set: bool,
    built: Result<Option<OtlpProviders<T, L, M>>, TelemetryInitError>,
) -> bool {
    set || built is Ok
}

/// Why telemetry is refused; `None` where it is not.
pub open spec fn init_error<T, L, M>(
    set: bool,
    built: Result<Option<OtlpProviders<T, L, M>>, TelemetryInitError>,
) -> Option<TelemetryInitError> {
    if set {
        Some(TelemetryInitError::AlreadyInitialized)
    } else {
        match built {
            Ok(_) => None,
            Err(error) => Some(error),
        }
    }
}

/// The providers that a refusal leaves alone: all that were built.
pub open spec fn left_alone<T, L, M>(
    built: Result<Option<OtlpProviders<T, L, M>>, TelemetryInitError>,
) -> Option<OtlpProviders<T, L, M>> {
    match built {
        Ok(providers) => providers,
        Err(_) => None,
    }
}

/// What setting up telemetry comes to, given the providers that were built, if any,
/// or why they could not be. `already_set` says that the process has a subscriber
/// already, which it keeps: telemetry is then refused, whatever became of the
/// providers.
pub fn init<T, L, M>(
    built: Result<Option<OtlpProviders<T, L, M>>, TelemetryInitError>,
    already_set: bool,
) -> (outcome: Result<TelemetryGuard<T, L, M>, InitRefusal<T, L, M>>)
    ensures
        match init_error(already_set, built) {
            Some(error) => outcome matches Err(refusal) && refusal.error == error
                && refusal.leaked == left_alone(built),
            None => outcome matches Ok(guard) && guard.pending() == provider_seq(built->Ok_0),
        },
{
    if already_set {
        let leaked = match built {
            Ok(providers) => providers,
            Err(_) => None,
        };
        return Err(InitRefusal { error: TelemetryInitError::AlreadyInitialized, leaked });
    }
    let providers = match built {
        Ok(providers) => providers,
        Err(error) => return Err(InitRefusal { error, leaked: None }),
    };
    match providers {
        Some(providers) => {
            let guard = TelemetryGuard {
                tracer_provider: Some(providers.tracer_provider),
                logger_provider: Some(providers.logger_provider),
                meter_provider: Some(providers.meter_provider),
            };
            assert(guard.pending() =~= provider_seq(Some(providers)));
            Ok(guard)
        },
        None => {
            let guard = TelemetryGuard::<T, L, M> {
                tracer_provider: None,
                logger_provider: None,
                meter_provider: None,
            };
            assert(guard.pending() =~= Seq::empty());
            Ok(guard)
        },
    }
}

/// `flag` as a word.
pub open spec fn flag_text(flag: bool) -> Seq<char> {
    if flag {
        "true"@
    } else {
        "false"@
    }
}

/// `flag` as a word.
fn flag_word(flag: bool) -> (word: &'static str)
    ensures
        word@ == flag_text(flag),
{
    if flag {
        "true"
    } else {
        "false"
    }
}

impl<T, L, M> TelemetryGuard<T, L, M> {
    /// The providers that are still to be shut down, in the order in which that is
    /// done.
    pub open spec fn pending(self) -> Seq<Provider<T, L, M>> {
        (match self.tracer_provider {
            Some(provider) => seq![Provider::Tracer(provider)],
            None => Seq::empty(),
        }) + (match self.logger_provider {
            Some(provider) => seq![Provider::Logger(provider)],
            None => Seq::empty(),
        }) + (match self.meter_provider {
            Some(provider) => seq![Provider::Meter(provider)],
            None => Seq::empty(),
        })
    }

    /// Takes out the provider to shut down next: first that of traces, then that of
    /// logs, then that of metrics. `None` where none is left.
    pub fn take_next(&mut self) -> (next: Option<Provider<T, L, M>>)
        ensures
            match next {
                Some(provider) => old(self).pending().len() > 0 && provider
                    == old(self).pending().first() && final(self).pending()
                    == old(self).pending().drop_first(),
                None => old(self).pending().len() == 0 && final(self).pending().len() == 0,
            },
    {
        let ghost before = self.pending();
        if let Some(provider) = self.tracer_provider.take() {
            assert(self.pending() =~= before.drop_first());
            return Some(Provider::Tracer(provider));
        }
        if let Some(provider) = self.logger_provider.take() {
            assert(self.pending() =~= before.drop_first());
            return Some(Provider::Logger(provider));
        }
        if let Some(provider) = self.meter_provider.take() {
            assert(self.pending() =~= before.drop_first());
            return Some(Provider::Meter(provider));
        }
        None
    }

    /// The guard as text: which providers it holds.
    pub fn describe(&self) -> (text: String)
        ensures
            text@ == "TelemetryGuard { tracer_provider: "@ + flag_text(self.tracer_provider is Some)
                + ", logger_provider: "@ + flag_text(self.logger_provider is Some)
                + ", meter_provider: "@ + flag_text(self.meter_provider is Some) + " }"@,
    {
        let mut text = "TelemetryGuard { tracer_provider: ".to_owned();
        text.append(flag_word(self.tracer_provider.is_some()));
        text.append(", logger_provider: ");
        text.append(flag_word(self.logger_provider.is_some()));
        text.append(", meter_provider: ");
        text.append(flag_word(self.meter_provider.is_some()));
        text.append(" }");
        text
    }
}

/// The name of the provider of a signal.
pub open spec fn provider_name(signal: Signal) -> Seq<char> {
    match signal {
        Signal::Traces => "tracer"@,
        Signal::Logs => "logger"@,
        Signal::Metrics => "meter"@,
    }
}

/// What to print where the provider of a signal could not be shut down.
pub fn shutdown_error(signal: Signal, error: &str) -> (line: String)
    ensures
        line@ == "telemetry: "@ + provider_name(signal) + " provider shutdown error: "@ + error@,
{
    let mut line = "telemetry: ".to_owned();
    match signal {
        Signal::Traces => line.append("tracer"),
        Signal::Logs => line.append("logger"),
        Signal::Metrics => line.append("meter"),
    }
    line.append(" provider shutdown error: ");
    line.append(error);
    line
}

/// The meter that the daemon's gauges belong to.
pub const METER_NAME: &'static str = "mentisdbd";

/// The gauge of chain sizes.
pub const CHAIN_SIZE_GAUGE: &'static str = "mentisdb.thought.chain_size";

/// What the gauge of chain sizes shows.
pub const CHAIN_SIZE_DESCRIPTION: &'static str = "Number of thoughts in each chain";

/// The attribute that names the chain of a measurement.
pub const CHAIN_KEY_ATTRIBUTE: &'static str = "chain_key";

/// A gauge to register with the global meter provider.
#[derive(Debug)]
pub struct Gauge {
    pub meter: &'static str,
    pub name: &'static str,
    pub description: &'static str,
}

/// The gauge of chain sizes. At each collection of metrics it is measured by
/// [`chain_size_observations`].
pub fn register_chain_size_gauge() -> (gauge: Gauge)
    ensures
        gauge.meter@ == METER_NAME@,
        gauge.name@ == CHAIN_SIZE_GAUGE@,
        gauge.description@ == CHAIN_SIZE_DESCRIPTION@,
{
    Gauge { meter: METER_NAME, name: CHAIN_SIZE_GAUGE, description: CHAIN_SIZE_DESCRIPTION }
}

/// A measurement: a value, with an attribute and what the attribute says.
#[derive(Debug)]
pub struct Observation {
    pub value: u64,
    pub attribute: &'static str,
    pub subject: String,
}

/// The measurements of the gauge of chain sizes, given the chains and their sizes:
/// one for each chain, in the same order.
pub fn chain_size_observations(sizes: Vec<(String, u64)>) -> (observations: Vec<Observation>)
    ensures
        observations@.len() == sizes@.len(),
        forall|i: int|
            0 <= i < sizes@.len() ==> {
                &&& (#[trigger] observations@[i]).value == sizes@[i].1
                &&& observations@[i].attribute@ == CHAIN_KEY_ATTRIBUTE@
                &&& observations@[i].subject@ == sizes@[i].0@
            },
{
    let ghost given = sizes@;
    let mut observations: Vec<Observation> = Vec::new();
    for pair in it: sizes
        invariant
            it.seq() == given,
            observations@.len() == it.index(),
            forall|i: int|
                0 <= i < it.index() ==> {
                    &&& (#[trigger] observations@[i]).value == given[i].1
                    &&& observations@[i].attribute@ == CHAIN_KEY_ATTRIBUTE@
                    &&& observations@[i].subject@ == given[i].0@
                },
    {
        observations.push(
            Observation { value: pair.1, attribute: CHAIN_KEY_ATTRIBUTE, subject: pair.0 },
        );
    }
    observations
}

/// Telemetry is set up exactly where the process has no subscriber and the providers
/// were built, and the process then has one. A refusal leaves the subscriber as it was:
/// where it comes of an exporter, there is none still, and where there was one already,
/// that one stays, and every provider that was built is handed back, to be left alone.
pub proof fn law_refused_init_changes_nothing<T, L, M>(
    set: bool,
    built: Result<Option<OtlpProviders<T, L, M>>, TelemetryInitError>,
)
    ensures
        init_error(set, built) is None <==> !set && built is Ok,
        init_error(set, built) is None ==> set_after(set, built),
        init_error(set, built) is Some ==> set_after(set, built) == set,
        set ==> init_error(set, built) == Some(TelemetryInitError::AlreadyInitialized) && (
        built is Ok ==> left_alone(built) == built->Ok_0),
        !set ==> (built matches Err(error) ==> init_error(set, built) == Some(error)
            && !set_after(set, built)),
{
}

/// Whether the process has a subscriber after a row of calls, where `set` says whether
/// it had one before.
pub open spec fn set_after_calls<T, L, M>(
    set: bool,
    calls: Seq<Result<Option<OtlpProviders<T, L, M>>, TelemetryInitError>>,
) -> bool
    decreases calls.len(),
{
    if calls.len() == 0 {
        set
    } else {
        set_after(set_after_calls(set, calls.drop_last()), calls.last())
    }
}

/// What the call `calls[i]` of a row is refused with.
pub open spec fn error_of_call<T, L, M>(
    set: bool,
    calls: Seq<Result<Option<OtlpProviders<T, L, M>>, TelemetryInitError>>,
    i: int,
) -> Option<TelemetryInitError> {
    init_error(set_after_calls(set, calls.take(i)), calls[i])
}

/// A process has a subscriber after a row of calls where it had one before or the
/// providers of one of the calls were built.
proof fn lemma_set_after_calls<T, L, M>(
    set: bool,
    calls: Seq<Result<Option<OtlpProviders<T, L, M>>, TelemetryInitError>>,
)
    ensures
        set_after_calls(set, calls) <==> set || exists|k: int|
            0 <= k < calls.len() && (#[trigger] calls[k]) is Ok,
    decreases calls.len(),
{
    if calls.len() > 0 {
        let before = calls.drop_last();
        lemma_set_after_calls(set, before);
        if exists|k: int| 0 <= k < before.len() && (#[trigger] before[k]) is Ok {
            let k = choose|k: int| 0 <= k < before.len() && (#[trigger] before[k]) is Ok;
            assert(calls[k] is Ok);
        }
        if calls.last() is Ok {
            assert(calls[calls.len() - 1] is Ok);
        }
        if exists|k: int| 0 <= k < calls.len() && (#[trigger] calls[k]) is Ok {
            let k = choose|k: int| 0 <= k < calls.len() && (#[trigger] calls[k]) is Ok;
            if k < before.len() {
                assert(before[k] is Ok);
            }
        }
    }
}

/// In a row of calls in a process without a subscriber, the first call whose providers
/// are built succeeds. A call before it is refused with the error of its exporter, and
/// every call after it as already initialized.
pub proof fn law_first_built_call_succeeds<T, L, M>(
    calls: Seq<Result<Option<OtlpProviders<T, L, M>>, TelemetryInitError>>,
    first: int,
    i: int,
)
    requires
        0 <= first < calls.len(),
        calls[first] is Ok,
        forall|j: int| 0 <= j < first ==> (#[trigger] calls[j]) is Err,
        0 <= i < calls.len(),
    ensures
        i < first ==> error_of_call(false, calls, i) == Some(calls[i]->Err_0),
        i == first ==> error_of_call(false, calls, i) is None,
        i > first ==> error_of_call(false, calls, i) == Some(
            TelemetryInitError::AlreadyInitialized,
        ),
        set_after_calls(false, calls),
{
    let before = calls.take(i);
    lemma_set_after_calls(false, before);
    lemma_set_after_calls(false, calls);
    assert(forall|j: int| 0 <= j < before.len() ==> before[j] == calls[j]);
    if i <= first {
        assert forall|j: int| 0 <= j < before.len() implies (#[trigger] before[j]) is Err by {
            assert(calls[j] is Err);
        }
        if i < first {
            assert(calls[i] is Err);
        }
    } else {
        assert(before[first] is Ok);
    }
}

/// The exporters are built for traces, then logs, then metrics, and for nothing
/// else.
pub proof fn law_every_signal_is_exported_in_order()
    ensures
        signal_after(Signal::Traces) == Some(Signal::Logs),
        signal_after(Signal::Logs) == Some(Signal::Metrics),
        signal_after(Signal::Metrics) is None,
{
}

/// The subscriber's layers say which signals are exported: all of them, in the
/// order in which their exporters are built, or none. Whatever is exported, the
/// first two layers are the log filter and one kind of output.
pub proof fn law_layers_follow_exports(is_terminal: bool, exports: bool)
    ensures
        layers_of(is_terminal, exports).take(2) == layers_of(is_terminal, false),
        exports ==> layers_of(is_terminal, exports).skip(2) == seq![
            LayerKind::Export(Signal::Traces),
            LayerKind::Export(Signal::Logs),
            LayerKind::Export(Signal::Metrics),
        ],
{
    assert(layers_of(is_terminal, exports).take(2) =~= layers_of(is_terminal, false));
    if exports {
        assert(layers_of(is_terminal, exports).skip(2) =~= seq![
            LayerKind::Export(Signal::Traces),
            LayerKind::Export(Signal::Logs),
            LayerKind::Export(Signal::Metrics),
        ]);
    }
}

/// What the errors say.
pub proof fn law_errors_say_what_failed(error: String)
    ensures
        TelemetryInitError::AlreadyInitialized.text() == "global tracing subscriber already set"@,
        TelemetryInitError::OtlpBuild(error).text() == "OTLP exporter build error: "@ + error@,
{
}

/// The daemon is described by its name, its version and where it is deployed, which is
/// `homelab` unless it is set.
pub proof fn law_resource_describes_the_daemon(settings: OtlpSettings, version: Seq<char>)
    ensures
        ({
            let resource = resource_of(settings, version);
            &&& resource.len() == 3
            &&& resource[0] == ("service.name"@, "mentisdbd"@)
            &&& resource[1] == ("service.version"@, version)
            &&& resource[2].0 == "deployment.environment"@
            &&& settings.deploy_env matches Some(place) ==> resource[2].1 == place@
            &&& settings.deploy_env is None ==> resource[2].1 == "homelab"@
        }),
{
}

/// The last header names the stream, which is `mentisdb` unless it is set. Before it stands
/// the authorization, unchanged, exactly where one is set that is not empty.
pub proof fn law_headers_carry_the_settings(settings: OtlpSettings)
    ensures
        ({
            let headers = headers_of(settings);
            let authorized = settings.auth is Some && settings.auth->Some_0@.len() > 0;
            &&& headers.len() == if authorized {
                2int
            } else {
                1
            }
            &&& headers.last().0 == "stream-name"@
            &&& settings.stream matches Some(stream) ==> headers.last().1 == stream@
            &&& settings.stream is None ==> headers.last().1 == "mentisdb"@
            &&& authorized ==> headers[0] == ("Authorization"@, settings.auth->Some_0@)
        }),
{
}

/// Pairs are taken one for one.
pub proof fn law_pairs_one_for_one(pairs: Seq<(String, String)>, i: int)
    requires
        0 <= i < pairs.len(),
    ensures
        pair_texts(pairs).len() == pairs.len(),
        pair_texts(pairs)[i] == (pairs[i].0@, pairs[i].1@),
{
}

/// How long an export may take, how often metrics are exported, and what the log lets through.
pub proof fn law_export_times()
    ensures
        EXPORT_TIMEOUT_SECS == 10,
        METRICS_INTERVAL_SECS == 60,
        DEFAULT_FILTER@ == "info"@,
{
}

/// The log goes to a terminal in colour and anywhere else as JSON, behind the filter. Where
/// something is exported, a layer for each signal follows, and else none.
pub proof fn law_output_follows_the_terminal(is_terminal: bool, exports: bool)
    ensures
        ({
            let layers = layers_of(is_terminal, exports);
            &&& layers.len() == if exports {
                5int
            } else {
                2
            }
            &&& layers[0] is EnvFilter
            &&& is_terminal ==> layers[1] is TerminalOutput
            &&& !is_terminal ==> layers[1] is JsonOutput
            &&& exports ==> layers[2] == LayerKind::Export(Signal::Traces) && layers[3]
                == LayerKind::Export(Signal::Logs) && layers[4] == LayerKind::Export(
                Signal::Metrics,
            )
        }),
{
}

/// The providers that were built are shut down each once, traces first and metrics last, and
/// a guard holds what it has yet to shut down.
pub proof fn law_every_provider_is_shut_down_in_order<T, L, M>(
    providers: OtlpProviders<T, L, M>,
    guard: TelemetryGuard<T, L, M>,
)
    ensures
        ({
            let order = provider_seq(Some(providers));
            &&& order.len() == 3
            &&& order[0] == Provider::<T, L, M>::Tracer(providers.tracer_provider)
            &&& order[1] == Provider::<T, L, M>::Logger(providers.logger_provider)
            &&& order[2] == Provider::<T, L, M>::Meter(providers.meter_provider)
            &&& provider_seq(None::<OtlpProviders<T, L, M>>).len() == 0
        }),
        ({
            let a: int = if guard.tracer_provider is Some {
                1
            } else {
                0
            };
            let b: int = if guard.logger_provider is Some {
                1
            } else {
                0
            };
            let c: int = if guard.meter_provider is Some {
                1
            } else {
                0
            };
            &&& guard.pending().len() == a + b + c
            &&& guard.tracer_provider matches Some(provider) ==> guard.pending()[0]
                == Provider::<T, L, M>::Tracer(provider)
            &&& guard.logger_provider matches Some(provider) ==> guard.pending()[a]
                == Provider::<T, L, M>::Logger(provider)
            &&& guard.meter_provider matches Some(provider) ==> guard.pending()[a + b]
                == Provider::<T, L, M>::Meter(provider)
        }),
{
}

/// Where the process has a subscriber, every call is refused for that, and what was built is
/// handed back. Where it has none, a call fails with what its exporter failed with, and only
/// with that.
pub proof fn law_refusal_says_why<T, L, M>(
    built: Option<OtlpProviders<T, L, M>>,
    error: TelemetryInitError,
)
    ensures
        init_error(true, Ok::<Option<OtlpProviders<T, L, M>>, TelemetryInitError>(built)) == Some(
            TelemetryInitError::AlreadyInitialized,
        ),
        init_error(true, Err::<Option<OtlpProviders<T, L, M>>, TelemetryInitError>(error)) == Some(
            TelemetryInitError::AlreadyInitialized,
        ),
        init_error(false, Ok::<Option<OtlpProviders<T, L, M>>, TelemetryInitError>(built)) is None,
        init_error(false, Err::<Option<OtlpProviders<T, L, M>>, TelemetryInitError>(error)) == Some(
            error,
        ),
        left_alone(Ok::<Option<OtlpProviders<T, L, M>>, TelemetryInitError>(built)) == built,
        left_alone(Err::<Option<OtlpProviders<T, L, M>>, TelemetryInitError>(error)) is None,
{
}

/// The words and names that the daemon's telemetry prints and registers.
pub proof fn law_telemetry_names()
    ensures
        flag_text(true) == "true"@,
        flag_text(false) == "false"@,
        provider_name(Signal::Traces) == "tracer"@,
        provider_name(Signal::Logs) == "logger"@,
        provider_name(Signal::Metrics) == "meter"@,
        METER_NAME@ == "mentisdbd"@,
        CHAIN_SIZE_GAUGE@ == "mentisdb.thought.chain_size"@,
        CHAIN_SIZE_DESCRIPTION@ == "Number of thoughts in each chain"@,
        CHAIN_KEY_ATTRIBUTE@ == "chain_key"@,
        ENV_OTLP_ENDPOINT@ == "MENTISDB_OTLP_ENDPOINT"@,
        ENV_OTLP_AUTH@ == "MENTISDB_OTLP_AUTH"@,
        ENV_OTLP_STREAM@ == "MENTISDB_OTLP_STREAM"@,
        ENV_DEPLOY_ENV@ == "MENTISDB_DEPLOY_ENV"@,
{
}

} // verus!
