//! Start-up, migrations, update check, waiting for a daemon, telemetry.

use mentisdbd::daemon::{
    adoption_report, first_stage, listener_report, run, shutdown_report, start_report,
    AdoptionReport, Listeners, RunNext, RunStage,
};
use mentisdbd::limits::{raise_fd_limit, FdLimit};
use mentisdbd::migrate::{
    first_migration, migration_event, run_migrations, MigratedChain, MigrationStep,
};
use mentisdbd::report::{Level, LogLine};
use mentisdbd::settings::env_var_truthy;
use mentisdbd::stdio::{
    after_launch, after_probe, after_wait, health_url, is_daemon_running, launch_daemon,
    launch_outcome, run_stdio_mode, wait_for_daemon, Platform, StdioNext, WaitStep,
};
use mentisdbd::telemetry::{
    build_otlp_providers, chain_size_observations, exporter_built, first_signal, init,
    register_chain_size_gauge, shutdown_error, subscriber_layers, subscriber_step, LayerKind,
    OtlpProviders, OtlpSettings, Provider, Signal, SubscriberStep, TelemetryInitError,
};
use mentisdbd::text::{
    contains, decimal_text, reads_as, same_text, starts_with, strip_leading, trim,
};
use mentisdbd::update::{
    check_for_updates_noninteractive, latest_release_tag, release_report, GitHubReleaseResponse,
};
use mentisdbd::version::{is_newer, is_version};

fn line(level: Level, message: &str) -> LogLine {
    LogLine { level, message: message.to_string() }
}

fn pairs(list: &[(String, String)]) -> Vec<(&str, &str)> {
    list.iter().map(|(name, value)| (name.as_str(), value.as_str())).collect()
}

#[test]
fn switches_are_read_loosely() {
    for on in ["1", "true", "yes", "on", "TRUE", " Yes ", "oN\n"] {
        assert!(env_var_truthy(Some(on), false), "{on:?} should switch on");
    }
    for off in ["0", "false", "no", "off", "FALSE", "\tOff"] {
        assert!(!env_var_truthy(Some(off), true), "{off:?} should switch off");
    }
    for neither in ["", "2", "unexpected", "tr ue", "ÝES"] {
        assert!(env_var_truthy(Some(neither), true));
        assert!(!env_var_truthy(Some(neither), false));
    }
    assert!(env_var_truthy(None, true));
    assert!(!env_var_truthy(None, false));
}

#[test]
fn text_helpers_agree_with_the_standard_library() {
    for sample in [
        "", " ", "a", " a b ", "\u{85}x\u{2028}", "\u{200b}x", "vv1.2v", "v", "Ünï\u{a0}",
        "\r\nabc\t", "\u{1680}\u{202f}\u{205f}\u{3000}q\u{2029}", "\u{180e}z",
    ] {
        assert_eq!(trim(sample), sample.trim());
        assert_eq!(strip_leading(sample, 'v'), sample.trim_start_matches('v'));
        for other in ["", "a", "v", "vv", "abc", " ", "1.2"] {
            assert_eq!(contains(sample, other), sample.contains(other));
            assert_eq!(starts_with(sample, other), sample.starts_with(other));
            assert_eq!(same_text(sample, other), sample == other);
            assert_eq!(reads_as(sample, other), sample.to_ascii_lowercase() == other);
        }
    }
    for c in 0..0x3100u32 {
        if let Some(c) = char::from_u32(c) {
            let s = format!("{c}x{c}");
            assert_eq!(trim(&s), s.trim());
        }
    }
    for n in [0, 7, 10, 99, 100, 65535, u64::MAX] {
        assert_eq!(decimal_text(n), n.to_string());
    }
}

#[test]
fn the_fd_limit_is_raised_to_the_cap() {
    let limit = |current, maximum| FdLimit { current, maximum };
    assert_eq!(raise_fd_limit(Some(limit(256, 4096))), Some(limit(4096, 4096)));
    assert_eq!(raise_fd_limit(Some(limit(256, u64::MAX))), Some(limit(65535, u64::MAX)));
    assert_eq!(raise_fd_limit(Some(limit(65535, u64::MAX))), None);
    assert_eq!(raise_fd_limit(Some(limit(100_000, 200_000))), None);
    assert_eq!(raise_fd_limit(Some(limit(4096, 4096))), None);
    assert_eq!(raise_fd_limit(None), None);
}

#[test]
fn the_release_query_names_the_repository() {
    let query = latest_release_tag("a/b", "1.2.3");
    assert_eq!(query.url, "https://api.github.com/repos/a/b/releases/latest");
    assert_eq!(query.user_agent, "mentisdbd/1.2.3");
    assert_eq!(query.timeout_secs, 4);
}

#[test]
fn the_update_check_can_be_switched_off() {
    assert!(check_for_updates_noninteractive(Some("off"), Some("a/b"), "1.0.0").is_none());
    let query = check_for_updates_noninteractive(None, None, "1.0.0").unwrap();
    assert_eq!(
        query.url,
        "https://api.github.com/repos/CloudLLM-ai/mentisdb/releases/latest"
    );
    let query = check_for_updates_noninteractive(Some("maybe"), Some("a/b"), "1.0.0").unwrap();
    assert_eq!(query.url, "https://api.github.com/repos/a/b/releases/latest");
}

#[test]
fn a_newer_release_is_warned_about() {
    let release = |tag: &str| {
        Some(GitHubReleaseResponse { tag_name: tag.to_string(), html_url: "http://r".to_string() })
    };
    assert_eq!(
        release_report("1.0.0", release("v1.0.0")),
        line(Level::Debug, "mentisdb is up to date at 1.0.0")
    );
    assert_eq!(
        release_report("1.0.0", release("1.0.0")),
        line(Level::Debug, "mentisdb is up to date at 1.0.0")
    );
    assert_eq!(
        release_report("1.0.0", release("vv1.1.0")),
        line(
            Level::Warn,
            "mentisdb update available: running 1.0.0, latest release is 1.1.0 (http://r)"
        )
    );
    assert_eq!(
        release_report("1.0.0", release("v0.9.0")),
        line(Level::Debug, "mentisdb is up to date at 1.0.0")
    );
    assert_eq!(
        release_report("1.9.0", release("v1.10.0")),
        line(
            Level::Warn,
            "mentisdb update available: running 1.9.0, latest release is 1.10.0 (http://r)"
        )
    );
    assert_eq!(
        release_report("1.10.0", release("v1.9.0")),
        line(Level::Debug, "mentisdb is up to date at 1.10.0")
    );
    for (current, tag, latest) in [
        ("1", "release-2.0.0", "release-2.0.0"),
        ("1.0.0", "nightly", "nightly"),
        ("1.0.0", "v", ""),
        ("1.0.0", "vV1.0.0", "V1.0.0"),
        ("unknown", "v0.0.0", "0.0.0"),
    ] {
        assert_eq!(
            release_report(current, release(tag)),
            line(
                Level::Warn,
                &format!(
                    "mentisdb update available: running {current}, latest release is {latest} (http://r)"
                )
            )
        );
    }
    assert_eq!(
        release_report("nightly", release("nightly")),
        line(Level::Debug, "mentisdb is up to date at nightly")
    );
    assert_eq!(
        release_report("1.0.0", None),
        line(Level::Debug, "update check: could not reach GitHub")
    );
}

#[test]
fn a_version_begins_with_a_number() {
    for version in ["1", "0.9.0", "2024-release", "1.0.0-rc.1"] {
        assert!(is_version(version), "{version}");
    }
    for other in ["", "nightly", "release-2.0.0", "-1", "+1", ".1", "V1", "\u{663}.1"] {
        assert!(!is_version(other), "{other}");
    }
}

#[test]
fn versions_are_ordered_by_their_numbers() {
    let rising = [
        "0.9.9",
        "1.0.0-1",
        "1.0.0-2",
        "1.0.0-10",
        "1.0.0-alpha",
        "1.0.0-alpha.1",
        "1.0.0-alpha.beta",
        "1.0.0-beta.2",
        "1.0.0-beta.11",
        "1.0.0-rc.1",
        "1.0.0",
        "1.0.0.1",
        "1.0.1",
        "1.2",
        "1.9.0",
        "1.10.0",
        "2",
        "10.0.0",
        "99999999999999999999999.0.0",
        "100000000000000000000000.0.0",
    ];
    for (i, a) in rising.iter().enumerate() {
        for (j, b) in rising.iter().enumerate() {
            assert_eq!(is_newer(a, b), i > j, "{a} against {b}");
        }
    }
    for (a, b) in [
        ("1.0", "1.0.0"),
        ("1.0.0+build.7", "1.0.0"),
        ("1.0.0+a-b", "1.0.0+c"),
        ("1.0.0-rc.1+x", "1.0.0-rc.1"),
        ("01.002.0", "1.2.0"),
        ("", "0"),
        ("nightly", "0.0"),
    ] {
        assert!(!is_newer(a, b) && !is_newer(b, a), "{a} against {b}");
    }
}

#[test]
fn every_migration_runs_whatever_fails() {
    let mut seen = vec![];
    let mut logged = vec![];
    let mut step = Some(first_migration());
    while let Some(current) = step {
        seen.push(current);
        let progress = run_migrations(current, Err("broken".to_string()));
        logged.extend(progress.lines);
        step = progress.next;
    }
    assert_eq!(
        seen,
        vec![
            MigrationStep::ChainHashAlgorithm,
            MigrationStep::RegisteredChains,
            MigrationStep::SkillRegistry,
            MigrationStep::ChainCounts,
        ]
    );
    assert_eq!(
        logged,
        vec![
            line(Level::Warn, "migrate_chain_hash_algorithm failed: broken"),
            line(Level::Warn, "migrate_registered_chains_with_adapter failed: broken"),
            line(Level::Warn, "migrate_skill_registry failed: broken"),
            line(Level::Warn, "refresh_registered_chain_counts failed: broken"),
        ]
    );
}

#[test]
fn migrated_chains_are_reported() {
    let chain = || {
        vec![MigratedChain {
            chain_key: "borganism".to_string(),
            from_version: 2,
            to_version: 13,
            thought_count: 1024,
        }]
    };
    let progress = run_migrations(MigrationStep::RegisteredChains, Ok(chain()));
    assert_eq!(
        progress.lines,
        vec![line(Level::Info, "migrated chain borganism v2→v13 (1024 thoughts)")]
    );
    let progress = run_migrations(MigrationStep::SkillRegistry, Ok(chain()));
    assert!(progress.lines.is_empty());
    assert_eq!(migration_event("Started"), line(Level::Info, "migration: Started"));
}

#[test]
fn a_daemon_runs_if_it_says_so() {
    assert_eq!(health_url("127.0.0.1:9471"), "http://127.0.0.1:9471/health");
    assert!(is_daemon_running(Some(200)));
    assert!(!is_daemon_running(Some(204)));
    assert!(!is_daemon_running(Some(500)));
    assert!(!is_daemon_running(None));
}

#[test]
fn the_daemon_is_launched_by_the_system_at_hand() {
    let command = launch_daemon(Ok("/bin/d"), Platform::Unix).unwrap().unwrap();
    assert_eq!((command.program, command.flags, command.exe), ("nohup", vec![], "/bin/d"));
    let command = launch_daemon(Ok("d.exe"), Platform::Windows).unwrap().unwrap();
    assert_eq!(command.program, "cmd");
    assert_eq!(command.flags, vec!["/C", "start", "/B"]);
    assert_eq!(command.exe, "d.exe");
    assert!(matches!(launch_daemon(Ok(1), Platform::Other), Ok(None)));
    match launch_daemon::<u8>(Err("gone".to_string()), Platform::Unix) {
        Err(message) => assert_eq!(message, "could not resolve own executable path: gone"),
        Ok(_) => panic!("expected an error"),
    }
    assert_eq!(launch_outcome(Ok(())), Ok(()));
    assert_eq!(launch_outcome(Err("x".to_string())), Err("failed to spawn daemon: x".to_string()));
}

fn wait(max_attempts: u32, up_at: usize) -> (bool, usize, u64) {
    let mut asked = 0;
    let mut slept = 0;
    let mut step = wait_for_daemon(max_attempts);
    loop {
        step = match step {
            WaitStep::Probe { left } => {
                asked += 1;
                after_probe(left, asked == up_at)
            }
            WaitStep::Pause { millis, left } => {
                slept += millis;
                wait_for_daemon(left)
            }
            WaitStep::Up => return (true, asked, slept),
            WaitStep::GaveUp => return (false, asked, slept),
        };
    }
}

#[test]
fn waiting_asks_up_to_the_limit() {
    assert_eq!(wait(50, 1), (true, 1, 0));
    assert_eq!(wait(50, 50), (true, 50, 49 * 200));
    assert_eq!(wait(50, 51), (false, 50, 50 * 200));
    assert_eq!(wait(0, 1), (false, 0, 0));
}

#[test]
fn stdio_mode_prefers_a_running_daemon() {
    let decision = run_stdio_mode("h:1", true);
    assert_eq!(decision.next, StdioNext::ServeProxy);
    assert_eq!(
        decision.line,
        line(Level::Info, "stdio: daemon detected at h:1, proxying to live instance")
    );
    let decision = run_stdio_mode("h:1", false);
    assert_eq!(decision.next, StdioNext::LaunchDaemon);
    assert_eq!(
        decision.line,
        line(Level::Info, "stdio: no daemon running, launching background daemon")
    );
    assert_eq!(after_launch(Ok(())), Ok(WaitStep::Probe { left: 49 }));
    assert_eq!(
        after_launch(Err("x".to_string())),
        Err("failed to launch daemon: x".to_string())
    );
    let decision = after_wait("h:1", true);
    assert_eq!(decision.next, StdioNext::ServeProxy);
    assert_eq!(decision.line, line(Level::Info, "stdio: daemon started at h:1, proxying"));
    let decision = after_wait("h:1", false);
    assert_eq!(decision.next, StdioNext::ServeLocal);
    assert_eq!(
        decision.line,
        line(
            Level::Warn,
            "stdio: daemon did not become responsive at h:1, falling back to local mode"
        )
    );
}

fn stages(dir_set: bool, failing: RunStage) -> (Vec<RunStage>, Option<String>) {
    let mut seen = vec![];
    let mut stage = first_stage();
    loop {
        seen.push(stage);
        let outcome = if stage == failing { Err("broken".to_string()) } else { Ok(()) };
        match run(stage, dir_set, outcome) {
            RunNext::Stage(next) => stage = next,
            RunNext::Finished => return (seen, None),
            RunNext::Failed(error) => return (seen, Some(error)),
        }
    }
}

#[test]
fn the_run_goes_through_its_stages() {
    let (seen, error) = stages(false, RunStage::Migrate);
    assert_eq!(
        seen,
        vec![
            RunStage::InstallCrypto,
            RunStage::InitLogger,
            RunStage::RaiseFdLimit,
            RunStage::Announce,
            RunStage::AdoptLegacyStorage,
            RunStage::LoadConfig,
            RunStage::Migrate,
            RunStage::CheckForUpdates,
            RunStage::StartServers,
            RunStage::ReportListeners,
            RunStage::AwaitShutdown,
            RunStage::ReportShutdown,
        ]
    );
    assert_eq!(error, None);
}

#[test]
fn a_set_directory_is_not_taken_over() {
    let (seen, _) = stages(true, RunStage::InitLogger);
    assert_eq!(seen.len(), 11);
    assert!(!seen.contains(&RunStage::AdoptLegacyStorage));
}

#[test]
fn servers_that_do_not_start_end_the_run() {
    let (seen, error) = stages(true, RunStage::StartServers);
    assert_eq!(seen.last(), Some(&RunStage::StartServers));
    assert_eq!(error, Some("broken".to_string()));
}

#[test]
fn the_run_is_logged() {
    assert_eq!(start_report("1.2"), line(Level::Info, "mentisdbd v1.2 starting (headless)"));
    assert_eq!(shutdown_report(), line(Level::Info, "shutdown signal received"));
    let adopted = |renamed_root_dir, merged_entries| {
        adoption_report(Ok(Some(AdoptionReport {
            renamed_root_dir,
            merged_entries,
            source_dir: "/old".to_string(),
            target_dir: "/new".to_string(),
        })))
    };
    assert_eq!(
        adopted(true, 3),
        Some(line(Level::Info, "adopted legacy storage: renamed /old → /new"))
    );
    assert_eq!(
        adopted(false, 12),
        Some(line(Level::Info, "adopted legacy storage: merged 12 entries from /old → /new"))
    );
    assert_eq!(adopted(false, 0), None);
    assert_eq!(adoption_report(Ok(None)), None);
    assert_eq!(
        adoption_report(Err("denied".to_string())),
        Some(line(Level::Warn, "legacy storage adoption failed: denied"))
    );
}

#[test]
fn listeners_are_logged() {
    let mut listeners = Listeners {
        mcp: "h:1".to_string(),
        rest: "h:2".to_string(),
        https_mcp: None,
        https_rest: Some("h:4".to_string()),
        dashboard: None,
    };
    assert_eq!(
        listener_report(&listeners),
        vec![
            line(Level::Info, "MCP  listening on http://h:1"),
            line(Level::Info, "REST listening on http://h:2"),
            line(Level::Info, "HTTPS REST listening on https://h:4"),
        ]
    );
    listeners.https_mcp = Some("h:3".to_string());
    listeners.dashboard = Some("h:5".to_string());
    assert_eq!(
        listener_report(&listeners)[2..],
        [
            line(Level::Info, "HTTPS MCP  listening on https://h:3"),
            line(Level::Info, "HTTPS REST listening on https://h:4"),
            line(Level::Info, "dashboard  listening on https://h:5"),
        ]
    );
}

#[test]
fn init_succeeds_without_otlp_env() {
    let settings = OtlpSettings { auth: None, stream: None, deploy_env: None };
    assert!(build_otlp_providers(None, &settings, "1.0.0").is_none());
    assert!(build_otlp_providers(Some(""), &settings, "1.0.0").is_none());
    match init::<u8, u8, u8>(Ok(None), false) {
        Ok(mut guard) => {
            assert_eq!(
                guard.describe(),
                "TelemetryGuard { tracer_provider: false, logger_provider: false, meter_provider: false }"
            );
            assert!(guard.take_next().is_none());
        }
        Err(_) => panic!("expected a guard"),
    }
}

#[test]
fn double_init_returns_error() {
    let providers =
        || Some(OtlpProviders { tracer_provider: 'T', logger_provider: 'L', meter_provider: 'M' });
    let first = init(Ok(providers()), false);
    assert!(first.is_ok());
    match init(Ok(providers()), true) {
        Err(refusal) => {
            assert!(matches!(refusal.error, TelemetryInitError::AlreadyInitialized));
            let leaked = refusal.leaked.unwrap();
            assert_eq!(
                (leaked.tracer_provider, leaked.logger_provider, leaked.meter_provider),
                ('T', 'L', 'M')
            );
        }
        Ok(_) => panic!("expected AlreadyInitialized"),
    }
}

#[test]
fn an_exporter_that_cannot_be_built_refuses_init() {
    let error = || TelemetryInitError::OtlpBuild("bad url".to_string());
    match init::<u8, u8, u8>(Err(error()), false) {
        Err(refusal) => {
            assert_eq!(refusal.error.message(), "OTLP exporter build error: bad url");
            assert!(refusal.leaked.is_none());
        }
        Ok(_) => panic!("expected a build error"),
    }
    match init::<u8, u8, u8>(Err(error()), true) {
        Err(refusal) => {
            assert!(matches!(refusal.error, TelemetryInitError::AlreadyInitialized));
            assert!(refusal.leaked.is_none());
        }
        Ok(_) => panic!("expected AlreadyInitialized"),
    }
}

#[test]
fn a_row_of_inits_sets_one_subscriber() {
    type Built = Result<Option<OtlpProviders<char, char, char>>, TelemetryInitError>;
    let failed = || -> Built { Err(TelemetryInitError::OtlpBuild("bad url".to_string())) };
    let exporting = || -> Built {
        Ok(Some(OtlpProviders { tracer_provider: 'T', logger_provider: 'L', meter_provider: 'M' }))
    };
    assert_eq!(subscriber_step(&failed()), SubscriberStep::Ask);
    assert_eq!(subscriber_step(&exporting()), SubscriberStep::Install { exports: true });
    assert_eq!(subscriber_step(&Built::Ok(None)), SubscriberStep::Install { exports: false });

    let mut set = false;
    let mut outcomes: Vec<String> = Vec::new();
    for built in [failed(), Ok(None), failed(), exporting(), Ok(None)] {
        let already_set = set;
        if let SubscriberStep::Install { .. } = subscriber_step(&built) {
            set = true;
        }
        outcomes.push(match init(built, already_set) {
            Ok(_) => "set up".to_string(),
            Err(refusal) => format!("{} {}", refusal.error.message(), refusal.leaked.is_some()),
        });
        assert_eq!(set, outcomes.contains(&"set up".to_string()));
    }
    assert_eq!(
        outcomes,
        vec![
            "OTLP exporter build error: bad url false",
            "set up",
            "global tracing subscriber already set false",
            "global tracing subscriber already set true",
            "global tracing subscriber already set false",
        ]
    );
}

#[test]
fn a_guard_gives_up_its_providers_in_order() {
    let providers =
        OtlpProviders { tracer_provider: 'T', logger_provider: 'L', meter_provider: 'M' };
    let mut guard = match init(Ok(Some(providers)), false) {
        Ok(guard) => guard,
        Err(_) => panic!("expected a guard"),
    };
    assert_eq!(
        guard.describe(),
        "TelemetryGuard { tracer_provider: true, logger_provider: true, meter_provider: true }"
    );
    assert!(matches!(guard.take_next(), Some(Provider::Tracer('T'))));
    assert!(matches!(guard.take_next(), Some(Provider::Logger('L'))));
    assert!(matches!(guard.take_next(), Some(Provider::Meter('M'))));
    assert!(guard.take_next().is_none());
    assert!(guard.take_next().is_none());
}

#[test]
fn telemetry_errors_have_texts() {
    assert_eq!(
        TelemetryInitError::AlreadyInitialized.message(),
        "global tracing subscriber already set"
    );
    assert_eq!(
        TelemetryInitError::OtlpBuild("bad url".to_string()).message(),
        "OTLP exporter build error: bad url"
    );
    assert_eq!(
        shutdown_error(Signal::Traces, "e"),
        "telemetry: tracer provider shutdown error: e"
    );
    assert_eq!(
        shutdown_error(Signal::Logs, "e"),
        "telemetry: logger provider shutdown error: e"
    );
    assert_eq!(
        shutdown_error(Signal::Metrics, "e"),
        "telemetry: meter provider shutdown error: e"
    );
}

#[test]
fn the_export_is_configured_from_the_environment() {
    let settings = OtlpSettings { auth: None, stream: None, deploy_env: None };
    let config = build_otlp_providers(Some("http://c"), &settings, "1.2.3").unwrap();
    assert_eq!(config.endpoint, "http://c");
    assert_eq!(
        pairs(&config.resource),
        vec![
            ("service.name", "mentisdbd"),
            ("service.version", "1.2.3"),
            ("deployment.environment", "homelab"),
        ]
    );
    assert_eq!(pairs(&config.headers), vec![("stream-name", "mentisdb")]);
    assert_eq!((config.timeout_secs, config.interval_secs), (10, 60));

    let settings = OtlpSettings {
        auth: Some("Basic x".to_string()),
        stream: Some("s".to_string()),
        deploy_env: Some("lab".to_string()),
    };
    let config = build_otlp_providers(Some("http://c"), &settings, "1.2.3").unwrap();
    assert_eq!(config.resource[2].1, "lab");
    assert_eq!(
        pairs(&config.headers),
        vec![("Authorization", "Basic x"), ("stream-name", "s")]
    );

    let settings =
        OtlpSettings { auth: Some(String::new()), stream: Some(String::new()), deploy_env: None };
    let config = build_otlp_providers(Some("http://c"), &settings, "1.2.3").unwrap();
    assert_eq!(pairs(&config.headers), vec![("stream-name", "")]);
}

#[test]
fn exporters_are_built_until_one_fails() {
    let mut signal = first_signal();
    let mut seen = vec![signal];
    while let Ok(Some(next)) = exporter_built(signal, Ok(())) {
        signal = next;
        seen.push(signal);
    }
    assert_eq!(seen, vec![Signal::Traces, Signal::Logs, Signal::Metrics]);
    match exporter_built(Signal::Logs, Err("bad".to_string())) {
        Err(TelemetryInitError::OtlpBuild(error)) => assert_eq!(error, "bad"),
        other => panic!("expected a build error, got {other:?}"),
    }
}

#[test]
fn layers_follow_output_and_exports() {
    assert_eq!(
        subscriber_layers(true, false),
        vec![LayerKind::EnvFilter, LayerKind::TerminalOutput]
    );
    assert_eq!(
        subscriber_layers(false, true),
        vec![
            LayerKind::EnvFilter,
            LayerKind::JsonOutput,
            LayerKind::Export(Signal::Traces),
            LayerKind::Export(Signal::Logs),
            LayerKind::Export(Signal::Metrics),
        ]
    );
}

#[test]
fn every_chain_is_measured() {
    let gauge = register_chain_size_gauge();
    assert_eq!(gauge.meter, "mentisdbd");
    assert_eq!(gauge.name, "mentisdb.thought.chain_size");
    assert_eq!(gauge.description, "Number of thoughts in each chain");
    let observations =
        chain_size_observations(vec![("a".to_string(), 3), ("b".to_string(), u64::MAX)]);
    let seen: Vec<(u64, &str, &str)> =
        observations.iter().map(|o| (o.value, o.attribute, o.subject.as_str())).collect();
    assert_eq!(seen, vec![(3, "chain_key", "a"), (u64::MAX, "chain_key", "b")]);
    assert!(chain_size_observations(vec![]).is_empty());
}
