//! The run of the daemon that serves over HTTP.
//!
//! It goes through its stages in order. Only the start of the servers can end it
//! early; whatever else fails is logged and passed over.

use vstd::prelude::*;

use crate::report;
use crate::report::{Level, LogLine};
use crate::text;

verus! {

/// A stage of the run.
#[derive(Clone, Copy, Debug, PartialEq, Eq, Structural)]
pub enum RunStage {
    /// Choose the cryptography of the TLS library.
    InstallCrypto,
    /// Set up the log.
    InitLogger,
    /// Raise the limit on open files.
    RaiseFdLimit,
    /// Log that the daemon starts.
    Announce,
    /// Take over the storage of earlier releases.
    AdoptLegacyStorage,
    /// Read the configuration.
    LoadConfig,
    /// Run the migrations.
    Migrate,
    /// Look for a newer release.
    CheckForUpdates,
    /// Start the servers.
    StartServers,
    /// Log where the servers listen.
    ReportListeners,
    /// Wait to be told to stop.
    AwaitShutdown,
    /// Log that the daemon stops.
    ReportShutdown,
}

/// What follows a stage.
#[derive(Debug)]
pub enum RunNext {
    /// Another stage.
    Stage(RunStage),
    /// The run is over.
    Finished,
    /// The run failed, with this error.
    Failed(String),
}

/// The stage after `stage`, where it did not end the run; `dir_set` says whether
/// the storage directory was set by the operator.
pub open spec fn stage_after(stage: RunStage, dir_set: bool) -> Option<RunStage> {
    match stage {
        RunStage::InstallCrypto => Some(RunStage::InitLogger),
        RunStage::InitLogger => Some(RunStage::RaiseFdLimit),
        RunStage::RaiseFdLimit => Some(RunStage::Announce),
        RunStage::Announce => if dir_set {
            Some(RunStage::LoadConfig)
        } else {
            Some(RunStage::AdoptLegacyStorage)
        },
        RunStage::AdoptLegacyStorage => Some(RunStage::LoadConfig),
        RunStage::LoadConfig => Some(RunStage::Migrate),
        RunStage::Migrate => Some(RunStage::CheckForUpdates),
        RunStage::CheckForUpdates => Some(RunStage::StartServers),
        RunStage::StartServers => Some(RunStage::ReportListeners),
        RunStage::ReportListeners => Some(RunStage::AwaitShutdown),
        RunStage::AwaitShutdown => Some(RunStage::ReportShutdown),
        RunStage::ReportShutdown => None,
    }
}

/// The stage that the run begins with.
pub fn first_stage() -> (stage: RunStage)
    ensures
        stage is InstallCrypto,
{
    RunStage::InstallCrypto
}

/// What follows `stage`, given what it came to; `dir_set` says whether the storage
/// directory was set by the operator.
pub fn run(stage: RunStage, dir_set: bool, outcome: Result<(), String>) -> (next: RunNext)
    ensures
        if stage is StartServers && outcome is Err {
            next matches RunNext::Failed(error) && error@ == outcome->Err_0@
        } else {
            match stage_after(stage, dir_set) {
                Some(after) => next == RunNext::Stage(after),
                None => next is Finished,
            }
        },
{
    match stage {
        RunStage::InstallCrypto => RunNext::Stage(RunStage::InitLogger),
        RunStage::InitLogger => RunNext::Stage(RunStage::RaiseFdLimit),
        RunStage::RaiseFdLimit => RunNext::Stage(RunStage::Announce),
        RunStage::Announce => if dir_set {
            RunNext::Stage(RunStage::LoadConfig)
        } else {
            RunNext::Stage(RunStage::AdoptLegacyStorage)
        },
        RunStage::AdoptLegacyStorage => RunNext::Stage(RunStage::LoadConfig),
        RunStage::LoadConfig => RunNext::Stage(RunStage::Migrate),
        RunStage::Migrate => RunNext::Stage(RunStage::CheckForUpdates),
        RunStage::CheckForUpdates => RunNext::Stage(RunStage::StartServers),
        RunStage::StartServers => match outcome {
            Ok(_) => RunNext::Stage(RunStage::ReportListeners),
            Err(error) => RunNext::Failed(error),
        },
        RunStage::ReportListeners => RunNext::Stage(RunStage::AwaitShutdown),
        RunStage::AwaitShutdown => RunNext::Stage(RunStage::ReportShutdown),
        RunStage::ReportShutdown => RunNext::Finished,
    }
}

/// How far `stage` is from the end.
pub open spec fn stages_left(stage: RunStage) -> nat {
    match stage {
        RunStage::InstallCrypto => 11,
        RunStage::InitLogger => 10,
        RunStage::RaiseFdLimit => 9,
        RunStage::Announce => 8,
        RunStage::AdoptLegacyStorage => 7,
        RunStage::LoadConfig => 6,
        RunStage::Migrate => 5,
        RunStage::CheckForUpdates => 4,
        RunStage::StartServers => 3,
        RunStage::ReportListeners => 2,
        RunStage::AwaitShutdown => 1,
        RunStage::ReportShutdown => 0,
    }
}

/// The stages from `stage` on, where none ends the run.
pub open spec fn stages_from(stage: RunStage, dir_set: bool) -> Seq<RunStage>
    decreases stages_left(stage),
{
    match stage_after(stage, dir_set) {
        Some(next) => seq![stage] + stages_from(next, dir_set),
        None => seq![stage],
    }
}

/// The stages of a run in which the servers start, in order: earlier storage is
/// taken over only where the operator set no directory, and the migrations are
/// done before the servers start.
pub proof fn law_stages_run_in_order(dir_set: bool)
    ensures
        stages_from(RunStage::InstallCrypto, dir_set) == seq![
            RunStage::InstallCrypto,
            RunStage::InitLogger,
            RunStage::RaiseFdLimit,
            RunStage::Announce,
        ] + (if dir_set {
            Seq::empty()
        } else {
            seq![RunStage::AdoptLegacyStorage]
        }) + seq![
            RunStage::LoadConfig,
            RunStage::Migrate,
            RunStage::CheckForUpdates,
            RunStage::StartServers,
            RunStage::ReportListeners,
            RunStage::AwaitShutdown,
            RunStage::ReportShutdown,
        ],
{
    reveal_with_fuel(stages_from, 12);
    assert(stages_from(RunStage::InstallCrypto, dir_set) =~= seq![
        RunStage::InstallCrypto,
        RunStage::InitLogger,
        RunStage::RaiseFdLimit,
        RunStage::Announce,
    ] + (if dir_set {
        Seq::empty()
    } else {
        seq![RunStage::AdoptLegacyStorage]
    }) + seq![
        RunStage::LoadConfig,
        RunStage::Migrate,
        RunStage::CheckForUpdates,
        RunStage::StartServers,
        RunStage::ReportListeners,
        RunStage::AwaitShutdown,
        RunStage::ReportShutdown,
    ]);
}

/// Every stage brings the run nearer to its end.
pub proof fn law_stages_move_forward(stage: RunStage, dir_set: bool)
    ensures
        stage_after(stage, dir_set) matches Some(next) ==> stages_left(next) < stages_left(stage),
{
}

/// What to log as the daemon starts.
pub fn start_report(version: &str) -> (line: LogLine)
    ensures
        line@ == report::info_entry("mentisdbd v"@ + version@ + " starting (headless)"@),
{
    let mut message = "mentisdbd v".to_owned();
    message.append(version);
    message.append(" starting (headless)");
    LogLine { level: Level::Info, message }
}

/// What to log as the daemon stops.
pub fn shutdown_report() -> (line: LogLine)
    ensures
        line@ == report::info_entry("shutdown signal received"@),
{
    LogLine { level: Level::Info, message: "shutdown signal received".to_owned() }
}

/// How the storage of earlier releases was taken over.
#[derive(Debug)]
pub struct AdoptionReport {
    pub renamed_root_dir: bool,
    pub merged_entries: u64,
    pub source_dir: String,
    pub target_dir: String,
}

/// What to log about taking over the storage of earlier releases.
pub open spec fn adoption_entry(outcome: Result<Option<AdoptionReport>, String>) -> Option<
    report::Entry,
> {
    match outcome {
        Ok(Some(adopted)) => if adopted.renamed_root_dir {
            Some(
                report::info_entry(
                    "adopted legacy storage: renamed "@ + adopted.source_dir@ + " → "@
                        + adopted.target_dir@,
                ),
            )
        } else if adopted.merged_entries > 0 {
            Some(
                report::info_entry(
                    "adopted legacy storage: merged "@ + text::decimal(
                        adopted.merged_entries as nat,
                    ) + " entries from "@ + adopted.source_dir@ + " → "@ + adopted.target_dir@,
                ),
            )
        } else {
            None
        },
        Ok(None) => None,
        Err(error) => Some(report::warn_entry("legacy storage adoption failed: "@ + error@)),
    }
}

/// What to log about taking over the storage of earlier releases; `None` where
/// there is nothing to say.
pub fn adoption_report(outcome: Result<Option<AdoptionReport>, String>) -> (line: Option<LogLine>)
    ensures
        match adoption_entry(outcome) {
            Some(entry) => line is Some && line->Some_0@ == entry,
            None => line is None,
        },
{
    match outcome {
        Ok(Some(adopted)) => {
            if adopted.renamed_root_dir {
                let mut message = "adopted legacy storage: renamed ".to_owned();
                message.append(adopted.source_dir.as_str());
                message.append(" → ");
                message.append(adopted.target_dir.as_str());
                Some(LogLine { level: Level::Info, message })
            } else if adopted.merged_entries > 0 {
                let mut message = "adopted legacy storage: merged ".to_owned();
                message.append(text::decimal_text(adopted.merged_entries).as_str());
                message.append(" entries from ");
                message.append(adopted.source_dir.as_str());
                message.append(" → ");
                message.append(adopted.target_dir.as_str());
                Some(LogLine { level: Level::Info, message })
            } else {
                None
            }
        },
        Ok(None) => None,
        Err(error) => {
            let mut message = "legacy storage adoption failed: ".to_owned();
            message.append(error.as_str());
            Some(LogLine { level: Level::Warn, message })
        },
    }
}

/// Where the servers listen. A server that is not run has no address.
#[derive(Debug)]
pub struct Listeners {
    pub mcp: String,
    pub rest: String,
    pub https_mcp: Option<String>,
    pub https_rest: Option<String>,
    pub dashboard: Option<String>,
}

/// What to log about a server that may not be run.
pub open spec fn optional_entry(label: Seq<char>, addr: Option<String>) -> Seq<report::Entry> {
    match addr {
        Some(addr) => seq![report::info_entry(label + addr@)],
        None => Seq::empty(),
    }
}

/// What to log about where the servers listen.
pub open spec fn listener_entries(listeners: Listeners) -> Seq<report::Entry> {
    seq![
        report::info_entry("MCP  listening on http://"@ + listeners.mcp@),
        report::info_entry("REST listening on http://"@ + listeners.rest@),
    ] + optional_entry("HTTPS MCP  listening on https://"@, listeners.https_mcp) + optional_entry(
        "HTTPS REST listening on https://"@,
        listeners.https_rest,
    ) + optional_entry("dashboard  listening on https://"@, listeners.dashboard)
}

/// Adds to `lines` what to log about a server that listens at `addr`.
fn push_listener(lines: &mut Vec<LogLine>, label: &str, addr: &str)
    ensures
        report::entries(final(lines)@) == report::entries(old(lines)@).push(
            report::info_entry(label@ + addr@),
        ),
{
    let ghost before = report::entries(lines@);
    let mut message = label.to_owned();
    message.append(addr);
    lines.push(LogLine { level: Level::Info, message });
    assert(report::entries(lines@) =~= before.push(report::info_entry(label@ + addr@)));
}

/// Adds to `lines` what to log about a server that may not be run.
fn push_optional_listener(lines: &mut Vec<LogLine>, label: &str, addr: &Option<String>)
    ensures
        report::entries(final(lines)@) == report::entries(old(lines)@) + optional_entry(
            label@,
            *addr,
        ),
{
    match addr {
        Some(addr) => {
            let ghost before = report::entries(lines@);
            push_listener(lines, label, addr.as_str());
            assert(report::entries(lines@) =~= before + optional_entry(label@, Some(*addr)));
        },
        None => {
            assert(report::entries(lines@) =~= report::entries(lines@) + optional_entry(
                label@,
                *addr,
            ));
        },
    }
}

/// What to log about where the servers listen.
pub fn listener_report(listeners: &Listeners) -> (lines: Vec<LogLine>)
    ensures
        report::entries(lines@) == listener_entries(*listeners),
{
    let mut lines: Vec<LogLine> = Vec::new();
    push_listener(&mut lines, "MCP  listening on http://", listeners.mcp.as_str());
    push_listener(&mut lines, "REST listening on http://", listeners.rest.as_str());
    push_optional_listener(&mut lines, "HTTPS MCP  listening on https://", &listeners.https_mcp);
    push_optional_listener(&mut lines, "HTTPS REST listening on https://", &listeners.https_rest);
    push_optional_listener(&mut lines, "dashboard  listening on https://", &listeners.dashboard);
    assert(report::entries(lines@) =~= listener_entries(*listeners));
    lines
}

/// Each stage leads to the next. Earlier storage is taken over only where the operator set no
/// directory.
pub proof fn law_stage_leads_to_the_next(dir_set: bool)
    ensures
        stage_after(RunStage::InstallCrypto, dir_set) == Some(RunStage::InitLogger),
        stage_after(RunStage::InitLogger, dir_set) == Some(RunStage::RaiseFdLimit),
        stage_after(RunStage::RaiseFdLimit, dir_set) == Some(RunStage::Announce),
        stage_after(RunStage::Announce, false) == Some(RunStage::AdoptLegacyStorage),
        stage_after(RunStage::Announce, true) == Some(RunStage::LoadConfig),
        stage_after(RunStage::AdoptLegacyStorage, dir_set) == Some(RunStage::LoadConfig),
        stage_after(RunStage::LoadConfig, dir_set) == Some(RunStage::Migrate),
        stage_after(RunStage::Migrate, dir_set) == Some(RunStage::CheckForUpdates),
        stage_after(RunStage::CheckForUpdates, dir_set) == Some(RunStage::StartServers),
        stage_after(RunStage::StartServers, dir_set) == Some(RunStage::ReportListeners),
        stage_after(RunStage::ReportListeners, dir_set) == Some(RunStage::AwaitShutdown),
        stage_after(RunStage::AwaitShutdown, dir_set) == Some(RunStage::ReportShutdown),
        stage_after(RunStage::ReportShutdown, dir_set) is None,
{
}

/// Taking over earlier storage is logged with both directories where it was renamed, with the
/// number of entries too where some were merged, and with its error where it failed. Where
/// nothing was taken over, nothing is logged.
pub proof fn law_adoption_is_logged(adopted: AdoptionReport, error: String)
    ensures
        ({
            let line = adoption_entry(Ok(Some(adopted)));
            &&& adopted.renamed_root_dir ==> (line matches Some(entry) && entry.level is Info
                && entry.message == "adopted legacy storage: renamed "@ + adopted.source_dir@
                + " → "@ + adopted.target_dir@)
            &&& !adopted.renamed_root_dir && adopted.merged_entries > 0 ==> (line matches Some(
                entry,
            ) && entry.level is Info && entry.message == "adopted legacy storage: merged "@
                + text::decimal(adopted.merged_entries as nat) + " entries from "@
                + adopted.source_dir@ + " → "@ + adopted.target_dir@)
            &&& !adopted.renamed_root_dir && adopted.merged_entries == 0 ==> line is None
            &&& adoption_entry(Ok(None)) is None
            &&& adoption_entry(Err(error)) matches Some(entry)
            &&& entry.level is Warn
            &&& entry.message == "legacy storage adoption failed: "@ + error@
        }),
{
}

/// Every server that runs is logged with its address, and no other: the two that always run,
/// and then those that may not, in this order.
pub proof fn law_every_listener_is_logged(listeners: Listeners)
    ensures
        ({
            let lines = listener_entries(listeners);
            let a: int = if listeners.https_mcp is Some {
                1
            } else {
                0
            };
            let b: int = if listeners.https_rest is Some {
                1
            } else {
                0
            };
            let c: int = if listeners.dashboard is Some {
                1
            } else {
                0
            };
            &&& lines.len() == 2 + a + b + c
            &&& forall|i: int| 0 <= i < lines.len() ==> (#[trigger] lines[i]).level is Info
            &&& lines[0].message == "MCP  listening on http://"@ + listeners.mcp@
            &&& lines[1].message == "REST listening on http://"@ + listeners.rest@
            &&& listeners.https_mcp matches Some(addr) ==> lines[2].message
                == "HTTPS MCP  listening on https://"@ + addr@
            &&& listeners.https_rest matches Some(addr) ==> lines[2 + a].message
                == "HTTPS REST listening on https://"@ + addr@
            &&& listeners.dashboard matches Some(addr) ==> lines[2 + a + b].message
                == "dashboard  listening on https://"@ + addr@
        }),
{
}

} // verus!
