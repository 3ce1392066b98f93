//! The migrations that run before the servers start.
//!
//! They run in a fixed order. One that fails is logged and does not keep the
//! others from running.

use vstd::prelude::*;

use crate::report;
use crate::report::{Level, LogLine};
use crate::text;

verus! {

/// A migration.
#[derive(Clone, Copy, Debug, PartialEq, Eq, Structural)]
pub enum MigrationStep {
    /// Bring every chain to the current hash algorithm.
    ChainHashAlgorithm,
    /// Bring every registered chain to the current version and storage.
    RegisteredChains,
    /// Bring the skill registry to the current version.
    SkillRegistry,
    /// Count the thoughts of every registered chain anew.
    ChainCounts,
}

/// A chain that a migration changed.
#[derive(Debug)]
pub struct MigratedChain {
    pub chain_key: String,
    pub from_version: u64,
    pub to_version: u64,
    pub thought_count: u64,
}

/// What follows a migration: lines for the log, and the next migration.
#[derive(Debug)]
pub struct MigrationProgress {
    pub lines: Vec<LogLine>,
    pub next: Option<MigrationStep>,
}

/// The name that a migration is logged under.
pub open spec fn step_name(step: MigrationStep) -> Seq<char> {
    match step {
        MigrationStep::ChainHashAlgorithm => "migrate_chain_hash_algorithm"@,
        MigrationStep::RegisteredChains => "migrate_registered_chains_with_adapter"@,
        MigrationStep::SkillRegistry => "migrate_skill_registry"@,
        MigrationStep::ChainCounts => "refresh_registered_chain_counts"@,
    }
}

/// The migration after `step`.
pub open spec fn next_step(step: MigrationStep) -> Option<MigrationStep> {
    match step {
        MigrationStep::ChainHashAlgorithm => Some(MigrationStep::RegisteredChains),
        MigrationStep::RegisteredChains => Some(MigrationStep::SkillRegistry),
        MigrationStep::SkillRegistry => Some(MigrationStep::ChainCounts),
        MigrationStep::ChainCounts => None,
    }
}

/// What to log about a chain that was changed.
pub open spec fn chain_entry(chain: MigratedChain) -> report::Entry {
    report::info_entry(
        "migrated chain "@ + chain.chain_key@ + " v"@ + text::decimal(chain.from_version as nat)
            + "→v"@ + text::decimal(chain.to_version as nat) + " ("@ + text::decimal(
            chain.thought_count as nat,
        ) + " thoughts)"@,
    )
}

/// What to log about a migration.
pub open spec fn migration_entries(
    step: MigrationStep,
    outcome: Result<Vec<MigratedChain>, String>,
) -> Seq<report::Entry> {
    match outcome {
        Ok(chains) => if step is RegisteredChains {
            chains@.map_values(|chain: MigratedChain| chain_entry(chain))
        } else {
            Seq::empty()
        },
        Err(error) => seq![report::warn_entry(step_name(step) + " failed: "@ + error@)],
    }
}

/// The migration to begin with.
pub fn first_migration() -> (step: MigrationStep)
    ensures
        step is ChainHashAlgorithm,
{
    MigrationStep::ChainHashAlgorithm
}

/// The name that a migration is logged under.
fn name_of(step: MigrationStep) -> (name: &'static str)
    ensures
        name@ == step_name(step),
{
    match step {
        MigrationStep::ChainHashAlgorithm => "migrate_chain_hash_algorithm",
        MigrationStep::RegisteredChains => "migrate_registered_chains_with_adapter",
        MigrationStep::SkillRegistry => "migrate_skill_registry",
        MigrationStep::ChainCounts => "refresh_registered_chain_counts",
    }
}

/// What to log about a chain that was changed.
fn chain_line(chain: &MigratedChain) -> (line: LogLine)
    ensures
        line@ == chain_entry(*chain),
{
    let mut message = "migrated chain ".to_owned();
    message.append(chain.chain_key.as_str());
    message.append(" v");
    message.append(text::decimal_text(chain.from_version).as_str());
    message.append("→v");
    message.append(text::decimal_text(chain.to_version).as_str());
    message.append(" (");
    message.append(text::decimal_text(chain.thought_count).as_str());
    message.append(" thoughts)");
    LogLine { level: Level::Info, message }
}

/// What follows the migration `step`, given the chains that it changed or the
/// error that it failed with. Only [`MigrationStep::RegisteredChains`] has chains
/// to report.
pub fn run_migrations(step: MigrationStep, outcome: Result<Vec<MigratedChain>, String>) -> (progress:
    MigrationProgress)
    ensures
        progress.next == next_step(step),
        report::entries(progress.lines@) == migration_entries(step, outcome),
{
    let next = match step {
        MigrationStep::ChainHashAlgorithm => Some(MigrationStep::RegisteredChains),
        MigrationStep::RegisteredChains => Some(MigrationStep::SkillRegistry),
        MigrationStep::SkillRegistry => Some(MigrationStep::ChainCounts),
        MigrationStep::ChainCounts => None,
    };
    let mut lines: Vec<LogLine> = Vec::new();
    match outcome {
        Ok(chains) => {
            if step == MigrationStep::RegisteredChains {
                for i in 0..chains.len()
                    invariant
                        report::entries(lines@) == chains@.take(i as int).map_values(
                            |chain: MigratedChain| chain_entry(chain),
                        ),
                {
                    let ghost before = report::entries(lines@);
                    lines.push(chain_line(&chains[i]));
                    assert(report::entries(lines@) =~= before.push(chain_entry(chains@[i as int])));
                    assert(chains@.take(i + 1) =~= chains@.take(i as int).push(chains@[i as int]));
                    assert(report::entries(lines@) =~= chains@.take(i + 1).map_values(
                        |chain: MigratedChain| chain_entry(chain),
                    ));
                }
                assert(chains@.take(chains@.len() as int) =~= chains@);
            }
        },
        Err(error) => {
            let mut message = name_of(step).to_owned();
            message.append(" failed: ");
            message.append(error.as_str());
            lines.push(LogLine { level: Level::Warn, message });
        },
    }
    assert(report::entries(lines@) =~= migration_entries(step, outcome));
    MigrationProgress { lines, next }
}

/// What to log about an event within a migration, described by `event`.
pub fn migration_event(event: &str) -> (line: LogLine)
    ensures
        line@ == report::info_entry("migration: "@ + event@),
{
    let mut message = "migration: ".to_owned();
    message.append(event);
    LogLine { level: Level::Info, message }
}

/// How many migrations come after `step`.
pub open spec fn steps_after(step: MigrationStep) -> nat {
    match step {
        MigrationStep::ChainHashAlgorithm => 3,
        MigrationStep::RegisteredChains => 2,
        MigrationStep::SkillRegistry => 1,
        MigrationStep::ChainCounts => 0,
    }
}

/// The migrations from `step` on, in the order in which they run.
pub open spec fn steps_from(step: MigrationStep) -> Seq<MigrationStep>
    decreases steps_after(step),
{
    match next_step(step) {
        Some(next) => seq![step] + steps_from(next),
        None => seq![step],
    }
}

/// Every migration runs, once and in this order. As what follows a migration does
/// not depend on its outcome, this holds whichever of them fail.
pub proof fn law_every_migration_runs_in_order()
    ensures
        steps_from(MigrationStep::ChainHashAlgorithm) == seq![
            MigrationStep::ChainHashAlgorithm,
            MigrationStep::RegisteredChains,
            MigrationStep::SkillRegistry,
            MigrationStep::ChainCounts,
        ],
{
    reveal_with_fuel(steps_from, 4);
    assert(steps_from(MigrationStep::ChainHashAlgorithm) =~= seq![
        MigrationStep::ChainHashAlgorithm,
        MigrationStep::RegisteredChains,
        MigrationStep::SkillRegistry,
        MigrationStep::ChainCounts,
    ]);
}

/// A failed migration is logged by one warning, and a migration that succeeds by
/// none.
pub proof fn law_warning_means_failed_migration(
    step: MigrationStep,
    outcome: Result<Vec<MigratedChain>, String>,
)
    ensures
        outcome is Err ==> migration_entries(step, outcome).len() == 1
            && migration_entries(step, outcome)[0].level is Warn,
        outcome is Ok ==> forall|i: int|
            0 <= i < migration_entries(step, outcome).len() ==> (
            #[trigger] migration_entries(step, outcome)[i]).level is Info,
{
}

/// Each migration leads to the next, whatever came before it.
pub proof fn law_migration_leads_to_the_next()
    ensures
        next_step(MigrationStep::ChainHashAlgorithm) == Some(MigrationStep::RegisteredChains),
        next_step(MigrationStep::RegisteredChains) == Some(MigrationStep::SkillRegistry),
        next_step(MigrationStep::SkillRegistry) == Some(MigrationStep::ChainCounts),
        next_step(MigrationStep::ChainCounts) is None,
{
}

/// Every chain that was changed is logged, in order, with its key, the versions it came from
/// and went to, and how many thoughts it has.
pub proof fn law_every_changed_chain_is_logged(chains: Vec<MigratedChain>, i: int)
    requires
        0 <= i < chains@.len(),
    ensures
        ({
            let lines = migration_entries(MigrationStep::RegisteredChains, Ok(chains));
            &&& lines.len() == chains@.len()
            &&& lines[i].level is Info
            &&& lines[i].message == "migrated chain "@ + chains@[i].chain_key@ + " v"@
                + text::decimal(chains@[i].from_version as nat) + "→v"@ + text::decimal(
                chains@[i].to_version as nat,
            ) + " ("@ + text::decimal(chains@[i].thought_count as nat) + " thoughts)"@
        }),
{
}

/// Only the migration of registered chains has chains to log, and a failure is logged under
/// the migration's own name, with its error unchanged.
pub proof fn law_failure_is_logged_by_name(
    step: MigrationStep,
    chains: Vec<MigratedChain>,
    error: String,
)
    ensures
        step !is RegisteredChains ==> migration_entries(step, Ok(chains)).len() == 0,
        migration_entries(step, Err(error)).len() == 1,
        migration_entries(step, Err(error))[0].level is Warn,
        migration_entries(step, Err(error))[0].message == (match step {
            MigrationStep::ChainHashAlgorithm => "migrate_chain_hash_algorithm"@,
            MigrationStep::RegisteredChains => "migrate_registered_chains_with_adapter"@,
            MigrationStep::SkillRegistry => "migrate_skill_registry"@,
            MigrationStep::ChainCounts => "refresh_registered_chain_counts"@,
        }) + " failed: "@ + error@,
{
}

} // verus!
