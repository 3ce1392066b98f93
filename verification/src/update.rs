//! The check for a newer release. It only writes to the log.

use vstd::prelude::*;

use crate::report;
use crate::report::{Level, LogLine};
use crate::settings;
use crate::text;
use crate::version;

verus! {

/// The repository whose releases are looked at, unless another is set.
pub const DEFAULT_UPDATE_REPO: &'static str = "CloudLLM-ai/mentisdb";

/// Where releases are asked for.
pub const GITHUB_API_BASE: &'static str = "https://api.github.com";

/// What is said to be out of date.
pub const UPDATE_CRATE_NAME: &'static str = "mentisdb";

/// How long the answer may take, in seconds.
pub const RELEASE_TIMEOUT_SECS: u64 = 4;

/// A release, as the repository describes it.
#[derive(Debug)]
pub struct GitHubReleaseResponse {
    pub tag_name: String,
    pub html_url: String,
}

/// What to ask for the latest release.
#[derive(Debug)]
pub struct ReleaseQuery {
    pub url: String,
    pub user_agent: String,
    pub timeout_secs: u64,
}

/// The address of a repository's latest release.
pub open spec fn release_url(repo: Seq<char>) -> Seq<char> {
    GITHUB_API_BASE@ + "/repos/"@ + repo + "/releases/latest"@
}

/// What to ask for the latest release of `repo`, by a daemon of the given version.
pub fn latest_release_tag(repo: &str, version: &str) -> (query: ReleaseQuery)
    ensures
        query.url@ == release_url(repo@),
        query.user_agent@ == "mentisdbd/"@ + version@,
        query.timeout_secs == RELEASE_TIMEOUT_SECS,
{
    let mut url = GITHUB_API_BASE.to_owned();
    url.append("/repos/");
    url.append(repo);
    url.append("/releases/latest");
    let mut user_agent = "mentisdbd/".to_owned();
    user_agent.append(version);
    ReleaseQuery { url, user_agent, timeout_secs: RELEASE_TIMEOUT_SECS }
}

/// The repository to look at.
pub open spec fn update_repo(repo: Option<Seq<char>>) -> Seq<char> {
    match repo {
        Some(repo) => repo,
        None => DEFAULT_UPDATE_REPO@,
    }
}

/// What to ask for the latest release, by a daemon of the given version. `check`
/// is the switch for the check, which is on unless it is switched off, and `repo`
/// the repository to look at; `None` where the check is off.
pub fn check_for_updates_noninteractive(
    check: Option<&str>,
    repo: Option<&str>,
    version: &str,
) -> (query: Option<ReleaseQuery>)
    ensures
        query is Some <==> settings::truthy(settings::text_view(check), true),
        query matches Some(query) ==> {
            &&& query.url@ == release_url(update_repo(settings::text_view(repo)))
            &&& query.user_agent@ == "mentisdbd/"@ + version@
            &&& query.timeout_secs == RELEASE_TIMEOUT_SECS
        },
{
    if !settings::env_var_truthy(check, true) {
        return None;
    }
    let repo = match repo {
        Some(repo) => repo,
        None => DEFAULT_UPDATE_REPO,
    };
    Some(latest_release_tag(repo, version))
}

/// The version that a release's tag names.
pub open spec fn tag_version(tag: Seq<char>) -> Seq<char> {
    text::without_leading(tag, 'v')
}

/// Whether the release `latest` is an update for the version `current`: a newer
/// version. Where one of the two names no version, they cannot be told apart by age,
/// and anything else than `current` is an update.
pub open spec fn is_update(latest: Seq<char>, current: Seq<char>) -> bool {
    if version::names_version(latest) && version::names_version(current) {
        version::newer(latest, current)
    } else {
        latest != current
    }
}

/// Whether the release `latest` is an update for the version `current`.
fn updates(latest: &str, current: &str) -> (found: bool)
    ensures
        found == is_update(latest@, current@),
{
    if version::is_version(latest) && version::is_version(current) {
        version::is_newer(latest, current)
    } else {
        !text::same_text(latest, current)
    }
}

/// What to log about a release.
pub open spec fn release_entry(
    current: Seq<char>,
    release: Option<GitHubReleaseResponse>,
) -> report::Entry {
    match release {
        Some(release) => if is_update(tag_version(release.tag_name@), current) {
            report::warn_entry(
                UPDATE_CRATE_NAME@ + " update available: running "@ + current
                    + ", latest release is "@ + tag_version(release.tag_name@) + " ("@
                    + release.html_url@ + ")"@,
            )
        } else {
            report::debug_entry(UPDATE_CRATE_NAME@ + " is up to date at "@ + current)
        },
        None => report::debug_entry("update check: could not reach GitHub"@),
    }
}

/// What to log about the latest release, by a daemon of the version `current`;
/// `release` is `None` where it could not be had.
pub fn release_report(current: &str, release: Option<GitHubReleaseResponse>) -> (line: LogLine)
    ensures
        line@ == release_entry(current@, release),
{
    let release = match release {
        Some(release) => release,
        None => return LogLine {
            level: Level::Debug,
            message: "update check: could not reach GitHub".to_owned(),
        },
    };
    let latest = text::strip_leading(release.tag_name.as_str(), 'v');
    let mut message = UPDATE_CRATE_NAME.to_owned();
    if updates(latest, current) {
        message.append(" update available: running ");
        message.append(current);
        message.append(", latest release is ");
        message.append(latest);
        message.append(" (");
        message.append(release.html_url.as_str());
        message.append(")");
        LogLine { level: Level::Warn, message }
    } else {
        message.append(" is up to date at ");
        message.append(current);
        LogLine { level: Level::Debug, message }
    }
}

/// A warning is logged exactly where a release was found that is newer than the
/// version that runs or, where one of the two names no version, is called otherwise. So
/// none is logged about that version itself, or an older one.
pub proof fn law_warning_means_newer_release(
    current: Seq<char>,
    release: Option<GitHubReleaseResponse>,
)
    ensures
        release is None ==> release_entry(current, release).level is Debug,
        release matches Some(release) ==> {
            let latest = tag_version(release.tag_name@);
            let versions = version::names_version(latest) && version::names_version(current);
            let warned = release_entry(current, Some(release)).level is Warn;
            &&& versions ==> (warned <==> version::newer(latest, current))
            &&& !versions ==> (warned <==> latest != current)
            &&& latest == current ==> !warned
            &&& versions && version::newer(current, latest) ==> !warned
        },
{
    if let Some(release) = release {
        version::law_order_is_mirrored(tag_version(release.tag_name@), current);
        version::law_order_is_mirrored(current, current);
    }
}

/// A tag may put a `v` before the version that it names.
pub proof fn law_tag_may_begin_with_v(version: Seq<char>)
    ensures
        tag_version(seq!['v'] + version) == tag_version(version),
        version.len() > 0 && version.first() != 'v' ==> tag_version(seq!['v'] + version) == version,
{
    assert((seq!['v'] + version).drop_first() =~= version);
}

/// The latest release of a repository is asked for at this address, and where no repository
/// is set, at that of this one.
pub proof fn law_release_is_asked_for_by_repository(repo: Seq<char>)
    ensures
        release_url(repo) == "https://api.github.com"@ + "/repos/"@ + repo + "/releases/latest"@,
        update_repo(Some(repo)) == repo,
        update_repo(None) == "CloudLLM-ai/mentisdb"@,
        RELEASE_TIMEOUT_SECS == 4,
{
}

/// The log line about a release names the version that runs and, in a warning, the release
/// without the `v` of its tag and where to find it.
pub proof fn law_release_line_names_both_versions(
    current: Seq<char>,
    release: GitHubReleaseResponse,
)
    ensures
        ({
            let entry = release_entry(current, Some(release));
            &&& entry.level is Warn ==> entry.message == "mentisdb"@ + " update available: running "@
                + current + ", latest release is "@ + text::without_leading(release.tag_name@, 'v')
                + " ("@ + release.html_url@ + ")"@
            &&& entry.level !is Warn ==> entry.level is Debug && entry.message == "mentisdb"@
                + " is up to date at "@ + current
            &&& tag_version(release.tag_name@) == text::without_leading(release.tag_name@, 'v')
            &&& release_entry(current, None).level is Debug
            &&& release_entry(current, None).message == "update check: could not reach GitHub"@
        }),
{
}

/// About a release of three numbers, with or without a `v` before them, a version of three
/// numbers is warned exactly where the release's numbers are the greater ones, from the first
/// on and as numbers.
pub proof fn law_greater_numbers_are_warned_about(
    x1: nat,
    y1: nat,
    z1: nat,
    x2: nat,
    y2: nat,
    z2: nat,
    release: GitHubReleaseResponse,
)
    requires
        ({
            let latest = text::decimal(x1) + "."@ + text::decimal(y1) + "."@ + text::decimal(z1);
            release.tag_name@ == latest || release.tag_name@ == seq!['v'] + latest
        }),
    ensures
        ({
            let current = text::decimal(x2) + "."@ + text::decimal(y2) + "."@ + text::decimal(z2);
            release_entry(current, Some(release)).level is Warn <==> x1 > x2 || (x1 == x2 && y1
                > y2) || (x1 == x2 && y1 == y2 && z1 > z2)
        }),
{
    let latest = text::decimal(x1) + "."@ + text::decimal(y1) + "."@ + text::decimal(z1);
    let current = text::decimal(x2) + "."@ + text::decimal(y2) + "."@ + text::decimal(z2);
    lemma_begins_with_a_digit(x1);
    lemma_begins_with_a_digit(x2);
    assert(latest.first() == text::decimal(x1)[0]);
    assert(current.first() == text::decimal(x2)[0]);
    law_tag_may_begin_with_v(latest);
    assert(tag_version(latest) == latest);
    version::law_version_begins_with_a_digit(latest);
    version::law_version_begins_with_a_digit(current);
    version::law_three_numbers_decide(x1, y1, z1, x2, y2, z2);
}

proof fn lemma_begins_with_a_digit(n: nat)
    ensures
        text::decimal(n).len() > 0,
        '0' <= text::decimal(n)[0] <= '9',
{
    text::lemma_decimal_digits(n);
    assert(text::decimal(n).len() > 0);
    assert('0' <= text::decimal(n)[0] <= '9');
}

} // verus!
