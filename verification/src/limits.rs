//! The limit on open file descriptors.

use vstd::prelude::*;

verus! {

/// The most descriptors that the daemon asks for.
pub const FD_TARGET: u64 = 65_535;

/// A limit on open file descriptors: the one in force, and the highest that it
/// may be raised to.
#[derive(Clone, Copy, Debug, PartialEq, Eq, Structural)]
pub struct FdLimit {
    pub current: u64,
    pub maximum: u64,
}

/// The limit that the daemon wants in force.
pub open spec fn wanted(limit: FdLimit) -> u64 {
    if limit.maximum < FD_TARGET {
        limit.maximum
    } else {
        FD_TARGET
    }
}

/// The limit to set, given the limit that the system reports.
pub open spec fn raised_limit(limit: Option<FdLimit>) -> Option<FdLimit> {
    match limit {
        Some(limit) => if limit.current < wanted(limit) {
            Some(FdLimit { current: wanted(limit), maximum: limit.maximum })
        } else {
            None
        },
        None => None,
    }
}

/// The limit in force afterwards, where the system accepts what is set.
pub open spec fn limit_after(limit: FdLimit) -> FdLimit {
    match raised_limit(Some(limit)) {
        Some(raised) => raised,
        None => limit,
    }
}

/// The limit to set, given the limit that the system reports (`None` where it
/// reports none): the highest one allowed, up to [`FD_TARGET`]. `None` where there
/// is nothing to raise.
pub fn raise_fd_limit(limit: Option<FdLimit>) -> (raised: Option<FdLimit>)
    ensures
        raised == raised_limit(limit),
{
    match limit {
        Some(limit) => {
            let target = if limit.maximum < FD_TARGET {
                limit.maximum
            } else {
                FD_TARGET
            };
            if limit.current < target {
                Some(FdLimit { current: target, maximum: limit.maximum })
            } else {
                None
            }
        },
        None => None,
    }
}

/// Raising the limit never lowers it and never passes the highest allowed, and
/// raising it again changes nothing.
pub proof fn law_limit_is_only_raised(limit: FdLimit)
    ensures
        limit_after(limit).current >= limit.current,
        limit_after(limit).maximum == limit.maximum,
        limit.current <= limit.maximum ==> limit_after(limit).current <= limit.maximum,
        limit_after(limit).current > limit.current ==> limit_after(limit).current <= FD_TARGET,
        raised_limit(Some(limit_after(limit))) is None,
{
}

/// The limit is raised exactly where it is below both the highest allowed and 65535, and then
/// to the lower of the two. The highest allowed is kept.
pub proof fn law_limit_reaches_the_target(limit: FdLimit)
    ensures
        raised_limit(None) is None,
        raised_limit(Some(limit)) is Some <==> limit.current < limit.maximum && limit.current
            < 65535,
        raised_limit(Some(limit)) matches Some(raised) ==> raised.maximum == limit.maximum
            && raised.current <= limit.maximum && raised.current <= 65535 && (raised.current
            == limit.maximum || raised.current == 65535),
{
}

} // verus!
