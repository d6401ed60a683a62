//! Rate limiting of the operations of one user.
//!
//! Operations are counted in windows of fixed length. A window opens with the first operation, or
//! with the first one after the window before it is over. Within a window a user has a limited
//! number of operations, and between two operations a cooldown has to pass.
use vstd::prelude::*;

verus! {

/// How long, in ledgers, the statistics of a user are kept after an operation (about one day).
pub const STATS_TTL_LEDGERS: u32 = 17280;

/// The limits on the operations of each user.
#[derive(Clone, Copy, Debug, PartialEq, Eq, Structural)]
pub struct RateLimitConfig {
    pub window_seconds: u64,
    pub max_ops_per_window: u32,
    pub cooldown_seconds: u64,
}

/// What is remembered of the operations of one user.
#[derive(Clone, Copy, Debug, PartialEq, Eq, Structural)]
pub struct UserStats {
    pub last_operation_time: u64,
    pub window_start_time: u64,
    pub op_count: u32,
}

/// Why an operation is not let through.
#[derive(Clone, Copy, Debug, PartialEq, Eq, Structural)]
pub enum Denial {
    /// The cooldown after the last operation has not passed.
    Cooldown,
    /// The window holds as many operations as it may.
    MaxOps,
}

impl Denial {
    pub open spec fn spec_label(self) -> Seq<char> {
        match self {
            Denial::Cooldown => "cooldown"@,
            Denial::MaxOps => "max_ops"@,
        }
    }

    /// The word by which an event names the reason.
    pub fn label(&self) -> (label: &'static str)
        ensures
            label@ == self.spec_label(),
    {
        match self {
            Denial::Cooldown => "cooldown",
            Denial::MaxOps => "max_ops",
        }
    }
}

/// The statistics that a decision at `now` starts from: those stored, or, for a user without any,
/// an empty window that opens at `now`.
pub open spec fn stats_at(stored: Option<UserStats>, now: u64) -> UserStats {
    match stored {
        Some(stats) => stats,
        None => UserStats { last_operation_time: 0, window_start_time: now, op_count: 0 },
    }
}

/// The cooldown after the last operation is still running. A last operation at time zero starts
/// no cooldown.
pub open spec fn cooling_down(config: RateLimitConfig, stats: UserStats, now: u64) -> bool {
    0 < stats.last_operation_time && now < stats.last_operation_time + config.cooldown_seconds
}

/// The window of the statistics has ended.
pub open spec fn window_over(config: RateLimitConfig, stats: UserStats, now: u64) -> bool {
    stats.window_start_time + config.window_seconds <= now
}

/// Whether an operation at `now` is let through: the statistics to keep, or the reason why not.
pub open spec fn verdict(config: RateLimitConfig, stored: Option<UserStats>, now: u64) -> Result<
    UserStats,
    Denial,
> {
    let stats = stats_at(stored, now);
    if cooling_down(config, stats, now) {
        Err(Denial::Cooldown)
    } else if window_over(config, stats, now) {
        Ok(UserStats { last_operation_time: now, window_start_time: now, op_count: 1 })
    } else if config.max_ops_per_window <= stats.op_count {
        Err(Denial::MaxOps)
    } else {
        Ok(
            UserStats {
                last_operation_time: now,
                window_start_time: stats.window_start_time,
                op_count: (stats.op_count + 1) as u32,
            },
        )
    }
}

/// The points in time that the decision compares `now` with can be represented: the end of the
/// cooldown, where there is a last operation, and the end of the window, where it is looked at.
pub open spec fn times_fit(config: RateLimitConfig, stored: Option<UserStats>, now: u64) -> bool {
    let stats = stats_at(stored, now);
    &&& 0 < stats.last_operation_time ==> stats.last_operation_time + config.cooldown_seconds
        <= u64::MAX
    &&& !cooling_down(config, stats, now) ==> stats.window_start_time + config.window_seconds
        <= u64::MAX
}

fn stats_or_new(stored: Option<UserStats>, now: u64) -> (stats: UserStats)
    ensures
        stats == stats_at(stored, now),
{
    match stored {
        Some(stats) => stats,
        None => UserStats { last_operation_time: 0, window_start_time: now, op_count: 0 },
    }
}

/// Whether `assess` can be asked.
pub fn assessable(config: &RateLimitConfig, stored: Option<UserStats>, now: u64) -> (fit: bool)
    ensures
        fit == times_fit(*config, stored, now),
{
    let stats = stats_or_new(stored, now);
    if stats.last_operation_time > 0 {
        match stats.last_operation_time.checked_add(config.cooldown_seconds) {
            None => {
                return false;
            },
            Some(cooldown_end) => {
                if now < cooldown_end {
                    return true;
                }
            },
        }
    }
    stats.window_start_time.checked_add(config.window_seconds).is_some()
}

/// Decides on an operation at `now`.
pub fn assess(config: &RateLimitConfig, stored: Option<UserStats>, now: u64) -> (decision: Result<
    UserStats,
    Denial,
>)
    requires
        times_fit(*config, stored, now),
    ensures
        decision == verdict(*config, stored, now),
{
    let mut stats = stats_or_new(stored, now);
    if stats.last_operation_time > 0 && now < stats.last_operation_time + config.cooldown_seconds {
        return Err(Denial::Cooldown);
    }
    if now >= stats.window_start_time + config.window_seconds {
        stats.window_start_time = now;
        stats.op_count = 1;
    } else {
        if stats.op_count >= config.max_ops_per_window {
            return Err(Denial::MaxOps);
        }
        stats.op_count = stats.op_count + 1;
    }
    stats.last_operation_time = now;
    Ok(stats)
}

/// The statistics after operations at the given times, each of which was let through.
pub open spec fn stats_after(config: RateLimitConfig, start: UserStats, times: Seq<u64>) -> UserStats
    decreases times.len(),
{
    if times.len() == 0 {
        start
    } else {
        verdict(config, Some(stats_after(config, start, times.drop_last())), times.last())->Ok_0
    }
}

/// Operations at the given times are all let through.
pub open spec fn all_pass(config: RateLimitConfig, start: UserStats, times: Seq<u64>) -> bool
    decreases times.len(),
{
    times.len() == 0 || {
        &&& all_pass(config, start, times.drop_last())
        &&& verdict(config, Some(stats_after(config, start, times.drop_last())), times.last()) is Ok
    }
}

/// Two operations in succession that are let through lie at least the cooldown apart, except after
/// an operation at time zero.
pub proof fn law_cooldown_keeps_operations_apart(
    config: RateLimitConfig,
    stored: Option<UserStats>,
    first: u64,
    second: u64,
)
    requires
        0 < first,
        verdict(config, stored, first) is Ok,
        verdict(config, Some(verdict(config, stored, first)->Ok_0), second) is Ok,
    ensures
        first + config.cooldown_seconds <= second,
{
}

/// Within one window no more operations are let through than the configured number, however they
/// are spread: an open window that has counted some operations lets through only as many more as
/// are missing to the maximum, and counts every one of them.
pub proof fn law_window_holds_at_most_max_ops(
    config: RateLimitConfig,
    start: UserStats,
    times: Seq<u64>,
)
    requires
        all_pass(config, start, times),
        forall|i: int|
            0 <= i < times.len() ==> #[trigger] times[i] < start.window_start_time
                + config.window_seconds,
    ensures
        0 < times.len() ==> start.op_count + times.len() <= config.max_ops_per_window,
        stats_after(config, start, times).op_count == start.op_count + times.len(),
        stats_after(config, start, times).window_start_time == start.window_start_time,
    decreases times.len(),
{
    if 0 < times.len() {
        let earlier = times.drop_last();
        assert forall|i: int| 0 <= i < earlier.len() implies #[trigger] earlier[i]
            < start.window_start_time + config.window_seconds by {
            assert(earlier[i] == times[i]);
        }
        law_window_holds_at_most_max_ops(config, start, earlier);
        assert(times.last() < start.window_start_time + config.window_seconds);
    }
}

/// Statistics that are kept name the operation just made as the last one, count it, and never
/// count more operations than the maximum. The operation that opens a new window is counted even
/// where the maximum is zero.
pub proof fn law_kept_stats_respect_the_maximum(
    config: RateLimitConfig,
    stored: Option<UserStats>,
    now: u64,
)
    requires
        verdict(config, stored, now) is Ok,
    ensures
        ({
            let kept = verdict(config, stored, now)->Ok_0;
            &&& kept.last_operation_time == now
            &&& 1 <= kept.op_count
            &&& kept.op_count <= config.max_ops_per_window || kept.op_count == 1
        }),
{
}

/// Once the window and the cooldown are over, an operation is let through and opens a window of
/// its own, whatever the user did before.
pub proof fn law_new_window_starts_afresh(config: RateLimitConfig, stats: UserStats, now: u64)
    requires
        stats.last_operation_time + config.cooldown_seconds <= now,
        stats.window_start_time + config.window_seconds <= now,
    ensures
        verdict(config, Some(stats), now) == Ok::<UserStats, Denial>(
            UserStats { last_operation_time: now, window_start_time: now, op_count: 1 },
        ),
{
}

/// A user without a history is let through, wherever the limits allow any operation at all: the
/// operation opens the first window and is counted in it.
pub proof fn law_first_operation_passes(config: RateLimitConfig, now: u64)
    requires
        0 < config.max_ops_per_window,
    ensures
        verdict(config, None, now) == Ok::<UserStats, Denial>(
            UserStats { last_operation_time: now, window_start_time: now, op_count: 1 },
        ),
{
}

/// The cooldown after the last operation on record has run out by `now`, or none was started.
pub open spec fn rested(config: RateLimitConfig, stored: Option<UserStats>, now: u64) -> bool {
    match stored {
        None => true,
        Some(stats) => stats.last_operation_time == 0 || stats.last_operation_time
            + config.cooldown_seconds <= now,
    }
}

/// There is room for an operation at `now`: in the window on record, or in a new one. The first
/// operation ever opens the window that it is counted in.
pub open spec fn has_room(config: RateLimitConfig, stored: Option<UserStats>, now: u64) -> bool {
    match stored {
        None => config.window_seconds == 0 || 0 < config.max_ops_per_window,
        Some(stats) => stats.window_start_time + config.window_seconds <= now || stats.op_count
            < config.max_ops_per_window,
    }
}

/// The statistics `kept` count one more operation, at `now`: in the window on record while it is
/// open, and otherwise as the first one of a window that opens at `now`.
pub open spec fn counts_one_more(
    config: RateLimitConfig,
    stored: Option<UserStats>,
    now: u64,
    kept: UserStats,
) -> bool {
    &&& kept.last_operation_time == now
    &&& match stored {
        Some(stats) if now < stats.window_start_time + config.window_seconds => {
            &&& kept.window_start_time == stats.window_start_time
            &&& kept.op_count == stats.op_count + 1
        },
        _ => kept.window_start_time == now && kept.op_count == 1,
    }
}

/// No point in time that is looked at lies beyond what can be represented: the end of the cooldown,
/// if one was started, and, once that is over, the end of the window.
pub open spec fn times_representable(
    config: RateLimitConfig,
    stored: Option<UserStats>,
    now: u64,
) -> bool {
    match stored {
        None => now + config.window_seconds <= u64::MAX,
        Some(stats) => {
            &&& stats.last_operation_time == 0 || stats.last_operation_time
                + config.cooldown_seconds <= u64::MAX
            &&& rested(config, stored, now) ==> stats.window_start_time + config.window_seconds
                <= u64::MAX
        },
    }
}

/// An operation is let through just where the cooldown is over and there is room, and is then
/// counted, once. While the cooldown runs that is the reason for a denial; otherwise it is the lack
/// of room.
pub proof fn law_operation_passes_just_where_rested_with_room(
    config: RateLimitConfig,
    stored: Option<UserStats>,
    now: u64,
)
    ensures
        verdict(config, stored, now) is Ok <==> rested(config, stored, now) && has_room(
            config,
            stored,
            now,
        ),
        verdict(config, stored, now) == Err::<UserStats, Denial>(Denial::Cooldown) <==> !rested(
            config,
            stored,
            now,
        ),
        verdict(config, stored, now) == Err::<UserStats, Denial>(Denial::MaxOps) <==> rested(
            config,
            stored,
            now,
        ) && !has_room(config, stored, now),
        verdict(config, stored, now) matches Ok(kept) ==> counts_one_more(
            config,
            stored,
            now,
            kept,
        ),
{
}

/// A decision can be asked for just where no point in time that it looks at is too large.
pub proof fn law_decision_needs_representable_times(
    config: RateLimitConfig,
    stored: Option<UserStats>,
    now: u64,
)
    ensures
        times_fit(config, stored, now) <==> times_representable(config, stored, now),
{
}

/// Each reason has a word of its own.
pub proof fn law_denial_labels(denial: Denial)
    ensures
        denial.spec_label() == "cooldown"@ <==> denial is Cooldown,
        denial.spec_label() == "max_ops"@ <==> denial is MaxOps,
{
    reveal_strlit("cooldown");
    reveal_strlit("max_ops");
    assert("cooldown"@.len() != "max_ops"@.len());
}

} // verus!
