//! Monitoring, restarting, and the failed state for a supervised service.
//!
//! This is a pure state machine for deciding whether and when to restart a service after its
//! child process exits. It does not perform the spawning or the exit detection (`wait`) itself;
//! those are the responsibility of a higher layer that combines this with [`crate::spawn`]. The
//! restart policy (backoff, thresholds, failure limit) is supplied by the caller as a
//! [`RestartConfig`].

use vstd::arithmetic::power::{lemma0_pow, lemma_pow1, pow};
use vstd::prelude::*;

use crate::config::RestartConfig;
use crate::time::Duration;

verus! {

/// The run state the user wants for a service.
///
/// Not persisted. On app startup this is always derived from `enabled` in `config.toml`.
#[derive(Clone, Copy, Debug, PartialEq, Eq, Structural)]
pub enum DesiredState {
    /// Keep it running. Restart it when it exits.
    Running,
    /// Keep it stopped. Do not restart it when it exits.
    Stopped,
}

/// The action to take right after a child process exits, returned by [`Monitor::record_exit`].
#[derive(Clone, Copy, Debug, PartialEq, Eq, Structural)]
pub enum RestartDecision {
    /// Restart after the given delay.
    RestartAfter(Duration),
    /// Consecutive failures reached the limit and the service transitioned to the failed state.
    /// Do not auto-restart.
    Failed,
    /// The desired state is stopped, so do not restart.
    Stopped,
}

/// Holds the restart policy and failure state for a single service.
#[derive(Clone, Copy, Debug, PartialEq, Eq, Structural)]
pub struct Monitor {
    /// The run state the user wants.
    pub desired: DesiredState,
    /// The policy that decides on restarts.
    pub restart: RestartConfig,
    /// The number of runs in a row that were too short.
    pub consecutive_failures: u32,
    /// The delay before the next restart.
    pub backoff: Duration,
    /// Whether the service has been given up.
    pub failed: bool,
}

/// The delay that follows `backoff` after a run that was not stable.
pub open spec fn grown_backoff(restart: RestartConfig, backoff: nat) -> nat {
    if backoff * restart.backoff_multiplier <= restart.max_backoff@ {
        backoff * restart.backoff_multiplier as nat
    } else {
        restart.max_backoff@
    }
}

impl Monitor {
    /// A monitor that has seen no exit yet.
    pub open spec fn fresh(desired: DesiredState, restart: RestartConfig) -> Monitor {
        Monitor {
            desired,
            restart,
            consecutive_failures: 0,
            backoff: restart.initial_backoff,
            failed: false,
        }
    }

    /// The number of failures in a row once a run of `uptime` nanoseconds has ended.
    pub open spec fn failures_after(self, uptime: nat) -> nat {
        if uptime < self.restart.failure_uptime_threshold@ {
            self.consecutive_failures as nat + 1
        } else {
            0
        }
    }

    /// The delay before the restart after the next one, once a run of `uptime` nanoseconds has
    /// ended.
    pub open spec fn backoff_after(self, uptime: nat) -> nat {
        if uptime >= self.restart.stable_uptime@ {
            self.restart.initial_backoff@
        } else {
            grown_backoff(self.restart, self.backoff@)
        }
    }

    /// The action to take once a run of `uptime` nanoseconds has ended.
    pub open spec fn decision_on(self, uptime: nat) -> RestartDecision {
        if self.desired == DesiredState::Stopped {
            RestartDecision::Stopped
        } else if self.failures_after(uptime) >= self.restart.max_consecutive_failures {
            RestartDecision::Failed
        } else {
            RestartDecision::RestartAfter(self.backoff)
        }
    }

    /// Whether the end of a run of `uptime` nanoseconds takes this monitor to `after` and gives
    /// `decision`.
    pub open spec fn exits(
        self,
        uptime: nat,
        decision: RestartDecision,
        after: Monitor,
    ) -> bool {
        &&& decision == self.decision_on(uptime)
        &&& match decision {
            RestartDecision::Stopped => after == self,
            RestartDecision::Failed => after == (Monitor {
                consecutive_failures: self.failures_after(uptime) as u32,
                failed: true,
                ..self
            }),
            RestartDecision::RestartAfter(_) => {
                &&& after.backoff@ == self.backoff_after(uptime)
                &&& after == (Monitor {
                    consecutive_failures: self.failures_after(uptime) as u32,
                    backoff: after.backoff,
                    ..self
                })
            },
        }
    }

    /// Whether the failure count is where exits and manual starts leave it: short of the limit
    /// (or at zero) unless the service has been given up.
    pub open spec fn consistent(self) -> bool {
        self.failed || self.consecutive_failures == 0 || self.consecutive_failures
            < self.restart.max_consecutive_failures
    }

    /// Initializes the monitor with the given desired state and restart policy.
    ///
    /// On app startup, pass the desired state derived from the service's `enabled` setting and
    /// the `restart` policy of the configuration.
    #[must_use]
    pub fn new(desired: DesiredState, restart: RestartConfig) -> (monitor: Self)
        ensures
            monitor == Monitor::fresh(desired, restart),
    {
        Monitor {
            desired,
            backoff: restart.initial_backoff,
            restart,
            consecutive_failures: 0,
            failed: false,
        }
    }

    /// The current desired state.
    #[must_use]
    pub fn desired_state(&self) -> (desired: DesiredState)
        ensures
            desired == self.desired,
    {
        self.desired
    }

    /// Whether the service has already transitioned to the failed state.
    #[must_use]
    pub fn is_failed(&self) -> (failed: bool)
        ensures
            failed == self.failed,
    {
        self.failed
    }

    /// The current number of consecutive failures.
    #[must_use]
    pub fn consecutive_failures(&self) -> (count: u32)
        ensures
            count == self.consecutive_failures,
    {
        self.consecutive_failures
    }

    /// Records that the child process exited and returns the action to take.
    ///
    /// `uptime` is the elapsed time from start to exit. The exit code or signal is not
    /// considered; only the fact that it exited and how long it ran determine whether and when to
    /// restart.
    ///
    /// When the desired state is stopped, this unconditionally returns
    /// [`RestartDecision::Stopped`]. Otherwise, an exit with `uptime` below the configured failure
    /// threshold counts as a consecutive failure; once that count reaches the configured limit,
    /// the service transitions to the failed state and this returns [`RestartDecision::Failed`].
    /// Short of that limit, this returns [`RestartDecision::RestartAfter`] with a delay governed
    /// by the exponential backoff, which resets to its configured initial interval once a run
    /// reaches the configured stable-uptime threshold and otherwise grows by the configured
    /// multiplier, capped at the configured maximum.
    #[must_use]
    pub fn record_exit(&mut self, uptime: Duration) -> (decision: RestartDecision)
        requires
            old(self).desired == DesiredState::Running ==> old(self).failures_after(uptime@)
                <= u32::MAX,
        ensures
            old(self).exits(uptime@, decision, *final(self)),
    {
        if self.desired == DesiredState::Stopped {
            return RestartDecision::Stopped;
        }
        if uptime.shorter_than(&self.restart.failure_uptime_threshold) {
            self.consecutive_failures = self.consecutive_failures + 1;
        } else {
            self.consecutive_failures = 0;
        }
        if self.consecutive_failures >= self.restart.max_consecutive_failures {
            self.failed = true;
            return RestartDecision::Failed;
        }
        let delay = self.backoff;
        self.backoff = if !uptime.shorter_than(&self.restart.stable_uptime) {
            self.restart.initial_backoff
        } else {
            self.backoff.grown(self.restart.backoff_multiplier, self.restart.max_backoff)
        };
        RestartDecision::RestartAfter(delay)
    }

    /// Manual start from the tray. Moves the desired state back to running and resets the
    /// consecutive-failure counter and the backoff to their initial state. Retrying from the
    /// failed state goes through this path.
    pub fn start(&mut self)
        ensures
            *final(self) == Monitor::fresh(DesiredState::Running, old(self).restart),
    {
        self.desired = DesiredState::Running;
        self.consecutive_failures = 0;
        self.backoff = self.restart.initial_backoff;
        self.failed = false;
    }

    /// Manual stop from the tray. Moves the desired state to stopped, excluding the service from
    /// restart. Leaves the consecutive-failure counter, the backoff, and the failed state
    /// unchanged.
    pub fn stop(&mut self)
        ensures
            *final(self) == (Monitor { desired: DesiredState::Stopped, ..*old(self) }),
    {
        self.desired = DesiredState::Stopped;
    }
}

/// Whether `steps[0]`, `steps[1]`, … is what becomes of a monitor as runs of the lengths
/// `uptimes` end one after the other and each is followed by a restart.
pub open spec fn restarts(steps: Seq<Monitor>, uptimes: Seq<Duration>) -> bool {
    &&& steps.len() == uptimes.len() + 1
    &&& forall|i: int|
        0 <= i < uptimes.len() ==> (#[trigger] steps[i]).exits(
            uptimes[i]@,
            RestartDecision::RestartAfter(steps[i].backoff),
            steps[i + 1],
        )
}

/// An exit keeps the policy and the desired state, never takes the failed state back, and leaves
/// the failure count consistent.
pub proof fn law_exit_keeps_policy_and_failed_state(
    before: Monitor,
    uptime: nat,
    decision: RestartDecision,
    after: Monitor,
)
    requires
        before.exits(uptime, decision, after),
    ensures
        after.restart == before.restart,
        after.desired == before.desired,
        before.failed ==> after.failed,
        decision == RestartDecision::Failed ==> after.failed,
        before.consistent() ==> after.consistent(),
{
}

/// While a consistent monitor has not given its service up, the failure count is short of the
/// largest number there is, so an exit can always be recorded.
pub proof fn law_exit_can_be_recorded(monitor: Monitor, uptime: nat)
    requires
        monitor.consistent(),
        !monitor.failed,
    ensures
        monitor.failures_after(uptime) <= u32::MAX,
{
}

/// No restart waits longer than both the initial and the maximal delay.
pub proof fn law_delay_is_bounded(steps: Seq<Monitor>, uptimes: Seq<Duration>, i: int)
    requires
        restarts(steps, uptimes),
        steps[0].backoff == steps[0].restart.initial_backoff,
        0 <= i < steps.len(),
    ensures
        steps[i].backoff@ <= steps[0].restart.initial_backoff@ || steps[i].backoff@
            <= steps[0].restart.max_backoff@,
        steps[i].restart == steps[0].restart,
    decreases i,
{
    if i > 0 {
        law_delay_is_bounded(steps, uptimes, i - 1);
        assert(steps[i - 1].exits(
            uptimes[i - 1]@,
            RestartDecision::RestartAfter(steps[i - 1].backoff),
            steps[i - 1 + 1],
        ));
    }
}

/// After one or more runs in a row that were not stable, the delay is the initial one times the
/// multiplier once for each of them, capped at the maximum.
pub proof fn law_backoff_is_exponential(steps: Seq<Monitor>, uptimes: Seq<Duration>)
    requires
        restarts(steps, uptimes),
        uptimes.len() > 0,
        steps[0].backoff == steps[0].restart.initial_backoff,
        forall|i: int|
            0 <= i < uptimes.len() ==> (#[trigger] uptimes[i])@ < steps[0].restart.stable_uptime@,
    ensures
        ({
            let restart = steps[0].restart;
            let grown = restart.initial_backoff@ * pow(
                restart.backoff_multiplier as int,
                uptimes.len(),
            );
            steps.last().backoff@ == (if grown <= restart.max_backoff@ {
                grown
            } else {
                restart.max_backoff@ as int
            })
        }),
        steps.last().restart == steps[0].restart,
    decreases uptimes.len(),
{
    let restart = steps[0].restart;
    let count = uptimes.len();
    let initial = restart.initial_backoff@ as int;
    let factor = restart.backoff_multiplier as int;
    let cap = restart.max_backoff@ as int;
    let last = count - 1;
    assert(steps[last].exits(
        uptimes[last]@,
        RestartDecision::RestartAfter(steps[last].backoff),
        steps[last + 1],
    ));
    reveal(pow);
    if count == 1 {
        lemma_pow1(factor);
        assert(steps[last].backoff@ == initial);
        assert(steps[last].backoff@ * (factor as nat) == initial * factor);
    } else {
        let earlier = (count - 1) as nat;
        law_backoff_is_exponential(steps.drop_last(), uptimes.drop_last());
        let power = pow(factor, earlier);
        assert(pow(factor, count) == factor * power);
        assert(initial * (factor * power) == (initial * power) * factor) by (nonlinear_arith);
        let product = initial * power;
        if product > cap {
            if factor >= 1 {
                assert(cap * factor >= cap) by (nonlinear_arith)
                    requires
                        factor >= 1,
                        cap >= 0,
                ;
                assert(product * factor > cap) by (nonlinear_arith)
                    requires
                        factor >= 1,
                        product > cap,
                        cap >= 0,
                ;
            } else {
                lemma0_pow(earlier);
                assert(product == 0) by (nonlinear_arith)
                    requires
                        product == initial * power,
                        power == 0,
                ;
            }
        }
    }
}

/// From a fresh start, runs that all end too soon are counted one by one, so the limit is reached
/// with exactly as many of them as it says: every one before that is followed by a restart, and
/// that one gives the service up.
pub proof fn law_fast_exits_are_counted(steps: Seq<Monitor>, uptimes: Seq<Duration>)
    requires
        restarts(steps, uptimes),
        steps[0].consecutive_failures == 0,
        forall|i: int|
            0 <= i < uptimes.len() ==> (#[trigger] uptimes[i])@
                < steps[0].restart.failure_uptime_threshold@,
    ensures
        steps.last().restart == steps[0].restart,
        steps.last().consecutive_failures == uptimes.len(),
        forall|uptime: nat, decision: RestartDecision, after: Monitor| #[trigger]
            steps.last().exits(uptime, decision, after) && steps.last().desired
                == DesiredState::Running && uptime < steps[0].restart.failure_uptime_threshold@
                ==> (decision == RestartDecision::Failed <==> uptimes.len() + 1
                >= steps[0].restart.max_consecutive_failures),
    decreases uptimes.len(),
{
    if uptimes.len() > 0 {
        let last = uptimes.len() - 1;
        law_fast_exits_are_counted(steps.drop_last(), uptimes.drop_last());
        assert(steps[last].exits(
            uptimes[last]@,
            RestartDecision::RestartAfter(steps[last].backoff),
            steps[last + 1],
        ));
    }
}

/// How many of the last runs in a row were shorter than `limit` nanoseconds.
pub open spec fn trailing_below(uptimes: Seq<Duration>, limit: nat) -> nat
    decreases uptimes.len(),
{
    if uptimes.len() == 0 || uptimes.last()@ >= limit {
        0
    } else {
        trailing_below(uptimes.drop_last(), limit) + 1
    }
}

/// The delay that a policy gives after `count` runs in a row that were not stable: the initial one
/// times the multiplier once for each of them, capped at the maximum.
pub open spec fn delay_after(policy: RestartConfig, count: nat) -> int {
    let grown = policy.initial_backoff@ * pow(policy.backoff_multiplier as int, count);
    if count == 0 {
        policy.initial_backoff@ as int
    } else if grown <= policy.max_backoff@ {
        grown
    } else {
        policy.max_backoff@ as int
    }
}

/// One more run that was not stable makes the delay grow by one step.
proof fn lemma_delay_grows(policy: RestartConfig, count: nat)
    ensures
        ({
            let product = delay_after(policy, count) * policy.backoff_multiplier;
            delay_after(policy, count + 1) == (if product <= policy.max_backoff@ {
                product
            } else {
                policy.max_backoff@ as int
            })
        }),
        delay_after(policy, count) >= 0,
{
    let initial = policy.initial_backoff@ as int;
    let factor = policy.backoff_multiplier as int;
    let cap = policy.max_backoff@ as int;
    let power = pow(factor, count);
    lemma_power_is_not_negative(factor, count);
    assert(pow(factor, count + 1) == factor * power) by {
        reveal(pow);
    }
    assert(initial * (factor * power) == (initial * power) * factor) by (nonlinear_arith);
    assert(initial * power >= 0) by (nonlinear_arith)
        requires
            initial >= 0,
            power >= 0,
    ;
    if count == 0 {
        assert(power == 1) by {
            reveal(pow);
        }
        assert(initial * power == initial) by (nonlinear_arith)
            requires
                power == 1,
        ;
    } else {
        let product = initial * power;
        if product > cap {
            if factor >= 1 {
                assert(cap * factor >= cap) by (nonlinear_arith)
                    requires
                        factor >= 1,
                        cap >= 0,
                ;
                assert(product * factor > cap) by (nonlinear_arith)
                    requires
                        factor >= 1,
                        product > cap,
                        cap >= 0,
                ;
            } else {
                lemma0_pow(count);
                assert(product == 0) by (nonlinear_arith)
                    requires
                        product == initial * power,
                        power == 0,
                ;
            }
        }
    }
}

/// A power of a number that is not negative is not negative.
proof fn lemma_power_is_not_negative(base: int, exponent: nat)
    requires
        base >= 0,
    ensures
        pow(base, exponent) >= 0,
    decreases exponent,
{
    reveal(pow);
    if exponent > 0 {
        lemma_power_is_not_negative(base, (exponent - 1) as nat);
        let rest = pow(base, (exponent - 1) as nat);
        assert(base * rest >= 0) by (nonlinear_arith)
            requires
                base >= 0,
                rest >= 0,
        ;
    }
}

/// What becomes of a service is told by its runs since it was started, and by nothing else. With
/// every exit, the failure count is the number of runs in a row, up to this one, that were too
/// short. The service is given up exactly when that number reaches the limit; until then it is
/// restarted after a delay that has grown once for every run since the latest stable one.
pub proof fn law_runs_since_the_start_decide(
    steps: Seq<Monitor>,
    uptimes: Seq<Duration>,
    uptime: Duration,
    decision: RestartDecision,
    after: Monitor,
)
    requires
        restarts(steps, uptimes),
        steps[0].desired == DesiredState::Running,
        steps[0].consecutive_failures == 0,
        steps[0].backoff == steps[0].restart.initial_backoff,
        !steps[0].failed,
        steps.last().exits(uptime@, decision, after),
        uptimes.len() < u32::MAX,
    ensures
        ({
            let policy = steps[0].restart;
            let runs = uptimes.push(uptime);
            let failures = trailing_below(runs, policy.failure_uptime_threshold@);
            let unstable = trailing_below(runs, policy.stable_uptime@);
            let unstable_before = trailing_below(uptimes, policy.stable_uptime@);
            &&& after.restart == policy
            &&& after.desired == DesiredState::Running
            &&& after.consecutive_failures == failures
            &&& after.failed == (failures >= policy.max_consecutive_failures)
            &&& decision == RestartDecision::Failed <==> failures
                >= policy.max_consecutive_failures
            &&& failures < policy.max_consecutive_failures ==> {
                &&& decision matches RestartDecision::RestartAfter(delay)
                &&& delay@ == delay_after(policy, unstable_before)
                &&& after.backoff@ == delay_after(policy, unstable)
            }
            &&& failures >= policy.max_consecutive_failures ==> after.backoff@ == delay_after(
                policy,
                unstable_before,
            )
        }),
{
    lemma_runs_since_the_start(steps, uptimes);
    let policy = steps[0].restart;
    let runs = uptimes.push(uptime);
    assert(runs.drop_last() =~= uptimes);
    lemma_trailing_is_bounded(uptimes, policy.failure_uptime_threshold@);
    lemma_delay_grows(policy, trailing_below(uptimes, policy.stable_uptime@));
}

/// No more runs are short than there were.
proof fn lemma_trailing_is_bounded(uptimes: Seq<Duration>, limit: nat)
    ensures
        trailing_below(uptimes, limit) <= uptimes.len(),
    decreases uptimes.len(),
{
    if uptimes.len() > 0 {
        lemma_trailing_is_bounded(uptimes.drop_last(), limit);
    }
}

/// As long as a service is restarted, its counters are told by its runs.
proof fn lemma_runs_since_the_start(steps: Seq<Monitor>, uptimes: Seq<Duration>)
    requires
        restarts(steps, uptimes),
        steps[0].desired == DesiredState::Running,
        steps[0].consecutive_failures == 0,
        steps[0].backoff == steps[0].restart.initial_backoff,
        !steps[0].failed,
        uptimes.len() < u32::MAX,
    ensures
        ({
            let policy = steps[0].restart;
            let last = steps.last();
            &&& last.restart == policy
            &&& last.desired == DesiredState::Running
            &&& !last.failed
            &&& last.consecutive_failures == trailing_below(
                uptimes,
                policy.failure_uptime_threshold@,
            )
            &&& last.backoff@ == delay_after(policy, trailing_below(uptimes, policy.stable_uptime@))
        }),
    decreases uptimes.len(),
{
    if uptimes.len() > 0 {
        let i = uptimes.len() - 1;
        let policy = steps[0].restart;
        lemma_runs_since_the_start(steps.drop_last(), uptimes.drop_last());
        assert(steps.drop_last().last() == steps[i]);
        assert(steps[i].exits(
            uptimes[i]@,
            RestartDecision::RestartAfter(steps[i].backoff),
            steps[i + 1],
        ));
        lemma_trailing_is_bounded(uptimes.drop_last(), policy.failure_uptime_threshold@);
        lemma_delay_grows(policy, trailing_below(uptimes.drop_last(), policy.stable_uptime@));
    }
}

/// A run that is long enough clears the failures before it, however many they were.
pub proof fn law_long_run_clears_failures(
    before: Monitor,
    uptime: nat,
    decision: RestartDecision,
    after: Monitor,
)
    requires
        before.exits(uptime, decision, after),
        before.desired == DesiredState::Running,
        uptime >= before.restart.failure_uptime_threshold@,
    ensures
        after.consecutive_failures == 0,
        before.restart.max_consecutive_failures > 0 ==> decision is RestartAfter,
{
}

/// A service that is meant to be stopped is never restarted, and its exits leave no trace.
pub proof fn law_stopped_service_is_not_restarted(
    before: Monitor,
    uptime: nat,
    decision: RestartDecision,
    after: Monitor,
)
    requires
        before.exits(uptime, decision, after),
    ensures
        before.desired == DesiredState::Stopped <==> decision == RestartDecision::Stopped,
        before.desired == DesiredState::Stopped ==> after == before,
{
}

} // verus!
