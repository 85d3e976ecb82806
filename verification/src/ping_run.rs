//! Testing many addresses, a limited number of them at a time.
use crate::addr::SocketAddr;
use crate::args::Args;
use crate::common::{should_keep_result, update_progress_bar, BasePing, PingData};
use crate::progress::BarUpdate;
use crate::single::Single;
use crate::sort::sort_results;
use std::sync::Arc;
use vstd::prelude::*;

verus! {

/// The state of a latency test.
pub struct RunView {
    pub args: Args,
    /// How many addresses there are.
    pub total: usize,
    /// How many good addresses are enough, if a limit is set.
    pub target: Option<usize>,
    /// How many tasks may run at the same time.
    pub max_concurrent: usize,
    /// How many addresses have to be asked for before the next task is waited for.
    pub owed: usize,
    /// How many tasks are running.
    pub in_flight: usize,
    pub success: usize,
    pub tested: usize,
    /// The good results, in the order in which their tasks ended.
    pub results: Seq<PingData>,
    /// The test was stopped before all tasks had ended.
    pub stopped: bool,
}

/// What happens during a latency test.
pub enum RunEvent {
    /// The next address was asked for; there may be none left.
    Popped { addr: Option<SocketAddr> },
    /// A task ended. It hands back its result with its loss rate, if it has one; the signal to
    /// stop was read afterwards.
    Joined { timed_out: bool, outcome: Option<(PingData, Single)> },
}

/// The lesser of a limit and the number of addresses.
pub open spec fn reachable_target(target_num: Option<usize>, total: usize) -> Option<usize> {
    match target_num {
        Some(t) => Some(
            if t <= total {
                t
            } else {
                total
            },
        ),
        None => None,
    }
}

impl RunView {
    /// A test that begins: nothing is tested yet, and as many tasks as may run are to be started.
    pub open spec fn begin(base: BasePing, max_concurrent: usize) -> RunView {
        RunView::resumed(base, max_concurrent, 0, 0)
    }

    /// A test that begins where earlier ones have counted so many good addresses and so many
    /// tested ones.
    pub open spec fn resumed(
        base: BasePing,
        max_concurrent: usize,
        success: usize,
        tested: usize,
    ) -> RunView {
        RunView {
            args: *base.args,
            total: base.total_ips,
            target: reachable_target(base.args.target_num, base.total_ips),
            max_concurrent,
            owed: max_concurrent,
            in_flight: 0,
            success,
            tested,
            results: Seq::empty(),
            stopped: false,
        }
    }

    /// The counters were found at these numbers: tests that share them count together.
    pub open spec fn recounted(self, success: usize, tested: usize) -> RunView {
        RunView { success, tested, ..self }
    }

    /// The limit of good addresses is reached.
    pub open spec fn target_reached(self) -> bool {
        match self.target {
            Some(t) => self.success >= t,
            None => false,
        }
    }

    /// An address was asked for. Each one starts a task; once there are none left, no more are
    /// asked for until a task ends.
    pub open spec fn popped(self, addr: Option<SocketAddr>) -> RunView {
        if addr is Some {
            RunView {
                owed: (self.owed - 1) as usize,
                in_flight: (self.in_flight + 1) as usize,
                ..self
            }
        } else {
            RunView { owed: 0, ..self }
        }
    }

    /// A task ended. The test stops if it has to or if enough good addresses were found before;
    /// otherwise the result is counted, kept if it is good, and one more address is asked for.
    pub open spec fn joined(self, timed_out: bool, outcome: Option<(PingData, Single)>) -> RunView {
        let ended = RunView { in_flight: (self.in_flight - 1) as usize, ..self };
        if timed_out || self.target_reached() {
            RunView { stopped: true, ..ended }
        } else {
            let counted = RunView { tested: (self.tested + 1) as usize, owed: 1, ..ended };
            match outcome {
                Some((data, loss)) => if crate::common::kept(data@, loss, self.args) {
                    RunView {
                        success: (self.success + 1) as usize,
                        results: self.results.push(data),
                        ..counted
                    }
                } else {
                    counted
                },
                None => counted,
            }
        }
    }

    /// The event can happen now: addresses are asked for while some are owed, tasks are waited
    /// for afterwards, and nothing happens once the test was stopped.
    pub open spec fn allows(self, event: RunEvent) -> bool {
        &&& !self.stopped
        &&& match event {
            RunEvent::Popped { .. } => self.owed > 0,
            RunEvent::Joined { .. } => self.owed == 0 && self.in_flight > 0 && self.tested
                < usize::MAX && self.success < usize::MAX,
        }
    }

    /// The state after an event.
    pub open spec fn step(self, event: RunEvent) -> RunView {
        match event {
            RunEvent::Popped { addr } => self.popped(addr),
            RunEvent::Joined { timed_out, outcome } => self.joined(timed_out, outcome),
        }
    }

    /// The number of running tasks stays within its limit.
    pub open spec fn sound(self) -> bool {
        self.in_flight + self.owed <= self.max_concurrent
    }
}

/// Each event can happen in the state that the ones before it led to.
pub open spec fn run_allows(start: RunView, events: Seq<RunEvent>) -> bool
    decreases events.len(),
{
    events.len() == 0 || {
        &&& run_allows(start, events.drop_last())
        &&& run_after(start, events.drop_last()).allows(events.last())
    }
}

/// The state after a list of events.
pub open spec fn run_after(start: RunView, events: Seq<RunEvent>) -> RunView
    decreases events.len(),
{
    if events.len() == 0 {
        start
    } else {
        run_after(start, events.drop_last()).step(events.last())
    }
}

/// The task results among a list of events, in order.
pub open spec fn outcomes(events: Seq<RunEvent>) -> Seq<(PingData, Single)>
    decreases events.len(),
{
    if events.len() == 0 {
        Seq::empty()
    } else {
        match events.last() {
            RunEvent::Joined { outcome: Some(o), .. } => outcomes(events.drop_last()).push(o),
            _ => outcomes(events.drop_last()),
        }
    }
}

/// The good results among some outcomes, in order.
pub open spec fn good(outcomes: Seq<(PingData, Single)>, args: Args) -> Seq<PingData>
    decreases outcomes.len(),
{
    if outcomes.len() == 0 {
        Seq::empty()
    } else {
        let before = good(outcomes.drop_last(), args);
        let (data, loss) = outcomes.last();
        if crate::common::kept(data@, loss, args) {
            before.push(data)
        } else {
            before
        }
    }
}

/// How many tasks a list of events starts.
pub open spec fn starts(events: Seq<RunEvent>) -> nat
    decreases events.len(),
{
    if events.len() == 0 {
        0
    } else {
        starts(events.drop_last()) + if events.last() matches RunEvent::Popped { addr: Some(_) } {
            1nat
        } else {
            0nat
        }
    }
}

/// How many tasks end in a list of events.
pub open spec fn ends(events: Seq<RunEvent>) -> nat
    decreases events.len(),
{
    if events.len() == 0 {
        0
    } else {
        ends(events.drop_last()) + if events.last() is Joined {
            1nat
        } else {
            0nat
        }
    }
}

/// However a test goes on, its settings stay the same, and at most `max_concurrent` tasks run at
/// the same time: those that were started and have not ended. Each task that ends counts once,
/// but for one that finds the test stopped.
pub proof fn tasks_stay_within_the_limit(start: RunView, events: Seq<RunEvent>)
    requires
        start.in_flight == 0,
        start.sound(),
        !start.stopped,
        run_allows(start, events),
    ensures
        ({
            let state = run_after(start, events);
            &&& state.sound()
            &&& state.in_flight <= start.max_concurrent
            &&& state.in_flight == starts(events) - ends(events)
            &&& state.tested == start.tested + ends(events) - if state.stopped {
                1int
            } else {
                0int
            }
            &&& state.max_concurrent == start.max_concurrent
            &&& state.args == start.args
            &&& state.target == start.target
            &&& state.total == start.total
        }),
    decreases events.len(),
{
    if events.len() > 0 {
        tasks_stay_within_the_limit(start, events.drop_last());
    }
}

/// The address source was found empty.
pub open spec fn source_ran_dry(events: Seq<RunEvent>) -> bool {
    exists|i: int|
        0 <= i < events.len() && #[trigger] events[i] == (RunEvent::Popped { addr: None })
}

proof fn tasks_are_kept_running(start: RunView, events: Seq<RunEvent>)
    requires
        start.in_flight == 0,
        start.owed == start.max_concurrent,
        !start.stopped,
        run_allows(start, events),
    ensures
        ({
            let state = run_after(start, events);
            !state.stopped && !source_ran_dry(events) ==> state.in_flight + state.owed
                == start.max_concurrent
        }),
    decreases events.len(),
{
    if events.len() > 0 {
        let before = events.drop_last();
        tasks_are_kept_running(start, before);
        tasks_stay_within_the_limit(start, before);
        if !source_ran_dry(events) {
            if source_ran_dry(before) {
                let i = choose|i: int|
                    0 <= i < before.len() && #[trigger] before[i] == (RunEvent::Popped {
                        addr: None,
                    });
                assert(events[i] == (RunEvent::Popped { addr: None }));
            }
            assert(events[events.len() - 1] == events.last());
        }
    }
}

/// A test is complete: where it was not stopped, no address is owed and no task is running, the
/// address source was found empty, and each task that was started has ended and was counted.
pub proof fn a_test_that_is_not_stopped_is_complete(start: RunView, events: Seq<RunEvent>)
    requires
        start.in_flight == 0,
        start.owed == start.max_concurrent,
        start.max_concurrent >= 1,
        !start.stopped,
        run_allows(start, events),
        !run_after(start, events).stopped,
        run_after(start, events).owed == 0,
        run_after(start, events).in_flight == 0,
    ensures
        source_ran_dry(events),
        ends(events) == starts(events),
        run_after(start, events).tested == start.tested + starts(events),
{
    tasks_are_kept_running(start, events);
    tasks_stay_within_the_limit(start, events);
}

/// Every good address is a result, and counts from where the test began. The count never exceeds
/// the limit that was set: the task that ends after the limit is reached stops the test. A test
/// that begins at the limit has no results.
pub proof fn results_stay_within_the_target(start: RunView, events: Seq<RunEvent>)
    requires
        start.results.len() == 0,
        run_allows(start, events),
    ensures
        ({
            let state = run_after(start, events);
            &&& state.success == start.success + state.results.len()
            &&& state.tested - start.tested >= state.results.len()
            &&& state.target == start.target
            &&& start.target matches Some(t) ==> {
                &&& start.success <= t ==> state.success <= t
                &&& start.success >= t ==> state.results.len() == 0
                &&& state.results.len() <= t
            }
        }),
    decreases events.len(),
{
    if events.len() > 0 {
        results_stay_within_the_target(start, events.drop_last());
    }
}

/// The results of a test are the good ones among what its tasks handed back, in that order; a
/// task that ends the test hands back nothing.
pub proof fn results_are_the_good_outcomes(start: RunView, events: Seq<RunEvent>)
    requires
        start.results.len() == 0,
        !start.stopped,
        run_allows(start, events),
    ensures
        ({
            let state = run_after(start, events);
            let heard = if state.stopped {
                events.drop_last()
            } else {
                events
            };
            &&& state.results == good(outcomes(heard), start.args)
            &&& state.args == start.args
            &&& state.stopped ==> events.len() > 0 && events.last() is Joined
        }),
    decreases events.len(),
{
    if events.len() > 0 {
        results_are_the_good_outcomes(start, events.drop_last());
        if let RunEvent::Joined { outcome: Some(o), .. } = events.last() {
            assert(outcomes(events.drop_last()).push(o).drop_last() == outcomes(
                events.drop_last(),
            ));
        }
    }
}

/// A result comes from the `k`-th outcome and is within the bounds.
pub open spec fn good_at(
    outcomes: Seq<(PingData, Single)>,
    args: Args,
    k: int,
    data: PingData,
) -> bool {
    &&& 0 <= k < outcomes.len()
    &&& outcomes[k].0 == data
    &&& crate::common::kept(data@, outcomes[k].1, args)
}

/// Every good result comes from a task, with a loss rate and a delay within the bounds.
pub proof fn good_outcomes_are_within_the_bounds(
    outcomes: Seq<(PingData, Single)>,
    args: Args,
    i: int,
)
    requires
        0 <= i < good(outcomes, args).len(),
    ensures
        exists|k: int| good_at(outcomes, args, k, good(outcomes, args)[i]),
    decreases outcomes.len(),
{
    let before = outcomes.drop_last();
    if i < good(before, args).len() {
        good_outcomes_are_within_the_bounds(before, args, i);
        let k = choose|k: int| good_at(before, args, k, good(before, args)[i]);
        assert(good_at(outcomes, args, k, good(outcomes, args)[i]));
    } else {
        assert(good_at(outcomes, args, outcomes.len() - 1, good(outcomes, args)[i]));
    }
}

/// A test begins with nothing running and no result, on the counts it is given, and has to ask for
/// as many addresses as tasks may run. Its target is the number that is asked for, or the number of
/// addresses where that is less; it has none where none is asked for.
pub proof fn tests_begin_with_nothing_running(
    base: BasePing,
    max_concurrent: usize,
    success: usize,
    tested: usize,
)
    ensures
        ({
            let start = RunView::resumed(base, max_concurrent, success, tested);
            &&& start.in_flight == 0
            &&& start.owed == max_concurrent && start.max_concurrent == max_concurrent
            &&& start.results.len() == 0
            &&& !start.stopped
            &&& start.success == success && start.tested == tested
            &&& start.total == base.total_ips
            &&& start.args == *base.args
            &&& start.target is Some <==> base.args.target_num is Some
            &&& start.target matches Some(t) ==> {
                &&& t <= base.total_ips
                &&& t <= base.args.target_num->0
                &&& t == base.total_ips || t == base.args.target_num->0
            }
            &&& RunView::begin(base, max_concurrent).success == 0
            &&& RunView::begin(base, max_concurrent).tested == 0
        }),
{
}

/// A test stops only for a reason: its last event is then a task that ended while the signal was
/// raised, or when as many good addresses were counted as are asked for, or as there are. Without a
/// target number only the signal stops a test.
pub proof fn a_test_stops_only_for_a_reason(
    base: BasePing,
    max_concurrent: usize,
    success: usize,
    tested: usize,
    events: Seq<RunEvent>,
)
    requires
        run_allows(RunView::resumed(base, max_concurrent, success, tested), events),
    ensures
        ({
            let state = run_after(
                RunView::resumed(base, max_concurrent, success, tested),
                events,
            );
            let found = success + state.results.len();
            let enough = base.args.target_num matches Some(t) && (found >= t || found
                >= base.total_ips);
            &&& state.stopped ==> events.len() > 0 && (events.last() matches RunEvent::Joined {
                timed_out,
                ..
            } && (timed_out || enough))
            &&& base.args.target_num is None && (forall|i: int|
                0 <= i < events.len() ==> !(#[trigger] events[i] matches RunEvent::Joined {
                    timed_out: true,
                    ..
                })) ==> !state.stopped
        }),
{
    let start = RunView::resumed(base, max_concurrent, success, tested);
    if events.len() > 0 {
        let before = events.drop_last();
        results_stay_within_the_target(start, before);
        assert(events[events.len() - 1] == events.last());
    }
}

/// A task that ends stops the test if the signal is raised, or if as many good addresses were
/// counted before as are asked for, or as there are; otherwise the test goes on.
pub proof fn the_signal_and_the_target_stop_a_test(
    base: BasePing,
    max_concurrent: usize,
    success: usize,
    tested: usize,
    events: Seq<RunEvent>,
    timed_out: bool,
    outcome: Option<(PingData, Single)>,
)
    requires
        run_allows(RunView::resumed(base, max_concurrent, success, tested), events),
        run_after(RunView::resumed(base, max_concurrent, success, tested), events).allows(
            RunEvent::Joined { timed_out, outcome },
        ),
    ensures
        ({
            let state = run_after(
                RunView::resumed(base, max_concurrent, success, tested),
                events,
            );
            let found = success + state.results.len();
            let enough = base.args.target_num matches Some(t) && (found >= t || found
                >= base.total_ips);
            state.step(RunEvent::Joined { timed_out, outcome }).stopped <==> timed_out || enough
        }),
{
    results_stay_within_the_target(
        RunView::resumed(base, max_concurrent, success, tested),
        events,
    );
}

/// While a test is not stopped, any address can be taken note of as long as one is owed, and after
/// that any task that ends; nothing more happens to a test that was stopped.
pub proof fn a_test_takes_what_comes(
    state: RunView,
    addr: Option<SocketAddr>,
    timed_out: bool,
    outcome: Option<(PingData, Single)>,
)
    ensures
        state.allows(RunEvent::Popped { addr }) <==> !state.stopped && state.owed > 0,
        state.allows(RunEvent::Joined { timed_out, outcome }) ==> !state.stopped && state.owed == 0
            && state.in_flight > 0,
        !state.stopped && state.owed == 0 && state.in_flight > 0 && state.tested < usize::MAX
            && state.success < usize::MAX ==> state.allows(
            RunEvent::Joined { timed_out, outcome },
        ),
{
}

/// Each address that is taken note of starts one task; where there is none left, no more are asked
/// for. Results and counts stay as they are.
pub proof fn each_address_starts_a_task(state: RunView, addr: Option<SocketAddr>)
    requires
        state.sound(),
        state.allows(RunEvent::Popped { addr }),
    ensures
        ({
            let after = state.step(RunEvent::Popped { addr });
            &&& addr is Some ==> after.in_flight == state.in_flight + 1 && after.owed == state.owed
                - 1
            &&& addr is None ==> after.in_flight == state.in_flight && after.owed == 0
            &&& after.results == state.results
            &&& after.success == state.success && after.tested == state.tested
            &&& !after.stopped
        }),
{
}

/// A task that ends without stopping the test is counted as tested, and one more address is asked
/// for. Its result joins the others, and is counted as good, exactly if its loss rate is at most
/// the limit and its delay is within the bounds, as numbers; the others stay as they are. A task
/// that stops the test changes neither results nor counts.
pub proof fn each_ended_task_is_judged(
    state: RunView,
    timed_out: bool,
    outcome: Option<(PingData, Single)>,
)
    requires
        state.sound(),
        state.allows(RunEvent::Joined { timed_out, outcome }),
    ensures
        ({
            let after = state.step(RunEvent::Joined { timed_out, outcome });
            let within = outcome matches Some((data, loss)) && {
                &&& !loss.is_nan() && !data.delay.is_nan()
                &&& !state.args.max_loss_rate.is_nan()
                &&& !state.args.min_delay.number.is_nan()
                &&& !state.args.max_delay.number.is_nan()
                &&& loss.number() <= state.args.max_loss_rate.number()
                &&& state.args.min_delay.number.number() <= data.delay.number()
                &&& data.delay.number() <= state.args.max_delay.number.number()
            };
            &&& after.in_flight == state.in_flight - 1
            &&& !after.stopped ==> after.tested == state.tested + 1 && after.owed == 1
            &&& !after.stopped && within ==> after.results == state.results.push((outcome->0).0)
                && after.success == state.success + 1
            &&& !after.stopped && !within ==> after.results == state.results && after.success
                == state.success
            &&& after.stopped ==> after.results == state.results && after.success == state.success
                && after.tested == state.tested
        }),
{
    if let Some((data, loss)) = outcome {
        crate::common::kept_results_are_within_the_bounds(data@, loss, state.args);
    }
}

/// Every result of a test was handed back by a task that ended, with a loss rate that is at most
/// the limit and a delay that is within the bounds, as numbers.
pub proof fn every_result_is_within_the_bounds(start: RunView, events: Seq<RunEvent>, i: int)
    requires
        start.results.len() == 0,
        run_allows(start, events),
        0 <= i < run_after(start, events).results.len(),
    ensures
        run_after(start, events).args == start.args,
        exists|k: int|
            0 <= k < events.len() && (#[trigger] events[k] matches RunEvent::Joined {
                outcome: Some((data, loss)),
                ..
            } && {
                &&& run_after(start, events).results[i] == data
                &&& !loss.is_nan() && loss.number() <= start.args.max_loss_rate.number()
                &&& !data.delay.is_nan()
                &&& start.args.min_delay.number.number() <= data.delay.number()
                &&& data.delay.number() <= start.args.max_delay.number.number()
            }),
    decreases events.len(),
{
    let before = events.drop_last();
    let state = run_after(start, before);
    settings_of_a_test_stay(start, before);
    if i < state.results.len() {
        every_result_is_within_the_bounds(start, before, i);
        let k = choose|k: int|
            0 <= k < before.len() && (#[trigger] before[k] matches RunEvent::Joined {
                outcome: Some((data, loss)),
                ..
            } && {
                &&& state.results[i] == data
                &&& !loss.is_nan() && loss.number() <= start.args.max_loss_rate.number()
                &&& !data.delay.is_nan()
                &&& start.args.min_delay.number.number() <= data.delay.number()
                &&& data.delay.number() <= start.args.max_delay.number.number()
            });
        assert(events[k] == before[k]);
    } else {
        assert(events[events.len() - 1] == events.last());
        if let RunEvent::Joined { outcome: Some((data, loss)), .. } = events.last() {
            crate::common::kept_results_are_within_the_bounds(data@, loss, start.args);
        }
    }
}

proof fn settings_of_a_test_stay(start: RunView, events: Seq<RunEvent>)
    ensures
        run_after(start, events).args == start.args,
    decreases events.len(),
{
    if events.len() > 0 {
        settings_of_a_test_stay(start, events.drop_last());
    }
}

/// A test without a target number that is never signalled to stop, and whose tasks all hand back
/// results within the bounds, does not stop: it has as many results as tasks have ended, counts
/// each of them as tested and as good, and the last result is that of the task that ended last.
pub proof fn without_a_target_every_good_result_is_kept(
    base: BasePing,
    max_concurrent: usize,
    events: Seq<RunEvent>,
)
    requires
        base.args.target_num is None,
        run_allows(RunView::begin(base, max_concurrent), events),
        forall|i: int|
            0 <= i < events.len() ==> ((#[trigger] events[i]) matches RunEvent::Joined {
                timed_out,
                outcome,
            } ==> !timed_out && outcome is Some && {
                let (data, loss) = outcome->0;
                &&& !loss.is_nan() && !data.delay.is_nan()
                &&& !base.args.max_loss_rate.is_nan()
                &&& !base.args.min_delay.number.is_nan()
                &&& !base.args.max_delay.number.is_nan()
                &&& loss.number() <= base.args.max_loss_rate.number()
                &&& base.args.min_delay.number.number() <= data.delay.number()
                &&& data.delay.number() <= base.args.max_delay.number.number()
            }),
    ensures
        ({
            let state = run_after(RunView::begin(base, max_concurrent), events);
            &&& !state.stopped
            &&& state.tested == ends(events)
            &&& state.success == ends(events)
            &&& state.results.len() == ends(events)
            &&& events.len() > 0 ==> (events.last() matches RunEvent::Joined {
                outcome: Some((data, _)),
                ..
            } ==> state.results.last() == data)
        }),
    decreases events.len(),
{
    let start = RunView::begin(base, max_concurrent);
    a_test_stops_only_for_a_reason(base, max_concurrent, 0, 0, events);
    tasks_stay_within_the_limit(start, events);
    if events.len() > 0 {
        let before = events.drop_last();
        assert forall|i: int| 0 <= i < before.len() implies #[trigger] before[i] == events[i] by {}
        without_a_target_every_good_result_is_kept(base, max_concurrent, before);
        settings_of_a_test_stay(start, before);
        assert(events[events.len() - 1] == events.last());
        if let RunEvent::Joined { outcome: Some((data, loss)), .. } = events.last() {
            crate::common::kept_results_are_within_the_bounds(data@, loss, start.args);
        }
    }
}

/// Counting afresh takes over the counts and leaves all else as it is.
pub proof fn counting_afresh_changes_the_counts_alone(
    state: RunView,
    success: usize,
    tested: usize,
)
    ensures
        ({
            let after = state.recounted(success, tested);
            &&& after.success == success && after.tested == tested
            &&& after.results == state.results
            &&& after.in_flight == state.in_flight && after.owed == state.owed
            &&& after.target == state.target && after.args == state.args
            &&& after.total == state.total && after.max_concurrent == state.max_concurrent
            &&& after.stopped == state.stopped
        }),
{
}

/// A latency test of many addresses.
pub struct PingRun {
    args: Arc<Args>,
    total: usize,
    target: Option<usize>,
    max_concurrent: usize,
    owed: usize,
    in_flight: usize,
    success: usize,
    tested: usize,
    results: Vec<PingData>,
    stopped: bool,
}

impl View for PingRun {
    type V = RunView;

    closed spec fn view(&self) -> RunView {
        RunView {
            args: *self.args,
            total: self.total,
            target: self.target,
            max_concurrent: self.max_concurrent,
            owed: self.owed,
            in_flight: self.in_flight,
            success: self.success,
            tested: self.tested,
            results: self.results@,
            stopped: self.stopped,
        }
    }
}

impl PingRun {
    /// Begins a test on fresh counters, in which at most `max_concurrent` tasks run at the same
    /// time.
    pub fn new(base: &BasePing, max_concurrent: usize) -> (r: Self)
        ensures
            r@ == RunView::begin(*base, max_concurrent),
            r@.sound(),
    {
        PingRun::resume(base, max_concurrent, 0, 0)
    }

    /// Begins a test on counters that are at these numbers, in which at most `max_concurrent`
    /// tasks run at the same time.
    pub fn resume(base: &BasePing, max_concurrent: usize, success: usize, tested: usize) -> (r:
        Self)
        ensures
            r@ == RunView::resumed(*base, max_concurrent, success, tested),
            r@.sound(),
    {
        let target = match base.args.target_num {
            Some(t) => Some(
                if t <= base.total_ips {
                    t
                } else {
                    base.total_ips
                },
            ),
            None => None,
        };
        PingRun {
            args: base.args.clone(),
            total: base.total_ips,
            target,
            max_concurrent,
            owed: max_concurrent,
            in_flight: 0,
            success,
            tested,
            results: Vec::new(),
            stopped: false,
        }
    }

    /// Takes note of the numbers that the counters are at, which other tests may have changed.
    pub fn recount(&mut self, success: usize, tested: usize)
        requires
            old(self)@.sound(),
        ensures
            final(self)@ == old(self)@.recounted(success, tested),
            final(self)@.sound(),
    {
        self.success = success;
        self.tested = tested;
    }

    /// Whether the next address has to be asked for; otherwise a task has to be waited for.
    pub fn wants_address(&self) -> (r: bool)
        ensures
            r == (!self@.stopped && self@.owed > 0),
    {
        !self.stopped && self.owed > 0
    }

    /// Whether a task that ends can be taken note of.
    pub fn wants_task(&self) -> (r: bool)
        ensures
            r == (!self@.stopped && self@.owed == 0 && self@.in_flight > 0 && self@.tested
                < usize::MAX && self@.success < usize::MAX),
    {
        !self.stopped && self.owed == 0 && self.in_flight > 0 && self.tested < usize::MAX
            && self.success < usize::MAX
    }

    /// Takes note of the next address, and hands it back if a task has to be started for it.
    pub fn popped(&mut self, addr: Option<SocketAddr>) -> (r: Option<SocketAddr>)
        requires
            old(self)@.sound(),
            old(self)@.allows(RunEvent::Popped { addr }),
        ensures
            final(self)@ == old(self)@.step(RunEvent::Popped { addr }),
            final(self)@.sound(),
            r == addr,
    {
        if addr.is_some() {
            self.owed = self.owed - 1;
            self.in_flight = self.in_flight + 1;
        } else {
            self.owed = 0;
        }
        addr
    }

    /// Takes note of a task that ended, and says what the progress bar shows then; `None` if the
    /// remaining tasks have to be stopped.
    pub fn joined(&mut self, timed_out: bool, outcome: Option<(PingData, Single)>) -> (r: Option<
        BarUpdate,
    >)
        requires
            old(self)@.sound(),
            old(self)@.allows(RunEvent::Joined { timed_out, outcome }),
        ensures
            final(self)@ == old(self)@.step(RunEvent::Joined { timed_out, outcome }),
            final(self)@.sound(),
            r is None <==> final(self)@.stopped,
            r matches Some(update) ==> update@ == crate::progress::latency_update(
                final(self)@.tested,
                final(self)@.success,
                final(self)@.total,
            ),
    {
        let reached = match self.target {
            Some(t) => self.success >= t,
            None => false,
        };
        self.in_flight = self.in_flight - 1;
        if timed_out || reached {
            self.stopped = true;
            return None;
        }
        if let Some((data, loss)) = outcome {
            if should_keep_result(&data, loss, &self.args) {
                self.success = self.success + 1;
                self.results.push(data);
            }
        }
        self.tested = self.tested + 1;
        self.owed = 1;
        Some(update_progress_bar(self.tested, self.success, self.total))
    }

    /// The good results so far.
    pub fn results(&self) -> (r: &Vec<PingData>)
        ensures
            r@ == self@.results,
    {
        &self.results
    }

    /// Ends the test: the good results, with the highest scores first.
    pub fn finish(self, scores: &[Single]) -> (r: Vec<PingData>)
        requires
            self@.results.len() == scores@.len(),
        ensures
            crate::sort::sorted_by_score(self@.results, scores@, r@),
    {
        let mut results = self.results;
        sort_results(&mut results, scores);
        results
    }
}

} // verus!
