//! Pinging one address a number of times.
use crate::addr::{SocketAddr, SocketAddrView};
use crate::common::{build_ping_data_result, PingData, PingView};
use crate::single::Single;
use vstd::prelude::*;

verus! {

/// What has to be done next.
#[derive(Clone, Copy, Debug, PartialEq, Eq, Structural)]
pub enum LoopAction {
    /// Ping once.
    Ping,
    /// Wait for this many milliseconds.
    Sleep { millis: u64 },
    /// Nothing: all pings are done.
    Done,
}

/// What was done.
#[derive(Clone, Copy, Debug, PartialEq, Eq, Structural)]
pub enum LoopEvent {
    /// A ping was answered after this delay, in milliseconds, or not at all.
    Replied { delay: Option<Single> },
    /// The wait is over.
    Slept,
}

/// The state of a series of pings.
pub struct LoopView {
    /// How many pings are made in all.
    pub times: u16,
    /// The pings that are still to be made.
    pub left: u16,
    /// The wait after each answer, in milliseconds.
    pub wait_ms: u64,
    /// The delays of the answered pings, in order.
    pub delays: Seq<Single>,
    /// What has to be done next.
    pub action: LoopAction,
}

impl LoopView {
    /// A series of `times` pings that has not begun.
    pub open spec fn start(times: u16, wait_ms: u64) -> LoopView {
        LoopView { times, left: times, wait_ms, delays: Seq::empty(), action: Self::resume(times) }
    }

    /// Once nothing is waited for, the next ping is due, if one is left.
    pub open spec fn resume(left: u16) -> LoopAction {
        if left > 0 {
            LoopAction::Ping
        } else {
            LoopAction::Done
        }
    }

    /// The state after an event. An answer is noted, and a wait follows it; an event that does
    /// not fit the action changes nothing.
    pub open spec fn step(self, event: LoopEvent) -> LoopView {
        match (self.action, event) {
            (LoopAction::Ping, LoopEvent::Replied { delay: Some(d) }) => LoopView {
                left: (self.left - 1) as u16,
                delays: self.delays.push(d),
                action: LoopAction::Sleep { millis: self.wait_ms },
                ..self
            },
            (LoopAction::Ping, LoopEvent::Replied { delay: None }) => LoopView {
                left: (self.left - 1) as u16,
                action: Self::resume((self.left - 1) as u16),
                ..self
            },
            (LoopAction::Sleep { .. }, LoopEvent::Slept) => LoopView {
                action: Self::resume(self.left),
                ..self
            },
            _ => self,
        }
    }

    /// A ping is due only while one is left, none is left at the end, and each ping is answered
    /// at most once.
    pub open spec fn sound(self) -> bool {
        &&& self.action == LoopAction::Ping ==> self.left > 0
        &&& self.action == LoopAction::Done ==> self.left == 0
        &&& self.delays.len() + self.left <= self.times
    }

    /// The pings that are left are not made, as if they stayed unanswered.
    pub open spec fn given_up(self) -> LoopView {
        if self.action == LoopAction::Ping {
            LoopView { left: 0, action: LoopAction::Done, ..self }
        } else {
            self
        }
    }

    /// The result of a series of pings with this average delay: there is none without an answer.
    pub open spec fn result(
        self,
        addr: SocketAddrView,
        average: Single,
        data_center: Option<Seq<char>>,
    ) -> Option<PingView> {
        if self.delays.len() > 0 {
            crate::common::ping_result(
                addr,
                self.times,
                self.delays.len() as u16,
                average,
                data_center,
            )
        } else {
            None
        }
    }

    /// The state after a ping with this answer and the wait that may follow it.
    pub open spec fn round(self, delay: Option<Single>) -> LoopView {
        let replied = self.step(LoopEvent::Replied { delay });
        if delay is Some {
            replied.step(LoopEvent::Slept)
        } else {
            replied
        }
    }

    /// The state after pings with these answers.
    pub open spec fn rounds(self, answers: Seq<Option<Single>>) -> LoopView
        decreases answers.len(),
    {
        if answers.len() == 0 {
            self
        } else {
            self.rounds(answers.drop_last()).round(answers.last())
        }
    }
}

/// The delays among a list of answers, in order.
pub open spec fn delays_of(answers: Seq<Option<Single>>) -> Seq<Single>
    decreases answers.len(),
{
    if answers.len() == 0 {
        Seq::empty()
    } else {
        let before = delays_of(answers.drop_last());
        match answers.last() {
            Some(d) => before.push(d),
            None => before,
        }
    }
}

/// A series of `times` pings asks for exactly `times` answers, notes the delay of each ping that
/// was answered, in order, and then is done.
pub proof fn series_pings_as_often_as_asked(
    times: u16,
    wait_ms: u64,
    answers: Seq<Option<Single>>,
)
    requires
        answers.len() <= times,
    ensures
        ({
            let state = LoopView::start(times, wait_ms).rounds(answers);
            &&& state.delays == delays_of(answers)
            &&& state.delays.len() <= answers.len()
            &&& state.left == times - answers.len()
            &&& state.action == if answers.len() < times {
                LoopAction::Ping
            } else {
                LoopAction::Done
            }
        }),
    decreases answers.len(),
{
    if answers.len() > 0 {
        series_pings_as_often_as_asked(times, wait_ms, answers.drop_last());
    }
}

/// Giving up the pings that are left comes to the same as leaving all of them unanswered.
pub proof fn giving_up_is_getting_no_answers(state: LoopView, answers: Seq<Option<Single>>)
    requires
        state.sound(),
        state.action == LoopAction::Ping,
        answers.len() == state.left,
        forall|i: int| 0 <= i < answers.len() ==> #[trigger] answers[i] is None,
    ensures
        state.rounds(answers) == state.given_up(),
{
    unanswered_pings_are_counted(state, answers);
}

proof fn unanswered_pings_are_counted(state: LoopView, answers: Seq<Option<Single>>)
    requires
        state.sound(),
        state.action == LoopAction::Ping,
        answers.len() <= state.left,
        forall|i: int| 0 <= i < answers.len() ==> #[trigger] answers[i] is None,
    ensures
        state.rounds(answers) == (LoopView {
            left: (state.left - answers.len()) as u16,
            action: LoopView::resume((state.left - answers.len()) as u16),
            ..state
        }),
    decreases answers.len(),
{
    if answers.len() > 0 {
        unanswered_pings_are_counted(state, answers.drop_last());
    }
}

/// No more pings are answered than are sent.
pub proof fn no_more_answers_than_pings(
    state: LoopView,
    addr: SocketAddrView,
    average: Single,
    data_center: Option<Seq<char>>,
)
    requires
        state.sound(),
    ensures
        state.result(addr, average, data_center) matches Some(data) ==> 0 < data.received
            <= data.sent,
{
}

/// A ping that is answered adds its delay to the others, whatever that is, and is followed by the
/// wait, also after the last one; a ping that is not adds nothing and no wait follows. Then the
/// next ping is due while one is left. An event that is not waited for changes nothing.
pub proof fn each_ping_counts_once(state: LoopView, delay: Single)
    requires
        state.sound(),
    ensures
        ({
            let answered = state.step(LoopEvent::Replied { delay: Some(delay) });
            let lost = state.step(LoopEvent::Replied { delay: None });
            let woken = state.step(LoopEvent::Slept);
            match state.action {
                LoopAction::Ping => {
                    &&& answered.delays == state.delays.push(delay)
                    &&& answered.left == state.left - 1
                    &&& answered.action == (LoopAction::Sleep { millis: state.wait_ms })
                    &&& lost.delays == state.delays
                    &&& lost.left == state.left - 1
                    &&& lost.action == LoopAction::Ping <==> state.left > 1
                    &&& lost.action == LoopAction::Done <==> state.left == 1
                    &&& woken == state
                    &&& answered.times == state.times && answered.wait_ms == state.wait_ms
                    &&& lost.times == state.times && lost.wait_ms == state.wait_ms
                },
                LoopAction::Sleep { .. } => {
                    &&& answered == state && lost == state
                    &&& woken.delays == state.delays
                    &&& woken.left == state.left
                    &&& woken.times == state.times && woken.wait_ms == state.wait_ms
                    &&& woken.action == LoopAction::Ping <==> state.left > 0
                    &&& woken.action == LoopAction::Done <==> state.left == 0
                },
                LoopAction::Done => answered == state && lost == state && woken == state,
            }
        }),
{
}

/// A series begins with all of its pings left and no delay, and is done at once where there are
/// none.
pub proof fn series_begin_with_all_pings_left(times: u16, wait_ms: u64)
    ensures
        ({
            let state = LoopView::start(times, wait_ms);
            &&& state.left == times && state.times == times
            &&& state.wait_ms == wait_ms
            &&& state.delays.len() == 0
            &&& state.action == LoopAction::Ping <==> times > 0
            &&& state.action == LoopAction::Done <==> times == 0
        }),
{
}

/// One more ping of a series adds its delay if it is answered, and nothing if it is not.
pub proof fn series_note_the_answered_pings(
    times: u16,
    wait_ms: u64,
    answers: Seq<Option<Single>>,
    answer: Option<Single>,
)
    requires
        answers.len() < times,
    ensures
        ({
            let before = LoopView::start(times, wait_ms).rounds(answers);
            let after = LoopView::start(times, wait_ms).rounds(answers.push(answer));
            &&& answer matches Some(delay) ==> after.delays == before.delays.push(delay)
            &&& answer is None ==> after.delays == before.delays
            &&& after.times == times
        }),
{
    series_pings_as_often_as_asked(times, wait_ms, answers);
    settings_of_a_series_stay(times, wait_ms, answers);
    assert(answers.push(answer).drop_last() == answers);
}

proof fn settings_of_a_series_stay(times: u16, wait_ms: u64, answers: Seq<Option<Single>>)
    ensures
        LoopView::start(times, wait_ms).rounds(answers).times == times,
        LoopView::start(times, wait_ms).rounds(answers).wait_ms == wait_ms,
    decreases answers.len(),
{
    if answers.len() > 0 {
        settings_of_a_series_stay(times, wait_ms, answers.drop_last());
    }
}

/// The result of a series tells how many pings were to be sent and how many of them were answered,
/// and holds the average, the address and the data center. There is one exactly if a ping was
/// answered and the average is a number above zero.
pub proof fn results_tell_of_the_series(
    state: LoopView,
    addr: SocketAddrView,
    average: Single,
    data_center: Option<Seq<char>>,
)
    requires
        state.sound(),
    ensures
        ({
            let r = state.result(addr, average, data_center);
            &&& r is Some <==> state.delays.len() > 0 && !average.is_nan() && average.number() > 0
            &&& r matches Some(data) ==> {
                &&& data.addr == addr
                &&& data.sent == state.times
                &&& data.received == state.delays.len()
                &&& data.delay == average
                &&& data.download_speed is None
                &&& data_center matches Some(dc) ==> data.data_center == dc
                &&& data_center is None ==> data.data_center.len() == 0
            }
        }),
{
    crate::common::results_hold_what_was_measured(
        addr,
        state.times,
        state.delays.len() as u16,
        average,
        data_center,
    );
}

/// A series of pings of one address.
pub struct PingLoop {
    times: u16,
    left: u16,
    wait_ms: u64,
    delays: Vec<Single>,
    action: LoopAction,
}

impl View for PingLoop {
    type V = LoopView;

    closed spec fn view(&self) -> LoopView {
        LoopView {
            times: self.times,
            left: self.left,
            wait_ms: self.wait_ms,
            delays: self.delays@,
            action: self.action,
        }
    }
}

impl PingLoop {
    /// A series of `ping_times` pings, with a wait of `wait_ms` milliseconds after each answer.
    pub fn new(ping_times: u16, wait_ms: u64) -> (r: Self)
        ensures
            r@ == LoopView::start(ping_times, wait_ms),
            r@.sound(),
    {
        let action = if ping_times > 0 {
            LoopAction::Ping
        } else {
            LoopAction::Done
        };
        PingLoop { times: ping_times, left: ping_times, wait_ms, delays: Vec::new(), action }
    }

    /// What has to be done next.
    pub fn action(&self) -> (r: LoopAction)
        ensures
            r == self@.action,
    {
        self.action
    }

    /// Takes note of what was done.
    pub fn step(&mut self, event: LoopEvent)
        requires
            old(self)@.sound(),
        ensures
            final(self)@ == old(self)@.step(event),
            final(self)@.sound(),
    {
        match (self.action, event) {
            (LoopAction::Ping, LoopEvent::Replied { delay }) => {
                self.left = self.left - 1;
                match delay {
                    Some(d) => {
                        self.delays.push(d);
                        self.action = LoopAction::Sleep { millis: self.wait_ms };
                    },
                    None => {
                        self.resume();
                    },
                }
            },
            (LoopAction::Sleep { .. }, LoopEvent::Slept) => {
                self.resume();
            },
            _ => {},
        }
    }

    fn resume(&mut self)
        ensures
            final(self)@ == (LoopView { action: LoopView::resume(old(self)@.left), ..old(self)@ }),
    {
        self.action = if self.left > 0 {
            LoopAction::Ping
        } else {
            LoopAction::Done
        };
    }

    /// The delays of the answered pings.
    pub fn delays(&self) -> (r: &Vec<Single>)
        ensures
            r@ == self@.delays,
    {
        &self.delays
    }

    /// How many pings were answered.
    pub fn received(&self) -> (r: u16)
        requires
            self@.sound(),
        ensures
            r == self@.delays.len(),
    {
        self.delays.len() as u16
    }

    /// Leaves out the pings that are left.
    pub fn give_up(&mut self)
        requires
            old(self)@.sound(),
        ensures
            final(self)@ == old(self)@.given_up(),
            final(self)@.sound(),
    {
        if let LoopAction::Ping = self.action {
            self.left = 0;
            self.action = LoopAction::Done;
        }
    }

    /// The outcome of the series, given the average of its delays: an average is there only if a
    /// ping was answered.
    pub fn outcome(&self, average: Single) -> (r: (Option<Single>, u16))
        requires
            self@.sound(),
        ensures
            r.0 == (if self@.delays.len() > 0 {
                Some(average)
            } else {
                None
            }),
            r.1 == self@.delays.len(),
    {
        let recv = self.received();
        (
            if recv > 0 {
                Some(average)
            } else {
                None
            },
            recv,
        )
    }

    /// The result of the series, given the average of its delays and the data center, if that is
    /// known.
    pub fn conclude(
        &self,
        addr: SocketAddr,
        average: Single,
        data_center: Option<String>,
    ) -> (r: Option<PingData>)
        requires
            self@.sound(),
        ensures
            crate::common::opt_ping(r) == self@.result(
                addr@,
                average,
                crate::common::opt_text(data_center),
            ),
    {
        let (avg_delay, recv) = self.outcome(average);
        build_ping_data_result(
            addr,
            self.times,
            recv,
            avg_delay.unwrap_or(Single::zero()),
            data_center,
        )
    }
}

} // verus!
