//! Measuring the download speed of tested addresses, one after the other.
use crate::addr::SocketAddr;
use crate::args::Args;
use crate::common::{is_colo_matched, parse_colo_filters, PingData};
use crate::progress::{join_numbers, Bar, BarUpdate};
use crate::single::Single;
use crate::sort::sort_results;
use crate::text::to_decimal;
use std::collections::VecDeque;
use std::sync::Arc;
use vstd::prelude::*;
use vstd::string::*;

verus! {

/// What one download has to find out.
#[derive(Debug)]
pub struct DownloadJob {
    pub addr: SocketAddr,
    /// The data center is not known yet.
    pub need_colo: bool,
}

/// The outcome of a download: its speed in bytes per second, and the data center.
pub struct DownloadReply {
    pub speed: Option<Single>,
    pub colo: Option<String>,
}

/// The state of a download test.
pub struct TestView {
    pub args: Args,
    /// The data centers that are wanted; any, if there are none.
    pub filters: Seq<Seq<char>>,
    /// The results that are still to be tested.
    pub queue: Seq<PingData>,
    /// The result that is being tested.
    pub current: Option<PingData>,
    /// The results that met the demands, in the order in which they were tested.
    pub qualified: Seq<PingData>,
    pub tested: usize,
    /// Nothing more is to be tested.
    pub over: bool,
}

/// A result with the outcome of its download: the speed is noted, and the data center where it
/// was not known.
pub open spec fn with_reply(data: PingData, reply: DownloadReply) -> PingData {
    PingData {
        download_speed: reply.speed,
        data_center: match reply.colo {
            Some(colo) => if data.data_center@.len() == 0 {
                colo
            } else {
                data.data_center
            },
            None => data.data_center,
        },
        ..data
    }
}

/// A result meets the demands: it is fast enough, and its data center is wanted.
pub open spec fn qualifies(data: PingData, args: Args, filters: Seq<Seq<char>>) -> bool {
    &&& match data.download_speed {
        Some(speed) => speed.at_least(args.min_speed),
        None => false,
    }
    &&& filters.len() == 0 || crate::common::colo_matched(data.data_center@, filters)
}

/// What the download of a result has to find out: where it goes to, and whether the data center is
/// not known yet.
pub open spec fn job_of(data: PingData) -> (crate::addr::SocketAddrView, bool) {
    (data.addr@, data.data_center@.len() == 0)
}

/// A download goes to the address of its result, and has to find out the data center exactly if
/// the result has none.
pub proof fn downloads_go_to_the_result(data: PingData)
    ensures
        job_of(data).0.ip == data.addr.ip@,
        job_of(data).0.port == data.addr.port,
        job_of(data).0.family == data.addr.family,
        job_of(data).1 <==> data.data_center@.len() == 0,
{
}

impl TestView {
    /// There are fewer results to be tested than are asked for.
    pub open spec fn short_queue(self) -> bool {
        self.queue.len() < self.args.test_count
    }

    /// Fewer results met the demands than are asked for.
    pub open spec fn few_results(self) -> bool {
        self.qualified.len() < self.args.test_count
    }

    /// A test of these results that begins.
    pub open spec fn begin(args: Args, results: Seq<PingData>) -> TestView {
        TestView {
            args,
            filters: crate::common::colo_filters(args.httping_cf_colo@),
            queue: results,
            current: None,
            qualified: Seq::empty(),
            tested: 0,
            over: false,
        }
    }

    /// The next result is taken from the queue. The test is over if there is none, at the signal
    /// to stop, or once enough results met the demands; otherwise the result is tested. Nothing is
    /// taken once the test is over.
    pub open spec fn next(self, timed_out: bool) -> TestView {
        if self.over {
            self
        } else if self.queue.len() == 0 {
            TestView { over: true, ..self }
        } else {
            let taken = TestView { queue: self.queue.drop_first(), ..self };
            if timed_out || self.qualified.len() >= self.args.test_count {
                TestView { over: true, ..taken }
            } else {
                TestView { current: Some(self.queue[0]), ..taken }
            }
        }
    }

    /// The download of the current result ended; the result is kept if it meets the demands.
    pub open spec fn replied(self, reply: DownloadReply) -> TestView {
        let data = with_reply(self.current->0, reply);
        TestView {
            current: None,
            qualified: if qualifies(data, self.args, self.filters) {
                self.qualified.push(data)
            } else {
                self.qualified
            },
            tested: (self.tested + 1) as usize,
            ..self
        }
    }

    /// The results were handed out, and those that were not tested are given up: another test
    /// begins with nothing to be tested.
    pub open spec fn finished(self) -> TestView {
        TestView {
            queue: Seq::empty(),
            current: None,
            qualified: Seq::empty(),
            tested: 0,
            over: false,
            ..self
        }
    }

    /// The state after these downloads, without a signal to stop.
    pub open spec fn after(self, replies: Seq<DownloadReply>) -> TestView
        decreases replies.len(),
    {
        if replies.len() == 0 {
            self
        } else {
            self.after(replies.drop_last()).next(false).replied(replies.last())
        }
    }

    /// Each of these downloads takes place: the test is not over before it.
    pub open spec fn tests(self, replies: Seq<DownloadReply>) -> bool
        decreases replies.len(),
    {
        replies.len() == 0 || {
            &&& self.tests(replies.drop_last())
            &&& !self.after(replies.drop_last()).next(false).over
        }
    }
}

/// The results that meet the demands among `queue` with these downloads, in order.
pub open spec fn qualified_among(
    queue: Seq<PingData>,
    replies: Seq<DownloadReply>,
    args: Args,
    filters: Seq<Seq<char>>,
) -> Seq<PingData>
    decreases replies.len(),
{
    if replies.len() == 0 {
        Seq::empty()
    } else {
        let before = qualified_among(queue, replies.drop_last(), args, filters);
        let data = with_reply(queue[replies.len() - 1], replies.last());
        if qualifies(data, args, filters) {
            before.push(data)
        } else {
            before
        }
    }
}

/// The results are tested in the order of the queue, each of them once; those that meet the
/// demands are kept in that order, and never more than were asked for.
pub proof fn results_are_tested_in_order(start: TestView, replies: Seq<DownloadReply>)
    requires
        start.current is None,
        start.qualified.len() == 0,
        start.tested == 0,
        !start.over,
        start.queue.len() <= usize::MAX,
        start.tests(replies),
    ensures
        ({
            let state = start.after(replies);
            &&& replies.len() <= start.queue.len()
            &&& state.queue == start.queue.skip(replies.len() as int)
            &&& state.tested == replies.len()
            &&& state.qualified == qualified_among(
                start.queue,
                replies,
                start.args,
                start.filters,
            )
            &&& state.qualified.len() <= start.args.test_count
            &&& state.qualified.len() <= state.tested
            &&& state.current is None
            &&& !state.over
            &&& state.args == start.args
            &&& state.filters == start.filters
        }),
    decreases replies.len(),
{
    if replies.len() > 0 {
        results_are_tested_in_order(start, replies.drop_last());
    }
}

/// Every result that is kept is fast enough and in a data center that is wanted.
pub proof fn kept_results_meet_the_demands(
    queue: Seq<PingData>,
    replies: Seq<DownloadReply>,
    args: Args,
    filters: Seq<Seq<char>>,
    i: int,
)
    requires
        0 <= i < qualified_among(queue, replies, args, filters).len(),
    ensures
        qualifies(qualified_among(queue, replies, args, filters)[i], args, filters),
    decreases replies.len(),
{
    let before = qualified_among(queue, replies.drop_last(), args, filters);
    if i < before.len() {
        kept_results_meet_the_demands(queue, replies.drop_last(), args, filters, i);
    }
}

/// A test that has ended leaves nothing to be tested, not even the results that it did not get
/// to: another one is over at once, without a download and without a result.
pub proof fn a_second_test_is_empty(state: TestView, timed_out: bool)
    ensures
        ({
            let again = state.finished().next(timed_out);
            &&& state.finished().queue.len() == 0
            &&& again.over
            &&& again.current is None
            &&& again.qualified.len() == 0
            &&& again.tested == 0
        }),
{
}

/// A test that finds the signal to stop when it begins is over at once, without a download and
/// without a result, and leaves nothing to be tested.
pub proof fn a_test_that_is_stopped_at_once_is_empty(args: Args, results: Seq<PingData>)
    ensures
        ({
            let state = TestView::begin(args, results).next(true);
            &&& state.over
            &&& state.current is None
            &&& state.qualified.len() == 0
            &&& state.tested == 0
            &&& state.finished().queue.len() == 0
        }),
{
}

/// A download test begins with all results to be tested, none of them yet, and with the data
/// centers that the settings name.
pub proof fn download_tests_begin_with_all_results(args: Args, results: Seq<PingData>)
    ensures
        ({
            let state = TestView::begin(args, results);
            &&& state.queue == results
            &&& state.current is None
            &&& state.qualified.len() == 0
            &&& state.tested == 0
            &&& !state.over
            &&& state.args == args
            &&& state.filters == crate::common::colo_filters(args.httping_cf_colo@)
        }),
{
}

/// A download gives its result a speed, or none, and a data center where it had none and one was
/// found; all else of the result stays.
pub proof fn replies_are_noted(data: PingData, reply: DownloadReply)
    ensures
        ({
            let noted = with_reply(data, reply);
            &&& noted.download_speed == reply.speed
            &&& noted.addr == data.addr
            &&& noted.sent == data.sent && noted.received == data.received
            &&& noted.delay == data.delay
            &&& data.data_center@.len() > 0 ==> noted.data_center == data.data_center
            &&& data.data_center@.len() == 0 && reply.colo is Some ==> Some(noted.data_center)
                == reply.colo
            &&& reply.colo is None ==> noted.data_center == data.data_center
        }),
{
}

/// A result meets the demands exactly if it has a speed that, as a number, is at least the least
/// speed of the settings, and, where there are filters, a data center that one of them names. Its
/// speed has to do in any case, with filters or without, and so has its data center.
pub proof fn fast_results_in_wanted_data_centers_qualify(
    data: PingData,
    args: Args,
    filters: Seq<Seq<char>>,
)
    ensures
        qualifies(data, args, filters) ==> data.download_speed is Some,
        qualifies(data, args, filters) ==> !(data.download_speed->0).is_nan()
            && !args.min_speed.is_nan() && (data.download_speed->0).number()
            >= args.min_speed.number(),
        qualifies(data, args, filters) && filters.len() > 0 ==> crate::common::colo_matched(
            data.data_center@,
            filters,
        ),
        (data.download_speed matches Some(speed) && !speed.is_nan() && !args.min_speed.is_nan()
            && speed.number() >= args.min_speed.number()) && (filters.len() == 0
            || crate::common::colo_matched(data.data_center@, filters)) ==> qualifies(
            data,
            args,
            filters,
        ),
{
}

/// The next result of the queue is tested, unless the signal is raised, as many results as are
/// asked for met the demands, or there is none left; then the test is over.
pub proof fn a_test_is_over_only_for_a_reason(state: TestView, timed_out: bool)
    requires
        !state.over,
        state.current is None,
    ensures
        ({
            let after = state.next(timed_out);
            &&& after.over <==> state.queue.len() == 0 || timed_out || state.qualified.len()
                >= state.args.test_count
            &&& !after.over ==> after.current == Some(state.queue[0]) && after.queue
                == state.queue.drop_first()
            &&& after.over ==> after.current is None
            &&& after.qualified == state.qualified
            &&& after.tested == state.tested
            &&& after.args == state.args && after.filters == state.filters
        }),
{
}

/// The result of a download that ended is counted as tested. It joins those that meet the demands,
/// which stay as they are, exactly if its speed is a number that is at least the least speed, and
/// its data center, the one that was known or else the one that was found, is wanted.
pub proof fn each_download_is_judged(state: TestView, reply: DownloadReply)
    requires
        state.current is Some,
        state.tested < usize::MAX,
    ensures
        ({
            let after = state.replied(reply);
            let data = state.current->0;
            let dc = if data.data_center@.len() == 0 && reply.colo is Some {
                (reply.colo->0)@
            } else {
                data.data_center@
            };
            let fast = reply.speed matches Some(speed) && !speed.is_nan()
                && !state.args.min_speed.is_nan() && speed.number()
                >= state.args.min_speed.number();
            let wanted = state.filters.len() == 0 || crate::common::colo_matched(
                dc,
                state.filters,
            );
            &&& after.tested == state.tested + 1
            &&& after.current is None
            &&& after.queue == state.queue
            &&& !(fast && wanted) ==> after.qualified == state.qualified
            &&& fast && wanted ==> {
                &&& after.qualified.len() == state.qualified.len() + 1
                &&& after.qualified.drop_last() == state.qualified
                &&& after.qualified.last().addr == data.addr
                &&& after.qualified.last().delay == data.delay
                &&& after.qualified.last().sent == data.sent
                &&& after.qualified.last().received == data.received
                &&& after.qualified.last().download_speed == reply.speed
                &&& after.qualified.last().data_center@ == dc
            }
        }),
{
    let data = with_reply(state.current->0, reply);
    assert(state.qualified.push(data).drop_last() == state.qualified);
}

/// Every result that a test keeps is one of those it was given, with a speed that, as a number, is
/// at least the least speed of the settings, and, where there are filters, with a data center that
/// one of them names.
pub proof fn every_kept_result_is_fast_enough(
    args: Args,
    results: Seq<PingData>,
    replies: Seq<DownloadReply>,
    i: int,
)
    requires
        results.len() <= usize::MAX,
        TestView::begin(args, results).tests(replies),
        0 <= i < TestView::begin(args, results).after(replies).qualified.len(),
    ensures
        ({
            let data = TestView::begin(args, results).after(replies).qualified[i];
            let filters = crate::common::colo_filters(args.httping_cf_colo@);
            &&& data.download_speed matches Some(speed) && !speed.is_nan() && speed.number()
                >= args.min_speed.number()
            &&& filters.len() > 0 ==> crate::common::colo_matched(data.data_center@, filters)
            &&& exists|j: int|
                0 <= j < replies.len() && #[trigger] results[j].addr == data.addr
                    && replies[j].speed == data.download_speed
        }),
    decreases replies.len(),
{
    let start = TestView::begin(args, results);
    let front = replies.drop_last();
    let before = start.after(front);
    results_are_tested_in_order(start, replies);
    if replies.len() > 0 {
        results_are_tested_in_order(start, front);
        if i < before.qualified.len() {
            every_kept_result_is_fast_enough(args, results, front, i);
            let j = choose|j: int|
                0 <= j < front.len() && #[trigger] results[j].addr == before.qualified[i].addr
                    && front[j].speed == before.qualified[i].download_speed;
            assert(replies[j] == front[j]);
            assert(results[j].addr == before.qualified[i].addr);
        } else {
            let j = replies.len() - 1;
            assert(before.next(false).current == Some(results[j]));
            assert(results[j].addr == start.after(replies).qualified[i].addr);
        }
    }
}

/// A test that is over without a signal has found as many results as are asked for, or has tested
/// all that it was given.
pub proof fn a_test_goes_on_until_enough_are_found(
    args: Args,
    results: Seq<PingData>,
    replies: Seq<DownloadReply>,
)
    requires
        results.len() <= usize::MAX,
        TestView::begin(args, results).tests(replies),
    ensures
        ({
            let state = TestView::begin(args, results).after(replies);
            &&& state.next(false).over <==> state.qualified.len() == args.test_count
                || replies.len() == results.len()
            &&& state.qualified.len() <= args.test_count
            &&& state.tested == replies.len()
        }),
{
    results_are_tested_in_order(TestView::begin(args, results), replies);
}

/// A test that begins warns of fewer results than are asked for, and one that is over without a
/// signal warns of fewer results than are asked for only if it has tested all that it was given.
pub proof fn warnings_are_of_too_few_results(
    args: Args,
    results: Seq<PingData>,
    replies: Seq<DownloadReply>,
)
    requires
        results.len() <= usize::MAX,
        TestView::begin(args, results).tests(replies),
    ensures
        ({
            let state = TestView::begin(args, results).after(replies);
            &&& TestView::begin(args, results).short_queue() <==> results.len() < args.test_count
            &&& !state.few_results() <==> state.qualified.len() == args.test_count
            &&& state.next(false).over && state.few_results() ==> replies.len() == results.len()
        }),
{
    results_are_tested_in_order(TestView::begin(args, results), replies);
}

/// The lesser of two numbers is one of them, and neither is less.
pub proof fn the_lesser_is_one_of_the_two(a: int, b: int)
    ensures
        lesser(a, b) <= a,
        lesser(a, b) <= b,
        lesser(a, b) == a || lesser(a, b) == b,
{
}

/// The lesser of two numbers.
pub open spec fn lesser(a: int, b: int) -> int {
    if a <= b {
        a
    } else {
        b
    }
}

/// A test of the download speed of some results.
pub struct DownloadTest {
    args: Arc<Args>,
    colo_filters: Arc<Vec<String>>,
    queue: VecDeque<PingData>,
    current: Option<PingData>,
    qualified: Vec<PingData>,
    tested: usize,
    over: bool,
}

impl View for DownloadTest {
    type V = TestView;

    closed spec fn view(&self) -> TestView {
        TestView {
            args: *self.args,
            filters: crate::text::texts(self.colo_filters@),
            queue: self.queue@,
            current: self.current,
            qualified: self.qualified@,
            tested: self.tested,
            over: self.over,
        }
    }
}

impl DownloadTest {
    /// Begins a test of these results.
    pub fn new(args: Arc<Args>, ping_results: Vec<PingData>) -> (r: Self)
        ensures
            r@ == TestView::begin(*args, ping_results@),
    {
        let ghost all = ping_results@;
        let mut rest = ping_results;
        let mut queue: VecDeque<PingData> = VecDeque::new();
        while rest.len() > 0
            invariant
                rest@ + queue@ == all,
            decreases rest.len(),
        {
            if let Some(data) = rest.pop() {
                queue.push_front(data);
            }
        }
        assert(queue@ == all);
        let colo_filters = parse_colo_filters(args.httping_cf_colo.as_str());
        DownloadTest {
            args,
            colo_filters: Arc::new(colo_filters),
            queue,
            current: None,
            qualified: Vec::new(),
            tested: 0,
            over: false,
        }
    }

    /// The bar of a test that begins: it is full once as many results were tested as were asked
    /// for, or as there are.
    pub fn bar(&self) -> (r: Bar)
        ensures
            r.total == lesser(self@.args.test_count as int, self@.queue.len() as int),
            r.prefix@ == ""@,
            r.suffix@ == "MB/s"@,
    {
        let total = if self.args.test_count <= self.queue.len() {
            self.args.test_count
        } else {
            self.queue.len()
        };
        Bar { total, prefix: "".to_owned(), suffix: "MB/s".to_owned() }
    }

    /// The warning before a test of fewer results than are asked for.
    pub fn queue_warning(&self) -> (r: Option<&'static str>)
        ensures
            r is Some <==> self@.short_queue(),
            r is Some <==> self@.args.test_count > self@.queue.len(),
            r matches Some(text) ==> text@
                == "队列的 IP 数量不足，可能需要降低延迟测速筛选条件！"@,
    {
        if self.args.test_count > self.queue.len() {
            Some("队列的 IP 数量不足，可能需要降低延迟测速筛选条件！")
        } else {
            None
        }
    }

    /// The line that announces a test; `min_speed` is the least speed that is kept, as it is
    /// shown.
    pub fn announcement(&self, min_speed: &str) -> (r: String)
        ensures
            r@ == "开始下载测速（下限："@ + min_speed@ + " MB/s, 所需："@ + crate::text::decimal(
                self@.args.test_count as nat,
            ) + ", 队列："@ + crate::text::decimal(self@.queue.len()) + "）"@,
    {
        "开始下载测速（下限：".to_owned().concat(min_speed).concat(" MB/s, 所需：").concat(
            to_decimal(self.args.test_count as u128).as_str(),
        ).concat(", 队列：").concat(to_decimal(self.queue.len() as u128).as_str()).concat("）")
    }

    /// The data centers that are wanted.
    pub fn colo_filters(&self) -> (r: Arc<Vec<String>>)
        ensures
            crate::text::texts(r@) == self@.filters,
    {
        self.colo_filters.clone()
    }

    /// Whether nothing more is to be tested.
    pub fn is_over(&self) -> (r: bool)
        ensures
            r == self@.over,
    {
        self.over
    }

    /// The next download; `None` if the test is over.
    pub fn next(&mut self, timed_out: bool) -> (r: Option<DownloadJob>)
        requires
            old(self)@.current is None,
        ensures
            final(self)@ == old(self)@.next(timed_out),
            r is None <==> final(self)@.over,
            r matches Some(job) ==> {
                &&& (job.addr@, job.need_colo) == job_of(old(self)@.queue[0])
                &&& job.addr@ == old(self)@.queue[0].addr@
                &&& job.need_colo == (old(self)@.queue[0].data_center@.len() == 0)
            },
    {
        if self.over {
            return None;
        }
        match self.queue.pop_front() {
            None => {
                self.over = true;
                None
            },
            Some(data) => {
                assert(self.queue@ == old(self)@.queue.drop_first());
                if timed_out || self.qualified.len() >= self.args.test_count {
                    self.over = true;
                    return None;
                }
                let job = DownloadJob {
                    addr: data.addr.clone(),
                    need_colo: data.data_center.as_str().is_empty(),
                };
                self.current = Some(data);
                Some(job)
            },
        }
    }

    /// Takes note of a download that ended, and says what the progress bar shows then.
    pub fn replied(&mut self, reply: DownloadReply) -> (r: BarUpdate)
        requires
            old(self)@.current is Some,
            old(self)@.tested < usize::MAX,
        ensures
            final(self)@ == old(self)@.replied(reply),
            r@ == crate::progress::download_update(
                final(self)@.tested,
                final(self)@.qualified.len() as usize,
            ),
    {
        if let Some(mut data) = self.current.take() {
            data.download_speed = reply.speed;
            if data.data_center.as_str().is_empty() {
                if let Some(colo) = reply.colo {
                    data.data_center = colo;
                }
            }
            let speed_match = match reply.speed {
                Some(speed) => speed.ge(self.args.min_speed),
                None => false,
            };
            let colo_match = self.colo_filters.len() == 0 || is_colo_matched(
                data.data_center.as_str(),
                self.colo_filters.as_slice(),
            );
            if speed_match && colo_match {
                self.qualified.push(data);
            }
        }
        self.tested = self.tested + 1;
        BarUpdate {
            position: self.tested,
            message: join_numbers(self.qualified.len(), "|", self.tested),
            suffix: String::new(),
        }
    }

    /// Whether a download that ended can be taken note of.
    pub fn wants_reply(&self) -> (r: bool)
        ensures
            r == (self@.current is Some && self@.tested < usize::MAX),
    {
        self.current.is_some() && self.tested < usize::MAX
    }

    /// The results that met the demands so far.
    pub fn qualified(&self) -> (r: &Vec<PingData>)
        ensures
            r@ == self@.qualified,
    {
        &self.qualified
    }

    /// The warning after a test that found fewer results than were asked for.
    pub fn result_warning(&self) -> (r: Option<&'static str>)
        ensures
            r is Some <==> self@.few_results(),
            r is Some <==> self@.qualified.len() < self@.args.test_count,
            r matches Some(text) ==> text@ == "下载测速符合要求的 IP 数量不足！"@,
    {
        if self.qualified.len() < self.args.test_count {
            Some("下载测速符合要求的 IP 数量不足！")
        } else {
            None
        }
    }

    /// Ends the test: the results that met the demands, with the highest scores first. Those that
    /// were not tested are given up.
    pub fn finish(&mut self, scores: &[Single]) -> (r: Vec<PingData>)
        requires
            old(self)@.qualified.len() == scores@.len(),
        ensures
            crate::sort::sorted_by_score(old(self)@.qualified, scores@, r@),
            final(self)@ == old(self)@.finished(),
    {
        let mut qualified: Vec<PingData> = Vec::new();
        std::mem::swap(&mut self.qualified, &mut qualified);
        self.queue = VecDeque::new();
        self.current = None;
        self.tested = 0;
        self.over = false;
        sort_results(&mut qualified, scores);
        qualified
    }
}

} // verus!
