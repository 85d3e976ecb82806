//! Pinging by HTTP requests.
use crate::addr::{SocketAddr, SocketAddrView};
use crate::args::Args;
use crate::common::{
    create_base_ping, extract_data_center, is_colo_matched, parse_colo_filters,
    print_speed_test_info, request_uri, Ping, PingData, PingView,
};
use crate::outside::{parse_uri, UriParts};
use crate::ping_loop::{LoopAction, LoopEvent, LoopView, PingLoop};
use crate::single::Single;
use crate::text::{parse_u16, split, trim};
use std::sync::atomic::AtomicBool;
use std::sync::Arc;
use vstd::prelude::*;
use vstd::string::*;

verus! {

/// The wait after each answer, in milliseconds.
pub const WAIT_MS: u64 = 200;

/// How long the headers of a response are waited for, in milliseconds.
pub const REQUEST_TIMEOUT_MS: u64 = 1200;

/// How long a connection is waited for, in milliseconds.
pub const CONNECT_TIMEOUT_MS: u64 = 1800;

/// The numbers among some texts, in order, without the white space around them.
pub open spec fn numbers_in(parts: Seq<Seq<char>>) -> Seq<u16>
    decreases parts.len(),
{
    if parts.len() == 0 {
        Seq::empty()
    } else {
        let before = numbers_in(parts.drop_last());
        match crate::text::u16_of(crate::text::trimmed(parts.last())) {
            Some(n) => before.push(n),
            None => before,
        }
    }
}

/// The status codes that a list asks for: its numbers between commas; `None`, and so all of them,
/// where the list is empty.
pub open spec fn codes_in(list: Seq<char>) -> Option<Seq<u16>> {
    if list.len() == 0 {
        None
    } else {
        Some(numbers_in(crate::text::pieces(list, ',')))
    }
}

/// A list of codes as its contents.
pub open spec fn opt_codes(codes: Option<Arc<Vec<u16>>>) -> Option<Seq<u16>> {
    match codes {
        Some(c) => Some(c@),
        None => None,
    }
}

/// Reads a list of status codes.
pub fn parse_codes(list: &str) -> (r: Option<Arc<Vec<u16>>>)
    ensures
        opt_codes(r) == codes_in(list@),
{
    if list.is_empty() {
        return None;
    }
    let parts = split(list, ',');
    let ghost all = crate::text::texts(parts@);
    let mut codes: Vec<u16> = Vec::new();
    let mut i: usize = 0;
    while i < parts.len()
        invariant
            i <= parts.len(),
            all == crate::text::texts(parts@),
            codes@ == numbers_in(all.take(i as int)),
        decreases parts.len() - i,
    {
        assert(all.take(i + 1).drop_last() == all.take(i as int));
        assert(all[i as int] == parts@[i as int]@);
        let part = trim(parts[i].as_str());
        if let Some(code) = parse_u16(part.as_str()) {
            codes.push(code);
        }
        i = i + 1;
    }
    assert(all.take(i as int) == all);
    Some(Arc::new(codes))
}

/// What the settings ask of an HTTP test.
pub struct HttpingPlan {
    pub colo_filters: Arc<Vec<String>>,
    pub scheme: String,
    pub path: String,
    pub allowed_codes: Option<Arc<Vec<u16>>>,
    pub host_header: String,
}

/// What an [`HttpingPlan`] holds.
pub struct PlanView {
    /// The data centers that are wanted; any, if there are none.
    pub filters: Seq<Seq<char>>,
    pub scheme: Seq<char>,
    pub path: Seq<char>,
    /// The status codes that are wanted; all, if there is no list.
    pub codes: Option<Seq<u16>>,
    pub host: Seq<char>,
}

impl View for HttpingPlan {
    type V = PlanView;

    open spec fn view(&self) -> PlanView {
        PlanView {
            filters: crate::text::texts(self.colo_filters@),
            scheme: self.scheme@,
            path: self.path@,
            codes: opt_codes(self.allowed_codes),
            host: self.host_header@,
        }
    }
}

/// The plan that follows from the settings and a URI with its host. There is one if an HTTP test
/// is asked for and the URI has a scheme.
pub open spec fn plan_for(
    args: Args,
    uri: Option<(Option<Seq<char>>, Seq<char>)>,
    host: Seq<char>,
) -> Option<PlanView> {
    match (args.httping, uri) {
        (Some(_), Some((Some(scheme), path))) => Some(
            PlanView {
                filters: crate::common::colo_filters(args.httping_cf_colo@),
                scheme,
                path,
                codes: codes_in(args.httping_code@),
                host,
            },
        ),
        _ => None,
    }
}

/// A plan as its contents.
pub open spec fn opt_plan(plan: Option<HttpingPlan>) -> Option<PlanView> {
    match plan {
        Some(p) => Some(p@),
        None => None,
    }
}

/// Makes the plan of an HTTP test of a URI with these parts.
pub fn prepare_parts(args: &Args, parts: Option<UriParts>, host_header: String) -> (r: Option<
    HttpingPlan,
>)
    ensures
        opt_plan(r) == plan_for(*args, crate::outside::parts_view(parts), host_header@),
{
    if args.httping.is_none() {
        return None;
    }
    match parts {
        Some(UriParts { scheme: Some(scheme), path }) => {
            let colo_filters = if !args.httping_cf_colo.as_str().is_empty() {
                parse_colo_filters(args.httping_cf_colo.as_str())
            } else {
                proof {
                    crate::common::filters_are_read_back(Seq::empty());
                    assert(args.httping_cf_colo@ == Seq::<char>::empty());
                }
                Vec::new()
            };
            assert(crate::text::texts(colo_filters@) == crate::common::colo_filters(
                args.httping_cf_colo@,
            ));
            let allowed_codes = parse_codes(args.httping_code.as_str());
            Some(
                HttpingPlan {
                    colo_filters: Arc::new(colo_filters),
                    scheme,
                    path,
                    allowed_codes,
                    host_header,
                },
            )
        },
        _ => None,
    }
}

/// Makes the plan of an HTTP test of `uri`, whose host is `host_header`; without a URI there is
/// none.
pub fn prepare(args: &Args, uri: Option<(&str, String)>) -> (r: Option<HttpingPlan>)
    ensures
        opt_plan(r) == (match uri {
            Some((text, host)) => plan_for(*args, crate::outside::uri_of(text@), host@),
            None => None,
        }),
{
    match uri {
        Some((text, host)) => prepare_parts(args, parse_uri(text), host),
        None => None,
    }
}

/// What the tasks of an HTTP test share: the plan and the client.
pub struct HttpingFactoryData<C> {
    pub plan: Arc<HttpingPlan>,
    pub global_client: Arc<C>,
}

impl<C> Clone for HttpingFactoryData<C> {
    fn clone(&self) -> (r: Self)
        ensures
            r == *self,
    {
        HttpingFactoryData { plan: self.plan.clone(), global_client: self.global_client.clone() }
    }
}

/// Announces an HTTP test; `loss` is the greatest loss rate that is kept, as it is shown.
pub fn announcement(args: &Args, loss: &str) -> (r: String)
    ensures
        r@ == crate::common::speed_test_info("HTTPing"@, *args, loss@),
{
    print_speed_test_info("HTTPing", args, loss)
}

/// Prepares an HTTP test of `total_expected` addresses, if the client could be made.
pub fn new<C>(
    args: Arc<Args>,
    plan: HttpingPlan,
    total_expected: usize,
    timeout_flag: Arc<AtomicBool>,
    client: Option<C>,
) -> (r: Option<Ping<HttpingFactoryData<C>>>)
    ensures
        r is Some <==> client is Some,
        r matches Some(ping) ==> {
            &&& crate::common::is_fresh(ping.base, args, total_expected, timeout_flag)
            &&& *ping.factory_data.plan == plan
            &&& *ping.factory_data.global_client == client->0
        },
{
    let base = create_base_ping(args, total_expected, timeout_flag);
    match client {
        Some(c) => Some(
            Ping::new(
                base,
                HttpingFactoryData { plan: Arc::new(plan), global_client: Arc::new(c) },
            ),
        ),
        None => None,
    }
}

/// What is known of an address while it is tested.
pub struct TaskView {
    /// The URI that is requested.
    pub uri: Seq<char>,
    /// Only the wanted data centers are tested.
    pub restricted: bool,
    pub plan: PlanView,
    /// The address is still worth testing.
    pub should_continue: bool,
    /// The data center of the address, once it is known.
    pub data_center: Option<Seq<char>>,
}

/// An answer to a ping: its delay, and the data center it came from.
pub type Answer = Option<(Single, Seq<char>)>;

/// An answer as its contents.
pub open spec fn answer_view(answer: Option<(Single, String)>) -> Answer {
    match answer {
        Some((delay, dc)) => Some((delay, dc@)),
        None => None,
    }
}

impl TaskView {
    /// The test of an address that begins.
    pub open spec fn begin(plan: PlanView, args: Args, uri: Seq<char>) -> TaskView {
        TaskView {
            uri,
            restricted: args.httping_cf_colo@.len() > 0,
            plan,
            should_continue: true,
            data_center: None,
        }
    }

    /// A status code is wanted.
    pub open spec fn allows(self, status: u16) -> bool {
        match self.plan.codes {
            Some(codes) => codes.contains(status),
            None => true,
        }
    }

    /// The data center that a response names; `None` where the response does not count as an
    /// answer, for its status code or for want of a data center.
    pub open spec fn judged(self, status: u16, headers: Map<Seq<char>, Seq<u8>>) -> Option<
        Seq<char>,
    > {
        if self.allows(status) {
            crate::common::data_center_in(headers)
        } else {
            None
        }
    }

    /// A data center may be tested.
    pub open spec fn admits(self, data_center: Seq<char>) -> bool {
        !self.restricted || crate::common::colo_matched(data_center, self.plan.filters)
    }

    /// What an answer tells of the address. The first one decides: if its data center may not be
    /// tested, the test of the address ends, else the data center is noted. Nothing is noted once
    /// the test has ended.
    pub open spec fn settled(self, answer: Answer) -> TaskView {
        match (answer, self.data_center) {
            (Some((_, dc)), None) => if !self.should_continue {
                self
            } else if self.admits(dc) {
                TaskView { data_center: Some(dc), ..self }
            } else {
                TaskView { should_continue: false, ..self }
            },
            _ => self,
        }
    }

    /// The delay of an answer, if it counts; none does once the test has ended.
    pub open spec fn counted(self, answer: Answer) -> Option<Single> {
        match answer {
            Some((delay, dc)) => if self.should_continue && (self.data_center is Some || self.admits(
                dc,
            )) {
                Some(delay)
            } else {
                None
            },
            None => None,
        }
    }
}

/// What is known of an address while it is tested.
pub struct PingTask {
    uri: String,
    restricted: bool,
    plan: Arc<HttpingPlan>,
    should_continue: bool,
    local_data_center: Option<String>,
}

impl View for PingTask {
    type V = TaskView;

    closed spec fn view(&self) -> TaskView {
        TaskView {
            uri: self.uri@,
            restricted: self.restricted,
            plan: (*self.plan)@,
            should_continue: self.should_continue,
            data_center: crate::common::opt_text(self.local_data_center),
        }
    }
}

impl PingTask {
    /// Begins the test of the address that `uri` goes to.
    pub fn new(plan: Arc<HttpingPlan>, args: &Args, uri: String) -> (r: Self)
        ensures
            r@ == TaskView::begin((*plan)@, *args, uri@),
    {
        PingTask {
            uri,
            restricted: !args.httping_cf_colo.as_str().is_empty(),
            plan,
            should_continue: true,
            local_data_center: None,
        }
    }

    /// Whether a status code is wanted.
    pub fn allows(&self, status: u16) -> (r: bool)
        ensures
            r == self@.allows(status),
    {
        match &self.plan.allowed_codes {
            None => true,
            Some(codes) => {
                let mut i: usize = 0;
                while i < codes.len()
                    invariant
                        i <= codes.len(),
                        self@.plan.codes == Some(codes@),
                        forall|j: int| 0 <= j < i ==> codes@[j] != status,
                    decreases codes.len() - i,
                {
                    if codes[i] == status {
                        assert(codes@.contains(status));
                        return true;
                    }
                    i = i + 1;
                }
                false
            },
        }
    }

    /// The data center that a response names; `None` where the response does not count as an
    /// answer, for its status code or for want of a data center.
    pub fn judge(&self, status: u16, headers: &http::HeaderMap<http::HeaderValue>) -> (r: Option<
        String,
    >)
        ensures
            crate::common::opt_text(r) == self@.judged(
                status,
                crate::outside::first_values(*headers),
            ),
            crate::common::opt_text(r) == (if self@.allows(status) {
                crate::common::data_center_in(crate::outside::first_values(*headers))
            } else {
                None
            }),
    {
        if !self.allows(status) {
            return None;
        }
        extract_data_center(headers)
    }

    /// Takes note of an answer, or of none. Hands back its delay if it counts.
    pub fn settle(&mut self, answer: Option<(Single, String)>) -> (r: Option<Single>)
        ensures
            final(self)@ == old(self)@.settled(answer_view(answer)),
            r == old(self)@.counted(answer_view(answer)),
    {
        if !self.should_continue {
            return None;
        }
        match answer {
            Some((delay, dc)) => {
                if self.local_data_center.is_none() {
                    if self.restricted && !is_colo_matched(
                        dc.as_str(),
                        self.plan.colo_filters.as_slice(),
                    ) {
                        self.should_continue = false;
                        return None;
                    }
                    self.local_data_center = Some(dc);
                }
                Some(delay)
            },
            None => None,
        }
    }
}

/// The state of testing one address.
pub struct TestView {
    pub addr: SocketAddrView,
    pub task: TaskView,
    pub series: LoopView,
}

impl TestView {
    /// The test of an address that begins.
    pub open spec fn begin(
        plan: PlanView,
        args: Args,
        addr: SocketAddrView,
        uri: Seq<char>,
    ) -> TestView {
        TestView {
            addr,
            task: TaskView::begin(plan, args, uri),
            series: LoopView::start(args.ping_times, WAIT_MS),
        }
    }

    /// Nothing is requested once the address is not worth testing.
    pub open spec fn sound(self) -> bool {
        &&& self.series.sound()
        &&& !self.task.should_continue ==> self.series.action == LoopAction::Done
        &&& self.series.delays.len() > 0 ==> self.task.data_center is Some
    }

    /// A request was answered, or not. No more requests follow if the address turns out not to be
    /// worth testing.
    pub open spec fn answered(self, answer: Answer) -> TestView {
        let task = self.task.settled(answer);
        let series = self.series.step(LoopEvent::Replied { delay: self.task.counted(answer) });
        TestView {
            task,
            series: if task.should_continue {
                series
            } else {
                series.given_up()
            },
            ..self
        }
    }

    /// The wait after an answer is over.
    pub open spec fn slept(self) -> TestView {
        TestView { series: self.series.step(LoopEvent::Slept), ..self }
    }

    /// One ping, with the wait that may follow it; nothing once the test has ended.
    pub open spec fn round(self, answer: Answer) -> TestView {
        if self.series.action == LoopAction::Ping {
            let answered = self.answered(answer);
            if answered.series.action is Sleep {
                answered.slept()
            } else {
                answered
            }
        } else {
            self
        }
    }

    /// Some pings, one after the other.
    pub open spec fn rounds(self, answers: Seq<Answer>) -> TestView
        decreases answers.len(),
    {
        if answers.len() == 0 {
            self
        } else {
            self.rounds(answers.drop_last()).round(answers.last())
        }
    }

    /// The result of the test, given the average of the delays: none where the address turned out
    /// not to be worth testing.
    pub open spec fn result(self, average: Single) -> Option<PingView> {
        if self.task.should_continue {
            self.series.result(self.addr, average, self.task.data_center)
        } else {
            None
        }
    }
}

/// The data center of the first answer.
pub open spec fn first_data_center(answers: Seq<Answer>) -> Option<Seq<char>>
    decreases answers.len(),
{
    if answers.len() == 0 {
        None
    } else {
        match (first_data_center(answers.drop_last()), answers.last()) {
            (Some(dc), _) => Some(dc),
            (None, Some((_, dc))) => Some(dc),
            (None, None) => None,
        }
    }
}

/// The delays of the answers, in order.
pub open spec fn answer_delays(answers: Seq<Answer>) -> Seq<Single>
    decreases answers.len(),
{
    if answers.len() == 0 {
        Seq::empty()
    } else {
        match answers.last() {
            Some((delay, _)) => answer_delays(answers.drop_last()).push(delay),
            None => answer_delays(answers.drop_last()),
        }
    }
}

/// The first answer settles the data center of an address for all of its pings. If that may not
/// be tested, nothing more is requested and the address has no result; else every answer counts.
pub proof fn first_answer_decides(start: TestView, answers: Seq<Answer>)
    requires
        start.task.should_continue,
        start.task.data_center is None,
        start.series == LoopView::start(start.series.times, start.series.wait_ms),
        answers.len() <= start.series.times,
    ensures
        ({
            let state = start.rounds(answers);
            let going_on = if answers.len() < start.series.times {
                LoopAction::Ping
            } else {
                LoopAction::Done
            };
            &&& state.addr == start.addr
            &&& state.task.plan == start.task.plan
            &&& state.task.restricted == start.task.restricted
            &&& state.series.times == start.series.times
            &&& match first_data_center(answers) {
                None => {
                    &&& state.task == start.task
                    &&& state.series.delays.len() == 0
                    &&& state.series.action == going_on
                    &&& state.series.left == start.series.times - answers.len()
                },
                Some(dc) => if start.task.admits(dc) {
                    &&& state.task.should_continue
                    &&& state.task.data_center == Some(dc)
                    &&& state.series.delays == answer_delays(answers)
                    &&& state.series.action == going_on
                    &&& state.series.left == start.series.times - answers.len()
                } else {
                    &&& !state.task.should_continue
                    &&& state.series.action == LoopAction::Done
                    &&& forall|average: Single| #[trigger] state.result(average) is None
                },
            }
        }),
    decreases answers.len(),
{
    if answers.len() > 0 {
        first_answer_decides(start, answers.drop_last());
        no_answers_no_delays(answers.drop_last());
    }
}

proof fn no_answers_no_delays(answers: Seq<Answer>)
    ensures
        first_data_center(answers) is None ==> answer_delays(answers) == Seq::<Single>::empty(),
    decreases answers.len(),
{
    if answers.len() > 0 {
        no_answers_no_delays(answers.drop_last());
    }
}

/// Of a list of codes, the one at each place is accepted, and a status that differs from all of
/// them is not; without a list every status is.
pub proof fn the_codes_of_the_list_are_accepted(task: TaskView, codes: Seq<u16>, status: u16)
    ensures
        task.plan.codes is None ==> task.allows(status),
        task.plan.codes == Some(codes) ==> forall|i: int|
            0 <= i < codes.len() ==> task.allows(#[trigger] codes[i]),
        task.plan.codes == Some(codes) && (forall|i: int|
            0 <= i < codes.len() ==> #[trigger] codes[i] != status) ==> !task.allows(status),
{
}

/// A response counts as an answer, with the data center that its headers name, if its status is
/// the code at some place of the list, or if there is no list; else it does not count.
pub proof fn only_wanted_statuses_answer(
    task: TaskView,
    codes: Seq<u16>,
    status: u16,
    headers: Map<Seq<char>, Seq<u8>>,
)
    ensures
        task.plan.codes is None ==> task.judged(status, headers) == crate::common::data_center_in(
            headers,
        ),
        task.plan.codes == Some(codes) ==> forall|i: int|
            0 <= i < codes.len() ==> task.judged(#[trigger] codes[i], headers)
                == crate::common::data_center_in(headers),
        task.plan.codes == Some(codes) && (forall|i: int|
            0 <= i < codes.len() ==> #[trigger] codes[i] != status) ==> task.judged(
            status,
            headers,
        ) is None,
{
}

/// Each part of a list gives the code that it is the number of, after those of the parts before
/// it; the white space around it does not matter, and a part that is no number gives none. An
/// empty list is none at all.
pub proof fn each_part_of_a_list_is_a_code(list: Seq<char>, part: Seq<char>)
    requires
        !part.contains(','),
    ensures
        ({
            let code = crate::text::u16_of(crate::text::trimmed(part));
            let longer = codes_in(list.push(',') + part);
            &&& codes_in(Seq::empty()) is None
            &&& list.len() > 0 ==> codes_in(list) is Some
            &&& longer is Some
            &&& list.len() > 0 && code is Some ==> longer->0 == (codes_in(list)->0).push(code->0)
            &&& list.len() > 0 && code is None ==> longer->0 == codes_in(list)->0
            &&& list.len() == 0 && code is Some ==> longer->0 == seq![code->0]
            &&& list.len() == 0 && code is None ==> (longer->0).len() == 0
            &&& part.len() > 0 && code is Some ==> codes_in(part) == Some(seq![code->0])
            &&& part.len() > 0 && code is None ==> codes_in(part) is Some && (codes_in(
                part,
            )->0).len() == 0
        }),
{
    let empty = Seq::<char>::empty();
    crate::text::pieces_of_two(list, part, ',');
    crate::text::pieces_of_text_without(part, ',');
    let parts = crate::text::pieces(list, ',');
    assert(parts.push(part).drop_last() == parts);
    assert(seq![part].drop_last() == Seq::<Seq<char>>::empty());
    assert(numbers_in(Seq::<Seq<char>>::empty()) == Seq::<u16>::empty());
    assert(numbers_in(seq![part]) == (match crate::text::u16_of(crate::text::trimmed(part)) {
        Some(n) => seq![n],
        None => Seq::empty(),
    }));
    if list.len() == 0 {
        assert(list == empty);
        assert(parts == seq![empty]);
        assert(parts.drop_last() == Seq::<Seq<char>>::empty());
        assert(crate::text::trimmed(empty) == empty);
        assert(crate::text::u16_of(empty) is None);
        assert(numbers_in(parts) == Seq::<u16>::empty());
    }
}

/// There is a plan exactly if an HTTP test is asked for and the URI has a scheme. It holds the
/// scheme and the path of the URI, the host, and the filters and codes of the settings.
pub proof fn plans_follow_the_settings(
    args: Args,
    uri: Option<(Option<Seq<char>>, Seq<char>)>,
    host: Seq<char>,
)
    ensures
        ({
            let plan = plan_for(args, uri, host);
            &&& plan is Some <==> args.httping is Some && uri is Some && (uri->0).0 is Some
            &&& plan matches Some(p) ==> {
                &&& (uri->0).0 == Some(p.scheme)
                &&& p.path == (uri->0).1
                &&& p.host == host
                &&& p.filters == crate::common::colo_filters(args.httping_cf_colo@)
                &&& p.codes == codes_in(args.httping_code@)
            }
        }),
{
}

/// An address begins as worth testing, with no data center. Every data center may be tested where
/// the settings name none, and else those that one of the filters names.
pub proof fn tasks_begin_undecided(
    plan: PlanView,
    args: Args,
    uri: Seq<char>,
    data_center: Seq<char>,
)
    ensures
        ({
            let task = TaskView::begin(plan, args, uri);
            &&& task.should_continue
            &&& task.data_center is None
            &&& task.uri == uri
            &&& task.plan == plan
            &&& task.admits(data_center) <==> args.httping_cf_colo@.len() == 0
                || crate::common::colo_matched(data_center, plan.filters)
        }),
{
}

/// While an address is worth testing and its data center is not known, an answer settles it: if
/// the data center may be tested it is noted and the delay counts, else the address is given up
/// and the delay does not count. Once it is known every delay counts. A ping without an answer,
/// or one after the address was given up, changes nothing and counts nothing.
pub proof fn an_answer_settles_the_data_center(task: TaskView, delay: Single, dc: Seq<char>)
    ensures
        ({
            let after = task.settled(Some((delay, dc)));
            let counted = task.counted(Some((delay, dc)));
            let may = !task.restricted || crate::common::colo_matched(dc, task.plan.filters);
            &&& task.settled(None) == task
            &&& task.counted(None) is None
            &&& after.uri == task.uri && after.plan == task.plan && after.restricted
                == task.restricted
            &&& !task.should_continue ==> after == task && counted is None
            &&& task.should_continue && task.data_center is Some ==> after == task && counted
                == Some(delay)
            &&& task.should_continue && task.data_center is None && may ==> after.should_continue
                && after.data_center == Some(dc) && counted == Some(delay)
            &&& task.should_continue && task.data_center is None && !may ==> !after.should_continue
                && after.data_center is None && counted is None
        }),
{
}

/// A test of an address begins with all of its pings left. Each answer that counts is followed by
/// a wait of a fifth of a second; one that gives the address up counts no delay.
pub proof fn http_pings_wait_after_an_answer(
    plan: PlanView,
    args: Args,
    addr: SocketAddrView,
    uri: Seq<char>,
    delay: Single,
    dc: Seq<char>,
)
    requires
        args.ping_times > 0,
    ensures
        ({
            let start = TestView::begin(plan, args, addr, uri);
            let after = start.answered(Some((delay, dc)));
            let may = args.httping_cf_colo@.len() == 0 || crate::common::colo_matched(
                dc,
                plan.filters,
            );
            &&& start.addr == addr && start.task.uri == uri
            &&& start.series.left == args.ping_times && start.series.action == LoopAction::Ping
            &&& may ==> after.series.action == (LoopAction::Sleep { millis: 200 })
                && after.series.delays == seq![delay]
            &&& !may ==> after.series.action == LoopAction::Done && after.series.delays.len() == 0
            &&& after.addr == addr
        }),
{
}

proof fn answers_before_the_first_are_none(answers: Seq<Answer>, k: int)
    requires
        0 <= k < answers.len(),
        answers[k] is Some,
        forall|i: int| 0 <= i < k ==> #[trigger] answers[i] is None,
    ensures
        first_data_center(answers) == Some((answers[k]->0).1),
    decreases answers.len(),
{
    let front = answers.drop_last();
    if k < front.len() {
        assert(front[k] == answers[k]);
        answers_before_the_first_are_none(front, k);
    } else {
        no_answer_no_data_center(front);
    }
}

proof fn no_answer_no_data_center(answers: Seq<Answer>)
    requires
        forall|i: int| 0 <= i < answers.len() ==> #[trigger] answers[i] is None,
    ensures
        first_data_center(answers) is None,
    decreases answers.len(),
{
    if answers.len() > 0 {
        assert(answers[answers.len() - 1] is None);
        no_answer_no_data_center(answers.drop_last());
    }
}

proof fn each_answer_has_a_delay(answers: Seq<Answer>)
    ensures
        answer_delays(answers).len() == answers.filter(|a: Answer| a is Some).len(),
    decreases answers.len(),
{
    reveal(Seq::filter);
    if answers.len() > 0 {
        each_answer_has_a_delay(answers.drop_last());
    }
}

/// The result of an HTTP test tells how many pings were to be sent and how many were answered, and
/// names the data center of the first answer. There is none without an answer, nor where that data
/// center may not be tested, in which case nothing more is requested.
pub proof fn http_results_tell_of_the_answers(
    plan: PlanView,
    args: Args,
    addr: SocketAddrView,
    uri: Seq<char>,
    answers: Seq<Answer>,
    k: int,
    average: Single,
)
    requires
        answers.len() <= args.ping_times,
        0 <= k <= answers.len(),
        forall|i: int| 0 <= i < k ==> #[trigger] answers[i] is None,
        k < answers.len() ==> answers[k] is Some,
    ensures
        ({
            let state = TestView::begin(plan, args, addr, uri).rounds(answers);
            let r = state.result(average);
            let dc = (answers[k]->0).1;
            let may = args.httping_cf_colo@.len() == 0 || crate::common::colo_matched(
                dc,
                plan.filters,
            );
            &&& k == answers.len() ==> r is None
            &&& k < answers.len() && !may ==> r is None && state.series.action == LoopAction::Done
            &&& k < answers.len() && may ==> {
                &&& r is Some <==> !average.is_nan() && average.number() > 0
                &&& r matches Some(data) ==> {
                    &&& data.addr == addr
                    &&& data.sent == args.ping_times
                    &&& data.received == answers.filter(|a: Answer| a is Some).len()
                    &&& data.delay == average
                    &&& data.data_center == dc
                    &&& data.download_speed is None
                }
            }
            &&& k == answers.len() || may ==> (state.series.action == LoopAction::Ping
                <==> answers.len() < args.ping_times)
        }),
{
    let start = TestView::begin(plan, args, addr, uri);
    let state = start.rounds(answers);
    first_answer_decides(start, answers);
    each_answer_has_a_delay(answers);
    if k < answers.len() {
        answers_before_the_first_are_none(answers, k);
        no_more_delays_than_answers(answers);
        crate::common::results_hold_what_was_measured(
            addr,
            args.ping_times,
            state.series.delays.len() as u16,
            average,
            Some((answers[k]->0).1),
        );
        some_answer_some_delay(answers, k);
    } else {
        no_answer_no_data_center(answers);
    }
}

proof fn no_more_delays_than_answers(answers: Seq<Answer>)
    ensures
        answer_delays(answers).len() <= answers.len(),
    decreases answers.len(),
{
    if answers.len() > 0 {
        no_more_delays_than_answers(answers.drop_last());
    }
}

proof fn some_answer_some_delay(answers: Seq<Answer>, k: int)
    requires
        0 <= k < answers.len(),
        answers[k] is Some,
    ensures
        answer_delays(answers).len() > 0,
    decreases answers.len(),
{
    if k < answers.len() - 1 {
        some_answer_some_delay(answers.drop_last(), k);
    }
}

/// The test of one address.
pub struct HttpingTest {
    addr: SocketAddr,
    task: PingTask,
    series: PingLoop,
}

impl View for HttpingTest {
    type V = TestView;

    closed spec fn view(&self) -> TestView {
        TestView { addr: self.addr@, task: self.task@, series: self.series@ }
    }
}

impl<C> HttpingFactoryData<C> {
    /// Begins the test of an address to which `uri` goes.
    pub fn test_with(&self, args: &Args, addr: SocketAddr, uri: String) -> (r: HttpingTest)
        ensures
            r@ == TestView::begin((*self.plan)@, *args, addr@, uri@),
            r@.sound(),
    {
        HttpingTest {
            addr,
            task: PingTask::new(self.plan.clone(), args, uri),
            series: PingLoop::new(args.ping_times, WAIT_MS),
        }
    }

    /// Begins the test of an address; `None` where no URI comes of it.
    pub fn test(&self, args: &Args, addr: SocketAddr) -> (r: Option<HttpingTest>)
        ensures
            ({
                let uri = crate::common::request_uri_text(
                    (*self.plan)@.scheme,
                    addr@,
                    (*self.plan)@.path,
                );
                &&& r is Some <==> crate::outside::uri_of(uri) is Some
                &&& r matches Some(test) ==> {
                    &&& test@ == TestView::begin((*self.plan)@, *args, addr@, uri)
                    &&& test@.sound()
                }
            }),
    {
        let uri = request_uri(self.plan.scheme.as_str(), &addr, self.plan.path.as_str());
        match parse_uri(uri.as_str()) {
            Some(_) => Some(self.test_with(args, addr, uri)),
            None => None,
        }
    }
}

impl HttpingTest {
    /// The URI that is requested.
    pub fn uri(&self) -> (r: &String)
        ensures
            r@ == self@.task.uri,
    {
        &self.task.uri
    }

    /// What has to be done next; to ping is to send a request.
    pub fn action(&self) -> (r: LoopAction)
        ensures
            r == self@.series.action,
    {
        self.series.action()
    }

    /// The data center that a response names; `None` where the response does not count as an
    /// answer.
    pub fn judge(&self, status: u16, headers: &http::HeaderMap<http::HeaderValue>) -> (r: Option<
        String,
    >)
        ensures
            crate::common::opt_text(r) == self@.task.judged(
                status,
                crate::outside::first_values(*headers),
            ),
            crate::common::opt_text(r) == (if self@.task.allows(status) {
                crate::common::data_center_in(crate::outside::first_values(*headers))
            } else {
                None
            }),
    {
        self.task.judge(status, headers)
    }

    /// Takes note of the answer to a request, or of none.
    pub fn answered(&mut self, answer: Option<(Single, String)>)
        requires
            old(self)@.series.action == LoopAction::Ping,
            old(self)@.sound(),
        ensures
            final(self)@ == old(self)@.answered(answer_view(answer)),
            final(self)@.sound(),
    {
        let delay = self.task.settle(answer);
        self.series.step(LoopEvent::Replied { delay });
        if !self.task.should_continue {
            self.series.give_up();
        }
    }

    /// Takes note of the end of a wait.
    pub fn slept(&mut self)
        requires
            old(self)@.sound(),
        ensures
            final(self)@ == old(self)@.slept(),
            final(self)@.sound(),
    {
        self.series.step(LoopEvent::Slept);
    }

    /// The delays of the answers that count.
    pub fn delays(&self) -> (r: &Vec<Single>)
        ensures
            r@ == self@.series.delays,
    {
        self.series.delays()
    }

    /// The result of the test, given the average of the delays.
    pub fn conclude(self, average: Single) -> (r: Option<PingData>)
        requires
            self@.sound(),
        ensures
            crate::common::opt_ping(r) == self@.result(average),
    {
        if !self.task.should_continue {
            return None;
        }
        self.series.conclude(self.addr, average, self.task.local_data_center)
    }
}

} // verus!
