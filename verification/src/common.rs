//! What all ping modes share: results, filters and the state of a latency test.
use crate::addr::{SocketAddr, SocketAddrView};
use crate::args::Args;
use crate::outside::{header_bytes, header_text};
use crate::progress::{join_numbers, Bar, BarUpdate};
use crate::single::Single;
use crate::text::{eq_ignore_ascii_case, split, tail_after, to_decimal, trim};
use std::sync::atomic::{AtomicBool, AtomicUsize, Ordering};
use std::sync::Arc;
use vstd::prelude::*;
use vstd::string::*;

verus! {

/// The outcome of testing one address.
#[derive(Debug)]
pub struct PingData {
    pub addr: SocketAddr,
    pub sent: u16,
    pub received: u16,
    /// The average delay in milliseconds.
    pub delay: Single,
    /// The download speed in bytes per second, once it was measured.
    pub download_speed: Option<Single>,
    /// The code of the data center; empty where it is not known.
    pub data_center: String,
}

/// What [`PingData`] holds.
pub struct PingView {
    pub addr: SocketAddrView,
    pub sent: u16,
    pub received: u16,
    pub delay: Single,
    pub download_speed: Option<Single>,
    pub data_center: Seq<char>,
}

impl View for PingData {
    type V = PingView;

    open spec fn view(&self) -> PingView {
        PingView {
            addr: self.addr@,
            sent: self.sent,
            received: self.received,
            delay: self.delay,
            download_speed: self.download_speed,
            data_center: self.data_center@,
        }
    }
}

/// A loss rate, before it is worked out.
#[derive(Clone, Copy, Debug, PartialEq, Eq, Structural)]
pub enum LossRate {
    Zero,
    /// One minus `received / sent`; `sent` is not zero.
    OneMinus { received: u16, sent: u16 },
}

impl Clone for PingData {
    fn clone(&self) -> (r: Self)
        ensures
            r@ == self@,
    {
        PingData {
            addr: self.addr.clone(),
            sent: self.sent,
            received: self.received,
            delay: self.delay,
            download_speed: self.download_speed,
            data_center: self.data_center.clone(),
        }
    }
}

impl PingView {
    /// A result before its download speed and data center are known.
    pub open spec fn fresh(addr: SocketAddrView, sent: u16, received: u16, delay: Single) -> PingView {
        PingView {
            addr,
            sent,
            received,
            delay,
            download_speed: None,
            data_center: Seq::empty(),
        }
    }

    /// The address as it is shown, with its port if that is wanted.
    pub open spec fn shown_addr(self, show_port: bool) -> Seq<char> {
        if show_port {
            self.addr.text()
        } else {
            self.addr.ip
        }
    }

    /// The share of the pings that stayed unanswered; nothing is lost where nothing was sent.
    pub open spec fn loss_rate(self) -> LossRate {
        if self.sent == 0 {
            LossRate::Zero
        } else {
            LossRate::OneMinus { received: self.received, sent: self.sent }
        }
    }
}

impl PingData {
    /// A result without a download speed and a data center.
    pub fn new(addr: SocketAddr, sent: u16, received: u16, delay: Single) -> (r: Self)
        ensures
            r@ == PingView::fresh(addr@, sent, received, delay),
    {
        PingData {
            addr,
            sent,
            received,
            delay,
            download_speed: None,
            data_center: String::new(),
        }
    }

    /// The share of the pings that stayed unanswered.
    pub fn loss_rate(&self) -> (r: LossRate)
        ensures
            r == self@.loss_rate(),
    {
        if self.sent == 0 {
            return LossRate::Zero;
        }
        LossRate::OneMinus { received: self.received, sent: self.sent }
    }

    /// Writes the address, with its port if that is wanted.
    pub fn display_addr(&self, show_port: bool) -> (r: String)
        ensures
            r@ == self@.shown_addr(show_port),
            r@ == (if show_port {
                self@.addr.text()
            } else {
                self@.addr.ip
            }),
    {
        if show_port {
            self.addr.to_text()
        } else {
            self.addr.ip.clone()
        }
    }
}

/// The line that announces a latency test.
pub open spec fn speed_test_info(mode: Seq<char>, args: Args, loss: Seq<char>) -> Seq<char> {
    "开始延迟测速（模式："@ + mode + ", 端口："@ + crate::text::decimal(args.tcp_port as nat)
        + ", 范围："@ + crate::text::decimal(args.min_delay.millis as nat) + " ~ "@
        + crate::text::decimal(args.max_delay.millis as nat) + " ms, 丢包："@ + loss + ")"@
}

/// Announces a latency test; `loss` is the greatest loss rate that is kept, as it is shown.
pub fn print_speed_test_info(mode: &str, args: &Args, loss: &str) -> (r: String)
    ensures
        r@ == speed_test_info(mode@, *args, loss@),
{
    "开始延迟测速（模式：".to_owned().concat(mode).concat(", 端口：").concat(
        to_decimal(args.tcp_port as u128).as_str(),
    ).concat(", 范围：").concat(to_decimal(args.min_delay.millis).as_str()).concat(" ~ ").concat(
        to_decimal(args.max_delay.millis).as_str(),
    ).concat(" ms, 丢包：").concat(loss).concat(")")
}

/// What every task of a latency test starts from. A clone shares the counters and the signal.
pub struct BasePing {
    /// How many addresses there are to test.
    pub total_ips: usize,
    pub bar: Arc<Bar>,
    pub args: Arc<Args>,
    /// How many good addresses were found.
    pub success_count: Arc<AtomicUsize>,
    /// Raised when the whole test has to stop.
    pub timeout_flag: Arc<AtomicBool>,
    /// How many addresses were tested.
    pub tested_count: Arc<AtomicUsize>,
}

impl BasePing {
    /// Puts the parts together.
    pub fn new(
        total_ips: usize,
        bar: Arc<Bar>,
        args: Arc<Args>,
        success_count: Arc<AtomicUsize>,
        timeout_flag: Arc<AtomicBool>,
        tested_count: Arc<AtomicUsize>,
    ) -> (r: Self)
        ensures
            r == (BasePing { total_ips, bar, args, success_count, timeout_flag, tested_count }),
    {
        BasePing { total_ips, bar, args, success_count, timeout_flag, tested_count }
    }
}

impl Clone for BasePing {
    fn clone(&self) -> (r: Self)
        ensures
            r == *self,
    {
        BasePing {
            total_ips: self.total_ips,
            bar: self.bar.clone(),
            args: self.args.clone(),
            success_count: self.success_count.clone(),
            timeout_flag: self.timeout_flag.clone(),
            tested_count: self.tested_count.clone(),
        }
    }
}

/// A latency test in one of the ping modes.
pub struct Ping<T> {
    pub base: BasePing,
    pub factory_data: T,
}

impl<T> Ping<T> {
    /// Puts the parts together.
    pub fn new(base: BasePing, factory_data: T) -> (r: Self)
        ensures
            r == (Ping { base, factory_data }),
    {
        Ping { base, factory_data }
    }
}

/// What a latency test of `total` addresses starts from.
pub open spec fn is_fresh(
    base: BasePing,
    args: Arc<Args>,
    total: usize,
    timeout_flag: Arc<AtomicBool>,
) -> bool {
    &&& base.total_ips == total
    &&& base.bar.total == total
    &&& base.bar.prefix@ == "可用:"@
    &&& base.bar.suffix@ == ""@
    &&& base.args == args
    &&& base.timeout_flag == timeout_flag
}

/// Prepares a latency test of `total_expected` addresses. Its counters are made with zero in them;
/// as they can change at any time, nothing is stated of what they hold.
pub fn create_base_ping(
    args: Arc<Args>,
    total_expected: usize,
    timeout_flag: Arc<AtomicBool>,
) -> (r: BasePing)
    ensures
        is_fresh(r, args, total_expected, timeout_flag),
{
    let bar = Bar { total: total_expected, prefix: "可用:".to_owned(), suffix: "".to_owned() };
    BasePing::new(
        total_expected,
        Arc::new(bar),
        args,
        Arc::new(AtomicUsize::new(0)),
        timeout_flag,
        Arc::new(AtomicUsize::new(0)),
    )
}

/// The data center that the bytes of a `cf-ray` header name: what follows their last hyphen, if
/// they are text.
pub open spec fn data_center_named(ray: Seq<u8>) -> Option<Seq<char>> {
    if crate::outside::is_header_text(ray) {
        Some(crate::text::after_last(Seq::new(ray.len(), |i: int| ray[i] as char), '-'))
    } else {
        None
    }
}

/// The data center that some headers name.
pub open spec fn data_center_in(headers: Map<Seq<char>, Seq<u8>>) -> Option<Seq<char>> {
    if headers.contains_key("cf-ray"@) {
        data_center_named(headers["cf-ray"@])
    } else {
        None
    }
}

/// A text as its contents.
pub open spec fn opt_text(s: Option<String>) -> Option<Seq<char>> {
    match s {
        Some(t) => Some(t@),
        None => None,
    }
}

/// Reads the data center out of a `cf-ray` header.
pub fn data_center_of(ray: &[u8]) -> (r: Option<String>)
    ensures
        opt_text(r) == data_center_named(ray@),
{
    match header_text(ray) {
        None => None,
        Some(text) => Some(tail_after(text.as_str(), '-')),
    }
}

/// Reads the data center out of the headers of a response.
pub fn extract_data_center(headers: &http::HeaderMap<http::HeaderValue>) -> (r: Option<String>)
    ensures
        opt_text(r) == data_center_in(crate::outside::first_values(*headers)),
{
    proof {
        reveal_strlit("cf-ray");
    }
    match header_bytes(headers, "cf-ray") {
        None => None,
        Some(ray) => data_center_of(ray.as_slice()),
    }
}

/// The URI of a request that goes to one address: `scheme://address/path`.
pub open spec fn request_uri_text(
    scheme: Seq<char>,
    addr: SocketAddrView,
    path: Seq<char>,
) -> Seq<char> {
    scheme + "://"@ + addr.text() + path
}

/// Writes the URI of a request that goes to one address.
pub fn request_uri(scheme: &str, addr: &SocketAddr, path: &str) -> (r: String)
    ensures
        r@ == request_uri_text(scheme@, addr@, path@),
{
    scheme.to_owned().concat("://").concat(addr.to_text().as_str()).concat(path)
}

/// A result is built only of an average delay above zero.
pub open spec fn ping_result(
    addr: SocketAddrView,
    sent: u16,
    received: u16,
    avg_delay: Single,
    data_center: Option<Seq<char>>,
) -> Option<PingView> {
    if avg_delay.above(Single::zero()) {
        Some(
            PingView {
                data_center: match data_center {
                    Some(dc) => dc,
                    None => Seq::empty(),
                },
                ..PingView::fresh(addr, sent, received, avg_delay)
            },
        )
    } else {
        None
    }
}

/// A result as its contents.
pub open spec fn opt_ping(p: Option<PingData>) -> Option<PingView> {
    match p {
        Some(data) => Some(data@),
        None => None,
    }
}

/// Builds the result of testing one address.
pub fn build_ping_data_result(
    addr: SocketAddr,
    sent: u16,
    received: u16,
    avg_delay_ms: Single,
    data_center: Option<String>,
) -> (r: Option<PingData>)
    ensures
        opt_ping(r) == ping_result(addr@, sent, received, avg_delay_ms, opt_text(data_center)),
{
    if avg_delay_ms.gt(Single::zero()) {
        let mut data = PingData::new(addr, sent, received, avg_delay_ms);
        if let Some(dc) = data_center {
            data.data_center = dc;
        }
        Some(data)
    } else {
        None
    }
}

/// The filters that a list of data centers stands for: its parts between commas, without the
/// white space around them and without empty ones.
pub open spec fn colo_filters(list: Seq<char>) -> Seq<Seq<char>> {
    crate::text::pieces(list, ',').map_values(|p: Seq<char>| crate::text::trimmed(p)).filter(
        |p: Seq<char>| p.len() > 0,
    )
}

/// Reads a list of data centers.
pub fn parse_colo_filters(colo_filter: &str) -> (r: Vec<String>)
    ensures
        crate::text::texts(r@) == colo_filters(colo_filter@),
{
    let parts = split(colo_filter, ',');
    let ghost all = crate::text::pieces(colo_filter@, ',').map_values(
        |p: Seq<char>| crate::text::trimmed(p),
    );
    let ghost keep = |p: Seq<char>| p.len() > 0;
    let mut r: Vec<String> = Vec::new();
    let mut i: usize = 0;
    proof {
        reveal(Seq::filter);
        assert(all.take(0).filter(keep) == crate::text::texts(r@));
    }
    while i < parts.len()
        invariant
            i <= parts.len(),
            parts.len() == all.len(),
            all == crate::text::texts(parts@).map_values(|p: Seq<char>| crate::text::trimmed(p)),
            keep == (|p: Seq<char>| p.len() > 0),
            crate::text::texts(r@) == all.take(i as int).filter(keep),
        decreases parts.len() - i,
    {
        let part = trim(parts[i].as_str());
        assert(crate::text::texts(parts@)[i as int] == parts@[i as int]@);
        assert(part@ == all[i as int]);
        proof {
            reveal(Seq::filter);
            assert(all.take(i + 1).drop_last() == all.take(i as int));
        }
        let ghost before = r@;
        if !part.as_str().is_empty() {
            r.push(part);
            assert(crate::text::texts(r@) == crate::text::texts(before).push(part@));
        }
        i = i + 1;
    }
    assert(all.take(i as int) == all);
    r
}

/// Whether a data center is wanted: it is known, and one of the filters names it, in whatever
/// case; without filters every known one is wanted.
pub open spec fn colo_matched(data_center: Seq<char>, filters: Seq<Seq<char>>) -> bool {
    &&& data_center.len() > 0
    &&& filters.len() == 0 || exists|i: int|
        0 <= i < filters.len() && crate::text::same_ignoring_case(
            #[trigger] filters[i],
            data_center,
        )
}

/// Checks a data center against the filters.
pub fn is_colo_matched(data_center: &str, colo_filters: &[String]) -> (r: bool)
    ensures
        r == colo_matched(data_center@, crate::text::texts(colo_filters@)),
{
    if data_center.is_empty() {
        return false;
    }
    if colo_filters.len() == 0 {
        return true;
    }
    let ghost filters = crate::text::texts(colo_filters@);
    let mut i: usize = 0;
    while i < colo_filters.len()
        invariant
            i <= colo_filters.len(),
            data_center@.len() > 0,
            filters == crate::text::texts(colo_filters@),
            forall|j: int|
                0 <= j < i ==> !crate::text::same_ignoring_case(#[trigger] filters[j], data_center@),
        decreases colo_filters.len() - i,
    {
        assert(filters[i as int] == colo_filters@[i as int]@);
        if eq_ignore_ascii_case(colo_filters[i].as_str(), data_center) {
            return true;
        }
        i = i + 1;
    }
    false
}

/// A filter as it comes out of a list: not empty, without a comma, and without white space around
/// it.
pub open spec fn is_filter(f: Seq<char>) -> bool {
    &&& f.len() > 0
    &&& !f.contains(',')
    &&& crate::text::is_trimmed(f)
}

/// Every filter that is read out of a list is not empty, holds no comma, and has no white space
/// around it.
pub proof fn filters_are_well_formed(list: Seq<char>, i: int)
    requires
        0 <= i < colo_filters(list).len(),
    ensures
        is_filter(colo_filters(list)[i]),
{
    let parts = crate::text::pieces(list, ',');
    let all = parts.map_values(|p: Seq<char>| crate::text::trimmed(p));
    let keep = |p: Seq<char>| p.len() > 0;
    all.lemma_filter_pred(keep, i);
    kept_items_come_from_the_list(all, keep, i);
    let k = choose|k: int| 0 <= k < all.len() && all[k] == colo_filters(list)[i];
    crate::text::pieces_make_up_the_text(list, ',');
    crate::text::trimming_removes_the_white_space_around(parts[k]);
    let (a, b): (int, int) = choose|a: int, b: int|
        0 <= a <= b <= parts[k].len() && crate::text::trimmed(parts[k])
            == #[trigger] parts[k].subrange(a, b);
    assert(!parts[k].contains(','));
    assert forall|m: int| 0 <= m < all[k].len() implies all[k][m] != ',' by {
        assert(parts[k][a + m] == all[k][m]);
    }
}

proof fn kept_items_come_from_the_list(
    s: Seq<Seq<char>>,
    keep: spec_fn(Seq<char>) -> bool,
    i: int,
)
    requires
        0 <= i < s.filter(keep).len(),
    ensures
        exists|k: int| 0 <= k < s.len() && s[k] == s.filter(keep)[i],
    decreases s.len(),
{
    reveal(Seq::filter);
    let t = s.drop_last();
    if i < t.filter(keep).len() {
        kept_items_come_from_the_list(t, keep, i);
        let k = choose|k: int| 0 <= k < t.len() && t[k] == t.filter(keep)[i];
        assert(s[k] == s.filter(keep)[i]);
    } else {
        assert(s[s.len() - 1] == s.filter(keep)[i]);
    }
}

/// A list of filters that is written out with commas is read back as itself.
pub proof fn filters_are_read_back(filters: Seq<Seq<char>>)
    requires
        forall|i: int| 0 <= i < filters.len() ==> is_filter(#[trigger] filters[i]),
    ensures
        colo_filters(crate::text::join(filters, ',')) == filters,
{
    let list = crate::text::join(filters, ',');
    let all = crate::text::pieces(list, ',').map_values(|p: Seq<char>| crate::text::trimmed(p));
    let keep = |p: Seq<char>| p.len() > 0;
    if filters.len() == 0 {
        assert(all == seq![Seq::<char>::empty()]);
        assert(all.drop_last() == Seq::<Seq<char>>::empty());
        reveal_with_fuel(Seq::filter, 2);
    } else {
        crate::text::joined_texts_are_the_pieces(filters, ',');
        assert forall|i: int| 0 <= i < filters.len() implies all[i] == filters[i] by {
            crate::text::trimming_removes_the_white_space_around(filters[i]);
            assert(is_filter(filters[i]));
        }
        assert(all == filters);
        all_kept(filters, keep);
    }
}

proof fn all_kept(s: Seq<Seq<char>>, keep: spec_fn(Seq<char>) -> bool)
    requires
        forall|i: int| 0 <= i < s.len() ==> keep(#[trigger] s[i]),
    ensures
        s.filter(keep) == s,
    decreases s.len(),
{
    reveal(Seq::filter);
    if s.len() > 0 {
        assert forall|i: int| 0 <= i < s.len() - 1 implies keep(#[trigger] s.drop_last()[i]) by {
            assert(s[i] == s.drop_last()[i]);
        }
        all_kept(s.drop_last(), keep);
        assert(keep(s[s.len() - 1]));
    }
}

/// Whether a data center is wanted does not depend on the case of its letters.
pub proof fn case_of_a_data_center_does_not_matter(
    a: Seq<char>,
    b: Seq<char>,
    filters: Seq<Seq<char>>,
)
    requires
        crate::text::same_ignoring_case(a, b),
    ensures
        colo_matched(a, filters) == colo_matched(b, filters),
{
    assert forall|i: int| 0 <= i < filters.len() implies crate::text::same_ignoring_case(
        #[trigger] filters[i],
        a,
    ) == crate::text::same_ignoring_case(filters[i], b) by {
        assert forall|k: int| 0 <= k < a.len() implies crate::text::ascii_lower(#[trigger] b[k])
            == crate::text::ascii_lower(a[k]) by {
            assert(crate::text::ascii_lower(a[k]) == crate::text::ascii_lower(b[k]));
        }
    }
}

/// Whether a result is kept: its loss rate is not above the limit and its delay is within the
/// bounds.
pub open spec fn kept(data: PingView, loss_rate: Single, args: Args) -> bool {
    &&& args.max_loss_rate.at_least(loss_rate)
    &&& data.delay.at_least(args.min_delay.number)
    &&& args.max_delay.number.at_least(data.delay)
}

/// Decides whether a result with this loss rate is kept.
pub fn should_keep_result(data: &PingData, loss_rate: Single, args: &Args) -> (r: bool)
    ensures
        r == kept(data@, loss_rate, *args),
{
    loss_rate.le(args.max_loss_rate) && data.delay.ge(args.min_delay.number) && data.delay.le(
        args.max_delay.number,
    )
}

/// Reads the signal to stop. It can be raised at any time, so nothing is known of the answer.
pub fn check_timeout_signal(timeout_flag: &AtomicBool) -> bool {
    timeout_flag.load(Ordering::SeqCst)
}

/// What the bar of a latency test shows next.
pub fn update_progress_bar(current_tested: usize, success_count: usize, total_ips: usize) -> (r:
    BarUpdate)
    ensures
        r@ == crate::progress::latency_update(current_tested, success_count, total_ips),
{
    BarUpdate {
        position: current_tested,
        message: join_numbers(current_tested, "/", total_ips),
        suffix: to_decimal(success_count as u128),
    }
}

/// A result is kept exactly if its loss rate, as a number, is at most the limit and its delay, as
/// a number, is at least the lower and at most the upper bound. What is no number is within no
/// bounds.
pub proof fn kept_results_are_within_the_bounds(data: PingView, loss_rate: Single, args: Args)
    ensures
        kept(data, loss_rate, args) ==> loss_rate.number() <= args.max_loss_rate.number(),
        kept(data, loss_rate, args) ==> args.min_delay.number.number() <= data.delay.number()
            <= args.max_delay.number.number(),
        kept(data, loss_rate, args) ==> !loss_rate.is_nan() && !data.delay.is_nan()
            && !args.max_loss_rate.is_nan() && !args.min_delay.number.is_nan()
            && !args.max_delay.number.is_nan(),
        !loss_rate.is_nan() && !data.delay.is_nan() && !args.max_loss_rate.is_nan()
            && !args.min_delay.number.is_nan() && !args.max_delay.number.is_nan()
            && loss_rate.number() <= args.max_loss_rate.number()
            && args.min_delay.number.number() <= data.delay.number()
            <= args.max_delay.number.number() ==> kept(data, loss_rate, args),
{
}

/// Only the delay, the loss rate and the bounds on them decide whether a result is kept.
pub proof fn keeping_goes_by_loss_and_delay(
    a: PingView,
    b: PingView,
    loss_rate: Single,
    args: Args,
    others: Args,
)
    requires
        a.delay == b.delay,
        args.max_loss_rate == others.max_loss_rate,
        args.min_delay == others.min_delay,
        args.max_delay == others.max_delay,
    ensures
        kept(a, loss_rate, args) == kept(b, loss_rate, others),
{
}

/// A result holds what was measured: the address, the numbers of pings and of answers, the
/// average delay, and the data center, or an empty one where none is known. There is one exactly
/// if the average delay is a number above zero, and it has no download speed yet.
pub proof fn results_hold_what_was_measured(
    addr: SocketAddrView,
    sent: u16,
    received: u16,
    avg_delay: Single,
    data_center: Option<Seq<char>>,
)
    ensures
        ({
            let r = ping_result(addr, sent, received, avg_delay, data_center);
            &&& r is Some <==> !avg_delay.is_nan() && avg_delay.number() > 0
            &&& r matches Some(data) ==> {
                &&& data.addr == addr
                &&& data.sent == sent
                &&& data.received == received
                &&& data.delay == avg_delay
                &&& data.download_speed is None
                &&& data_center matches Some(dc) ==> data.data_center == dc
                &&& data_center is None ==> data.data_center.len() == 0
            }
        }),
{
    crate::single::comparing_goes_by_the_numbers(avg_delay, Single::zero());
}

/// Without its port an address is shown as its IP address alone, and with it as one that ends with
/// a colon and the port.
pub proof fn ports_are_shown_where_they_are_wanted(data: PingView)
    ensures
        ({
            let port = crate::text::decimal(data.addr.port as nat);
            let with_port = data.shown_addr(true);
            &&& data.shown_addr(false) == data.addr.ip
            &&& with_port.len() > port.len() && with_port.skip(with_port.len() - port.len())
                == port
            &&& with_port[with_port.len() - port.len() - 1] == ':'
            &&& data.addr.family == crate::addr::Family::V4 ==> with_port.take(
                with_port.len() - port.len() - 1,
            ) == data.addr.ip
            &&& with_port == data.addr.text()
        }),
{
    crate::addr::address_texts_hold_their_parts(data.addr);
}

/// The loss rate goes by the numbers of pings and answers alone; nothing is lost where nothing was
/// sent.
pub proof fn loss_rates_are_of_the_pings(data: PingView)
    ensures
        data.loss_rate() == LossRate::Zero <==> data.sent == 0,
        data.loss_rate() matches LossRate::OneMinus { received, sent } ==> sent > 0 && received
            == data.received && sent == data.sent,
{
}

/// Bytes as characters.
pub open spec fn as_chars(bytes: Seq<u8>) -> Seq<char> {
    Seq::new(bytes.len(), |i: int| bytes[i] as char)
}

/// The data center is what follows the last hyphen of the `cf-ray` header, or all of it where it
/// has no hyphen. A header with a byte that is neither visible ASCII nor a space nor a tab names
/// none, and so does a response without that header. No other header matters.
pub proof fn the_data_center_follows_the_last_hyphen(
    headers: Map<Seq<char>, Seq<u8>>,
    others: Map<Seq<char>, Seq<u8>>,
    front: Seq<u8>,
    code: Seq<u8>,
)
    requires
        !code.contains(45u8),
    ensures
        ({
            let ray = headers["cf-ray"@];
            let readable = forall|i: int|
                0 <= i < ray.len() ==> (32 <= #[trigger] ray[i] <= 126 || ray[i] == 9);
            &&& headers.contains_key("cf-ray"@) && readable && ray == front.push(45u8) + code
                ==> data_center_in(headers) == Some(as_chars(code))
            &&& headers.contains_key("cf-ray"@) && readable && ray == code ==> data_center_in(
                headers,
            ) == Some(as_chars(code))
            &&& headers.contains_key("cf-ray"@) && !readable ==> data_center_in(headers) is None
            &&& !headers.contains_key("cf-ray"@) ==> data_center_in(headers) is None
            &&& headers.contains_key("cf-ray"@) && others.contains_key("cf-ray"@)
                && others["cf-ray"@] == ray ==> data_center_in(others) == data_center_in(headers)
        }),
{
    let ray = headers["cf-ray"@];
    let tail = as_chars(code);
    assert(!tail.contains('-')) by {
        if tail.contains('-') {
            let k = choose|k: int| 0 <= k < tail.len() && tail[k] == '-';
            assert(code[k] as char == '-');
            assert(code.contains(code[k]));
        }
    }
    crate::text::tails_follow_the_last_separator(as_chars(front), tail, '-');
    if ray == front.push(45u8) + code {
        assert(as_chars(ray) == as_chars(front).push('-') + tail);
    }
    assert(as_chars(ray) == Seq::new(ray.len(), |i: int| ray[i] as char));
    if forall|i: int| 0 <= i < ray.len() ==> (32 <= #[trigger] ray[i] <= 126 || ray[i] == 9) {
        assert(crate::outside::is_header_text(ray));
    } else {
        let i = choose|i: int|
            0 <= i < ray.len() && !(32 <= #[trigger] ray[i] <= 126 || ray[i] == 9);
        assert(!crate::outside::text_byte(ray[i]));
    }
}

/// The URI of a request is the scheme, a colon and two slashes, the address, and the path.
pub proof fn request_uris_hold_their_parts(
    scheme: Seq<char>,
    addr: SocketAddrView,
    path: Seq<char>,
)
    ensures
        ({
            let uri = request_uri_text(scheme, addr, path);
            let n = scheme.len() as int;
            &&& uri.len() == n + 3 + addr.text().len() + path.len()
            &&& uri.take(n) == scheme
            &&& uri[n] == ':'
            &&& uri[n + 1] == '/'
            &&& uri[n + 2] == '/'
            &&& uri.subrange(n + 3, uri.len() - path.len()) == addr.text()
            &&& uri.skip(uri.len() - path.len()) == path
        }),
{
    reveal_strlit("://");
    let uri = request_uri_text(scheme, addr, path);
    let n = scheme.len() as int;
    assert(uri.take(n) == scheme);
    assert(uri.subrange(n + 3, uri.len() - path.len()) == addr.text());
    assert(uri.skip(uri.len() - path.len()) == path);
}

/// Each part of a list gives one filter, without the white space around it, after those of the
/// parts before it; a part of white space alone gives none.
pub proof fn each_part_of_a_list_is_a_filter(list: Seq<char>, part: Seq<char>)
    requires
        !part.contains(','),
    ensures
        ({
            let name = crate::text::trimmed(part);
            let longer = colo_filters(list.push(',') + part);
            &&& name.len() > 0 ==> longer == colo_filters(list).push(name)
            &&& name.len() == 0 ==> longer == colo_filters(list)
            &&& name.len() > 0 ==> colo_filters(part) == seq![name]
            &&& name.len() == 0 ==> colo_filters(part).len() == 0
        }),
{
    let name = crate::text::trimmed(part);
    let f = |p: Seq<char>| crate::text::trimmed(p);
    let keep = |p: Seq<char>| p.len() > 0;
    let parts = crate::text::pieces(list, ',');
    crate::text::pieces_of_two(list, part, ',');
    crate::text::pieces_of_text_without(part, ',');
    reveal(Seq::filter);
    assert(parts.push(part).map_values(f) == parts.map_values(f).push(name));
    assert(parts.map_values(f).push(name).drop_last() == parts.map_values(f));
    let one = seq![part].map_values(f);
    assert(one == seq![name]);
    assert(one.drop_last() == Seq::<Seq<char>>::empty());
    assert(one.drop_last().filter(keep) == Seq::<Seq<char>>::empty());
}

/// A data center has to be known. Then it is wanted without any filter, and by one filter exactly
/// if they are the same name but for case. Some filters and others want what either of them want.
pub proof fn filters_go_by_the_name(
    data_center: Seq<char>,
    name: Seq<char>,
    filters: Seq<Seq<char>>,
    others: Seq<Seq<char>>,
)
    ensures
        colo_matched(data_center, Seq::empty()) <==> data_center.len() > 0,
        colo_matched(data_center, seq![name]) <==> data_center.len() > 0
            && crate::text::same_ignoring_case(name, data_center),
        filters.len() > 0 && others.len() > 0 ==> (colo_matched(data_center, filters + others)
            <==> colo_matched(data_center, filters) || colo_matched(data_center, others)),
        data_center.len() == 0 ==> !colo_matched(data_center, filters),
{
    let both = filters + others;
    if filters.len() > 0 && others.len() > 0 {
        if colo_matched(data_center, filters) {
            let i = choose|i: int|
                0 <= i < filters.len() && crate::text::same_ignoring_case(
                    #[trigger] filters[i],
                    data_center,
                );
            assert(both[i] == filters[i]);
        }
        if colo_matched(data_center, others) {
            let i = choose|i: int|
                0 <= i < others.len() && crate::text::same_ignoring_case(
                    #[trigger] others[i],
                    data_center,
                );
            assert(both[filters.len() + i] == others[i]);
        }
        if colo_matched(data_center, both) {
            let i = choose|i: int|
                0 <= i < both.len() && crate::text::same_ignoring_case(
                    #[trigger] both[i],
                    data_center,
                );
            if i < filters.len() {
                assert(both[i] == filters[i]);
            } else {
                assert(both[i] == others[i - filters.len()]);
            }
        }
    }
    assert(seq![name][0] == name);
}

/// A base that was prepared holds what it was given, and a bar that is full once all addresses are
/// tested.
pub proof fn prepared_bases_hold_what_they_are_given(
    base: BasePing,
    args: Arc<Args>,
    total: usize,
    timeout_flag: Arc<AtomicBool>,
)
    requires
        is_fresh(base, args, total, timeout_flag),
    ensures
        base.total_ips == total,
        base.args == args,
        base.timeout_flag == timeout_flag,
        base.bar.total == total,
        base.bar.prefix@ == "可用:"@,
        base.bar.suffix@.len() == 0,
{
    reveal_strlit("");
}

/// The announcement of a latency test names the mode, the port, the bounds on the delay in
/// milliseconds and the greatest loss rate, in that order, each after its label.
pub proof fn announcements_name_the_settings(mode: Seq<char>, args: Args, loss: Seq<char>)
    ensures
        ({
            let line = speed_test_info(mode, args, loss);
            let port = crate::text::decimal(args.tcp_port as nat);
            let low = crate::text::decimal(args.min_delay.millis as nat);
            let high = crate::text::decimal(args.max_delay.millis as nat);
            let a = "开始延迟测速（模式："@.len() as int;
            let b = a + mode.len() + ", 端口："@.len();
            let c = b + port.len() + ", 范围："@.len();
            let d = c + low.len() + " ~ "@.len();
            let e = d + high.len() + " ms, 丢包："@.len();
            &&& line.len() == e + loss.len() + ")"@.len()
            &&& line.take(a) == "开始延迟测速（模式："@
            &&& line.subrange(a, a + mode.len()) == mode
            &&& line.subrange(a + mode.len(), b) == ", 端口："@
            &&& line.subrange(b, b + port.len()) == port
            &&& line.subrange(b + port.len(), c) == ", 范围："@
            &&& line.subrange(c, c + low.len()) == low
            &&& line.subrange(c + low.len(), d) == " ~ "@
            &&& line.subrange(d, d + high.len()) == high
            &&& line.subrange(d + high.len(), e) == " ms, 丢包："@
            &&& line.subrange(e, e + loss.len()) == loss
            &&& line.skip(e + loss.len()) == ")"@
        }),
{
}

} // verus!
