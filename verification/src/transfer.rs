//! One download whose speed is measured.
use crate::addr::{SocketAddr, SocketAddrView};
use crate::common::{extract_data_center, is_colo_matched, request_uri};
use crate::outside::{parse_uri, UriParts};
use crate::speed::{
    elapsed_between, DisplayUpdate, DownloadHandler, HandlerView, Piece, SpeedRatio,
};
use std::sync::Arc;
use vstd::prelude::*;
use vstd::string::*;

verus! {

/// How long the headers of a response are waited for, in milliseconds.
pub const TTFB_TIMEOUT_MS: u64 = 1200;

/// How long a download runs before its data is counted, in nanoseconds.
pub const WARM_UP_NANOS: u128 = 3_000_000_000;

/// The longest duration there is, in nanoseconds.
pub const MAX_DURATION_NANOS: u128 = 18_446_744_073_709_551_615_999_999_999;

/// How far a download has come.
#[derive(Clone, Copy, Debug, PartialEq, Eq, Structural)]
pub enum Stage {
    /// The response is waited for.
    Requesting,
    /// The body is read, since this time.
    Reading { start: u128 },
    /// Nothing more is to be read.
    Over,
}

/// What a response body yields next.
#[derive(Clone, Copy, Debug, PartialEq, Eq, Structural)]
pub enum Frame {
    /// So many bytes of data.
    Data { size: u64 },
    /// Something that is no data.
    Other,
    /// An error.
    Failed,
    /// The end of the body.
    End,
}

/// The readings of the clock that go with a piece of data, in the order in which they are taken.
#[derive(Clone, Copy, Debug, PartialEq, Eq, Structural)]
pub struct Readings {
    /// When the data is noted for the shown speed.
    pub sample: u128,
    /// When it is checked whether the shown speed is due for a change.
    pub check: u128,
    /// Where the interval ends over which the shown speed is taken.
    pub window: u128,
    /// When the shown speed is changed.
    pub update: u128,
    /// When the data is counted.
    pub count: u128,
}

impl Readings {
    /// A piece of data of this size, with the readings that the shown speed takes.
    pub open spec fn piece(self, size: u64) -> Piece {
        Piece {
            size,
            sample: self.sample,
            check: self.check,
            window: self.window,
            update: self.update,
        }
    }
}

/// The readings for a piece of data from the `n`-th on, of which the last one counts the data;
/// there are two less where the shown speed is not due for a change.
pub open spec fn readings_from(log: Seq<u128>, n: int) -> Readings {
    Readings {
        sample: log[n],
        check: log[n + 1],
        window: log[n + 2],
        update: log[n + 3],
        count: log.last(),
    }
}

/// How often the clock is read for the next piece of the body: not at all unless it is data, and
/// twice more where the shown speed is due for a change.
pub open spec fn readings_taken(handler: HandlerView, frame: Frame, at: Readings) -> nat {
    if frame is Data {
        if handler.due(at.check) {
            5
        } else {
            3
        }
    } else {
        0
    }
}

/// The state of a download. Times are nanoseconds since it began.
pub struct TransferView {
    /// How long the body is read at most.
    pub limit: u128,
    /// The data center has to be found out.
    pub need_colo: bool,
    /// The data centers that are wanted; any, if there are none.
    pub filters: Seq<Seq<char>>,
    pub stage: Stage,
    pub data_center: Option<Seq<char>>,
    /// The speed that was measured, once the download is over.
    pub speed: Option<SpeedRatio>,
    /// How many bytes were counted.
    pub content: u64,
    /// When the first bytes were counted.
    pub first: Option<u128>,
    /// When the last bytes were counted.
    pub last: Option<u128>,
    pub handler: HandlerView,
}

impl TransferView {
    /// A download that begins and is to be measured for `duration` after the warm-up.
    pub open spec fn begin(
        duration: u128,
        need_colo: bool,
        filters: Seq<Seq<char>>,
        clock: std::time::Instant,
    ) -> TransferView {
        TransferView {
            limit: (duration + WARM_UP_NANOS) as u128,
            need_colo,
            filters,
            stage: Stage::Requesting,
            data_center: None,
            speed: None,
            content: 0,
            first: None,
            last: None,
            handler: HandlerView::start(clock),
        }
    }

    /// Nothing more is read.
    pub open spec fn over(self) -> TransferView {
        TransferView { stage: Stage::Over, ..self }
    }

    /// These are the readings of the clock now.
    pub open spec fn logged(self, readings: Seq<u128>) -> TransferView {
        TransferView { handler: self.handler.logged(readings), ..self }
    }

    /// A response with this data center is turned away: one is needed, and there is none, or it
    /// is not wanted.
    pub open spec fn turns_away(self, found: Option<Seq<char>>) -> bool {
        self.need_colo && match found {
            None => true,
            Some(dc) => self.filters.len() > 0 && !crate::common::colo_matched(dc, self.filters),
        }
    }

    /// The response came with this data center, which is noted if it is needed. The download ends
    /// if the response is turned away.
    pub open spec fn screened(self, found: Option<Seq<char>>) -> TransferView {
        TransferView {
            data_center: if self.need_colo && found is Some {
                found
            } else {
                self.data_center
            },
            stage: if self.turns_away(found) {
                Stage::Over
            } else {
                self.stage
            },
            ..self
        }
    }

    /// The response came with this data center; unless it is turned away, the body is read from
    /// `now` on.
    pub open spec fn accept(self, found: Option<Seq<char>>, now: u128) -> TransferView {
        if self.turns_away(found) {
            self.screened(found)
        } else {
            TransferView { stage: Stage::Reading { start: now }, ..self.screened(found) }
        }
    }

    /// No body is read after these headers, or for want of any.
    pub open spec fn rejects(self, headers: Option<Map<Seq<char>, Seq<u8>>>) -> bool {
        match headers {
            None => true,
            Some(h) => self.turns_away(crate::common::data_center_in(h)),
        }
    }

    /// A response came with these headers, or none came at all, which ends the download.
    pub open spec fn responded(
        self,
        headers: Option<Map<Seq<char>, Seq<u8>>>,
        now: u128,
    ) -> TransferView {
        match headers {
            None => self.over(),
            Some(h) => self.accept(crate::common::data_center_in(h), now),
        }
    }

    /// The time for which the body has been read.
    pub open spec fn reading_time(self, now: u128) -> u128 {
        match self.stage {
            Stage::Reading { start } => crate::speed::time_between(start, now),
            _ => 0,
        }
    }

    /// The speed over the counted data: from the first to the last of it, if that took any time.
    pub open spec fn measured(self) -> Option<SpeedRatio> {
        match (self.first, self.last) {
            (Some(first), Some(last)) => {
                let nanos = crate::speed::time_between(first, last);
                if nanos > 0 {
                    Some(SpeedRatio { bytes: self.content, nanos })
                } else {
                    None
                }
            },
            _ => None,
        }
    }

    /// The download ends with the speed that was measured.
    pub open spec fn ended(self) -> TransferView {
        TransferView { speed: self.measured(), ..self.over() }
    }

    /// Before each piece of the body: reading ends after the limit or at the signal to stop.
    pub open spec fn polled(self, timed_out: bool, now: u128) -> TransferView {
        if self.reading_time(now) >= self.limit || timed_out {
            self.ended()
        } else {
            self
        }
    }

    /// Data arrived. All of it counts for the shown speed, but only what comes after the warm-up
    /// counts for the speed that is measured.
    pub open spec fn received(self, size: u64, at: Readings) -> TransferView {
        let noted = TransferView {
            handler: self.handler.take(at.piece(size)),
            ..self
        };
        if self.reading_time(at.count) >= WARM_UP_NANOS {
            TransferView {
                content: (self.content + size) as u64,
                first: match self.first {
                    Some(first) => Some(first),
                    None => Some(at.count),
                },
                last: Some(at.count),
                ..noted
            }
        } else {
            noted
        }
    }

    /// The next piece of the body: data is counted, an error ends the download without a speed,
    /// and the end of the body ends it with the speed that was measured.
    pub open spec fn framed(self, frame: Frame, at: Readings) -> TransferView {
        match frame {
            Frame::Data { size } => self.received(size, at),
            Frame::Other => self,
            Frame::Failed => self.over(),
            Frame::End => self.ended(),
        }
    }

    /// What is shown with the next piece of the body.
    pub open spec fn shown(self, frame: Frame, at: Readings) -> DisplayUpdate {
        match frame {
            Frame::Data { size } => self.handler.add(size, at.sample).shown(at.check, at.window),
            _ => DisplayUpdate::Keep,
        }
    }

    /// Counted bytes were received, and counting has a beginning where it has an end. No speed is
    /// shown before the response.
    pub open spec fn sound(self) -> bool {
        &&& self.handler.sound()
        &&& self.content <= self.handler.data_received
        &&& self.first is Some <==> self.last is Some
        &&& self.stage != Stage::Over ==> self.speed is None
        &&& self.stage == Stage::Requesting ==> self.handler.current_speed is None
    }

    /// The state after some pieces of data; `logs` are the readings of the clock up to the end of
    /// each.
    pub open spec fn after_data(
        self,
        data: Seq<(u64, Readings)>,
        logs: Seq<Seq<u128>>,
    ) -> TransferView
        decreases data.len(),
    {
        if data.len() == 0 {
            self
        } else {
            self.after_data(data.drop_last(), logs).framed(
                Frame::Data { size: data.last().0 },
                data.last().1,
            ).logged(logs[data.len() - 1])
        }
    }
}

/// The pieces of data that were counted after the warm-up of a body that is read since `start`.
pub open spec fn warm(start: u128, data: Seq<(u64, Readings)>) -> Seq<(u64, u128)>
    decreases data.len(),
{
    if data.len() == 0 {
        Seq::empty()
    } else {
        let before = warm(start, data.drop_last());
        let (size, at) = data.last();
        if crate::speed::time_between(start, at.count) >= WARM_UP_NANOS {
            before.push((size, at.count))
        } else {
            before
        }
    }
}

/// The bytes in some pieces of data.
pub open spec fn total<T>(data: Seq<(u64, T)>) -> nat
    decreases data.len(),
{
    if data.len() == 0 {
        0
    } else {
        total(data.drop_last()) + data.last().0 as nat
    }
}

/// What is measured is the data that came after the warm-up, and nothing else: its bytes, over
/// the time from the first to the last of it.
pub proof fn only_data_after_the_warm_up_counts(
    state: TransferView,
    start: u128,
    data: Seq<(u64, Readings)>,
    logs: Seq<Seq<u128>>,
)
    requires
        state.stage == (Stage::Reading { start }),
        state.content == 0,
        state.first is None,
        state.last is None,
        state.handler.data_received == 0,
        total(data) <= u64::MAX,
    ensures
        ({
            let after = state.after_data(data, logs);
            let counted = warm(start, data);
            &&& after.stage == state.stage
            &&& after.handler.data_received == total(data)
            &&& after.content == total(counted)
            &&& total(counted) <= total(data)
            &&& counted.len() == 0 ==> after.first is None && after.last is None
                && after.measured() is None
            &&& counted.len() > 0 ==> after.first == Some(counted[0].1) && after.last == Some(
                counted.last().1,
            )
            &&& counted.len() > 0 && counted.last().1 > counted[0].1 ==> after.measured() == Some(
                SpeedRatio {
                    bytes: total(counted) as u64,
                    nanos: (counted.last().1 - counted[0].1) as u128,
                },
            )
        }),
    decreases data.len(),
{
    if data.len() > 0 {
        only_data_after_the_warm_up_counts(state, start, data.drop_last(), logs);
        let before = warm(start, data.drop_last());
        let (size, at) = data.last();
        assert(before.push((size, at.count)).drop_last() == before);
    }
}

proof fn data_from_a_place_on_is_warm(start: u128, data: Seq<(u64, Readings)>, k: int)
    requires
        0 <= k <= data.len(),
        forall|i: int| 0 <= i < k ==> (#[trigger] data[i]).1.count < start + 3_000_000_000,
        forall|i: int|
            k <= i < data.len() ==> (#[trigger] data[i]).1.count >= start + 3_000_000_000,
    ensures
        warm(start, data).len() == data.len() - k,
        total(warm(start, data)) == total(data.skip(k)),
        k < data.len() ==> warm(start, data)[0].1 == data[k].1.count,
        k < data.len() ==> warm(start, data).last().1 == data.last().1.count,
    decreases data.len(),
{
    if data.len() == 0 {
        assert(data.skip(k).len() == 0);
    } else if k == data.len() {
        let front = data.drop_last();
        assert(data[data.len() - 1].1.count < start + 3_000_000_000);
        assert forall|i: int| 0 <= i < front.len() implies (#[trigger] front[i]).1.count < start
            + 3_000_000_000 by {
            assert(front[i] == data[i]);
        }
        data_from_a_place_on_is_warm(start, front, front.len() as int);
        assert(front.skip(front.len() as int) == data.skip(k));
    } else {
        let front = data.drop_last();
        assert(data[data.len() - 1].1.count >= start + 3_000_000_000);
        assert forall|i: int| 0 <= i < front.len() implies #[trigger] front[i] == data[i] by {}
        data_from_a_place_on_is_warm(start, front, k);
        let before = warm(start, front);
        assert(before.push((data.last().0, data.last().1.count)).drop_last() == before);
        assert(data.skip(k).drop_last() == front.skip(k));
        assert(data.skip(k).last() == data.last());
    }
}

/// A download has, as its outcome, the bytes that came from three seconds after the response on,
/// here those from the `k`-th piece of data on, over the time from the first to the last of them,
/// whenever that time is above zero, and else no speed. That holds where the body ends, where the
/// signal to stop is raised, and where the time for the download and three seconds more have
/// passed since the response; before that it goes on as it is. A body that fails has no speed. The
/// data center is told in all cases, where it had to be found out.
pub proof fn the_outcome_is_the_data_after_the_warm_up_over_its_time(
    duration: u128,
    need_colo: bool,
    filters: Seq<Seq<char>>,
    clock: std::time::Instant,
    headers: Map<Seq<char>, Seq<u8>>,
    start: u128,
    data: Seq<(u64, Readings)>,
    logs: Seq<Seq<u128>>,
    k: int,
    at: Readings,
    timed_out: bool,
    now: u128,
)
    requires
        duration + WARM_UP_NANOS <= MAX_DURATION_NANOS,
        !TransferView::begin(duration, need_colo, filters, clock).rejects(Some(headers)),
        total(data) <= u64::MAX,
        0 <= k <= data.len(),
        forall|i: int| 0 <= i < k ==> (#[trigger] data[i]).1.count < start + 3_000_000_000,
        forall|i: int|
            k <= i < data.len() ==> (#[trigger] data[i]).1.count >= start + 3_000_000_000,
    ensures
        ({
            let read = TransferView::begin(duration, need_colo, filters, clock).responded(
                Some(headers),
                start,
            ).after_data(data, logs);
            let ended = read.framed(Frame::End, at);
            let failed = read.framed(Frame::Failed, at);
            let polled = read.polled(timed_out, now);
            let time_is_up = now >= start + duration + 3_000_000_000;
            let first = data[k].1.count;
            let last = data.last().1.count;
            let speed = if k < data.len() && last > first {
                Some(
                    SpeedRatio {
                        bytes: total(data.skip(k)) as u64,
                        nanos: (last - first) as u128,
                    },
                )
            } else {
                None
            };
            let told = if need_colo {
                crate::common::data_center_in(headers)
            } else {
                None
            };
            &&& ended.stage == Stage::Over && ended.speed == speed && ended.data_center == told
            &&& timed_out || time_is_up ==> polled.stage == Stage::Over && polled.speed == speed
                && polled.data_center == told
            &&& !timed_out && !time_is_up ==> polled == read
            &&& failed.stage == Stage::Over && failed.speed is None && failed.data_center == told
            &&& read.framed(Frame::Other, at) == read
            &&& read.stage == (Stage::Reading { start })
        }),
{
    let began = TransferView::begin(duration, need_colo, filters, clock);
    let state = began.responded(Some(headers), start);
    only_data_after_the_warm_up_counts(state, start, data, logs);
    data_from_a_place_on_is_warm(start, data, k);
    settings_of_a_download_stay(state, data, logs);
}

proof fn settings_of_a_download_stay(
    state: TransferView,
    data: Seq<(u64, Readings)>,
    logs: Seq<Seq<u128>>,
)
    ensures
        ({
            let after = state.after_data(data, logs);
            &&& after.limit == state.limit
            &&& after.speed == state.speed
            &&& after.data_center == state.data_center
            &&& after.stage == state.stage
        }),
    decreases data.len(),
{
    if data.len() > 0 {
        settings_of_a_download_stay(state, data.drop_last(), logs);
    }
}

/// The readings for a piece of data of a body are taken one after the other. The first notes the
/// data, and the last, which none is after, counts it. No other piece of a body takes a reading.
pub proof fn data_is_counted_with_the_last_reading(
    handler: HandlerView,
    frame: Frame,
    log: Seq<u128>,
    n: int,
)
    requires
        0 <= n,
        n + 4 < log.len(),
        forall|i: int, j: int| 0 <= i <= j < log.len() ==> log[i] <= log[j],
    ensures
        ({
            let at = readings_from(log, n);
            &&& at.sample <= at.check <= at.window <= at.update <= at.count
            &&& forall|i: int| 0 <= i < log.len() ==> #[trigger] log[i] <= at.count
            &&& log.subrange(n, n + 4) == seq![at.sample, at.check, at.window, at.update]
            &&& readings_taken(handler, frame, at) > 0 <==> frame is Data
            &&& forall|size: u64| (#[trigger] at.piece(size)) == crate::speed::piece_read(
                size,
                log,
                n,
            )
        }),
{
    let at = readings_from(log, n);
    assert(log[n] <= log[n + 1] && log[n + 1] <= log[n + 2] && log[n + 2] <= log[n + 3]);
    assert(log[n + 3] <= log[log.len() - 1]);
    assert forall|i: int| 0 <= i < log.len() implies #[trigger] log[i] <= at.count by {
        assert(log[i] <= log[log.len() - 1]);
    }
}

/// A download begins by waiting for a response, with nothing received, counted or shown, and
/// without a speed or a data center.
pub proof fn downloads_begin_with_nothing(
    duration: u128,
    need_colo: bool,
    filters: Seq<Seq<char>>,
    clock: std::time::Instant,
)
    requires
        duration + WARM_UP_NANOS <= MAX_DURATION_NANOS,
    ensures
        ({
            let state = TransferView::begin(duration, need_colo, filters, clock);
            &&& state.stage == Stage::Requesting
            &&& state.limit == duration + 3_000_000_000
            &&& state.need_colo == need_colo
            &&& state.filters == filters
            &&& state.speed is None && state.data_center is None
            &&& state.content == 0 && state.first is None && state.last is None
            &&& state.handler.data_received == 0 && state.handler.samples.len() == 0
            &&& state.handler.current_speed is None && state.handler.last_update == 0
            &&& state.handler.clock == clock
        }),
{
}

/// A response is read where no data center has to be found out. Where one has to be, a response
/// that names none ends the download without one, and one that names a data center is read if
/// there are no filters or one of them names it; else the download ends, with that data center and
/// without a speed.
pub proof fn the_data_center_decides_on_the_body(
    state: TransferView,
    headers: Option<Map<Seq<char>, Seq<u8>>>,
    now: u128,
)
    requires
        state.stage == Stage::Requesting,
        state.data_center is None,
        state.sound(),
    ensures
        ({
            let after = state.responded(headers, now);
            let found = crate::common::data_center_in(headers->0);
            let wanted = found matches Some(dc) && (state.filters.len() == 0
                || crate::common::colo_matched(dc, state.filters));
            &&& headers is None ==> after.stage == Stage::Over && after.data_center is None
            &&& headers is Some && !state.need_colo ==> after.stage == (Stage::Reading {
                start: now,
            }) && after.data_center is None
            &&& headers is Some && state.need_colo ==> after.data_center == found
            &&& headers is Some && state.need_colo && wanted ==> after.stage == (Stage::Reading {
                start: now,
            })
            &&& headers is Some && state.need_colo && !wanted ==> after.stage == Stage::Over
            &&& state.rejects(headers) <==> after.stage == Stage::Over
            &&& after.speed is None
            &&& after.handler == state.handler
            &&& after.content == state.content
        }),
{
}

/// Data is shown as what has been received by then, during the warm-up and after it alike; nothing
/// else of a body changes what is shown.
pub proof fn all_data_is_shown(state: TransferView, frame: Frame, at: Readings)
    ensures
        frame matches Frame::Data { size } ==> {
            let noted = state.handler.add(size, at.sample);
            &&& state.shown(frame, at) == noted.shown(at.check, at.window)
            &&& state.framed(frame, at).handler == noted.display(at.check, at.window, at.update)
            &&& state.framed(frame, at).stage == state.stage
        },
        !(frame is Data) ==> state.shown(frame, at) == DisplayUpdate::Keep && state.framed(
            frame,
            at,
        ).handler == state.handler,
{
}

/// A download without a response has no speed and no data center, and its shown speed stays at
/// zero, whatever was shown of the download before it.
pub proof fn no_response_is_no_speed(
    duration: u128,
    need_colo: bool,
    filters: Seq<Seq<char>>,
    clock: std::time::Instant,
    now: u128,
)
    ensures
        ({
            let state = TransferView::begin(duration, need_colo, filters, clock).responded(
                None,
                now,
            );
            &&& state.stage == Stage::Over
            &&& state.speed is None
            &&& state.data_center is None
            &&& state.handler.current_speed is None
        }),
{
}

/// The contents of the headers of a response.
pub open spec fn header_contents(headers: Option<&http::HeaderMap<http::HeaderValue>>) -> Option<
    Map<Seq<char>, Seq<u8>>,
> {
    match headers {
        Some(h) => Some(crate::outside::first_values(*h)),
        None => None,
    }
}

/// A response has the headers that it came with; without a response there are none.
pub proof fn responses_have_their_headers(headers: &http::HeaderMap<http::HeaderValue>)
    ensures
        header_contents(Some(headers)) == Some(crate::outside::first_values(*headers)),
        header_contents(None) is None,
{
}

/// A download whose speed is measured.
pub struct Transfer {
    limit: u128,
    need_colo: bool,
    colo_filters: Arc<Vec<String>>,
    stage: Stage,
    data_center: Option<String>,
    speed: Option<SpeedRatio>,
    content: u64,
    first: Option<u128>,
    last: Option<u128>,
    handler: DownloadHandler,
}

impl View for Transfer {
    type V = TransferView;

    closed spec fn view(&self) -> TransferView {
        TransferView {
            limit: self.limit,
            need_colo: self.need_colo,
            filters: crate::text::texts(self.colo_filters@),
            stage: self.stage,
            data_center: crate::common::opt_text(self.data_center),
            speed: self.speed,
            content: self.content,
            first: self.first,
            last: self.last,
            handler: self.handler@,
        }
    }
}

impl Transfer {
    /// A download that is to be measured for `duration` nanoseconds after the warm-up.
    pub fn new(duration: u128, need_colo: bool, colo_filters: Arc<Vec<String>>) -> (r: Self)
        requires
            duration + WARM_UP_NANOS <= MAX_DURATION_NANOS,
        ensures
            r@ == TransferView::begin(
                duration,
                need_colo,
                crate::text::texts(colo_filters@),
                r@.handler.clock,
            ),
            r@.sound(),
            r@.handler.timely(),
    {
        Transfer {
            limit: duration + WARM_UP_NANOS,
            need_colo,
            colo_filters,
            stage: Stage::Requesting,
            data_center: None,
            speed: None,
            content: 0,
            first: None,
            last: None,
            handler: DownloadHandler::new(),
        }
    }

    /// What is shown when the download begins: the speed goes back to zero.
    pub fn first_shown(&self) -> (r: DisplayUpdate)
        requires
            self@.stage == Stage::Requesting,
            self@.sound(),
        ensures
            r == (DisplayUpdate::Show { speed: None }),
            r == (DisplayUpdate::Show { speed: self@.handler.current_speed }),
    {
        DisplayUpdate::Show { speed: self.handler.current_speed() }
    }

    /// How far the download has come.
    pub fn stage(&self) -> (r: Stage)
        ensures
            r == self@.stage,
    {
        self.stage
    }

    /// How many bytes were received.
    pub fn data_received(&self) -> (r: u64)
        ensures
            r == self@.handler.data_received,
    {
        self.handler.data_received()
    }

    /// Takes note of the data center that a response names, and says whether its body is read.
    fn screen(&mut self, found: Option<String>) -> (r: bool)
        requires
            old(self)@.stage == Stage::Requesting,
            old(self)@.sound(),
        ensures
            final(self)@ == old(self)@.screened(crate::common::opt_text(found)),
            final(self)@.sound(),
            r == !old(self)@.turns_away(crate::common::opt_text(found)),
    {
        if self.need_colo {
            match found {
                None => {
                    self.stage = Stage::Over;
                    return false;
                },
                Some(dc) => {
                    let wanted = self.colo_filters.len() == 0 || is_colo_matched(
                        dc.as_str(),
                        self.colo_filters.as_slice(),
                    );
                    self.data_center = Some(dc);
                    if !wanted {
                        self.stage = Stage::Over;
                        return false;
                    }
                },
            }
        }
        true
    }

    /// Takes note of the data center that a response at `now` names.
    pub fn accept(&mut self, found: Option<String>, now: u128)
        requires
            old(self)@.stage == Stage::Requesting,
            old(self)@.sound(),
        ensures
            final(self)@ == old(self)@.accept(crate::common::opt_text(found), now),
            final(self)@.sound(),
    {
        if self.screen(found) {
            self.stage = Stage::Reading { start: now };
        }
    }

    /// Takes note of the headers of a response, or of none, and says whether a body is read.
    fn screen_headers(&mut self, headers: Option<&http::HeaderMap<http::HeaderValue>>) -> (r: bool)
        requires
            old(self)@.stage == Stage::Requesting,
            old(self)@.sound(),
        ensures
            r == !old(self)@.rejects(header_contents(headers)),
            !r ==> forall|now: u128|
                final(self)@ == #[trigger] old(self)@.responded(header_contents(headers), now),
            r ==> final(self)@.stage == Stage::Requesting && forall|now: u128|
                (TransferView { stage: Stage::Reading { start: now }, ..final(self)@ })
                    == #[trigger] old(self)@.responded(header_contents(headers), now),
            final(self)@.sound(),
            final(self)@.handler == old(self)@.handler,
    {
        match headers {
            None => {
                self.stage = Stage::Over;
                false
            },
            Some(h) => {
                let found = if self.need_colo {
                    extract_data_center(h)
                } else {
                    None
                };
                self.screen(found)
            },
        }
    }

    /// Takes note of the headers of a response at `now`, or of none.
    pub fn responded_at(
        &mut self,
        headers: Option<&http::HeaderMap<http::HeaderValue>>,
        now: u128,
    )
        requires
            old(self)@.stage == Stage::Requesting,
            old(self)@.sound(),
        ensures
            final(self)@ == old(self)@.responded(header_contents(headers), now),
            final(self)@.sound(),
    {
        if self.screen_headers(headers) {
            self.stage = Stage::Reading { start: now };
        }
    }

    /// Takes note of the headers of a response that has just come, or of none. The clock is read
    /// once the body is going to be read, and not at all if it is not.
    pub fn responded(&mut self, headers: Option<&http::HeaderMap<http::HeaderValue>>)
        requires
            old(self)@.stage == Stage::Requesting,
            old(self)@.sound(),
        ensures
            ({
                let response = header_contents(headers);
                let log = final(self)@.handler.readings;
                &&& crate::speed::grows(
                    old(self)@.handler.readings,
                    log,
                    if old(self)@.rejects(response) {
                        0
                    } else {
                        1
                    },
                )
                &&& final(self)@ == old(self)@.responded(response, log.last()).logged(log)
            }),
            final(self)@.sound(),
            old(self)@.handler.timely() ==> final(self)@.handler.timely(),
    {
        if self.screen_headers(headers) {
            let now = self.handler.read();
            self.stage = Stage::Reading { start: now };
        }
    }

    fn end(&mut self)
        requires
            old(self)@.sound(),
        ensures
            final(self)@ == old(self)@.ended(),
            final(self)@.sound(),
    {
        self.speed = match (self.first, self.last) {
            (Some(first), Some(last)) => {
                let nanos = elapsed_between(first, last);
                if nanos > 0 {
                    Some(SpeedRatio { bytes: self.content, nanos })
                } else {
                    None
                }
            },
            _ => None,
        };
        self.stage = Stage::Over;
    }

    fn reading_time(&self, now: u128) -> (r: u128)
        ensures
            r == self@.reading_time(now),
    {
        match self.stage {
            Stage::Reading { start } => elapsed_between(start, now),
            _ => 0,
        }
    }

    /// Decides at `now` whether the next piece of the body is read.
    pub fn poll_at(&mut self, timed_out: bool, now: u128) -> (r: bool)
        requires
            old(self)@.stage is Reading,
            old(self)@.sound(),
        ensures
            final(self)@ == old(self)@.polled(timed_out, now),
            final(self)@.sound(),
            r == (final(self)@.stage is Reading),
    {
        if self.reading_time(now) >= self.limit || timed_out {
            self.end();
            false
        } else {
            true
        }
    }

    /// Decides whether the next piece of the body is read: the clock is read once.
    pub fn poll(&mut self, timed_out: bool) -> (r: bool)
        requires
            old(self)@.stage is Reading,
            old(self)@.sound(),
        ensures
            ({
                let log = final(self)@.handler.readings;
                &&& crate::speed::grows(old(self)@.handler.readings, log, 1)
                &&& final(self)@ == old(self)@.polled(timed_out, log.last()).logged(log)
            }),
            final(self)@.sound(),
            old(self)@.handler.timely() ==> final(self)@.handler.timely(),
            r == (final(self)@.stage is Reading),
            timed_out ==> !r,
    {
        let now = self.handler.read();
        self.poll_at(timed_out, now)
    }

    fn count(&mut self, size: u64, now: u128)
        requires
            old(self)@.content + size <= u64::MAX,
        ensures
            final(self)@ == (if old(self)@.reading_time(now) >= WARM_UP_NANOS {
                TransferView {
                    content: (old(self)@.content + size) as u64,
                    first: match old(self)@.first {
                        Some(first) => Some(first),
                        None => Some(now),
                    },
                    last: Some(now),
                    ..old(self)@
                }
            } else {
                old(self)@
            }),
    {
        if self.reading_time(now) >= WARM_UP_NANOS {
            if self.first.is_none() {
                self.first = Some(now);
            }
            self.content = self.content + size;
            self.last = Some(now);
        }
    }

    /// Takes note of the next piece of the body, with these readings of the clock, and says what
    /// is shown then.
    pub fn frame_at(&mut self, frame: Frame, at: Readings) -> (r: DisplayUpdate)
        requires
            old(self)@.stage is Reading,
            old(self)@.sound(),
            frame matches Frame::Data { size } ==> old(self)@.handler.data_received + size
                <= u64::MAX,
        ensures
            final(self)@ == old(self)@.framed(frame, at),
            final(self)@.sound(),
            r == old(self)@.shown(frame, at),
    {
        match frame {
            Frame::Data { size } => {
                let shown = self.handler.update_data_received_at(
                    size,
                    at.sample,
                    at.check,
                    at.window,
                    at.update,
                );
                self.count(size, at.count);
                shown
            },
            Frame::Other => DisplayUpdate::Keep,
            Frame::Failed => {
                self.stage = Stage::Over;
                DisplayUpdate::Keep
            },
            Frame::End => {
                self.end();
                DisplayUpdate::Keep
            },
        }
    }

    /// Takes note of the next piece of the body, and says what is shown then. The clock is read
    /// for data only.
    pub fn frame(&mut self, frame: Frame) -> (r: DisplayUpdate)
        requires
            old(self)@.stage is Reading,
            old(self)@.sound(),
            frame matches Frame::Data { size } ==> old(self)@.handler.data_received + size
                <= u64::MAX,
        ensures
            ({
                let log = final(self)@.handler.readings;
                let at = readings_from(log, old(self)@.handler.readings.len() as int);
                &&& crate::speed::grows(
                    old(self)@.handler.readings,
                    log,
                    readings_taken(old(self)@.handler, frame, at),
                )
                &&& final(self)@ == old(self)@.framed(frame, at).logged(log)
                &&& r == old(self)@.shown(frame, at)
            }),
            final(self)@.sound(),
            old(self)@.handler.timely() ==> final(self)@.handler.timely(),
    {
        match frame {
            Frame::Data { size } => {
                let shown = self.handler.update_data_received(size);
                let now = self.handler.read();
                self.count(size, now);
                shown
            },
            _ => self.frame_at(
                frame,
                Readings { sample: 0, check: 0, window: 0, update: 0, count: 0 },
            ),
        }
    }

    /// The speed that was measured, and the data center, if it had to be found out and was.
    pub fn outcome(self) -> (r: (Option<SpeedRatio>, Option<String>))
        requires
            self@.stage == Stage::Over,
        ensures
            r.0 == self@.speed,
            crate::common::opt_text(r.1) == self@.data_center,
    {
        (self.speed, self.data_center)
    }
}

/// The URI that is requested: the one that was built if it was found to be one, else `fallback`.
pub fn uri_or(built: String, parts: &Option<UriParts>, fallback: &str) -> (r: String)
    ensures
        r@ == (if parts is Some {
            built@
        } else {
            fallback@
        }),
{
    if parts.is_some() {
        built
    } else {
        fallback.to_owned()
    }
}

/// The URI of a download from one address; `fallback` where no URI comes of it.
pub fn download_uri(scheme: &str, addr: &SocketAddr, path: &str, fallback: &str) -> (r: String)
    ensures
        r@ == ({
            let built = crate::common::request_uri_text(scheme@, addr@, path@);
            if crate::outside::uri_of(built) is Some {
                built
            } else {
                fallback@
            }
        }),
{
    let built = request_uri(scheme, addr, path);
    let parts = parse_uri(built.as_str());
    uri_or(built, &parts, fallback)
}

/// The URI of a download of `uri`, which has these parts, from one address: the one that is built
/// of its scheme, the address and its path, or `uri` itself where no URI comes of that. There is
/// none without a scheme.
pub open spec fn target_text(
    parts: Option<(Option<Seq<char>>, Seq<char>)>,
    uri: Seq<char>,
    addr: SocketAddrView,
) -> Option<Seq<char>> {
    match parts {
        Some((Some(scheme), path)) => {
            let built = crate::common::request_uri_text(scheme, addr, path);
            Some(
                if crate::outside::uri_of(built) is Some {
                    built
                } else {
                    uri
                },
            )
        },
        _ => None,
    }
}

/// There is a target exactly if the URI has a scheme. It is the URI that goes to the address with
/// that scheme and path, if that is one, and the given URI if it is not.
pub proof fn targets_go_to_the_address(
    scheme: Seq<char>,
    path: Seq<char>,
    uri: Seq<char>,
    addr: SocketAddrView,
)
    ensures
        ({
            let built = crate::common::request_uri_text(scheme, addr, path);
            let target = target_text(Some((Some(scheme), path)), uri, addr);
            &&& target is Some
            &&& crate::outside::uri_of(built) is Some ==> target == Some(built)
            &&& crate::outside::uri_of(built) is None ==> target == Some(uri)
            &&& target_text(Some((None, path)), uri, addr) is None
            &&& target_text(None, uri, addr) is None
        }),
{
}

/// The URI of a download of `uri`, which has these parts, from one address; `None` where `uri` has
/// no scheme.
pub fn download_target_of(parts: Option<UriParts>, uri: &str, addr: &SocketAddr) -> (r: Option<
    String,
>)
    ensures
        crate::common::opt_text(r) == target_text(crate::outside::parts_view(parts), uri@, addr@),
{
    match parts {
        Some(UriParts { scheme: Some(scheme), path }) => Some(
            download_uri(scheme.as_str(), addr, path.as_str(), uri),
        ),
        _ => None,
    }
}

/// The URI of a download of `uri` from one address; `None` where `uri` is none or has no scheme.
pub fn download_target(uri: &str, addr: &SocketAddr) -> (r: Option<String>)
    ensures
        crate::common::opt_text(r) == target_text(crate::outside::uri_of(uri@), uri@, addr@),
{
    download_target_of(parse_uri(uri), uri, addr)
}

} // verus!
