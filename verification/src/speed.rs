//! The speed that is shown while a download runs.
use crate::outside::{instant_now, nanos_since};
use std::collections::VecDeque;
use vstd::prelude::*;

verus! {

/// How often the shown speed changes, in milliseconds.
pub const SPEED_UPDATE_INTERVAL_MS: u64 = 500;

/// How often the shown speed changes, in nanoseconds.
pub const SPEED_UPDATE_INTERVAL_NANOS: u128 = 500_000_000;

/// A speed: so many bytes in so many nanoseconds.
#[derive(Clone, Copy, Debug, PartialEq, Eq, Structural)]
pub struct SpeedRatio {
    pub bytes: u64,
    pub nanos: u128,
}

/// What becomes of the shown speed.
#[derive(Clone, Copy, Debug, PartialEq, Eq, Structural)]
pub enum DisplayUpdate {
    /// It stays as it is.
    Keep,
    /// It changes to this speed, or to zero where there is none.
    Show { speed: Option<SpeedRatio> },
}

/// The time from `start` to `end`; none if `end` is not after `start`.
pub open spec fn time_between(start: u128, end: u128) -> u128 {
    if end >= start {
        (end - start) as u128
    } else {
        0
    }
}

/// The time from `start` to `end`.
pub fn elapsed_between(start: u128, end: u128) -> (r: u128)
    ensures
        r == time_between(start, end),
{
    if end >= start {
        end - start
    } else {
        0
    }
}

/// The samples from the first one on that is not older than `window_start`.
pub open spec fn recent(samples: Seq<(u128, u64)>, window_start: u128) -> Seq<(u128, u64)>
    decreases samples.len(),
{
    if samples.len() > 0 && samples[0].0 < window_start {
        recent(samples.drop_first(), window_start)
    } else {
        samples
    }
}

/// The speed between the first and the last sample, if there was any progress.
pub open spec fn speed_over(samples: Seq<(u128, u64)>) -> Option<SpeedRatio> {
    if samples.len() == 0 {
        None
    } else {
        let bytes = samples.last().1 - samples[0].1;
        let nanos = time_between(samples[0].0, samples.last().0);
        if bytes == 0 || nanos == 0 {
            None
        } else {
            Some(SpeedRatio { bytes: bytes as u64, nanos })
        }
    }
}

/// What a [`DownloadHandler`] knows. Times are nanoseconds since the handler was made.
pub struct HandlerView {
    /// The reading of the clock when the handler was made, from which all times are counted.
    pub clock: std::time::Instant,
    /// The times that were read off the clock, in order.
    pub readings: Seq<u128>,
    /// The last of them.
    pub time: u128,
    /// How many bytes were received.
    pub data_received: u64,
    /// The speed that is shown; none is shown as zero.
    pub current_speed: Option<SpeedRatio>,
    /// When the shown speed was last changed.
    pub last_update: u128,
    /// When data arrived, and how many bytes had been received then.
    pub samples: Seq<(u128, u64)>,
}

/// The last of some readings; zero, if there are none.
pub open spec fn last_reading(readings: Seq<u128>) -> u128 {
    if readings.len() == 0 {
        0
    } else {
        readings.last()
    }
}

/// `after` holds the readings `before` and then `count` more.
pub open spec fn grows(before: Seq<u128>, after: Seq<u128>, count: nat) -> bool {
    &&& after.len() == before.len() + count
    &&& after.take(before.len() as int) =~= before
}

impl HandlerView {
    /// Nothing was received, and no speed is shown.
    pub open spec fn start(clock: std::time::Instant) -> HandlerView {
        HandlerView {
            clock,
            readings: Seq::empty(),
            time: 0,
            data_received: 0,
            current_speed: None,
            last_update: 0,
            samples: Seq::empty(),
        }
    }

    /// The readings never fall. The byte counts of the samples never fall either, and the last
    /// one is the number of bytes received.
    pub open spec fn sound(self) -> bool {
        &&& self.time == last_reading(self.readings)
        &&& forall|i: int, j: int|
            0 <= i <= j < self.readings.len() ==> self.readings[i] <= self.readings[j]
        &&& forall|i: int, j: int|
            0 <= i <= j < self.samples.len() ==> (#[trigger] self.samples[i]).1 <= (
            #[trigger] self.samples[j]).1
        &&& self.samples.len() > 0 ==> self.samples.last().1 == self.data_received
    }

    /// The samples are in the order of their times, and none is later than the last reading.
    pub open spec fn timely(self) -> bool {
        &&& forall|i: int, j: int|
            0 <= i <= j < self.samples.len() ==> (#[trigger] self.samples[i]).0 <= (
            #[trigger] self.samples[j]).0
        &&& forall|i: int|
            0 <= i < self.samples.len() ==> (#[trigger] self.samples[i]).0 <= self.time
    }

    /// These are the readings now.
    pub open spec fn logged(self, readings: Seq<u128>) -> HandlerView {
        HandlerView { readings, time: last_reading(readings), ..self }
    }

    /// `size` more bytes arrived at `now`.
    pub open spec fn add(self, size: u64, now: u128) -> HandlerView {
        HandlerView {
            data_received: (self.data_received + size) as u64,
            samples: self.samples.push((now, (self.data_received + size) as u64)),
            ..self
        }
    }

    /// Samples older than `window_start` are given up.
    pub open spec fn cleanup(self, window_start: u128) -> HandlerView {
        HandlerView { samples: recent(self.samples, window_start), ..self }
    }

    /// The shown speed is due for a change at `now`.
    pub open spec fn due(self, now: u128) -> bool {
        time_between(self.last_update, now) >= SPEED_UPDATE_INTERVAL_NANOS
    }

    /// The shown speed is changed if that is due at `check`: the samples before the interval that
    /// ends at `window` are given up, and `update` is noted as the time of the change.
    pub open spec fn display(self, check: u128, window: u128, update: u128) -> HandlerView {
        if self.due(check) {
            let recent = self.cleanup(time_between(SPEED_UPDATE_INTERVAL_NANOS, window));
            HandlerView {
                current_speed: speed_over(recent.samples),
                last_update: update,
                ..recent
            }
        } else {
            self
        }
    }

    /// What is shown then.
    pub open spec fn shown(self, check: u128, window: u128) -> DisplayUpdate {
        if self.due(check) {
            DisplayUpdate::Show {
                speed: speed_over(
                    recent(self.samples, time_between(SPEED_UPDATE_INTERVAL_NANOS, window)),
                ),
            }
        } else {
            DisplayUpdate::Keep
        }
    }

    /// Data arrived, and the shown speed is changed if that is due.
    pub open spec fn take(self, piece: Piece) -> HandlerView {
        self.add(piece.size, piece.sample).display(piece.check, piece.window, piece.update)
    }

    /// Some pieces of data arrived, one after the other, each with the readings of the clock up to
    /// then.
    pub open spec fn take_all(self, data: Seq<(Piece, Seq<u128>)>) -> HandlerView
        decreases data.len(),
    {
        if data.len() == 0 {
            self
        } else {
            self.take_all(data.drop_last()).take(data.last().0).logged(data.last().1)
        }
    }
}

/// A piece of data, with the readings of the clock that go with it: when it is noted, when it is
/// checked whether the shown speed is due for a change, where the interval ends over which that
/// speed is taken, and when it is changed.
pub struct Piece {
    pub size: u64,
    pub sample: u128,
    pub check: u128,
    pub window: u128,
    pub update: u128,
}

/// A piece of data with the readings from the `n`-th on; the last two are there only where the
/// shown speed is due for a change.
pub open spec fn piece_read(size: u64, log: Seq<u128>, n: int) -> Piece {
    Piece { size, sample: log[n], check: log[n + 1], window: log[n + 2], update: log[n + 3] }
}

/// The bytes in some pieces of data.
pub open spec fn sizes(data: Seq<(Piece, Seq<u128>)>) -> nat
    decreases data.len(),
{
    if data.len() == 0 {
        0
    } else {
        sizes(data.drop_last()) + data.last().0.size as nat
    }
}

/// The pieces of data were noted one after the other.
pub open spec fn in_order(data: Seq<(Piece, Seq<u128>)>) -> bool {
    forall|i: int, j: int|
        0 <= i <= j < data.len() ==> (#[trigger] data[i]).0.sample <= (#[trigger] data[j]).0.sample
}

/// After some pieces of data, the number of bytes received is the sum of their sizes, whether or
/// not the shown speed was changed. At most one sample of each piece is left, the byte counts of
/// the samples never fall, and the last one is the number of bytes received. Where the pieces
/// were noted one after the other, the samples are in the order of their times.
pub proof fn every_piece_of_data_is_counted(start: HandlerView, data: Seq<(Piece, Seq<u128>)>)
    requires
        start == HandlerView::start(start.clock),
        sizes(data) <= u64::MAX,
    ensures
        ({
            let state = start.take_all(data);
            &&& state.clock == start.clock
            &&& state.data_received == sizes(data)
            &&& state.samples.len() <= data.len()
            &&& state.samples.len() > 0 ==> state.samples.last() == (
                data.last().0.sample,
                state.data_received,
            )
            &&& forall|i: int, j: int|
                0 <= i <= j < state.samples.len() ==> (#[trigger] state.samples[i]).1 <= (
                #[trigger] state.samples[j]).1
            &&& in_order(data) ==> forall|i: int, j: int|
                0 <= i <= j < state.samples.len() ==> (#[trigger] state.samples[i]).0 <= (
                #[trigger] state.samples[j]).0
        }),
    decreases data.len(),
{
    if data.len() > 0 {
        let front = data.drop_last();
        every_piece_of_data_is_counted(start, front);
        let before = start.take_all(front);
        let piece = data.last().0;
        recent_is_a_suffix(
            before.add(piece.size, piece.sample).samples,
            time_between(SPEED_UPDATE_INTERVAL_NANOS, piece.window),
        );
        if in_order(data) {
            assert(in_order(front)) by {
                assert(forall|i: int| 0 <= i < front.len() ==> #[trigger] front[i] == data[i]);
            }
            if before.samples.len() > 0 {
                assert(data[front.len() - 1].0.sample <= data[data.len() - 1].0.sample);
            }
        }
    }
}

/// Giving up old samples leaves an end piece of the samples.
pub proof fn recent_is_a_suffix(samples: Seq<(u128, u64)>, window_start: u128)
    ensures
        recent(samples, window_start).len() <= samples.len(),
        recent(samples, window_start) == samples.skip(
            samples.len() - recent(samples, window_start).len(),
        ),
    decreases samples.len(),
{
    if samples.len() > 0 && samples[0].0 < window_start {
        recent_is_a_suffix(samples.drop_first(), window_start);
    }
}

/// Where the samples were taken one after the other, exactly those that are not older than
/// `window_start` are left.
pub proof fn recent_are_the_samples_in_the_window(samples: Seq<(u128, u64)>, window_start: u128)
    requires
        forall|i: int, j: int|
            0 <= i <= j < samples.len() ==> (#[trigger] samples[i]).0 <= (#[trigger] samples[j]).0,
    ensures
        forall|i: int|
            0 <= i < samples.len() ==> ((#[trigger] samples[i]).0 >= window_start <==> i
                >= samples.len() - recent(samples, window_start).len()),
        forall|i: int|
            0 <= i < recent(samples, window_start).len() ==> (#[trigger] recent(
                samples,
                window_start,
            )[i]).0 >= window_start,
    decreases samples.len(),
{
    if samples.len() > 0 && samples[0].0 < window_start {
        let rest = samples.drop_first();
        recent_are_the_samples_in_the_window(rest, window_start);
        recent_is_a_suffix(rest, window_start);
        assert forall|i: int| 0 <= i < samples.len() implies ((#[trigger] samples[i]).0
            >= window_start <==> i >= samples.len() - recent(samples, window_start).len()) by {
            if i > 0 {
                assert(rest[i - 1] == samples[i]);
            }
        }
    }
}

/// A speed is taken of data that was received, and of no more, over some time.
pub proof fn speeds_are_of_received_data(state: HandlerView)
    requires
        state.sound(),
    ensures
        speed_over(state.samples) matches Some(speed) ==> 0 < speed.bytes <= state.data_received
            && speed.nanos > 0,
{
    if state.samples.len() > 0 {
        assert(state.samples[0].1 <= state.samples[state.samples.len() - 1].1);
        assert(state.samples.last().1 == state.data_received);
    }
}

/// What is shown next is the current speed from then on; where nothing is, that stays the same.
pub proof fn the_current_speed_is_the_one_shown(
    state: HandlerView,
    check: u128,
    window: u128,
    update: u128,
)
    ensures
        state.display(check, window, update).current_speed == (match state.shown(check, window) {
            DisplayUpdate::Keep => state.current_speed,
            DisplayUpdate::Show { speed } => speed,
        }),
{
}

/// Once the shown speed was changed, it is not changed again before the interval is over.
pub proof fn shown_speed_keeps_for_an_interval(
    state: HandlerView,
    check: u128,
    window: u128,
    update: u128,
    now: u128,
)
    requires
        state.due(check),
        state.display(check, window, update).due(now),
    ensures
        now >= update + SPEED_UPDATE_INTERVAL_NANOS,
{
}

/// No time passes backwards.
pub proof fn time_passes_forwards(start: u128, end: u128)
    ensures
        start <= end ==> start + time_between(start, end) == end,
        end <= start ==> time_between(start, end) == 0,
{
}

/// The speed over some samples is taken from the first to the last of them: the bytes that came in
/// between over the time in between. There is none where no bytes came or no time passed.
pub proof fn speeds_are_bytes_over_time(samples: Seq<(u128, u64)>)
    requires
        samples.len() > 0,
        samples[0].1 <= samples.last().1,
    ensures
        samples[0].1 < samples.last().1 && samples[0].0 < samples.last().0 ==> (speed_over(
            samples,
        ) matches Some(speed) && samples[0].1 + speed.bytes == samples.last().1 && samples[0].0
            + speed.nanos == samples.last().0),
        samples[0].1 == samples.last().1 || samples[0].0 >= samples.last().0 ==> speed_over(
            samples,
        ) is None,
        speed_over(Seq::empty()) is None,
{
}

/// Data adds its size to what was received, and a sample of that at the time at which it came.
/// What is shown stays.
pub proof fn data_is_noted_when_it_comes(state: HandlerView, size: u64, now: u128)
    requires
        state.data_received + size <= u64::MAX,
    ensures
        ({
            let after = state.add(size, now);
            &&& after.data_received == state.data_received + size
            &&& after.samples.len() == state.samples.len() + 1
            &&& after.samples.drop_last() == state.samples
            &&& after.samples.last().0 == now
            &&& after.samples.last().1 == state.data_received + size
            &&& after.current_speed == state.current_speed
            &&& after.last_update == state.last_update
            &&& after.clock == state.clock
            &&& after.readings == state.readings && after.time == state.time
        }),
{
    assert(state.add(size, now).samples.drop_last() == state.samples);
}

/// The shown speed changes exactly if half a second has passed since its last change. It is then
/// that of the data of the last half second: from the first sample in it, here the `k`-th, to the
/// last one, and none where that makes no progress. The samples before are given up, and nothing
/// else changes.
pub proof fn the_shown_speed_is_that_of_the_last_half_second(
    state: HandlerView,
    check: u128,
    window: u128,
    update: u128,
    k: int,
)
    requires
        state.sound(),
        window >= 500_000_000,
        0 <= k <= state.samples.len(),
        forall|i: int|
            0 <= i < k ==> (#[trigger] state.samples[i]).0 + 500_000_000 < window,
        k < state.samples.len() ==> state.samples[k].0 + 500_000_000 >= window,
    ensures
        ({
            let after = state.display(check, window, update);
            let shown = state.shown(check, window);
            let due = state.last_update + 500_000_000 <= check;
            let first = state.samples[k];
            let last = state.samples.last();
            &&& !due ==> after == state && shown == DisplayUpdate::Keep
            &&& due ==> {
                &&& shown is Show
                &&& after.last_update == update
                &&& after.samples == state.samples.skip(k)
                &&& after.data_received == state.data_received
                &&& after.clock == state.clock
                &&& after.readings == state.readings && after.time == state.time
                &&& shown == (DisplayUpdate::Show { speed: after.current_speed })
                &&& k < state.samples.len() && last.1 > first.1 && last.0 > first.0
                    ==> after.current_speed == Some(
                    SpeedRatio {
                        bytes: (last.1 - first.1) as u64,
                        nanos: (last.0 - first.0) as u128,
                    },
                )
                &&& k == state.samples.len() || last.1 == first.1 || last.0 <= first.0
                    ==> after.current_speed is None
            }
        }),
{
    let window_start = time_between(SPEED_UPDATE_INTERVAL_NANOS, window);
    recent_begins_at(state.samples, window_start, k);
    if k < state.samples.len() {
        assert(state.samples.skip(k)[0] == state.samples[k]);
        assert(state.samples.skip(k).last() == state.samples.last());
        assert(state.samples[k].1 <= state.samples[state.samples.len() - 1].1);
    }
}

proof fn recent_begins_at(samples: Seq<(u128, u64)>, window_start: u128, k: int)
    requires
        0 <= k <= samples.len(),
        forall|i: int| 0 <= i < k ==> (#[trigger] samples[i]).0 < window_start,
        k < samples.len() ==> samples[k].0 >= window_start,
    ensures
        recent(samples, window_start) == samples.skip(k),
    decreases samples.len(),
{
    if k > 0 {
        let rest = samples.drop_first();
        assert(samples[0].0 < window_start);
        assert forall|i: int| 0 <= i < k - 1 implies (#[trigger] rest[i]).0 < window_start by {
            assert(rest[i] == samples[i + 1]);
        }
        recent_begins_at(rest, window_start, k - 1);
        assert(rest.skip(k - 1) == samples.skip(k));
    } else {
        assert(samples.skip(0) == samples);
    }
}

/// The readings for a piece of data are taken one after the other, beginning with the `n`-th: none
/// of the readings from there on is before the one that notes the data.
pub proof fn data_is_noted_with_the_first_reading(size: u64, log: Seq<u128>, n: int)
    requires
        0 <= n,
        n + 3 < log.len(),
        forall|i: int, j: int| 0 <= i <= j < log.len() ==> log[i] <= log[j],
    ensures
        ({
            let piece = piece_read(size, log, n);
            &&& piece.size == size
            &&& forall|i: int| n <= i < log.len() ==> piece.sample <= #[trigger] log[i]
            &&& forall|i: int| 0 <= i <= n ==> #[trigger] log[i] <= piece.sample
            &&& piece.sample <= piece.check <= piece.window <= piece.update
            &&& log.subrange(n, n + 4) == seq![
                piece.sample,
                piece.check,
                piece.window,
                piece.update,
            ]
        }),
{
    assert(log[n] <= log[n + 1] && log[n + 1] <= log[n + 2] && log[n + 2] <= log[n + 3]);
}

/// Noting readings keeps all that is known of the data and of what is shown; the time is that of
/// the last reading.
pub proof fn noting_readings_changes_no_data(state: HandlerView, readings: Seq<u128>, now: u128)
    ensures
        ({
            let after = state.logged(readings.push(now));
            &&& after.time == now
            &&& after.readings == readings.push(now)
            &&& after.data_received == state.data_received
            &&& after.samples == state.samples
            &&& after.current_speed == state.current_speed
            &&& after.last_update == state.last_update
            &&& after.clock == state.clock
        }),
{
}

/// A reading of the clock that is not before the last one: where it is, the last one takes its
/// place.
pub fn not_before(raw: u128, last: u128) -> (r: u128)
    ensures
        r == (if raw >= last {
            raw
        } else {
            last
        }),
{
    if raw >= last {
        raw
    } else {
        last
    }
}

/// Measures the speed of a download while it runs.
pub struct DownloadHandler {
    clock: std::time::Instant,
    readings: Ghost<Seq<u128>>,
    time: u128,
    data_received: u64,
    current_speed: Option<SpeedRatio>,
    last_update: u128,
    speed_samples: VecDeque<(u128, u64)>,
}

impl View for DownloadHandler {
    type V = HandlerView;

    closed spec fn view(&self) -> HandlerView {
        HandlerView {
            clock: self.clock,
            readings: self.readings@,
            time: self.time,
            data_received: self.data_received,
            current_speed: self.current_speed,
            last_update: self.last_update,
            samples: self.speed_samples@,
        }
    }
}

impl DownloadHandler {
    /// Starts the clock; nothing was received yet, and no speed is shown.
    pub fn new() -> (r: Self)
        ensures
            r@ == HandlerView::start(r@.clock),
            r@.sound(),
            r@.timely(),
    {
        DownloadHandler {
            clock: instant_now(),
            readings: Ghost(Seq::empty()),
            time: 0,
            data_received: 0,
            current_speed: None,
            last_update: 0,
            speed_samples: VecDeque::new(),
        }
    }

    /// The time since the handler was made, in nanoseconds. It is not before the last reading;
    /// nothing else is known of it.
    pub fn now(&self) -> (r: u128)
        ensures
            r >= self@.time,
    {
        not_before(nanos_since(&self.clock), self.time)
    }

    /// Reads the clock and takes note of the reading.
    pub fn read(&mut self) -> (r: u128)
        requires
            old(self)@.sound(),
        ensures
            final(self)@ == old(self)@.logged(old(self)@.readings.push(r)),
            r >= old(self)@.time,
            final(self)@.sound(),
            old(self)@.timely() ==> final(self)@.timely(),
    {
        let now = self.now();
        self.time = now;
        proof {
            self.readings@ = self.readings@.push(now);
        }
        now
    }

    /// How many bytes were received.
    pub fn data_received(&self) -> (r: u64)
        ensures
            r == self@.data_received,
    {
        self.data_received
    }

    /// The speed that is shown; none is shown as zero.
    pub fn current_speed(&self) -> (r: Option<SpeedRatio>)
        ensures
            r == self@.current_speed,
    {
        self.current_speed
    }

    /// Takes note of `size` bytes that arrived at `now`.
    pub fn add_data_point_at(&mut self, size: u64, now: u128)
        requires
            old(self)@.sound(),
            old(self)@.data_received + size <= u64::MAX,
        ensures
            final(self)@ == old(self)@.add(size, now),
            final(self)@.sound(),
    {
        self.data_received = self.data_received + size;
        self.speed_samples.push_back((now, self.data_received));
    }

    /// Takes note of `size` bytes that have just arrived: the clock is read once.
    pub fn add_data_point(&mut self, size: u64)
        requires
            old(self)@.sound(),
            old(self)@.data_received + size <= u64::MAX,
        ensures
            grows(old(self)@.readings, final(self)@.readings, 1),
            final(self)@ == old(self)@.add(size, final(self)@.readings.last()).logged(
                final(self)@.readings,
            ),
            final(self)@.sound(),
            old(self)@.timely() ==> final(self)@.timely(),
    {
        let now = self.read();
        self.add_data_point_at(size, now);
    }

    /// Gives up the samples that are older than `window_start`.
    pub fn cleanup_old_samples(&mut self, window_start: u128)
        requires
            old(self)@.sound(),
        ensures
            final(self)@ == old(self)@.cleanup(window_start),
            final(self)@.sound(),
            old(self)@.timely() ==> final(self)@.timely(),
    {
        while self.speed_samples.len() > 0 && self.speed_samples[0].0 < window_start
            invariant
                self@.sound(),
                old(self)@.timely() ==> self@.timely(),
                old(self)@.cleanup(window_start) == self@.cleanup(window_start),
            decreases self.speed_samples.len(),
        {
            let ghost before = self@;
            let _ = self.speed_samples.pop_front();
            assert(self@.samples == before.samples.drop_first());
        }
    }

    /// The speed between the first and the last sample.
    pub fn calculate_speed(&self) -> (r: Option<SpeedRatio>)
        requires
            self@.sound(),
        ensures
            r == speed_over(self@.samples),
    {
        let n = self.speed_samples.len();
        if n == 0 {
            return None;
        }
        let first = self.speed_samples[0];
        let last = self.speed_samples[n - 1];
        assert(self@.samples[0].1 <= self@.samples[n - 1].1);
        let bytes = last.1 - first.1;
        let nanos = elapsed_between(first.0, last.0);
        if bytes == 0 || nanos == 0 {
            None
        } else {
            Some(SpeedRatio { bytes, nanos })
        }
    }

    /// Whether the shown speed is due for a change at `now`.
    pub fn should_update_display_at(&self, now: u128) -> (r: bool)
        ensures
            r == self@.due(now),
    {
        elapsed_between(self.last_update, now) >= SPEED_UPDATE_INTERVAL_NANOS
    }

    /// Whether the shown speed is due for a change.
    pub fn should_update_display(&self) -> (r: bool)
        ensures
            exists|now: u128| now >= self@.time && r == #[trigger] self@.due(now),
            self@.due(self@.time) ==> r,
    {
        let now = self.now();
        self.should_update_display_at(now)
    }

    /// Whether the shown speed is due for a change: the clock is read once, and the reading noted.
    pub fn display_due(&mut self) -> (r: bool)
        requires
            old(self)@.sound(),
        ensures
            grows(old(self)@.readings, final(self)@.readings, 1),
            final(self)@ == old(self)@.logged(final(self)@.readings),
            r == old(self)@.due(final(self)@.readings.last()),
            final(self)@.sound(),
            old(self)@.timely() ==> final(self)@.timely(),
    {
        let now = self.read();
        self.should_update_display_at(now)
    }

    /// Changes the shown speed if that is due, with these readings of the clock.
    pub fn update_display_at(&mut self, check: u128, window: u128, update: u128) -> (r:
        DisplayUpdate)
        requires
            old(self)@.sound(),
        ensures
            final(self)@ == old(self)@.display(check, window, update),
            final(self)@.sound(),
            r == old(self)@.shown(check, window),
    {
        if self.should_update_display_at(check) {
            let speed = self.recent_speed(window);
            self.current_speed = speed;
            self.last_update = update;
            DisplayUpdate::Show { speed }
        } else {
            DisplayUpdate::Keep
        }
    }

    /// Gives up the samples before the interval that ends at `window`; the speed of the others.
    fn recent_speed(&mut self, window: u128) -> (r: Option<SpeedRatio>)
        requires
            old(self)@.sound(),
        ensures
            final(self)@ == old(self)@.cleanup(time_between(SPEED_UPDATE_INTERVAL_NANOS, window)),
            final(self)@.sound(),
            old(self)@.timely() ==> final(self)@.timely(),
            r == speed_over(final(self)@.samples),
    {
        let window_start = elapsed_between(SPEED_UPDATE_INTERVAL_NANOS, window);
        self.cleanup_old_samples(window_start);
        self.calculate_speed()
    }

    /// Changes the shown speed if that is due. The clock is read to check that and, if it is due,
    /// for the end of the interval and for the time of the change.
    pub fn update_display(&mut self) -> (r: DisplayUpdate)
        requires
            old(self)@.sound(),
        ensures
            ({
                let n = old(self)@.readings.len() as int;
                let log = final(self)@.readings;
                let due = old(self)@.due(log[n]);
                &&& grows(
                    old(self)@.readings,
                    log,
                    if due {
                        3
                    } else {
                        1
                    },
                )
                &&& final(self)@ == old(self)@.display(log[n], log[n + 1], log[n + 2]).logged(log)
                &&& r == old(self)@.shown(log[n], log[n + 1])
            }),
            final(self)@.sound(),
            old(self)@.timely() ==> final(self)@.timely(),
    {
        if self.display_due() {
            let window = self.read();
            let speed = self.recent_speed(window);
            self.current_speed = speed;
            let update = self.read();
            self.last_update = update;
            DisplayUpdate::Show { speed }
        } else {
            DisplayUpdate::Keep
        }
    }

    /// Takes note of `size` bytes, with these readings of the clock, and says what is shown then.
    pub fn update_data_received_at(
        &mut self,
        size: u64,
        sample: u128,
        check: u128,
        window: u128,
        update: u128,
    ) -> (r: DisplayUpdate)
        requires
            old(self)@.sound(),
            old(self)@.data_received + size <= u64::MAX,
        ensures
            final(self)@ == old(self)@.take(Piece { size, sample, check, window, update }),
            final(self)@.sound(),
            r == old(self)@.add(size, sample).shown(check, window),
    {
        self.add_data_point_at(size, sample);
        self.update_display_at(check, window, update)
    }

    /// Takes note of `size` bytes that have just arrived, and says what is shown then. The clock
    /// is read to note the data, and then as often as changing the shown speed takes.
    pub fn update_data_received(&mut self, size: u64) -> (r: DisplayUpdate)
        requires
            old(self)@.sound(),
            old(self)@.data_received + size <= u64::MAX,
        ensures
            ({
                let n = old(self)@.readings.len() as int;
                let log = final(self)@.readings;
                let piece = piece_read(size, log, n);
                let due = old(self)@.due(piece.check);
                &&& grows(
                    old(self)@.readings,
                    log,
                    if due {
                        4
                    } else {
                        2
                    },
                )
                &&& final(self)@ == old(self)@.take(piece).logged(log)
                &&& r == old(self)@.add(size, piece.sample).shown(piece.check, piece.window)
            }),
            final(self)@.sound(),
            old(self)@.timely() ==> final(self)@.timely(),
    {
        self.add_data_point(size);
        let ghost noted = self@.readings;
        let r = self.update_display();
        assert(self@.readings.take(noted.len() as int)[noted.len() - 1] == noted.last());
        r
    }
}

} // verus!
