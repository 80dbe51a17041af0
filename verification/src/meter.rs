//! What is known about the meter: the recent samples, the latest value and the latest failure,
//! and how each fetch changes them.
use crate::text::join;
use crate::watts::{highest, is_highest, is_lowest, lemma_extremes_occur, lowest, Watts};
use std::collections::VecDeque;
use vstd::prelude::*;

verus! {

/// The number of samples that are kept: one hour at one sample per second.
pub const BUF_SIZE: usize = 60 * 60;

/// Where the sample counter stops (two to the power 53): samples are drawn at doubles, and from
/// here on adding one to a double no longer changes it.
pub const COUNTER_END: u64 = 0x0020_0000_0000_0000;

/// The pause between two fetches, in seconds.
pub const FETCH_PERIOD_SECS: u64 = 1;

/// How long one request may take, in seconds.
pub const REQUEST_TIMEOUT_SECS: u64 = 2;

/// The part of the meter's reply that is used.
#[derive(Clone, Copy, Debug, PartialEq, Eq, Structural)]
pub struct P1Data {
    pub active_power_w: Watts,
}

/// One recorded sample: its number, and the power.
#[derive(Clone, Copy, Debug, PartialEq, Eq, Structural)]
pub struct Sample {
    pub x: u64,
    pub y: Watts,
}

/// How one step of fetching went. The texts describe the failure.
#[derive(Debug)]
pub enum Fetch {
    /// There is no HTTP client.
    NoClient(String),
    /// The request was not answered.
    RequestFailed(String),
    /// The answer could not be read.
    ParseFailed(String),
    /// The meter's answer.
    Data(P1Data),
}

/// What the fetching thread does next.
#[derive(Clone, Copy, Debug, PartialEq, Eq, Structural)]
pub enum Next {
    /// Ends.
    Stop,
    /// Waits so many seconds and fetches again.
    FetchAfter(u64),
}

/// The counter after one more sample.
pub open spec fn counter_after(x: nat) -> nat {
    if x < COUNTER_END {
        x + 1
    } else {
        x
    }
}

/// The number of the sample that comes `n` samples after number `x`.
pub open spec fn counted(x: nat, n: nat) -> nat {
    if x + n < COUNTER_END {
        x + n
    } else {
        COUNTER_END as nat
    }
}

/// The model of `AppState`.
#[verifier::ext_equal]
pub struct Meter {
    pub points: Seq<Sample>,
    pub error: Option<Seq<char>>,
    pub latest: Option<Watts>,
    pub next_x: nat,
}

/// The model of `Fetch`.
#[verifier::ext_equal]
pub enum Outcome {
    NoClient(Seq<char>),
    RequestFailed(Seq<char>),
    ParseFailed(Seq<char>),
    Data(Watts),
}

impl View for Fetch {
    type V = Outcome;

    open spec fn view(&self) -> Outcome {
        match self {
            Fetch::NoClient(reason) => Outcome::NoClient(reason@),
            Fetch::RequestFailed(reason) => Outcome::RequestFailed(reason@),
            Fetch::ParseFailed(reason) => Outcome::ParseFailed(reason@),
            Fetch::Data(data) => Outcome::Data(data.active_power_w),
        }
    }
}

impl Outcome {
    /// What is shown of a failed fetch; nothing for a fetch that gave data.
    pub open spec fn message(self) -> Option<Seq<char>> {
        match self {
            Outcome::NoClient(reason) => Some("Failed to build HTTP client: "@ + reason),
            Outcome::RequestFailed(reason) => Some("Request error: "@ + reason),
            Outcome::ParseFailed(reason) => Some("Parse error: "@ + reason),
            Outcome::Data(_) => None,
        }
    }

    /// What the fetching thread does next.
    pub open spec fn next(self) -> Next {
        match self {
            Outcome::NoClient(_) => Next::Stop,
            _ => Next::FetchAfter(FETCH_PERIOD_SECS),
        }
    }
}

impl Meter {
    /// Nothing fetched yet.
    pub open spec fn fresh() -> Meter {
        Meter { points: Seq::empty(), error: None, latest: None, next_x: 0 }
    }

    /// What holds at all times. The window is bounded; the samples in it are numbered without a
    /// gap up to the counter's end; nothing is missing before the window is full; and the latest
    /// value is the newest sample.
    pub open spec fn valid(self) -> bool {
        &&& self.points.len() <= BUF_SIZE
        &&& self.points.len() == 0 ==> self.next_x == 0 && self.latest is None
        &&& self.points.len() > 0 ==> {
            &&& self.points[0].x <= COUNTER_END
            &&& self.next_x == counted(self.points[0].x as nat, self.points.len())
            &&& self.latest == Some(self.points.last().y)
        }
        &&& 0 < self.points.len() < BUF_SIZE ==> self.points[0].x == 0
        &&& forall|i: int|
            0 <= i < self.points.len() ==> (#[trigger] self.points[i]).x == counted(
                self.points[0].x as nat,
                i as nat,
            )
    }

    /// The window once there is room for one more sample: a full one loses its oldest sample.
    pub open spec fn with_room(self) -> Seq<Sample> {
        if self.points.len() >= BUF_SIZE {
            self.points.drop_first()
        } else {
            self.points
        }
    }

    /// The effect of one fetch.
    pub open spec fn after(self, outcome: Outcome) -> Meter {
        match outcome {
            Outcome::Data(power) => Meter {
                points: self.with_room().push(Sample { x: self.next_x as u64, y: power }),
                error: None,
                latest: Some(power),
                next_x: counter_after(self.next_x),
            },
            _ => Meter { error: outcome.message(), ..self },
        }
    }

    /// The effect of a series of fetches.
    pub open spec fn after_all(self, outcomes: Seq<Outcome>) -> Meter
        decreases outcomes.len(),
    {
        if outcomes.len() == 0 {
            self
        } else {
            self.after_all(outcomes.drop_last()).after(outcomes.last())
        }
    }

    /// The power values of the window, oldest first.
    pub open spec fn readings(self) -> Seq<Watts> {
        self.points.map_values(|p: Sample| p.y)
    }
}

/// The state that the fetching thread writes and the user interface reads.
pub struct AppState {
    data_points: VecDeque<Sample>,
    last_error: Option<String>,
    last_value: Option<Watts>,
    next_x: u64,
}

impl View for AppState {
    type V = Meter;

    closed spec fn view(&self) -> Meter {
        Meter {
            points: self.data_points@,
            error: match self.last_error {
                Some(message) => Some(message@),
                None => None,
            },
            latest: self.last_value,
            next_x: self.next_x as nat,
        }
    }
}

impl AppState {
    /// Whether the state is one that fetching can lead to.
    pub open spec fn wf(&self) -> bool {
        self@.valid()
    }

    /// The state before the first fetch.
    pub fn new() -> (state: AppState)
        ensures
            state.wf(),
            state@ == Meter::fresh(),
    {
        AppState {
            data_points: VecDeque::with_capacity(BUF_SIZE),
            last_error: None,
            last_value: None,
            next_x: 0,
        }
    }

    /// Takes in how a fetch went, and says what the fetching thread does next.
    pub fn apply(&mut self, fetch: Fetch) -> (next: Next)
        requires
            old(self).wf(),
        ensures
            final(self).wf(),
            final(self)@ == old(self)@.after(fetch@),
            next == fetch@.next(),
    {
        proof {
            law_every_fetch_keeps_the_state_valid(old(self)@, fetch@);
        }
        match fetch {
            Fetch::NoClient(reason) => {
                self.last_error = Some(join("Failed to build HTTP client: ", reason.as_str()));
                Next::Stop
            },
            Fetch::RequestFailed(reason) => {
                self.last_error = Some(join("Request error: ", reason.as_str()));
                Next::FetchAfter(FETCH_PERIOD_SECS)
            },
            Fetch::ParseFailed(reason) => {
                self.last_error = Some(join("Parse error: ", reason.as_str()));
                Next::FetchAfter(FETCH_PERIOD_SECS)
            },
            Fetch::Data(data) => {
                self.last_error = None;
                self.last_value = Some(data.active_power_w);
                if self.data_points.len() >= BUF_SIZE {
                    self.data_points.pop_front();
                }
                let x = self.next_x;
                self.data_points.push_back(Sample { x, y: data.active_power_w });
                if self.next_x < COUNTER_END {
                    self.next_x = self.next_x + 1;
                }
                Next::FetchAfter(FETCH_PERIOD_SECS)
            },
        }
    }
}

/// Every fetch leads from a valid state to a valid state.
pub proof fn law_every_fetch_keeps_the_state_valid(meter: Meter, outcome: Outcome)
    requires
        meter.valid(),
    ensures
        meter.after(outcome).valid(),
{
    if let Outcome::Data(power) = outcome {
        let after = meter.after(outcome);
        let room = meter.with_room();
        assert forall|i: int| 0 <= i < after.points.len() implies (#[trigger] after.points[i]).x
            == counted(after.points[0].x as nat, i as nat) by {
            if i < room.len() {
                if meter.points.len() >= BUF_SIZE {
                    assert(room[i] == meter.points[i + 1]);
                    assert(room[0] == meter.points[1]);
                } else {
                    assert(room[i] == meter.points[i]);
                }
            } else if room.len() > 0 && meter.points.len() >= BUF_SIZE {
                assert(room[0] == meter.points[1]);
            }
        }
        if meter.points.len() >= BUF_SIZE {
            assert(room[0] == meter.points[1]);
        }
    }
}

/// The power values among the outcomes of a series of fetches, in their order.
pub open spec fn data_of(outcomes: Seq<Outcome>) -> Seq<Watts>
    decreases outcomes.len(),
{
    if outcomes.len() == 0 {
        Seq::empty()
    } else {
        let before = data_of(outcomes.drop_last());
        match outcomes.last() {
            Outcome::Data(power) => before.push(power),
            _ => before,
        }
    }
}

/// What a series of fetches leaves behind: the most recent samples, as many as fit, in order and
/// numbered by their place among all samples ever taken; the value of the last sample; and the
/// message of the last fetch if that one failed.
pub proof fn law_window_holds_the_latest_samples(outcomes: Seq<Outcome>)
    ensures
        ({
            let meter = Meter::fresh().after_all(outcomes);
            let data = data_of(outcomes);
            let kept = if data.len() <= BUF_SIZE {
                data.len()
            } else {
                BUF_SIZE as nat
            };
            let dropped = (data.len() - kept) as nat;
            &&& meter.valid()
            &&& meter.points.len() == kept
            &&& meter.readings() == data.skip(dropped as int)
            &&& forall|i: int|
                0 <= i < kept ==> (#[trigger] meter.points[i]).x == counted(0, (dropped + i) as nat)
            &&& meter.next_x == counted(0, data.len())
            &&& meter.latest == if data.len() == 0 {
                None
            } else {
                Some(data.last())
            }
            &&& meter.error == if outcomes.len() == 0 {
                None
            } else {
                outcomes.last().message()
            }
        }),
    decreases outcomes.len(),
{
    if outcomes.len() == 0 {
        assert(Meter::fresh().readings() == Seq::<Watts>::empty().skip(0));
    } else {
        let before = outcomes.drop_last();
        law_window_holds_the_latest_samples(before);
        let old = Meter::fresh().after_all(before);
        let meter = old.after(outcomes.last());
        law_every_fetch_keeps_the_state_valid(old, outcomes.last());
        if let Outcome::Data(power) = outcomes.last() {
            let was = data_of(before);
            let data = was.push(power);
            assert(data_of(outcomes) == data);
            assert(meter.points.len() == if data.len() <= BUF_SIZE {
                data.len()
            } else {
                BUF_SIZE as nat
            });
            assert forall|i: int| 0 <= i < meter.points.len() implies #[trigger] meter.points[i] == (
            Sample {
                x: counted(0, (data.len() - meter.points.len() + i) as nat) as u64,
                y: data[data.len() - meter.points.len() + i],
            }) by {
                if i < meter.points.len() - 1 {
                    let k = if old.points.len() >= BUF_SIZE {
                        i + 1
                    } else {
                        i
                    };
                    assert(meter.points[i] == old.points[k]);
                    assert(old.readings()[k] == old.points[k].y);
                }
            }
            assert(meter.readings() == data.skip(data.len() - meter.points.len()));
        }
    }
}

/// A fetch that fails is reported and changes nothing else; one that succeeds withdraws the
/// report.
pub proof fn law_failure_keeps_the_samples(meter: Meter, outcome: Outcome)
    ensures
        outcome.message() is Some ==> {
            let after = meter.after(outcome);
            &&& after.error == outcome.message()
            &&& after.points == meter.points
            &&& after.latest == meter.latest
            &&& after.next_x == meter.next_x
        },
        outcome.message() is None ==> meter.after(outcome).error is None,
{
}

/// One sample placed on the time axis: its distance in samples from an origin, and the power.
#[derive(Clone, Copy, Debug, PartialEq, Eq, Structural)]
pub struct Point {
    pub x: i64,
    pub y: Watts,
}

/// The samples on a time axis on which the newest one stands at `origin`.
pub open spec fn placed(points: Seq<Sample>, origin: int) -> Seq<Point> {
    Seq::new(
        points.len(),
        |i: int| Point { x: (points[i].x - points.last().x + origin) as i64, y: points[i].y },
    )
}

/// The newest sample stands at the origin and no sample stands to its right; as long as the
/// counter has not reached its end, each sample stands one to the left of the next one.
pub proof fn law_newest_sample_stands_at_the_origin(meter: Meter, origin: i32, i: int)
    requires
        meter.valid(),
        0 <= i < meter.points.len(),
    ensures
        ({
            let axis = placed(meter.points, origin as int);
            let steps = meter.points.len() - 1 - i;
            &&& axis.last().x == origin
            &&& origin - steps <= axis[i].x <= origin
            &&& meter.points.last().x < COUNTER_END ==> axis[i].x == origin - steps
        }),
{
    assert(meter.points.last() == meter.points[meter.points.len() - 1]);
}

/// What the status line is about.
#[derive(Debug)]
pub enum Status {
    /// The last fetch failed, with this message.
    Failure(String),
    /// There are samples.
    Live(Live),
    /// Nothing has been fetched yet.
    Waiting,
}

/// The figures of the samples in the window.
#[derive(Debug)]
pub struct Live {
    /// The newest value.
    pub current: Watts,
    /// The least value.
    pub min: Watts,
    /// The greatest value.
    pub max: Watts,
    /// All values, oldest first: their mean is the average.
    pub readings: Vec<Watts>,
    /// The length of the window in whole minutes.
    pub minutes: usize,
}

impl Live {
    /// The figures belong to these samples.
    pub open spec fn describes(self, meter: Meter) -> bool {
        &&& meter.latest == Some(self.current)
        &&& self.readings@ == meter.readings()
        &&& is_lowest(meter.readings(), self.min)
        &&& is_highest(meter.readings(), self.max)
        &&& self.minutes == meter.points.len() / 60
    }
}

impl Status {
    /// The status belongs to this state: a failure comes first, then the samples.
    pub open spec fn describes(self, meter: Meter) -> bool {
        match self {
            Status::Failure(message) => meter.error == Some(message@),
            Status::Live(live) => meter.error is None && live.describes(meter),
            Status::Waiting => meter.error is None && meter.latest is None,
        }
    }
}

/// The current value is one of the samples: it lies between the least and the greatest, there is
/// an average to take, and the window is at most an hour.
pub proof fn law_figures_fit_together(meter: Meter, live: Live)
    requires
        meter.valid(),
        live.describes(meter),
    ensures
        live.readings@.len() > 0,
        live.readings@.last() == live.current,
        !live.current.is_nan() ==> live.min.units() <= live.current.units() <= live.max.units(),
        live.minutes <= 60,
{
    let last = meter.points.len() - 1;
    assert(meter.readings()[last] == live.current);
}

impl AppState {
    /// The power values, oldest first.
    pub fn readings(&self) -> (readings: Vec<Watts>)
        ensures
            readings@ == self@.readings(),
    {
        let mut readings: Vec<Watts> = Vec::new();
        for i in 0..self.data_points.len()
            invariant
                readings@ == self@.readings().take(i as int),
        {
            readings.push(self.data_points[i].y);
        }
        readings
    }

    /// The samples on a time axis on which the newest one stands at `origin`.
    pub fn points_at(&self, origin: i32) -> (points: Vec<Point>)
        requires
            self.wf(),
        ensures
            points@ == placed(self@.points, origin as int),
    {
        let mut points: Vec<Point> = Vec::new();
        let len = self.data_points.len();
        if len > 0 {
            let latest_x: u64 = self.data_points[len - 1].x;
            for i in 0..len
                invariant
                    self.wf(),
                    0 < len == self@.points.len(),
                    latest_x == self@.points.last().x,
                    points@ == placed(self@.points, origin as int).take(i as int),
            {
                let sample = self.data_points[i];
                proof {
                    assert(self@.points[i as int].x <= COUNTER_END);
                    assert(self@.points[len - 1].x <= COUNTER_END);
                }
                let x: i64 = sample.x as i64 - latest_x as i64 + origin as i64;
                points.push(Point { x, y: sample.y });
            }
        }
        points
    }

    /// What the status line is about.
    pub fn status(&self) -> (status: Status)
        requires
            self.wf(),
        ensures
            status.describes(self@),
    {
        if let Some(message) = &self.last_error {
            Status::Failure(message.clone())
        } else if let Some(current) = self.last_value {
            let readings = self.readings();
            let min = lowest(&readings);
            let max = highest(&readings);
            let minutes: usize = self.data_points.len() / 60;
            Status::Live(Live { current, min, max, readings, minutes })
        } else {
            Status::Waiting
        }
    }
}

/// Fetching ends if and only if there is no HTTP client. Whatever the meter reports and however a
/// request fails, the next fetch follows after one second.
pub proof fn law_fetching_ends_only_without_a_client(outcome: Outcome)
    ensures
        outcome.next() == Next::Stop <==> outcome is NoClient,
        outcome !is NoClient ==> outcome.next() == Next::FetchAfter(1),
{
}

/// What comes next depends on the kind of outcome alone: not on the power, not on the reason.
pub proof fn law_power_and_reason_do_not_change_the_pace(
    a: Watts,
    b: Watts,
    r: Seq<char>,
    s: Seq<char>,
)
    ensures
        Outcome::Data(a).next() == Outcome::Data(b).next(),
        Outcome::Data(a).next() == Outcome::RequestFailed(r).next(),
        Outcome::RequestFailed(r).next() == Outcome::ParseFailed(s).next(),
        Outcome::NoClient(r).next() == Outcome::NoClient(s).next(),
        Outcome::NoClient(r).next() != Outcome::Data(a).next(),
{
}

/// The model of a fetch keeps the power and the reason as they are.
pub proof fn law_fetch_is_taken_as_it_is(fetch: Fetch)
    ensures
        match fetch {
            Fetch::NoClient(reason) => fetch@ == Outcome::NoClient(reason@),
            Fetch::RequestFailed(reason) => fetch@ == Outcome::RequestFailed(reason@),
            Fetch::ParseFailed(reason) => fetch@ == Outcome::ParseFailed(reason@),
            Fetch::Data(data) => fetch@ == Outcome::Data(data.active_power_w),
        },
{
}

/// A message is the kind of failure followed by the whole reason; data has none.
pub proof fn law_message_ends_with_the_reason(reason: Seq<char>, power: Watts)
    ensures
        Outcome::NoClient(reason).message() matches Some(m) && m.take(29)
            == "Failed to build HTTP client: "@ && m.skip(29) == reason,
        Outcome::RequestFailed(reason).message() matches Some(m) && m.take(15) == "Request error: "@
            && m.skip(15) == reason,
        Outcome::ParseFailed(reason).message() matches Some(m) && m.take(13) == "Parse error: "@
            && m.skip(13) == reason,
        Outcome::Data(power).message() is None,
{
    reveal_strlit("Failed to build HTTP client: ");
    reveal_strlit("Request error: ");
    reveal_strlit("Parse error: ");
}

/// Data becomes the newest sample, under the next number and with its own power. The samples
/// before it stay in their order; the oldest leaves if and only if there were 3600.
pub proof fn law_data_becomes_the_newest_sample(meter: Meter, power: Watts)
    requires
        meter.valid(),
    ensures
        ({
            let after = meter.after(Outcome::Data(power));
            let leaving: int = if meter.points.len() == 3600 {
                1
            } else {
                0
            };
            &&& after.points.len() == meter.points.len() + 1 - leaving
            &&& after.points.last().y == power
            &&& after.points.last().x == meter.next_x
            &&& forall|i: int|
                0 <= i < after.points.len() - 1 ==> #[trigger] after.points[i] == meter.points[i
                    + leaving]
            &&& after.latest == Some(power)
            &&& after.error is None
            &&& meter.next_x < 0x20_0000_0000_0000 ==> after.next_x == meter.next_x + 1
            &&& meter.next_x >= 0x20_0000_0000_0000 ==> after.next_x == meter.next_x
        }),
{
}

/// A failed fetch leaves its message and changes nothing else.
pub proof fn law_failed_fetch_leaves_its_message(meter: Meter, outcome: Outcome)
    requires
        outcome !is Data,
    ensures
        meter.after(outcome).error is Some,
        meter.after(outcome).error == outcome.message(),
        meter.after(outcome).points == meter.points,
        meter.after(outcome).latest == meter.latest,
        meter.after(outcome).next_x == meter.next_x,
{
}

/// A series of fetches is its fetches one after the other, and its data are the powers that came
/// in, each of them once and in their order.
pub proof fn law_series_is_taken_fetch_by_fetch(meter: Meter, outcomes: Seq<Outcome>, next: Outcome)
    ensures
        meter.after_all(Seq::empty()) == meter,
        meter.after_all(outcomes.push(next)) == meter.after_all(outcomes).after(next),
        data_of(Seq::empty()) == Seq::<Watts>::empty(),
        next matches Outcome::Data(power) ==> data_of(outcomes.push(next)) == data_of(outcomes).push(
            power,
        ),
        next !is Data ==> data_of(outcomes.push(next)) == data_of(outcomes),
{
    assert(outcomes.push(next).drop_last() == outcomes);
}

/// Counting on goes by ones up to two to the power 53 and stays there.
pub proof fn law_counter_counts_up_to_its_end(x: nat, n: nat)
    ensures
        x + n <= 0x20_0000_0000_0000 ==> counted(x, n) == x + n,
        x + n >= 0x20_0000_0000_0000 ==> counted(x, n) == 0x20_0000_0000_0000,
        x < 0x20_0000_0000_0000 ==> counter_after(x) == x + 1,
        x >= 0x20_0000_0000_0000 ==> counter_after(x) == x,
{
}

/// In every valid state at most 3600 samples are kept, any two of them stand as many numbers apart
/// as they stand places apart (until the counter ends), the next number follows the newest sample,
/// and the latest value is the power of the newest sample.
pub proof fn law_samples_are_numbered_without_a_gap(meter: Meter, i: int, j: int)
    requires
        meter.valid(),
        0 <= i <= j < meter.points.len(),
    ensures
        meter.points.len() <= 3600,
        meter.points[i].x <= meter.points[j].x <= 0x20_0000_0000_0000,
        meter.points[j].x < 0x20_0000_0000_0000 ==> meter.points[j].x - meter.points[i].x == j - i,
        meter.points[meter.points.len() - 1].x < 0x20_0000_0000_0000 ==> meter.next_x
            == meter.points[meter.points.len() - 1].x + 1,
        meter.points.len() < 3600 ==> meter.points[0].x == 0,
        meter.latest == Some(meter.points[meter.points.len() - 1].y),
{
}

/// The readings of a state are the powers of its samples, one for one.
pub proof fn law_readings_are_the_powers(meter: Meter)
    ensures
        meter.readings().len() == meter.points.len(),
        forall|i: int|
            0 <= i < meter.points.len() ==> #[trigger] meter.readings()[i] == meter.points[i].y,
{
}

/// Every sample is placed, in its order and with its own power: the powers of the placed points
/// are the readings, and the point at the right end carries the latest value.
pub proof fn law_placed_points_keep_their_powers(meter: Meter, origin: i32)
    requires
        meter.valid(),
    ensures
        ({
            let axis = placed(meter.points, origin as int);
            &&& axis.len() == meter.points.len()
            &&& axis.map_values(|p: Point| p.y) == meter.readings()
            &&& forall|i: int| 0 <= i < axis.len() ==> (#[trigger] axis[i]).y == meter.points[i].y
            &&& axis.len() > 0 ==> axis.last().x == origin && meter.latest == Some(axis.last().y)
        }),
{
    let axis = placed(meter.points, origin as int);
    assert(axis.map_values(|p: Point| p.y) =~= meter.readings());
    if axis.len() > 0 {
        law_newest_sample_stands_at_the_origin(meter, origin, axis.len() - 1);
    }
}

/// Placing keeps all distances: two points stand as far apart as the numbers of their samples, and
/// another origin moves every point by the same amount.
pub proof fn law_placing_keeps_distances(meter: Meter, a: i32, b: i32, i: int, j: int)
    requires
        meter.valid(),
        0 <= i < meter.points.len(),
        0 <= j < meter.points.len(),
    ensures
        placed(meter.points, a as int)[i].x - placed(meter.points, a as int)[j].x
            == meter.points[i].x - meter.points[j].x,
        placed(meter.points, a as int)[i].x - placed(meter.points, b as int)[i].x == a - b,
        placed(meter.points, a as int)[i].y == placed(meter.points, b as int)[i].y,
{
    assert(meter.points.last() == meter.points[meter.points.len() - 1]);
}

/// The status is about a failure if and only if the last fetch failed, and about the samples if
/// and only if it did not and there are some. The figures are those of the samples: the newest
/// power, all powers, a least and a greatest one among them, and the whole minutes at one sample
/// per second.
pub proof fn law_status_tells_what_is_known(meter: Meter, status: Status)
    requires
        meter.valid(),
        status.describes(meter),
    ensures
        status is Failure <==> meter.error is Some,
        status is Live <==> meter.error is None && meter.points.len() > 0,
        status is Waiting <==> meter.error is None && meter.points.len() == 0,
        status matches Status::Failure(message) ==> meter.error == Some(message@),
        status matches Status::Live(live) ==> {
            &&& live.current == meter.points.last().y
            &&& live.readings@.len() == meter.points.len()
            &&& forall|i: int|
                0 <= i < meter.points.len() ==> #[trigger] live.readings@[i] == meter.points[i].y
            &&& 60 * live.minutes <= meter.points.len() < 60 * live.minutes + 60
            &&& !live.min.is_nan() && !live.max.is_nan()
            &&& forall|i: int|
                0 <= i < meter.points.len() && !(#[trigger] meter.points[i]).y.is_nan()
                    ==> live.min.units() <= meter.points[i].y.units() <= live.max.units()
            &&& (exists|i: int|
                0 <= i < meter.points.len() && !(#[trigger] meter.points[i]).y.is_nan()) ==> {
                &&& exists|i: int|
                    0 <= i < meter.points.len() && (#[trigger] meter.points[i]).y == live.min
                &&& exists|i: int|
                    0 <= i < meter.points.len() && (#[trigger] meter.points[i]).y == live.max
            }
        },
{
    if let Status::Live(live) = status {
        let readings = meter.readings();
        assert forall|i: int| 0 <= i < meter.points.len() implies #[trigger] readings[i]
            == meter.points[i].y by {}
        assert forall|i: int|
            0 <= i < meter.points.len() && !(#[trigger] meter.points[i]).y.is_nan() implies live.min.units()
            <= meter.points[i].y.units() <= live.max.units() by {
            assert(!readings[i].is_nan());
        }
        if exists|i: int| 0 <= i < meter.points.len() && !(#[trigger] meter.points[i]).y.is_nan() {
            let n = choose|i: int|
                0 <= i < meter.points.len() && !(#[trigger] meter.points[i]).y.is_nan();
            assert(!readings[n].is_nan());
            lemma_extremes_occur(readings, live.min, live.max, n);
            let a = choose|k: int| 0 <= k < readings.len() && #[trigger] readings[k] == live.min;
            let b = choose|k: int| 0 <= k < readings.len() && #[trigger] readings[k] == live.max;
            assert(meter.points[a].y == live.min);
            assert(meter.points[b].y == live.max);
        }
    }
}

/// The pauses: a second between two fetches, two seconds for a request.
pub proof fn law_fetching_pace()
    ensures
        FETCH_PERIOD_SECS == 1,
        REQUEST_TIMEOUT_SECS == 2,
{
}

} // verus!
