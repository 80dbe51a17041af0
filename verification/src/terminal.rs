//! The text interface: the two panes of the screen and what the chart in the upper one shows.
use crate::chart::{
    flow, flow_of, law_power_axis_is_scaled_by_a_reading, power_axis, Flow, PowerAxis,
};
use crate::meter::{placed, AppState, Meter, Point};
use crate::text::{
    decimal, decimal_text, decimal_value, join, law_decimal_is_plain, law_decimal_reads_back,
};
use vstd::prelude::*;

verus! {

/// The rows of the status pane, its border included.
pub const STATUS_ROWS: u16 = 3;

/// The columns that the border of the chart takes.
pub const BORDER_COLUMNS: u16 = 2;

/// The least time that the chart shows, in seconds.
pub const LEAST_SPAN: u16 = 10;

/// A rectangle of character cells.
#[derive(Clone, Copy, Debug, PartialEq, Eq, Structural)]
pub struct Area {
    pub x: u16,
    pub y: u16,
    pub width: u16,
    pub height: u16,
}

/// The lesser of two numbers.
pub open spec fn lesser(a: int, b: int) -> int {
    if a <= b {
        a
    } else {
        b
    }
}

/// The part of a height that lies above the last addressable row.
pub open spec fn rows_of(area: Area) -> int {
    lesser(area.height as int, u16::MAX - area.y)
}

/// The area above the lowest `rows` rows.
pub open spec fn upper(area: Area, rows: int) -> Area {
    Area { height: (rows_of(area) - lesser(rows, rows_of(area))) as u16, ..area }
}

/// The lowest `rows` rows of an area, or all of them if there are fewer.
pub open spec fn lower(area: Area, rows: int) -> Area {
    Area {
        y: (area.y + rows_of(area) - lesser(rows, rows_of(area))) as u16,
        height: lesser(rows, rows_of(area)) as u16,
        ..area
    }
}

/// Splits an area with `ratatui::layout::Layout::split`, vertically, into a part of any height
/// and a part of `rows` rows below it.
///
/// Not proved here, but taken from that function: a vertical split keeps the columns of the
/// area; the length of the lower part is honoured before the upper part grows, as far as there
/// are rows; the two parts touch and fill the area, whose lower edge saturates at the largest
/// `u16`.
#[verifier::external_body]
fn split_off_bottom(area: Area, rows: u16) -> (parts: (Area, Area))
    ensures
        parts.0 == upper(area, rows as int),
        parts.1 == lower(area, rows as int),
{
    let parts = ratatui::layout::Layout::default()
        .direction(ratatui::layout::Direction::Vertical)
        .constraints([
            ratatui::layout::Constraint::Min(0),
            ratatui::layout::Constraint::Length(rows),
        ])
        .split(ratatui::layout::Rect { x: area.x, y: area.y, width: area.width, height: area.height });
    let (a, b) = (parts[0], parts[1]);
    (
        Area { x: a.x, y: a.y, width: a.width, height: a.height },
        Area { x: b.x, y: b.y, width: b.width, height: b.height },
    )
}

/// The points of one direction, in their order.
pub open spec fn points_of(points: Seq<Point>, direction: Flow) -> Seq<Point> {
    points.filter(|p: Point| flow(p.y) == direction)
}

/// The time that the chart shows, in seconds, on a screen of so many columns: one second for each
/// column inside the border, and never less than `LEAST_SPAN`.
pub open spec fn span(columns: int) -> int {
    if columns < LEAST_SPAN + BORDER_COLUMNS {
        LEAST_SPAN as int
    } else {
        columns - BORDER_COLUMNS
    }
}

/// The points of the chart, by the direction of the flow.
#[derive(Debug)]
pub struct Datasets {
    pub consumption: Vec<Point>,
    pub injection: Vec<Point>,
}

/// One picture of the text interface.
#[derive(Debug)]
pub struct TextFrame {
    /// Where the chart goes.
    pub chart_pane: Area,
    /// Where the status line goes.
    pub status_pane: Area,
    /// The points of the chart; the newest sample stands at zero.
    pub datasets: Datasets,
    /// The scale of the power axis.
    pub axis: PowerAxis,
    /// The seconds that the time axis shows, up to zero on its right.
    pub span: u16,
    /// The label of the left end of the time axis.
    pub start_label: String,
}

/// Sorts points by the direction of the flow.
pub fn split_by_flow(points: &Vec<Point>) -> (sets: Datasets)
    ensures
        sets.consumption@ == points_of(points@, Flow::Consumption),
        sets.injection@ == points_of(points@, Flow::Injection),
{
    let mut consumption: Vec<Point> = Vec::new();
    let mut injection: Vec<Point> = Vec::new();
    for i in 0..points.len()
        invariant
            consumption@ == points_of(points@.take(i as int), Flow::Consumption),
            injection@ == points_of(points@.take(i as int), Flow::Injection),
    {
        let point = points[i];
        proof {
            reveal(Seq::filter);
            assert(points@.take(i + 1).drop_last() == points@.take(i as int));
        }
        match flow_of(point.y) {
            Flow::Consumption => consumption.push(point),
            Flow::Injection => injection.push(point),
        }
    }
    assert(points@.take(points@.len() as int) == points@);
    Datasets { consumption, injection }
}

/// The seconds that the time axis shows.
pub fn time_span(columns: u16) -> (seconds: u16)
    ensures
        seconds == span(columns as int),
{
    let inside: u16 = columns.saturating_sub(BORDER_COLUMNS);
    if inside < LEAST_SPAN {
        LEAST_SPAN
    } else {
        inside
    }
}

impl TextFrame {
    /// The picture belongs to this state and this screen.
    pub open spec fn shows(self, meter: Meter, screen: Area) -> bool {
        let points = placed(meter.points, 0);
        &&& self.chart_pane == upper(screen, STATUS_ROWS as int)
        &&& self.status_pane == lower(screen, STATUS_ROWS as int)
        &&& self.datasets.consumption@ == points_of(points, Flow::Consumption)
        &&& self.datasets.injection@ == points_of(points, Flow::Injection)
        &&& self.axis.fits(meter.readings())
        &&& self.span == span(screen.width as int)
        &&& self.start_label@ == "-"@ + decimal_text(self.span as nat)
    }
}

/// Draws up the picture of the text interface for a screen.
pub fn text_frame(state: &AppState, screen: Area) -> (frame: TextFrame)
    requires
        state.wf(),
    ensures
        frame.shows(state@, screen),
{
    let (chart_pane, status_pane) = split_off_bottom(screen, STATUS_ROWS);
    let points = state.points_at(0);
    let datasets = split_by_flow(&points);
    let axis = power_axis(&state.readings());
    let span: u16 = time_span(chart_pane.width);
    let start_label = join("-", decimal(span as u64).as_str());
    TextFrame { chart_pane, status_pane, datasets, axis, span, start_label }
}

/// The two panes lie one on the other and fill the screen, down to its lower edge or the last
/// addressable row; the status pane has three rows, or all rows if there are fewer.
pub proof fn law_panes_fill_the_screen(screen: Area)
    ensures
        ({
            let chart = upper(screen, STATUS_ROWS as int);
            let status = lower(screen, STATUS_ROWS as int);
            let edge: int = if screen.y + screen.height <= 65535 {
                screen.y + screen.height
            } else {
                65535
            };
            &&& chart.x == status.x == screen.x
            &&& chart.width == status.width == screen.width
            &&& chart.y == screen.y
            &&& status.y == chart.y + chart.height
            &&& status.y + status.height == edge
            &&& edge - screen.y >= 3 ==> status.height == 3
            &&& edge - screen.y < 3 ==> chart.height == 0
            &&& screen.y + screen.height <= 65535 ==> chart.height + status.height
                == screen.height
        }),
{
}

/// Every point belongs to exactly one of the two datasets.
pub proof fn law_datasets_share_out_the_points(points: Seq<Point>)
    ensures
        points_of(points, Flow::Consumption).to_multiset().add(
            points_of(points, Flow::Injection).to_multiset(),
        ) =~= points.to_multiset(),
        points_of(points, Flow::Consumption).len() + points_of(points, Flow::Injection).len()
            == points.len(),
        forall|i: int|
            0 <= i < points_of(points, Flow::Consumption).len() ==> flow(
                (#[trigger] points_of(points, Flow::Consumption)[i]).y,
            ) == Flow::Consumption,
        forall|i: int|
            0 <= i < points_of(points, Flow::Injection).len() ==> flow(
                (#[trigger] points_of(points, Flow::Injection)[i]).y,
            ) == Flow::Injection,
    decreases points.len(),
{
    broadcast use vstd::seq_lib::group_to_multiset_ensures;

    reveal(Seq::filter);
    if points.len() > 0 {
        let before = points.drop_last();
        law_datasets_share_out_the_points(before);
        assert(points == before.push(points.last()));
    } else {
        assert(points.to_multiset() =~= vstd::multiset::Multiset::empty());
        assert(points_of(points, Flow::Consumption) == points);
        assert(points_of(points, Flow::Injection) == points);
    }
}

/// Sorting works point by point: a part of the points gives a part of each dataset, in the same
/// order, and a single point goes to consumption if it is a number not below zero and to
/// injection otherwise.
pub proof fn law_points_are_sorted_one_by_one(a: Seq<Point>, b: Seq<Point>, p: Point)
    ensures
        points_of(a + b, Flow::Consumption) == points_of(a, Flow::Consumption) + points_of(
            b,
            Flow::Consumption,
        ),
        points_of(a + b, Flow::Injection) == points_of(a, Flow::Injection) + points_of(
            b,
            Flow::Injection,
        ),
        !p.y.is_nan() && p.y.units() >= 0 ==> {
            &&& points_of(seq![p], Flow::Consumption) == seq![p]
            &&& points_of(seq![p], Flow::Injection) == Seq::<Point>::empty()
        },
        p.y.is_nan() || p.y.units() < 0 ==> {
            &&& points_of(seq![p], Flow::Consumption) == Seq::<Point>::empty()
            &&& points_of(seq![p], Flow::Injection) == seq![p]
        },
{
    lemma_points_of_join(a, b, Flow::Consumption);
    lemma_points_of_join(a, b, Flow::Injection);
    reveal(Seq::filter);
    let one = seq![p];
    assert(one.drop_last() == Seq::<Point>::empty());
    assert(points_of(one.drop_last(), Flow::Consumption) == Seq::<Point>::empty());
    assert(points_of(one.drop_last(), Flow::Injection) == Seq::<Point>::empty());
}

/// Sorting a joined sequence joins the sorted parts.
proof fn lemma_points_of_join(a: Seq<Point>, b: Seq<Point>, direction: Flow)
    ensures
        points_of(a + b, direction) == points_of(a, direction) + points_of(b, direction),
    decreases b.len(),
{
    reveal(Seq::filter);
    if b.len() == 0 {
        assert(a + b == a);
        assert(points_of(b, direction) == Seq::<Point>::empty());
    } else {
        lemma_points_of_join(a, b.drop_last(), direction);
        assert((a + b).drop_last() == a + b.drop_last());
        assert((a + b).last() == b.last());
    }
}

/// In the consumption dataset every power is a number not below zero; in the injection dataset
/// every power that is a number is below zero.
pub proof fn law_datasets_lie_on_their_side(points: Seq<Point>)
    ensures
        forall|i: int|
            0 <= i < points_of(points, Flow::Consumption).len() ==> {
                let p = #[trigger] points_of(points, Flow::Consumption)[i];
                !p.y.is_nan() && p.y.units() >= 0
            },
        forall|i: int|
            0 <= i < points_of(points, Flow::Injection).len() ==> {
                let p = #[trigger] points_of(points, Flow::Injection)[i];
                p.y.is_nan() || p.y.units() < 0
            },
{
    law_datasets_share_out_the_points(points);
}

/// The time axis shows one second for each column inside the border of one column on either side,
/// but at least ten.
pub proof fn law_span_is_a_second_per_column(columns: u16)
    ensures
        span(columns as int) >= 10,
        span(columns as int) >= columns - 2,
        span(columns as int) == 10 || span(columns as int) == columns - 2,
{
}

/// A picture of the text interface is true to the state and the screen: the panes lie one on the
/// other inside the screen, all samples are in the datasets, each with its own power on the side
/// of its power, the newest at zero, no reading lies beyond the peak, and the label names the
/// second at which the time axis starts.
pub proof fn law_text_frame_is_true_to_the_state(frame: TextFrame, meter: Meter, screen: Area)
    requires
        meter.valid(),
        frame.shows(meter, screen),
    ensures
        ({
            let points = placed(meter.points, 0);
            let (red, green) = (frame.datasets.consumption@, frame.datasets.injection@);
            let label = frame.start_label@;
            &&& frame.chart_pane.x == frame.status_pane.x == screen.x
            &&& frame.chart_pane.width == frame.status_pane.width == screen.width
            &&& frame.chart_pane.y == screen.y
            &&& frame.status_pane.y == screen.y + frame.chart_pane.height
            &&& frame.status_pane.height <= 3
            &&& screen.y + screen.height <= u16::MAX ==> frame.chart_pane.height
                + frame.status_pane.height == screen.height
            &&& red.to_multiset().add(green.to_multiset()) =~= points.to_multiset()
            &&& red == points_of(points, Flow::Consumption)
            &&& green == points_of(points, Flow::Injection)
            &&& forall|i: int|
                0 <= i < red.len() ==> !(#[trigger] red[i]).y.is_nan() && red[i].y.units() >= 0
            &&& forall|i: int|
                0 <= i < green.len() ==> (#[trigger] green[i]).y.is_nan() || green[i].y.units() < 0
            &&& frame.axis is Flat <==> forall|i: int|
                0 <= i < meter.points.len() ==> (#[trigger] meter.points[i]).y.is_nan()
                    || meter.points[i].y.units() == 0
            &&& frame.axis matches PowerAxis::Peak(top) ==> forall|i: int|
                0 <= i < meter.points.len() && !(#[trigger] meter.points[i]).y.is_nan()
                    ==> -top.units() <= meter.points[i].y.units() <= top.units()
            &&& frame.span >= 10
            &&& frame.span >= screen.width - 2
            &&& frame.span == 10 || frame.span == screen.width - 2
            &&& label.len() > 1 && label[0] == '-'
            &&& decimal_value(label.skip(1)) == frame.span
        }),
{
    let points = placed(meter.points, 0);
    let readings = meter.readings();
    law_datasets_share_out_the_points(points);
    law_datasets_lie_on_their_side(points);
    law_power_axis_is_scaled_by_a_reading(readings, frame.axis);
    assert forall|i: int| 0 <= i < meter.points.len() implies #[trigger] meter.points[i].y
        == readings[i] by {}
    assert((forall|i: int|
        0 <= i < readings.len() ==> (#[trigger] readings[i]).is_nan() || readings[i].units() == 0)
        <==> (forall|i: int|
        0 <= i < meter.points.len() ==> (#[trigger] meter.points[i]).y.is_nan()
            || meter.points[i].y.units() == 0)) by {
        if forall|i: int|
            0 <= i < readings.len() ==> (#[trigger] readings[i]).is_nan() || readings[i].units()
                == 0 {
            assert forall|i: int| 0 <= i < meter.points.len() implies (
            #[trigger] meter.points[i]).y.is_nan() || meter.points[i].y.units() == 0 by {
                assert(readings[i].is_nan() || readings[i].units() == 0);
            }
        }
    }
    if let PowerAxis::Peak(top) = frame.axis {
        assert forall|i: int|
            0 <= i < meter.points.len() && !(#[trigger] meter.points[i]).y.is_nan() implies -top.units()
            <= meter.points[i].y.units() <= top.units() by {
            assert(!readings[i].is_nan());
        }
    }
    reveal_strlit("-");
    law_decimal_reads_back(frame.span as nat);
    law_decimal_is_plain(frame.span as nat);
    assert(frame.start_label@.skip(1) == decimal_text(frame.span as nat));
}

} // verus!
