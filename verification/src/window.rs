//! The window: where the chart stands in the drawing area, the strokes of the curve and the
//! labels.
use crate::chart::{
    flow, flow_of, law_power_axis_is_scaled_by_a_reading, power_axis, Flow, PowerAxis,
};
use crate::meter::{
    law_newest_sample_stands_at_the_origin, placed, AppState, Meter, Point,
};
use crate::text::{decimal, decimal_text, decimal_value, join, law_decimal_reads_back};
use vstd::prelude::*;

verus! {

/// The space left and right of the chart, in pixels.
pub const PADDING_X: i32 = 50;

/// The space above and below the chart, in pixels.
pub const PADDING_Y: i32 = 30;

/// The chart inside the drawing area, which it leaves a margin of `PADDING_X` and `PADDING_Y`.
#[derive(Clone, Copy, Debug, PartialEq, Eq, Structural)]
pub struct ChartBox {
    pub width: i32,
    pub height: i32,
}

/// An end of a stroke.
#[derive(Clone, Copy, Debug, PartialEq, Eq, Structural)]
pub enum Anchor {
    /// The point with this number.
    Point(usize),
    /// Where the line from the point with this number to the next one meets the time axis.
    Crossing(usize),
}

/// A straight piece of the curve, in the colour of one direction.
#[derive(Clone, Copy, Debug, PartialEq, Eq, Structural)]
pub struct Stroke {
    pub flow: Flow,
    pub from: Anchor,
    pub to: Anchor,
}

/// A text and where it starts in the drawing area, in half pixels.
#[derive(Debug)]
pub struct Label {
    pub half_x: i64,
    pub half_y: i64,
    pub text: String,
}

/// One picture of the window.
#[derive(Debug)]
pub struct WindowFrame {
    /// The size of the chart.
    pub chart: ChartBox,
    /// The points of the curve, in pixels from the left end of the time axis; the newest sample
    /// stands at the right end.
    pub points: Vec<Point>,
    /// The scale of the power axis.
    pub axis: PowerAxis,
    /// The pieces of the curve, in the order in which they are drawn.
    pub strokes: Vec<Stroke>,
}

/// The chart inside a drawing area; none if the margins leave no room.
pub open spec fn chart_inside(width: int, height: int) -> Option<ChartBox> {
    if width > 2 * PADDING_X && height > 2 * PADDING_Y {
        Some(
            ChartBox {
                width: (width - 2 * PADDING_X) as i32,
                height: (height - 2 * PADDING_Y) as i32,
            },
        )
    } else {
        None
    }
}

/// The pieces of the line from point `i` to the next one: one where both lie on the same side,
/// two that meet on the time axis where they do not.
pub open spec fn link(points: Seq<Point>, i: int) -> Seq<Stroke> {
    let (a, b) = (flow(points[i].y), flow(points[i + 1].y));
    let (start, end) = (Anchor::Point(i as usize), Anchor::Point((i + 1) as usize));
    let middle = Anchor::Crossing(i as usize);
    if a == b {
        seq![Stroke { flow: a, from: start, to: end }]
    } else {
        seq![Stroke { flow: a, from: start, to: middle }, Stroke { flow: b, from: middle, to: end }]
    }
}

/// The pieces of the line through the first `n + 1` points.
pub open spec fn line(points: Seq<Point>, n: nat) -> Seq<Stroke>
    decreases n,
{
    if n == 0 {
        Seq::empty()
    } else {
        line(points, (n - 1) as nat) + link(points, n - 1)
    }
}

/// The pieces of the curve: the line through all points.
pub open spec fn curve(points: Seq<Point>) -> Seq<Stroke> {
    if points.len() < 2 {
        Seq::empty()
    } else {
        line(points, (points.len() - 1) as nat)
    }
}

/// An end of a stroke lies on this side of the time axis: at a point that does, or where the line
/// between two points on different sides meets the axis.
pub open spec fn on_side(points: Seq<Point>, anchor: Anchor, side: Flow) -> bool {
    match anchor {
        Anchor::Point(i) => i < points.len() && flow(points[i as int].y) == side,
        Anchor::Crossing(i) => i + 1 < points.len() && flow(points[i as int].y) != flow(
            points[i + 1].y,
        ),
    }
}

/// Finds room for the chart in a drawing area.
pub fn chart_box(width: i32, height: i32) -> (chart: Option<ChartBox>)
    ensures
        chart == chart_inside(width as int, height as int),
{
    if width > 2 * PADDING_X && height > 2 * PADDING_Y {
        Some(ChartBox { width: width - 2 * PADDING_X, height: height - 2 * PADDING_Y })
    } else {
        None
    }
}

/// Plans the strokes of the curve.
pub fn plan_strokes(points: &Vec<Point>) -> (strokes: Vec<Stroke>)
    ensures
        strokes@ == curve(points@),
{
    let mut strokes: Vec<Stroke> = Vec::new();
    if points.len() >= 2 {
        for i in 0..points.len() - 1
            invariant
                points.len() >= 2,
                strokes@ == line(points@, i as nat),
        {
            let a = flow_of(points[i].y);
            let b = flow_of(points[i + 1].y);
            let start = Anchor::Point(i);
            let end = Anchor::Point(i + 1);
            if a == b {
                strokes.push(Stroke { flow: a, from: start, to: end });
            } else {
                let middle = Anchor::Crossing(i);
                strokes.push(Stroke { flow: a, from: start, to: middle });
                strokes.push(Stroke { flow: b, from: middle, to: end });
            }
            assert(strokes@ == line(points@, i as nat) + link(points@, i as int));
        }
    }
    strokes
}

impl WindowFrame {
    /// The picture belongs to this state and this chart.
    pub open spec fn shows(self, meter: Meter, chart: ChartBox) -> bool {
        &&& self.chart == chart
        &&& self.points@ == placed(meter.points, chart.width as int)
        &&& self.axis.fits(meter.readings())
        &&& self.strokes@ == curve(placed(meter.points, chart.width as int))
    }
}

/// Draws up the picture of the window for a drawing area; none if there is no room.
pub fn window_frame(state: &AppState, width: i32, height: i32) -> (frame: Option<WindowFrame>)
    requires
        state.wf(),
    ensures
        match chart_inside(width as int, height as int) {
            Some(chart) => frame matches Some(picture) && picture.shows(state@, chart),
            None => frame is None,
        },
{
    match chart_box(width, height) {
        Some(chart) => {
            let points = state.points_at(chart.width);
            let axis = power_axis(&state.readings());
            let strokes = plan_strokes(&points);
            Some(WindowFrame { chart, points, axis, strokes })
        },
        None => None,
    }
}

/// The model of `Label`.
#[verifier::ext_equal]
pub struct LabelView {
    pub half_x: int,
    pub half_y: int,
    pub text: Seq<char>,
}

impl View for Label {
    type V = LabelView;

    open spec fn view(&self) -> LabelView {
        LabelView { half_x: self.half_x as int, half_y: self.half_y as int, text: self.text@ }
    }
}

/// A label at a place given in whole pixels.
pub open spec fn label_at(x: int, y: int, text: Seq<char>) -> LabelView {
    LabelView { half_x: 2 * x, half_y: 2 * y, text }
}

/// The labels of a chart, in the order in which they are written.
#[verifier::ext_equal]
pub struct ChartLabels {
    pub start: LabelView,
    pub now: LabelView,
    pub top: LabelView,
    pub zero: LabelView,
    pub bottom: LabelView,
    pub power_title: LabelView,
}

/// The labels of a chart whose power axis ends at `top` and `bottom`.
pub open spec fn chart_labels(chart: ChartBox, top: Seq<char>, bottom: Seq<char>) -> ChartLabels {
    let below = chart.outer_height() - PADDING_Y + 15;
    ChartLabels {
        start: label_at(PADDING_X as int, below, "-"@ + decimal_text(chart.width as nat) + "s"@),
        now: label_at(chart.outer_width() - PADDING_X - 10, below, "0s"@),
        top: label_at(PADDING_X - 40, PADDING_Y as int, top + "W"@),
        zero: LabelView {
            half_x: 2 * (PADDING_X - 40),
            half_y: 2 * PADDING_Y + chart.height + 2 * 5,
            text: "0W"@,
        },
        bottom: label_at(PADDING_X - 40, chart.outer_height() - PADDING_Y - 10, bottom + "W"@),
        power_title: label_at(PADDING_X as int, PADDING_Y - 10, "Power (W)"@),
    }
}

impl ChartBox {
    /// A chart that has room.
    pub open spec fn open(self) -> bool {
        &&& 0 < self.width <= i32::MAX - 2 * PADDING_X
        &&& 0 < self.height <= i32::MAX - 2 * PADDING_Y
    }

    /// The width of the drawing area.
    pub open spec fn outer_width(self) -> int {
        self.width + 2 * PADDING_X
    }

    /// The height of the drawing area.
    pub open spec fn outer_height(self) -> int {
        self.height + 2 * PADDING_Y
    }

    /// The labels of the time axis: where it starts, one pixel standing for one second, and the
    /// present.
    pub fn time_labels(&self) -> (labels: (Label, Label))
        requires
            self.open(),
        ensures
            labels.0@ == chart_labels(*self, Seq::empty(), Seq::empty()).start,
            labels.1@ == chart_labels(*self, Seq::empty(), Seq::empty()).now,
            labels.0@ == label_at(
                PADDING_X as int,
                self.outer_height() - PADDING_Y + 15,
                "-"@ + decimal_text(self.width as nat) + "s"@,
            ),
            labels.1@ == label_at(
                self.outer_width() - PADDING_X - 10,
                self.outer_height() - PADDING_Y + 15,
                "0s"@,
            ),
    {
        let half_y: i64 = 2 * (self.height as i64 + PADDING_Y as i64 + 15);
        let mut start = join("-", decimal(self.width as u64).as_str());
        start.append("s");
        (
            Label { half_x: 2 * (PADDING_X as i64), half_y, text: start },
            Label {
                half_x: 2 * (self.width as i64 + PADDING_X as i64 - 10),
                half_y,
                text: "0s".to_owned(),
            },
        )
    }

    /// The height at which the title of the time axis is written; it is centred below the chart.
    pub fn time_title_y(&self) -> (y: i64)
        requires
            self.open(),
        ensures
            y == self.outer_height() - 5,
    {
        self.height as i64 + 2 * (PADDING_Y as i64) - 5
    }

    /// The labels of the power axis, from its top down: its greatest power, zero, and its least
    /// power. `top` and `bottom` are in whole watts, written in decimal.
    pub fn power_labels(&self, top: &str, bottom: &str) -> (labels: (Label, Label, Label))
        requires
            self.open(),
        ensures
            labels.0@ == chart_labels(*self, top@, bottom@).top,
            labels.1@ == chart_labels(*self, top@, bottom@).zero,
            labels.2@ == chart_labels(*self, top@, bottom@).bottom,
            labels.0@ == label_at(PADDING_X - 40, PADDING_Y as int, top@ + "W"@),
            labels.1@ == (LabelView {
                half_x: 2 * (PADDING_X - 40),
                half_y: 2 * PADDING_Y + self.height + 2 * 5,
                text: "0W"@,
            }),
            labels.2@ == label_at(
                PADDING_X - 40,
                self.outer_height() - PADDING_Y - 10,
                bottom@ + "W"@,
            ),
    {
        let half_x: i64 = 2 * (PADDING_X as i64 - 40);
        (
            Label { half_x, half_y: 2 * (PADDING_Y as i64), text: join(top, "W") },
            Label {
                half_x,
                half_y: 2 * (PADDING_Y as i64) + self.height as i64 + 2 * 5,
                text: "0W".to_owned(),
            },
            Label {
                half_x,
                half_y: 2 * (self.height as i64 + PADDING_Y as i64 - 10),
                text: join(bottom, "W"),
            },
        )
    }

    /// The title of the power axis, above its top.
    pub fn power_title(&self) -> (label: Label)
        ensures
            label@ == chart_labels(*self, Seq::empty(), Seq::empty()).power_title,
            label@ == label_at(PADDING_X as int, PADDING_Y - 10, "Power (W)"@),
    {
        Label {
            half_x: 2 * (PADDING_X as i64),
            half_y: 2 * (PADDING_Y as i64 - 10),
            text: "Power (W)".to_owned(),
        }
    }
}

/// A chart that was found room for has room, and fits its drawing area with the margins around
/// it.
pub proof fn law_chart_fits_the_drawing_area(width: i32, height: i32)
    ensures
        match chart_inside(width as int, height as int) {
            Some(chart) => chart.open() && chart.outer_width() == width && chart.outer_height()
                == height,
            None => width - 2 * PADDING_X <= 0 || height - 2 * PADDING_Y <= 0,
        },
{
}

/// The number of neighbours among the first `n + 1` points that lie on different sides.
pub open spec fn crossings(points: Seq<Point>, n: nat) -> nat
    decreases n,
{
    if n == 0 {
        0
    } else {
        crossings(points, (n - 1) as nat) + if flow(points[n - 1].y) == flow(points[n as int].y) {
            0nat
        } else {
            1nat
        }
    }
}

/// Each stroke starts where the one before it ended, and none leaves the side that its colour
/// stands for.
pub open spec fn unbroken(points: Seq<Point>, strokes: Seq<Stroke>) -> bool {
    &&& forall|j: int, k: int|
        0 <= j && k == j + 1 && k < strokes.len() ==> (#[trigger] strokes[j]).to
            == (#[trigger] strokes[k]).from
    &&& forall|k: int|
        0 <= k < strokes.len() ==> {
            let stroke = #[trigger] strokes[k];
            &&& on_side(points, stroke.from, stroke.flow)
            &&& on_side(points, stroke.to, stroke.flow)
        }
}

/// Two unbroken lines that meet make one.
proof fn lemma_unbroken_join(points: Seq<Point>, a: Seq<Stroke>, b: Seq<Stroke>)
    requires
        unbroken(points, a),
        unbroken(points, b),
        b.len() > 0,
        a.len() > 0 ==> a.last().to == b[0].from,
    ensures
        unbroken(points, a + b),
{
    let all = a + b;
    assert forall|j: int, k: int| 0 <= j && k == j + 1 && k < all.len() implies (
    #[trigger] all[j]).to == (#[trigger] all[k]).from by {
        if k < a.len() {
            assert(a[j].to == a[k].from);
        } else if j >= a.len() {
            assert(b[j - a.len()].to == b[k - a.len()].from);
        }
    }
    assert forall|k: int| 0 <= k < all.len() implies {
        let stroke = #[trigger] all[k];
        on_side(points, stroke.from, stroke.flow) && on_side(points, stroke.to, stroke.flow)
    } by {
        if k < a.len() {
            assert(all[k] == a[k]);
        } else {
            assert(all[k] == b[k - a.len()]);
        }
    }
}

/// The line through the first `n + 1` points is unbroken.
proof fn lemma_line(points: Seq<Point>, n: nat)
    requires
        0 < n < points.len() <= usize::MAX,
    ensures
        line(points, n).len() == n + crossings(points, n),
        line(points, n)[0].from == Anchor::Point(0),
        line(points, n).last().to == Anchor::Point(n as usize),
        unbroken(points, line(points, n)),
    decreases n,
{
    let before = line(points, (n - 1) as nat);
    let added = link(points, n - 1);
    assert(line(points, n) == before + added);
    assert(unbroken(points, added)) by {
        assert(on_side(points, added[0].from, added[0].flow));
        assert(on_side(points, added.last().to, added.last().flow));
    }
    assert(crossings(points, n) == crossings(points, (n - 1) as nat) + added.len() - 1);
    if n > 1 {
        lemma_line(points, (n - 1) as nat);
        assert((before + added)[0] == before[0]);
    } else {
        assert(before.len() == 0);
        assert(crossings(points, 0) == 0);
    }
    lemma_unbroken_join(points, before, added);
    assert((before + added).last() == added.last());
}

/// The curve is one unbroken line from the first point to the last: each stroke starts where the
/// one before it ended, no stroke leaves the side that its colour stands for, and there is one
/// stroke for each pair of neighbours and one more for each change of side.
pub proof fn law_curve_is_unbroken(points: Seq<Point>)
    requires
        2 <= points.len() <= usize::MAX,
    ensures
        ({
            let strokes = curve(points);
            let pairs = (points.len() - 1) as nat;
            &&& strokes.len() == pairs + crossings(points, pairs)
            &&& strokes[0].from == Anchor::Point(0)
            &&& strokes.last().to == Anchor::Point(pairs as usize)
            &&& unbroken(points, strokes)
        }),
{
    lemma_line(points, (points.len() - 1) as nat);
}

/// A power that is drawn above the time axis or on it.
spec fn above(p: Point) -> bool {
    !p.y.is_nan() && p.y.units() >= 0
}

/// A stroke joins two neighbours, or one of two neighbours on different sides with the place
/// between these two where their line meets the axis, and it runs forward in time.
spec fn joins_neighbours(points: Seq<Point>, stroke: Stroke) -> bool {
    match stroke.from {
        Anchor::Point(i) => {
            &&& i + 1 < points.len()
            &&& stroke.flow == Flow::Consumption <==> above(points[i as int])
            &&& above(points[i as int]) == above(points[i + 1]) ==> stroke.to == Anchor::Point(
                (i + 1) as usize,
            )
            &&& above(points[i as int]) != above(points[i + 1]) ==> stroke.to == Anchor::Crossing(i)
        },
        Anchor::Crossing(i) => {
            &&& i + 1 < points.len()
            &&& above(points[i as int]) != above(points[i + 1])
            &&& stroke.flow == Flow::Consumption <==> above(points[i + 1])
            &&& stroke.to == Anchor::Point((i + 1) as usize)
        },
    }
}

proof fn lemma_line_joins_neighbours(points: Seq<Point>, n: nat)
    requires
        n < points.len() <= usize::MAX,
    ensures
        forall|k: int|
            0 <= k < line(points, n).len() ==> joins_neighbours(
                points,
                #[trigger] line(points, n)[k],
            ),
    decreases n,
{
    if n > 0 {
        let before = line(points, (n - 1) as nat);
        let added = link(points, n - 1);
        let all = line(points, n);
        assert(all == before + added);
        lemma_line_joins_neighbours(points, (n - 1) as nat);
        assert(joins_neighbours(points, added[0]));
        assert(joins_neighbours(points, added.last()));
        assert forall|k: int| 0 <= k < all.len() implies joins_neighbours(
            points,
            #[trigger] all[k],
        ) by {
            if k < before.len() {
                assert(all[k] == before[k]);
            } else if k == before.len() {
                assert(all[k] == added[0]);
            } else {
                assert(all[k] == added.last());
            }
        }
    }
}

/// Every stroke stays within one pair of neighbours and runs forward in time. From a point it
/// leads to the next point where both powers lie on the same side of zero, and to the crossing
/// between these two points where they do not; from a crossing it leads to the later one of its
/// two points. It is red if and only if the power of its point is a number not below zero.
pub proof fn law_strokes_stay_between_neighbours(points: Seq<Point>)
    requires
        points.len() <= usize::MAX,
    ensures
        forall|k: int|
            0 <= k < curve(points).len() ==> match (#[trigger] curve(points)[k]).from {
                Anchor::Point(i) => {
                    let here = !points[i as int].y.is_nan() && points[i as int].y.units() >= 0;
                    let there = !points[i + 1].y.is_nan() && points[i + 1].y.units() >= 0;
                    &&& i + 1 < points.len()
                    &&& curve(points)[k].flow == Flow::Consumption <==> here
                    &&& here == there ==> curve(points)[k].to == Anchor::Point((i + 1) as usize)
                    &&& here != there ==> curve(points)[k].to == Anchor::Crossing(i)
                },
                Anchor::Crossing(i) => {
                    let here = !points[i as int].y.is_nan() && points[i as int].y.units() >= 0;
                    let there = !points[i + 1].y.is_nan() && points[i + 1].y.units() >= 0;
                    &&& i + 1 < points.len()
                    &&& here != there
                    &&& curve(points)[k].flow == Flow::Consumption <==> there
                    &&& curve(points)[k].to == Anchor::Point((i + 1) as usize)
                },
            },
{
    if points.len() >= 2 {
        lemma_line_joins_neighbours(points, (points.len() - 1) as nat);
    }
    assert forall|k: int| 0 <= k < curve(points).len() implies joins_neighbours(
        points,
        #[trigger] curve(points)[k],
    ) by {}
}

/// A new point extends the curve and changes nothing of it: one more stroke from the last point
/// where both lie on the same side of zero, two that meet at the crossing between these two points
/// where they do not.
pub proof fn law_new_point_extends_the_curve(points: Seq<Point>, p: Point)
    requires
        0 < points.len() < usize::MAX,
    ensures
        ({
            let last = (points.len() - 1) as usize;
            let here = !points.last().y.is_nan() && points.last().y.units() >= 0;
            let there = !p.y.is_nan() && p.y.units() >= 0;
            let colour = |above: bool| if above {
                Flow::Consumption
            } else {
                Flow::Injection
            };
            let start = Anchor::Point(last);
            let end = Anchor::Point((last + 1) as usize);
            let middle = Anchor::Crossing(last);
            &&& here == there ==> curve(points.push(p)) == curve(points) + seq![
                Stroke { flow: colour(here), from: start, to: end },
            ]
            &&& here != there ==> curve(points.push(p)) == curve(points) + seq![
                Stroke { flow: colour(here), from: start, to: middle },
                Stroke { flow: colour(there), from: middle, to: end },
            ]
        }),
{
    let n = (points.len() - 1) as nat;
    let all = points.push(p);
    lemma_line_of_a_prefix(points, p, n);
    assert(line(all, n + 1) == line(all, n) + link(all, n as int));
    assert(curve(points) == line(points, n)) by {
        if n == 0 {
            assert(line(points, 0) == Seq::<Stroke>::empty());
        }
    }
}

/// Later points do not matter to the line through earlier ones.
proof fn lemma_line_of_a_prefix(points: Seq<Point>, p: Point, n: nat)
    requires
        n < points.len(),
    ensures
        line(points.push(p), n) == line(points, n),
    decreases n,
{
    if n > 0 {
        lemma_line_of_a_prefix(points, p, (n - 1) as nat);
        assert(points.push(p)[n as int] == points[n as int]);
        assert(points.push(p)[n - 1] == points[n - 1]);
    }
}

/// No curve without two points.
pub proof fn law_curve_needs_two_points(points: Seq<Point>)
    requires
        points.len() < 2,
    ensures
        curve(points).len() == 0,
{
}

/// There is a chart if and only if the drawing area is wider than 100 and higher than 60 pixels,
/// and the chart is smaller by just that.
pub proof fn law_chart_leaves_its_margins(width: i32, height: i32)
    ensures
        chart_inside(width as int, height as int) is Some <==> width > 100 && height > 60,
        chart_inside(width as int, height as int) matches Some(chart) ==> {
            &&& chart.width == width - 100
            &&& chart.height == height - 60
            &&& chart.outer_width() == width
            &&& chart.outer_height() == height
            &&& chart.open()
        },
        PADDING_X == 50,
        PADDING_Y == 30,
{
}

/// The place of a label counts two for each pixel, and its text is the one that was given.
pub proof fn law_labels_count_half_pixels(x: int, y: int, text: Seq<char>, label: Label)
    ensures
        label_at(x, y, text).half_x == x + x,
        label_at(x, y, text).half_y == y + y,
        label_at(x, y, text).text == text,
        label@.half_x == label.half_x,
        label@.half_y == label.half_y,
        label@.text == label.text@,
{
}

/// A picture of the window is true to the state: all samples are points, in their order and each
/// with its own power, the newest at the right end of the chart and none beyond it, the curve runs
/// through all of them, and the power axis is scaled by their powers.
pub proof fn law_window_frame_is_true_to_the_state(
    frame: WindowFrame,
    meter: Meter,
    width: i32,
    height: i32,
)
    requires
        meter.valid(),
        width > 100,
        height > 60,
        frame.shows(meter, chart_inside(width as int, height as int).unwrap()),
    ensures
        frame.chart.width == width - 100,
        frame.chart.height == height - 60,
        frame.points@.len() == meter.points.len(),
        forall|i: int|
            0 <= i < meter.points.len() ==> {
                &&& (#[trigger] frame.points@[i]).y == meter.points[i].y
                &&& frame.points@[i].x == width - 100 - (meter.points.last().x - meter.points[i].x)
                &&& frame.points@[i].x <= width - 100
            },
        frame.strokes@ == curve(frame.points@),
        frame.axis is Flat <==> forall|i: int|
            0 <= i < meter.points.len() ==> (#[trigger] meter.points[i]).y.is_nan()
                || meter.points[i].y.units() == 0,
        frame.axis matches PowerAxis::Peak(top) ==> forall|i: int|
            0 <= i < meter.points.len() && !(#[trigger] meter.points[i]).y.is_nan()
                ==> -top.units() <= meter.points[i].y.units() <= top.units(),
{
    let readings = meter.readings();
    law_power_axis_is_scaled_by_a_reading(readings, frame.axis);
    assert forall|i: int| 0 <= i < meter.points.len() implies #[trigger] meter.points[i].y
        == readings[i] by {}
    if forall|i: int|
        0 <= i < readings.len() ==> (#[trigger] readings[i]).is_nan() || readings[i].units() == 0 {
        assert forall|i: int| 0 <= i < meter.points.len() implies (
        #[trigger] meter.points[i]).y.is_nan() || meter.points[i].y.units() == 0 by {
            assert(readings[i].is_nan() || readings[i].units() == 0);
        }
    }
    if let PowerAxis::Peak(top) = frame.axis {
        assert forall|i: int|
            0 <= i < meter.points.len() && !(#[trigger] meter.points[i]).y.is_nan() implies -top.units()
            <= meter.points[i].y.units() <= top.units() by {
            assert(!readings[i].is_nan());
        }
    }
    assert forall|i: int| 0 <= i < meter.points.len() implies {
        &&& (#[trigger] frame.points@[i]).y == meter.points[i].y
        &&& frame.points@[i].x == width - 100 - (meter.points.last().x - meter.points[i].x)
        &&& frame.points@[i].x <= width - 100
    } by {
        law_newest_sample_stands_at_the_origin(meter, (width - 100) as i32, i);
        assert(meter.points.last() == meter.points[meter.points.len() - 1]);
    }
}

/// Where the labels stand around the chart, whose edges lie 50 pixels from the left and 30 from
/// the top: the labels of the time axis on one line 15 pixels below the lower edge, at the left
/// edge and 10 pixels before the right one; the labels of the power axis one below the other 40
/// pixels left of the chart, at the upper edge, 5 pixels below the middle and 10 above the lower
/// edge; the title 10 pixels above the upper edge. The texts name the width in seconds, the two
/// given powers and zero.
pub proof fn law_labels_stand_around_the_chart(chart: ChartBox, top: Seq<char>, bottom: Seq<char>)
    requires
        chart.open(),
    ensures
        ({
            let labels = chart_labels(chart, top, bottom);
            let (left, upper) = (100int, 60int);
            let (right, lower) = (left + 2 * chart.width, upper + 2 * chart.height);
            let middle = (upper + lower) / 2;
            let start = labels.start.text;
            &&& labels.start.half_x == left
            &&& labels.now.half_x == right - 20
            &&& labels.start.half_y == labels.now.half_y == lower + 30
            &&& labels.top.half_x == labels.zero.half_x == labels.bottom.half_x == left - 80
            &&& labels.top.half_y == upper
            &&& labels.zero.half_y == middle + 10
            &&& labels.bottom.half_y == lower - 20
            &&& labels.power_title.half_x == left
            &&& labels.power_title.half_y == upper - 20
            &&& start[0] == '-' && start.last() == 's'
            &&& decimal_value(start.subrange(1, start.len() - 1)) == chart.width
            &&& labels.now.text == "0s"@
            &&& labels.top.text.drop_last() == top && labels.top.text.last() == 'W'
            &&& labels.zero.text == "0W"@
            &&& labels.bottom.text.drop_last() == bottom && labels.bottom.text.last() == 'W'
            &&& labels.power_title.text == "Power (W)"@
        }),
{
    reveal_strlit("-");
    reveal_strlit("s");
    reveal_strlit("W");
    law_decimal_reads_back(chart.width as nat);
    let start = chart_labels(chart, top, bottom).start.text;
    assert(start.subrange(1, start.len() - 1) == decimal_text(chart.width as nat));
}

} // verus!
